//! Laws relating the registry's operations to one another.
//!
//! Each proof function states a guarantee that spans more than one
//! operation, over the same transition predicates the operations' own
//! contracts use.

use vstd::prelude::*;
use crate::model::{
    AccessRecord, AssetModel, StoreModel, add_ok, delete_ok, lemma_index_of_unique, owned_by,
    read_ok, revoke_ok, share_ok, shared_index_of, shared_to,
};

verus! {

/// Identifiers returned by consecutive successful registrations strictly
/// increase, so no identifier is ever handed out twice.
pub proof fn lemma_register_ids_strictly_increase(
    s0: StoreModel,
    s1: StoreModel,
    s2: StoreModel,
    owner1: Seq<char>,
    name1: Seq<char>,
    content1: Seq<u8>,
    id1: u64,
    owner2: Seq<char>,
    name2: Seq<char>,
    content2: Seq<u8>,
    id2: u64,
)
    requires
        add_ok(s0, s1, owner1, name1, content1, id1),
        add_ok(s1, s2, owner2, name2, content2, id2),
    ensures
        id2 > id1,
{
}

/// A successful registration hands out an identifier that no stored
/// asset carries: identifiers are fresh, even with respect to assets
/// deleted earlier, because the allocator never moves backwards.
pub proof fn lemma_registered_id_fresh(
    s0: StoreModel,
    s1: StoreModel,
    owner: Seq<char>,
    name: Seq<char>,
    content: Seq<u8>,
    id: u64,
)
    requires
        s0.wf(),
        add_ok(s0, s1, owner, name, content, id),
    ensures
        forall|i: int| 0 <= i < s0.assets.len() ==> (#[trigger] s0.assets[i]).id != id,
{
}

/// After a successful share, the recipient is authorized to read the
/// asset.
pub proof fn lemma_share_grants_read(
    pre: StoreModel,
    post: StoreModel,
    id: u64,
    owner: Seq<char>,
    recipient: Seq<char>,
)
    requires
        pre.wf(),
        post.wf(),
        share_ok(pre, post, id, owner, recipient),
    ensures
        post.has_id(id),
        post.asset(id).allows_read(recipient),
{
    let k = pre.index_of(id);
    let a = pre.assets[k];
    assert(0 <= k < pre.assets.len() && a.id == id);
    assert(post.assets[k].id == id);
    lemma_index_of_unique(post, id, k);
    if !a.shared_with.contains(recipient) {
        let grown = a.shared_with.push(recipient);
        assert(grown[grown.len() - 1] == recipient);
        assert(grown.contains(recipient));
    }
}

/// A successful read appends exactly one record — the caller and the
/// timestamp — to the asset's audit trail, and the previous trail stays
/// in place unchanged: the trail is append-only.
pub proof fn lemma_read_appends_one(
    pre: StoreModel,
    post: StoreModel,
    id: u64,
    caller: Seq<char>,
    now: u64,
)
    requires
        pre.wf(),
        post.wf(),
        read_ok(pre, post, id, caller, now),
    ensures
        post.has_id(id),
        post.asset(id).access_log.len() == pre.asset(id).access_log.len() + 1,
        post.asset(id).access_log.last() == (AccessRecord { reader: caller, timestamp: now }),
        (post.asset(id).access_log.take(pre.asset(id).access_log.len() as int) == pre.asset(
            id,
        ).access_log),
{
    let k = pre.index_of(id);
    let a = pre.assets[k];
    assert(0 <= k < pre.assets.len() && a.id == id);
    assert(post.assets[k].id == id);
    lemma_index_of_unique(post, id, k);
    let log = a.access_log.push(AccessRecord { reader: caller, timestamp: now });
    assert(log.take(a.access_log.len() as int) =~= a.access_log);
}

/// Sharing the same asset with the same recipient a second time changes
/// nothing: the sharing set holds no duplicates.
pub proof fn lemma_share_idempotent(
    s0: StoreModel,
    s1: StoreModel,
    s2: StoreModel,
    id: u64,
    owner: Seq<char>,
    recipient: Seq<char>,
)
    requires
        s0.wf(),
        s1.wf(),
        share_ok(s0, s1, id, owner, recipient),
        share_ok(s1, s2, id, owner, recipient),
    ensures
        s2 == s1,
{
    let k = s0.index_of(id);
    let a = s0.assets[k];
    assert(0 <= k < s0.assets.len() && a.id == id);
    assert(s1.assets[k].id == id);
    lemma_index_of_unique(s1, id, k);
    if !a.shared_with.contains(recipient) {
        let grown = a.shared_with.push(recipient);
        assert(grown[grown.len() - 1] == recipient);
        assert(grown.contains(recipient));
    }
    assert(s1.asset(id).shared_with.contains(recipient));
    assert(s2.assets =~= s1.assets.update(s1.index_of(id), s1.asset(id)));
    assert(s2.assets =~= s1.assets);
    assert(s2 =~= s1);
}

/// After a successful revocation the recipient can no longer read the
/// asset: they are not the owner, and they have left the sharing set.
pub proof fn lemma_revoke_blocks_read(
    pre: StoreModel,
    post: StoreModel,
    id: u64,
    owner: Seq<char>,
    recipient: Seq<char>,
)
    requires
        pre.wf(),
        post.wf(),
        revoke_ok(pre, post, id, owner, recipient),
    ensures
        post.has_id(id),
        !post.asset(id).allows_read(recipient),
{
    let k = pre.index_of(id);
    let a = pre.assets[k];
    assert(0 <= k < pre.assets.len() && a.id == id);
    assert(post.assets[k].id == id);
    lemma_index_of_unique(post, id, k);
    let j = shared_index_of(a.shared_with, recipient);
    assert(0 <= j < a.shared_with.len() && a.shared_with[j] == recipient);
    let shrunk = a.shared_with.remove(j);
    assert(a.shared_with.contains(recipient) && !a.shared_with.contains(a.owner));
    assert(recipient != a.owner);
    assert forall|p: int| 0 <= p < shrunk.len() implies shrunk[p] != recipient by {
        if p < j {
            assert(shrunk[p] == a.shared_with[p]);
            assert(a.shared_with[p] != a.shared_with[j]);
        } else {
            assert(shrunk[p] == a.shared_with[p + 1]);
            assert(a.shared_with[j] != a.shared_with[p + 1]);
        }
    }
    assert(!shrunk.contains(recipient));
}

/// After a successful deletion no stored asset carries the identifier,
/// so every later operation naming it is owed `NotFound`.
pub proof fn lemma_delete_removes(pre: StoreModel, post: StoreModel, id: u64, owner: Seq<char>)
    requires
        pre.wf(),
        delete_ok(pre, post, id, owner),
    ensures
        !post.has_id(id),
{
    let k = pre.index_of(id);
    assert(0 <= k < pre.assets.len() && pre.assets[k].id == id);
    assert forall|i: int| 0 <= i < post.assets.len() implies (#[trigger] post.assets[i]).id
        != id by {
        let i0: int = if i < k {
            i
        } else {
            i + 1
        };
        assert(post.assets[i] == pre.assets[i0]);
        if i0 < k {
            assert(pre.assets[i0].id != pre.assets[k].id);
        } else {
            assert(pre.assets[k].id != pre.assets[i0].id);
        }
    }
}

/// Every asset the owner listing yields belongs to the queried owner,
/// and the listing is empty exactly when no stored asset is theirs.
pub proof fn lemma_owned_by_members(assets: Seq<AssetModel>, owner: Seq<char>)
    ensures
        forall|i: int|
            0 <= i < owned_by(assets, owner).len() ==> (#[trigger] owned_by(assets, owner)[
                i
            ]).owner == owner,
        owned_by(assets, owner).len() == 0 <==> (forall|i: int|
            0 <= i < assets.len() ==> (#[trigger] assets[i]).owner != owner),
    decreases assets.len(),
{
    if assets.len() > 0 {
        lemma_owned_by_members(assets.drop_last(), owner);
        let rest = owned_by(assets.drop_last(), owner);
        if assets.last().owner == owner {
            assert(owned_by(assets, owner) == rest.push(assets.last()));
            assert(owned_by(assets, owner).len() > 0);
            assert(assets[assets.len() - 1].owner == owner);
        } else {
            assert(owned_by(assets, owner) == rest);
            assert forall|i: int| 0 <= i < assets.len() && (#[trigger] assets[i]).owner
                == owner implies owned_by(assets, owner).len() > 0 by {
                assert(assets.drop_last()[i] == assets[i]);
            }
        }
    }
}

/// Every asset the sharee listing yields names the queried identity in
/// its sharing set, and the listing is empty exactly when none does.
pub proof fn lemma_shared_to_members(assets: Seq<AssetModel>, caller: Seq<char>)
    ensures
        forall|i: int|
            0 <= i < shared_to(assets, caller).len() ==> (#[trigger] shared_to(assets, caller)[
                i
            ]).shared_with.contains(caller),
        shared_to(assets, caller).len() == 0 <==> (forall|i: int|
            0 <= i < assets.len() ==> !(#[trigger] assets[i]).shared_with.contains(caller)),
    decreases assets.len(),
{
    if assets.len() > 0 {
        lemma_shared_to_members(assets.drop_last(), caller);
        let rest = shared_to(assets.drop_last(), caller);
        if assets.last().shared_with.contains(caller) {
            assert(shared_to(assets, caller) == rest.push(assets.last()));
            assert(shared_to(assets, caller).len() > 0);
            assert(assets[assets.len() - 1].shared_with.contains(caller));
        } else {
            assert(shared_to(assets, caller) == rest);
            assert forall|i: int| 0 <= i < assets.len() && (#[trigger] assets[i]).shared_with.contains(
                caller,
            ) implies shared_to(assets, caller).len() > 0 by {
                assert(assets.drop_last()[i] == assets[i]);
            }
        }
    }
}

} // verus!
