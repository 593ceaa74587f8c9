//! The mathematical model of the registry.
//!
//! Every executable type of the library has a view into the types of this
//! module, and every operation's contract is stated as a relation between
//! the store's model before and after the call.

use vstd::prelude::*;

verus! {

/// One entry of an asset's audit trail: who read the asset, and at which
/// logical time.
#[verifier::ext_equal]
pub struct AccessRecord {
    pub reader: Seq<char>,
    pub timestamp: u64,
}

/// The model of one stored asset.
#[verifier::ext_equal]
pub struct AssetModel {
    pub id: u64,
    pub owner: Seq<char>,
    pub name: Seq<char>,
    pub content: Seq<u8>,
    pub shared_with: Seq<Seq<char>>,
    pub access_log: Seq<AccessRecord>,
}

/// The model of the whole store: the assets in order of registration, and
/// the identifier the allocator will hand out next.
#[verifier::ext_equal]
pub struct StoreModel {
    pub assets: Seq<AssetModel>,
    pub next_id: u64,
}

/// A character with the Unicode `White_Space` property; these are exactly
/// the characters that trimming strips from either end of a string.
pub open spec fn is_space(c: char) -> bool {
    ||| c == '\u{0009}'
    ||| c == '\u{000a}'
    ||| c == '\u{000b}'
    ||| c == '\u{000c}'
    ||| c == '\u{000d}'
    ||| c == ' '
    ||| c == '\u{0085}'
    ||| c == '\u{00a0}'
    ||| c == '\u{1680}'
    ||| c == '\u{2000}'
    ||| c == '\u{2001}'
    ||| c == '\u{2002}'
    ||| c == '\u{2003}'
    ||| c == '\u{2004}'
    ||| c == '\u{2005}'
    ||| c == '\u{2006}'
    ||| c == '\u{2007}'
    ||| c == '\u{2008}'
    ||| c == '\u{2009}'
    ||| c == '\u{200a}'
    ||| c == '\u{2028}'
    ||| c == '\u{2029}'
    ||| c == '\u{202f}'
    ||| c == '\u{205f}'
    ||| c == '\u{3000}'
}

/// A string that trims to nothing: empty, or made of whitespace alone.
/// Such a string is rejected wherever an identity or a name is required.
pub open spec fn is_blank(s: Seq<char>) -> bool {
    forall|i: int| 0 <= i < s.len() ==> is_space(#[trigger] s[i])
}

impl AssetModel {
    /// Well-formedness of a single asset: identifiers start at 1, the
    /// required fields are not blank, the owner never appears in the
    /// sharing set, and the sharing set holds no duplicates.
    pub open spec fn wf(self) -> bool {
        &&& 1 <= self.id
        &&& !is_blank(self.owner)
        &&& !is_blank(self.name)
        &&& self.content.len() > 0
        &&& !self.shared_with.contains(self.owner)
        &&& forall|i: int, j: int|
                0 <= i < j < self.shared_with.len() ==> self.shared_with[i] != self.shared_with[j]
    }

    /// Whether `caller` may read this asset: the owner always may, and so
    /// may anyone currently in the sharing set.
    pub open spec fn allows_read(self, caller: Seq<char>) -> bool {
        self.owner == caller || self.shared_with.contains(caller)
    }
}

impl StoreModel {
    /// Well-formedness of the store: every asset is well-formed, every
    /// stored identifier lies below the allocator's next one, and no two
    /// assets share an identifier.
    pub open spec fn wf(self) -> bool {
        &&& 1 <= self.next_id
        &&& forall|i: int|
                0 <= i < self.assets.len()
                    ==> (#[trigger] self.assets[i]).wf() && self.assets[i].id < self.next_id
        &&& forall|i: int, j: int|
                0 <= i < j < self.assets.len() ==> self.assets[i].id != self.assets[j].id
    }

    /// Whether an asset with the given identifier is stored.
    pub open spec fn has_id(self, id: u64) -> bool {
        exists|i: int| 0 <= i < self.assets.len() && (#[trigger] self.assets[i]).id == id
    }

    /// The position of the asset with the given identifier; meaningful
    /// only when `has_id(id)` holds (and then unique in a well-formed
    /// store).
    pub open spec fn index_of(self, id: u64) -> int {
        choose|i: int| 0 <= i < self.assets.len() && (#[trigger] self.assets[i]).id == id
    }

    /// The stored asset with the given identifier; meaningful only when
    /// `has_id(id)` holds.
    pub open spec fn asset(self, id: u64) -> AssetModel {
        self.assets[self.index_of(id)]
    }
}

/// In a well-formed store an identifier picks out one position: any index
/// holding `id` is the one `index_of` denotes.
pub proof fn lemma_index_of_unique(s: StoreModel, id: u64, i: int)
    requires
        s.wf(),
        0 <= i < s.assets.len(),
        s.assets[i].id == id,
    ensures
        s.has_id(id),
        s.index_of(id) == i,
        s.asset(id) == s.assets[i],
{
    assert(s.has_id(id));
    let k = s.index_of(id);
    assert(0 <= k < s.assets.len() && s.assets[k].id == id);
    if k < i {
        assert(s.assets[k].id != s.assets[i].id);
    } else if i < k {
        assert(s.assets[i].id != s.assets[k].id);
    }
}

/// The record a fresh registration stores: the given fields, an empty
/// sharing set, and an empty audit trail.
pub open spec fn fresh_asset(id: u64, owner: Seq<char>, name: Seq<char>, content: Seq<u8>) -> AssetModel {
    AssetModel {
        id: id,
        owner: owner,
        name: name,
        content: content,
        shared_with: Seq::empty(),
        access_log: Seq::empty(),
    }
}

/// One asset with its sharing set replaced.
pub open spec fn with_shared(a: AssetModel, shared: Seq<Seq<char>>) -> AssetModel {
    AssetModel { shared_with: shared, ..a }
}

/// One asset with its audit trail replaced.
pub open spec fn with_log(a: AssetModel, log: Seq<AccessRecord>) -> AssetModel {
    AssetModel { access_log: log, ..a }
}

/// A successful registration: the inputs were acceptable, the returned
/// identifier is the allocator's current one, the allocator advanced, and
/// exactly the fresh record was appended.
pub open spec fn add_ok(
    pre: StoreModel,
    post: StoreModel,
    owner: Seq<char>,
    name: Seq<char>,
    content: Seq<u8>,
    id: u64,
) -> bool {
    &&& !is_blank(owner)
    &&& !is_blank(name)
    &&& content.len() > 0
    &&& id == pre.next_id
    &&& post.next_id == pre.next_id + 1
    &&& post.assets == pre.assets.push(fresh_asset(id, owner, name, content))
}

/// A refused registration, with the error owed for the offending field.
/// Fields are checked in order: owner, then name, then content.
pub open spec fn add_err(owner: Seq<char>, name: Seq<char>, content: Seq<u8>, e: crate::errors::VaultError) -> bool {
    if is_blank(owner) {
        e matches crate::errors::VaultError::InvalidInput(m) && m@ == empty_field_message("owner"@)
    } else if is_blank(name) {
        e matches crate::errors::VaultError::InvalidInput(m) && m@ == empty_field_message("name"@)
    } else if content.len() == 0 {
        e matches crate::errors::VaultError::InvalidInput(m) && m@ == content_empty_message()
    } else {
        false
    }
}

/// A successful share: the caller is the stored owner, the recipient is a
/// distinct, non-blank identity, and the recipient now appears in the
/// sharing set — appended at the end if new, left alone if already there.
pub open spec fn share_ok(
    pre: StoreModel,
    post: StoreModel,
    id: u64,
    owner: Seq<char>,
    recipient: Seq<char>,
) -> bool {
    let k = pre.index_of(id);
    let a = pre.assets[k];
    let granted = if a.shared_with.contains(recipient) {
        a
    } else {
        with_shared(a, a.shared_with.push(recipient))
    };
    &&& !is_blank(owner)
    &&& !is_blank(recipient)
    &&& owner != recipient
    &&& pre.has_id(id)
    &&& a.owner == owner
    &&& post.next_id == pre.next_id
    &&& post.assets == pre.assets.update(k, granted)
}

/// A refused share, with the error owed for the first violated rule:
/// blank fields, self-share, unknown asset, then ownership.
pub open spec fn share_err(
    pre: StoreModel,
    id: u64,
    owner: Seq<char>,
    recipient: Seq<char>,
    e: crate::errors::VaultError,
) -> bool {
    if is_blank(owner) {
        e matches crate::errors::VaultError::InvalidInput(m) && m@ == empty_field_message("owner"@)
    } else if is_blank(recipient) {
        e matches crate::errors::VaultError::InvalidInput(m) && m@ == empty_field_message("recipient"@)
    } else if owner == recipient {
        e matches crate::errors::VaultError::InvalidInput(m) && m@ == self_share_message()
    } else if !pre.has_id(id) {
        e == crate::errors::VaultError::NotFound
    } else if pre.asset(id).owner != owner {
        e == crate::errors::VaultError::Forbidden
    } else {
        false
    }
}

/// A successful read at logical time `now`: the caller was authorized, and
/// exactly one record `(caller, now)` was appended to the asset's audit
/// trail — nothing else changed.
pub open spec fn read_ok(
    pre: StoreModel,
    post: StoreModel,
    id: u64,
    caller: Seq<char>,
    now: u64,
) -> bool {
    let k = pre.index_of(id);
    let a = pre.assets[k];
    &&& pre.has_id(id)
    &&& a.allows_read(caller)
    &&& post.next_id == pre.next_id
    &&& post.assets == pre.assets.update(
        k,
        with_log(a, a.access_log.push(AccessRecord { reader: caller, timestamp: now })),
    )
}

/// A refused read: unknown asset, or a caller who is neither the owner nor
/// a sharee.
pub open spec fn read_err(pre: StoreModel, id: u64, caller: Seq<char>, e: crate::errors::VaultError) -> bool {
    if !pre.has_id(id) {
        e == crate::errors::VaultError::NotFound
    } else if !pre.asset(id).allows_read(caller) {
        e == crate::errors::VaultError::Forbidden
    } else {
        false
    }
}

/// The position of `x` in a sharing set; meaningful only when the set
/// contains `x` (and then unique in a well-formed asset).
pub open spec fn shared_index_of(shared: Seq<Seq<char>>, x: Seq<char>) -> int {
    choose|j: int| 0 <= j < shared.len() && shared[j] == x
}

/// In a duplicate-free sharing set an identity appears at most once: any
/// position holding `x` is the one `shared_index_of` denotes.
pub proof fn lemma_shared_index_of_unique(shared: Seq<Seq<char>>, x: Seq<char>, j: int)
    requires
        forall|p: int, q: int| 0 <= p < q < shared.len() ==> shared[p] != shared[q],
        0 <= j < shared.len(),
        shared[j] == x,
    ensures
        shared.contains(x),
        shared_index_of(shared, x) == j,
{
    assert(shared.contains(x));
    let k = shared_index_of(shared, x);
    assert(0 <= k < shared.len() && shared[k] == x);
    if k < j {
        assert(shared[k] != shared[j]);
    } else if j < k {
        assert(shared[j] != shared[k]);
    }
}

/// A successful revocation: the caller is the stored owner and the
/// recipient, previously at exactly one position of the sharing set, was
/// removed from it. Everything else is unchanged.
pub open spec fn revoke_ok(
    pre: StoreModel,
    post: StoreModel,
    id: u64,
    owner: Seq<char>,
    recipient: Seq<char>,
) -> bool {
    let k = pre.index_of(id);
    let a = pre.assets[k];
    let j = shared_index_of(a.shared_with, recipient);
    &&& pre.has_id(id)
    &&& a.owner == owner
    &&& a.shared_with.contains(recipient)
    &&& post.next_id == pre.next_id
    &&& post.assets == pre.assets.update(k, with_shared(a, a.shared_with.remove(j)))
}

/// A refused revocation: unknown asset, a caller other than the owner, or
/// a recipient who currently has no access.
pub open spec fn revoke_err(
    pre: StoreModel,
    id: u64,
    owner: Seq<char>,
    recipient: Seq<char>,
    e: crate::errors::VaultError,
) -> bool {
    if !pre.has_id(id) {
        e == crate::errors::VaultError::NotFound
    } else if pre.asset(id).owner != owner {
        e == crate::errors::VaultError::Forbidden
    } else if !pre.asset(id).shared_with.contains(recipient) {
        e == crate::errors::VaultError::NotShared
    } else {
        false
    }
}

/// A successful deletion: the record and its whole history left the store
/// in one step; every other asset and the allocator are unchanged.
pub open spec fn delete_ok(pre: StoreModel, post: StoreModel, id: u64, owner: Seq<char>) -> bool {
    let k = pre.index_of(id);
    &&& pre.has_id(id)
    &&& pre.assets[k].owner == owner
    &&& post.next_id == pre.next_id
    &&& post.assets == pre.assets.remove(k)
}

/// A refused owner-only operation (deletion, or reading the audit trail):
/// unknown asset, or a caller other than the stored owner.
pub open spec fn owner_op_err(pre: StoreModel, id: u64, owner: Seq<char>, e: crate::errors::VaultError) -> bool {
    if !pre.has_id(id) {
        e == crate::errors::VaultError::NotFound
    } else if pre.asset(id).owner != owner {
        e == crate::errors::VaultError::Forbidden
    } else {
        false
    }
}

/// The assets owned by `owner`, in store order (order of registration).
pub open spec fn owned_by(assets: Seq<AssetModel>, owner: Seq<char>) -> Seq<AssetModel>
    decreases assets.len(),
{
    if assets.len() == 0 {
        Seq::empty()
    } else if assets.last().owner == owner {
        owned_by(assets.drop_last(), owner).push(assets.last())
    } else {
        owned_by(assets.drop_last(), owner)
    }
}

/// The assets shared with `caller`, in store order (order of
/// registration).
pub open spec fn shared_to(assets: Seq<AssetModel>, caller: Seq<char>) -> Seq<AssetModel>
    decreases assets.len(),
{
    if assets.len() == 0 {
        Seq::empty()
    } else if assets.last().shared_with.contains(caller) {
        shared_to(assets.drop_last(), caller).push(assets.last())
    } else {
        shared_to(assets.drop_last(), caller)
    }
}

/// The message reported when a required field is blank.
pub open spec fn empty_field_message(field: Seq<char>) -> Seq<char> {
    "Field '"@ + field + "' cannot be empty."@
}

/// The message reported when a registration carries no content.
pub open spec fn content_empty_message() -> Seq<char> {
    "Content cannot be empty."@
}

/// The message reported when an owner tries to share with themselves.
pub open spec fn self_share_message() -> Seq<char> {
    "Owner cannot share the asset with themselves."@
}

/// The confirmation a successful share returns.
pub open spec fn share_message(recipient: Seq<char>) -> Seq<char> {
    "Asset shared with user: "@ + recipient
}

/// The confirmation a successful revocation returns.
pub open spec fn revoke_message(recipient: Seq<char>) -> Seq<char> {
    "Access revoked for user: "@ + recipient
}

/// The confirmation a successful deletion returns.
pub open spec fn delete_message() -> Seq<char> {
    "Asset deleted successfully."@
}

} // verus!
