//! The asset registry: the store, its record types, and its operations.

use vstd::prelude::*;
use vstd::string::StringExecFns;
use crate::errors::VaultError;
use crate::model::{
    AccessRecord, AssetModel, StoreModel, add_err, add_ok, fresh_asset, delete_message, delete_ok,
    is_blank, lemma_index_of_unique, lemma_shared_index_of_unique, owned_by, owner_op_err,
    read_err, read_ok, revoke_err, revoke_message, revoke_ok, share_err, share_message, share_ok,
    shared_to, with_log, with_shared,
};
use crate::validate::validate_fields;

verus! {

/// One entry of an asset's audit trail: a reader and the logical time of
/// the read.
#[derive(Debug, PartialEq, Eq)]
pub struct AccessEntry {
    pub user_id: String,
    pub timestamp: u64,
}

impl View for AccessEntry {
    type V = AccessRecord;

    open spec fn view(&self) -> AccessRecord {
        AccessRecord { reader: self.user_id@, timestamp: self.timestamp }
    }
}

impl Clone for AccessEntry {
    fn clone(&self) -> (r: Self)
        ensures
            r == *self,
    {
        AccessEntry { user_id: self.user_id.clone(), timestamp: self.timestamp }
    }
}

/// The view of a sequence of strings: each element replaced by its
/// character sequence.
pub open spec fn str_views(v: Seq<String>) -> Seq<Seq<char>> {
    v.map_values(|s: String| s@)
}

/// The view of a sequence of audit-trail entries.
pub open spec fn log_views(v: Seq<AccessEntry>) -> Seq<AccessRecord> {
    v.map_values(|e: AccessEntry| e@)
}

/// One stored asset: identifier, owner, label, opaque content, the
/// identities granted read access, and the audit trail of reads.
#[derive(Debug, PartialEq, Eq)]
pub struct Asset {
    pub id: u64,
    pub owner: String,
    pub name: String,
    pub content: Vec<u8>,
    pub shared_with: Vec<String>,
    pub access_log: Vec<AccessEntry>,
}

impl View for Asset {
    type V = AssetModel;

    open spec fn view(&self) -> AssetModel {
        AssetModel {
            id: self.id,
            owner: self.owner@,
            name: self.name@,
            content: self.content@,
            shared_with: str_views(self.shared_with@),
            access_log: log_views(self.access_log@),
        }
    }
}

/// The view of a sequence of assets.
pub open spec fn asset_views(v: Seq<Asset>) -> Seq<AssetModel> {
    v.map_values(|a: Asset| a@)
}

impl Clone for Asset {
    /// The copy has the same model as the original in every field.
    fn clone(&self) -> (r: Self)
        ensures
            r@ == self@,
    {
        Asset {
            id: self.id,
            owner: self.owner.clone(),
            name: self.name.clone(),
            content: copy_bytes(&self.content),
            shared_with: copy_strings(&self.shared_with),
            access_log: copy_log(&self.access_log),
        }
    }
}

/// The registry: the assets in order of registration, and the identifier
/// the allocator hands out next.
pub struct Registry {
    pub assets: Vec<Asset>,
    pub next_id: u64,
}

impl View for Registry {
    type V = StoreModel;

    open spec fn view(&self) -> StoreModel {
        StoreModel { assets: asset_views(self.assets@), next_id: self.next_id }
    }
}

impl Registry {
    /// A fresh, empty registry whose allocator starts at 1.
    pub fn new() -> (r: Registry)
        ensures
            r@.wf(),
            r@.assets.len() == 0,
            r@.next_id == 1,
    {
        Registry { assets: Vec::new(), next_id: 1 }
    }

    /// Hands out the current identifier and advances the allocator, so no
    /// later call can return the same or a smaller value.
    pub fn generate_asset_id(&mut self) -> (id: u64)
        requires
            old(self)@.next_id < u64::MAX,
        ensures
            id == old(self)@.next_id,
            final(self)@.next_id == old(self)@.next_id + 1,
            final(self)@.assets == old(self)@.assets,
    {
        let current_id = self.next_id;
        self.next_id = self.next_id + 1;
        current_id
    }

    /// The position of the asset with the given identifier, if any.
    fn find_index(&self, asset_id: u64) -> (r: Option<usize>)
        ensures
            (match r {
                Some(i) => i < self@.assets.len() && self@.assets[i as int].id == asset_id,
                None => !self@.has_id(asset_id),
            }),
    {
        let n = self.assets.len();
        let mut i: usize = 0;
        while i < n
            invariant
                0 <= i <= n,
                n == self@.assets.len(),
                forall|j: int| 0 <= j < i ==> (#[trigger] self@.assets[j]).id != asset_id,
            decreases n - i,
        {
            if self.assets[i].id == asset_id {
                return Some(i);
            }
            i = i + 1;
        }
        None
    }

    /// Registers a new asset for `owner`: validates the inputs, allocates
    /// a fresh identifier, and appends the record with an empty sharing
    /// set and an empty audit trail. On any validation failure the store
    /// is left exactly as it was and no identifier is consumed.
    pub fn add_asset(&mut self, owner: String, name: String, content: Vec<u8>) -> (r: Result<
        u64,
        VaultError,
    >)
        requires
            old(self)@.wf(),
            old(self)@.next_id < u64::MAX,
        ensures
            final(self)@.wf(),
            (match r {
                Ok(id) => add_ok(old(self)@, final(self)@, owner@, name@, content@, id),
                Err(e) => final(self)@ == old(self)@ && add_err(owner@, name@, content@, e),
            }),
    {
        let ghost owner_v = owner@;
        let ghost name_v = name@;
        let ghost content_v = content@;
        let ghost pre = self@;
        let mut fields: Vec<(&str, &str)> = Vec::new();
        fields.push(("owner", owner.as_str()));
        fields.push(("name", name.as_str()));
        let ghost fs = fields@;
        proof {
            assert(fs.len() == 2);
            assert(fs[0].0@ == "owner"@ && fs[0].1@ == owner_v);
            assert(fs[1].0@ == "name"@ && fs[1].1@ == name_v);
        }
        let checked = validate_fields(fields);
        match checked {
            Err(m) => {
                proof {
                    assert(add_err(owner_v, name_v, content_v, VaultError::InvalidInput(m)));
                }
                return Err(VaultError::InvalidInput(m));
            },
            Ok(_) => {},
        }
        proof {
            assert(!is_blank(owner_v) && !is_blank(name_v));
        }
        if content.is_empty() {
            return Err(VaultError::InvalidInput("Content cannot be empty.".to_owned()));
        }
        let asset_id = self.generate_asset_id();
        proof {
            let fresh = fresh_asset(asset_id, owner_v, name_v, content_v);
            assert(!fresh.shared_with.contains(fresh.owner));
            assert(fresh.wf());
        }
        let asset = Asset {
            id: asset_id,
            owner,
            name,
            content,
            shared_with: Vec::new(),
            access_log: Vec::new(),
        };
        proof {
            assert(asset@ =~= fresh_asset(asset_id, owner_v, name_v, content_v));
        }
        self.assets.push(asset);
        proof {
            let post = self@;
            assert(post.assets =~= pre.assets.push(
                fresh_asset(asset_id, owner_v, name_v, content_v),
            ));
            assert(post.wf()) by {
                assert forall|i: int| 0 <= i < post.assets.len() implies (#[trigger] post.assets[i]).wf()
                    && post.assets[i].id < post.next_id by {
                    if i < pre.assets.len() {
                        assert(post.assets[i] == pre.assets[i]);
                        assert(pre.assets[i].wf() && pre.assets[i].id < pre.next_id);
                    } else {
                        assert(post.assets[i] == fresh_asset(asset_id, owner_v, name_v, content_v));
                    }
                }
                assert forall|i: int, j: int| 0 <= i < j < post.assets.len() implies post.assets[i].id
                    != post.assets[j].id by {
                    if j < pre.assets.len() {
                        assert(pre.assets[i].id != pre.assets[j].id);
                    } else {
                        assert(pre.assets[i].id < pre.next_id);
                    }
                }
            }
        }
        Ok(asset_id)
    }

    /// Grants `recipient` read access to the asset, on the stored owner's
    /// say-so. Granting access a second time is accepted and changes
    /// nothing; granting it to the owner themselves is refused.
    pub fn share_asset(&mut self, asset_id: u64, owner: String, recipient: String) -> (r: Result<
        String,
        VaultError,
    >)
        requires
            old(self)@.wf(),
        ensures
            final(self)@.wf(),
            (match r {
                Ok(m) => share_ok(old(self)@, final(self)@, asset_id, owner@, recipient@)
                    && m@ == share_message(recipient@),
                Err(e) => final(self)@ == old(self)@ && share_err(
                    old(self)@,
                    asset_id,
                    owner@,
                    recipient@,
                    e,
                ),
            }),
    {
        let ghost owner_v = owner@;
        let ghost recipient_v = recipient@;
        let ghost pre = self@;
        let mut fields: Vec<(&str, &str)> = Vec::new();
        fields.push(("owner", owner.as_str()));
        fields.push(("recipient", recipient.as_str()));
        let ghost fs = fields@;
        proof {
            assert(fs.len() == 2);
            assert(fs[0].0@ == "owner"@ && fs[0].1@ == owner_v);
            assert(fs[1].0@ == "recipient"@ && fs[1].1@ == recipient_v);
        }
        match validate_fields(fields) {
            Err(m) => {
                proof {
                    assert(share_err(pre, asset_id, owner_v, recipient_v, VaultError::InvalidInput(m)));
                }
                return Err(VaultError::InvalidInput(m));
            },
            Ok(_) => {},
        }
        if owner == recipient {
            return Err(
                VaultError::InvalidInput("Owner cannot share the asset with themselves.".to_owned()),
            );
        }
        let idx: usize;
        match self.find_index(asset_id) {
            None => {
                return Err(VaultError::NotFound);
            },
            Some(i) => {
                idx = i;
            },
        }
        proof {
            lemma_index_of_unique(pre, asset_id, idx as int);
        }
        if !(self.assets[idx].owner == owner) {
            return Err(VaultError::Forbidden);
        }
        match index_of_string(&self.assets[idx].shared_with, &recipient) {
            Some(j) => {
                proof {
                    let a = pre.assets[idx as int];
                    assert(a.shared_with[j as int] == recipient_v);
                    assert(a.shared_with.contains(recipient_v));
                    assert(pre.assets.update(idx as int, a) =~= pre.assets);
                    assert(share_ok(pre, self@, asset_id, owner_v, recipient_v));
                }
            },
            None => {
                let rec = recipient.clone();
                self.assets[idx].shared_with.push(rec);
                proof {
                    let a = pre.assets[idx as int];
                    let granted = with_shared(a, a.shared_with.push(recipient_v));
                    assert(!a.shared_with.contains(recipient_v));
                    assert(self@.assets[idx as int] =~= granted);
                    assert(self@.assets =~= pre.assets.update(idx as int, granted));
                    assert(self@.wf()) by {
                        assert(granted.wf()) by {
                            assert(a.owner == owner_v && recipient_v != owner_v);
                            assert forall|p: int, q: int|
                                0 <= p < q < granted.shared_with.len() implies granted.shared_with[p]
                                != granted.shared_with[q] by {
                                if q < a.shared_with.len() {
                                    assert(a.shared_with[p] != a.shared_with[q]);
                                } else {
                                    assert(a.shared_with[p] == granted.shared_with[p]);
                                    assert(a.shared_with.contains(a.shared_with[p]));
                                }
                            }
                            assert(!granted.shared_with.contains(granted.owner)) by {
                                assert forall|p: int|
                                    0 <= p < granted.shared_with.len() implies granted.shared_with[p]
                                    != granted.owner by {
                                    if p < a.shared_with.len() {
                                        assert(a.shared_with.contains(a.shared_with[p]));
                                    }
                                }
                            }
                        }
                        assert forall|i: int|
                            0 <= i < self@.assets.len() implies (#[trigger] self@.assets[i]).wf()
                            && self@.assets[i].id < self@.next_id by {
                            assert(pre.assets[i].wf() && pre.assets[i].id < pre.next_id);
                        }
                        assert forall|i: int, j2: int|
                            0 <= i < j2 < self@.assets.len() implies self@.assets[i].id
                            != self@.assets[j2].id by {
                            assert(pre.assets[i].id != pre.assets[j2].id);
                        }
                    }
                    assert(share_ok(pre, self@, asset_id, owner_v, recipient_v));
                }
            },
        }
        Ok(join_strs("Asset shared with user: ", recipient.as_str()))
    }

    /// Reads the asset's label and content on behalf of `user_id`, who
    /// must be the owner or a sharee. A successful read appends exactly
    /// one `(user_id, now)` record to the audit trail, where `now` is the
    /// logical timestamp supplied by the caller's clock; a refused read
    /// leaves the store untouched.
    pub fn get_asset(&mut self, asset_id: u64, user_id: String, now: u64) -> (r: Result<
        (String, Vec<u8>),
        VaultError,
    >)
        requires
            old(self)@.wf(),
        ensures
            final(self)@.wf(),
            (match r {
                Ok(p) => read_ok(old(self)@, final(self)@, asset_id, user_id@, now) && p.0@ == old(
                    self,
                )@.asset(asset_id).name && p.1@ == old(self)@.asset(asset_id).content,
                Err(e) => final(self)@ == old(self)@ && read_err(old(self)@, asset_id, user_id@, e),
            }),
    {
        let ghost user_v = user_id@;
        let ghost pre = self@;
        let idx: usize;
        match self.find_index(asset_id) {
            None => {
                return Err(VaultError::NotFound);
            },
            Some(i) => {
                idx = i;
            },
        }
        proof {
            lemma_index_of_unique(pre, asset_id, idx as int);
        }
        let mut authorized = self.assets[idx].owner == user_id;
        if !authorized {
            match index_of_string(&self.assets[idx].shared_with, &user_id) {
                Some(j) => {
                    proof {
                        assert(pre.assets[idx as int].shared_with[j as int] == user_v);
                        assert(pre.assets[idx as int].shared_with.contains(user_v));
                    }
                    authorized = true;
                },
                None => {},
            }
        }
        if !authorized {
            return Err(VaultError::Forbidden);
        }
        let name = self.assets[idx].name.clone();
        let content = copy_bytes(&self.assets[idx].content);
        let entry = AccessEntry { user_id, timestamp: now };
        self.assets[idx].access_log.push(entry);
        proof {
            let a = pre.assets[idx as int];
            let logged = with_log(
                a,
                a.access_log.push(AccessRecord { reader: user_v, timestamp: now }),
            );
            assert(self@.assets[idx as int] =~= logged);
            assert(self@.assets =~= pre.assets.update(idx as int, logged));
            assert(self@.wf()) by {
                assert(logged.wf());
                assert forall|i: int|
                    0 <= i < self@.assets.len() implies (#[trigger] self@.assets[i]).wf()
                    && self@.assets[i].id < self@.next_id by {
                    assert(pre.assets[i].wf() && pre.assets[i].id < pre.next_id);
                }
                assert forall|i: int, j: int|
                    0 <= i < j < self@.assets.len() implies self@.assets[i].id
                    != self@.assets[j].id by {
                    assert(pre.assets[i].id != pre.assets[j].id);
                }
            }
            assert(read_ok(pre, self@, asset_id, user_v, now));
        }
        Ok((name, content))
    }

    /// Withdraws `recipient`'s read access, on the stored owner's say-so.
    /// Revoking from an identity that was never granted access is
    /// reported as `NotShared`.
    pub fn revoke_access(&mut self, asset_id: u64, owner: String, recipient: String) -> (r: Result<
        String,
        VaultError,
    >)
        requires
            old(self)@.wf(),
        ensures
            final(self)@.wf(),
            (match r {
                Ok(m) => revoke_ok(old(self)@, final(self)@, asset_id, owner@, recipient@)
                    && m@ == revoke_message(recipient@),
                Err(e) => final(self)@ == old(self)@ && revoke_err(
                    old(self)@,
                    asset_id,
                    owner@,
                    recipient@,
                    e,
                ),
            }),
    {
        let ghost owner_v = owner@;
        let ghost recipient_v = recipient@;
        let ghost pre = self@;
        let idx: usize;
        match self.find_index(asset_id) {
            None => {
                return Err(VaultError::NotFound);
            },
            Some(i) => {
                idx = i;
            },
        }
        proof {
            lemma_index_of_unique(pre, asset_id, idx as int);
        }
        if !(self.assets[idx].owner == owner) {
            return Err(VaultError::Forbidden);
        }
        match index_of_string(&self.assets[idx].shared_with, &recipient) {
            None => Err(VaultError::NotShared),
            Some(j) => {
                self.assets[idx].shared_with.remove(j);
                proof {
                    let a = pre.assets[idx as int];
                    lemma_shared_index_of_unique(a.shared_with, recipient_v, j as int);
                    let shrunk = with_shared(a, a.shared_with.remove(j as int));
                    assert(self@.assets[idx as int] =~= shrunk);
                    assert(self@.assets =~= pre.assets.update(idx as int, shrunk));
                    assert(self@.wf()) by {
                        assert(shrunk.wf()) by {
                            assert forall|p: int|
                                0 <= p < shrunk.shared_with.len() implies shrunk.shared_with[p]
                                != shrunk.owner by {
                                if p < j {
                                    assert(shrunk.shared_with[p] == a.shared_with[p]);
                                } else {
                                    assert(shrunk.shared_with[p] == a.shared_with[p + 1]);
                                }
                                assert(a.shared_with.contains(shrunk.shared_with[p]));
                            }
                            assert(!shrunk.shared_with.contains(shrunk.owner));
                            assert forall|p: int, q: int|
                                0 <= p < q < shrunk.shared_with.len() implies shrunk.shared_with[p]
                                != shrunk.shared_with[q] by {
                                let p0: int = if p < j {
                                    p
                                } else {
                                    p + 1
                                };
                                let q0: int = if q < j {
                                    q
                                } else {
                                    q + 1
                                };
                                assert(shrunk.shared_with[p] == a.shared_with[p0]);
                                assert(shrunk.shared_with[q] == a.shared_with[q0]);
                                assert(a.shared_with[p0] != a.shared_with[q0]);
                            }
                        }
                        assert forall|i: int|
                            0 <= i < self@.assets.len() implies (#[trigger] self@.assets[i]).wf()
                            && self@.assets[i].id < self@.next_id by {
                            assert(pre.assets[i].wf() && pre.assets[i].id < pre.next_id);
                        }
                        assert forall|i: int, j2: int|
                            0 <= i < j2 < self@.assets.len() implies self@.assets[i].id
                            != self@.assets[j2].id by {
                            assert(pre.assets[i].id != pre.assets[j2].id);
                        }
                    }
                    assert(revoke_ok(pre, self@, asset_id, owner_v, recipient_v));
                }
                Ok(join_strs("Access revoked for user: ", recipient.as_str()))
            },
        }
    }

    /// Returns a copy of the asset's full audit trail, in insertion
    /// order. Only the stored owner may see it: a sharee's read access
    /// does not extend to the trail.
    pub fn get_access_log(&self, asset_id: u64, owner: String) -> (r: Result<
        Vec<AccessEntry>,
        VaultError,
    >)
        requires
            self@.wf(),
        ensures
            (match r {
                Ok(log) => self@.has_id(asset_id) && self@.asset(asset_id).owner == owner@
                    && log_views(log@) == self@.asset(asset_id).access_log,
                Err(e) => owner_op_err(self@, asset_id, owner@, e),
            }),
    {
        let idx: usize;
        match self.find_index(asset_id) {
            None => {
                return Err(VaultError::NotFound);
            },
            Some(i) => {
                idx = i;
            },
        }
        proof {
            lemma_index_of_unique(self@, asset_id, idx as int);
        }
        if !(self.assets[idx].owner == owner) {
            return Err(VaultError::Forbidden);
        }
        let log = copy_log(&self.assets[idx].access_log);
        Ok(log)
    }

    /// Deletes the asset and its whole history in one step, on the stored
    /// owner's say-so. Later assets keep their order; the identifier is
    /// never reused, since the allocator does not move backwards.
    pub fn delete_asset(&mut self, asset_id: u64, owner: String) -> (r: Result<String, VaultError>)
        requires
            old(self)@.wf(),
        ensures
            final(self)@.wf(),
            (match r {
                Ok(m) => delete_ok(old(self)@, final(self)@, asset_id, owner@) && m@
                    == delete_message(),
                Err(e) => final(self)@ == old(self)@ && owner_op_err(
                    old(self)@,
                    asset_id,
                    owner@,
                    e,
                ),
            }),
    {
        let ghost owner_v = owner@;
        let ghost pre = self@;
        let idx: usize;
        match self.find_index(asset_id) {
            None => {
                return Err(VaultError::NotFound);
            },
            Some(i) => {
                idx = i;
            },
        }
        proof {
            lemma_index_of_unique(pre, asset_id, idx as int);
        }
        if !(self.assets[idx].owner == owner) {
            return Err(VaultError::Forbidden);
        }
        self.assets.remove(idx);
        proof {
            assert(self@.assets =~= pre.assets.remove(idx as int));
            assert(self@.wf()) by {
                assert forall|i: int|
                    0 <= i < self@.assets.len() implies (#[trigger] self@.assets[i]).wf()
                    && self@.assets[i].id < self@.next_id by {
                    let i0: int = if i < idx {
                        i
                    } else {
                        i + 1
                    };
                    assert(self@.assets[i] == pre.assets[i0]);
                    assert(pre.assets[i0].wf() && pre.assets[i0].id < pre.next_id);
                }
                assert forall|i: int, j: int|
                    0 <= i < j < self@.assets.len() implies self@.assets[i].id
                    != self@.assets[j].id by {
                    let i0: int = if i < idx {
                        i
                    } else {
                        i + 1
                    };
                    let j0: int = if j < idx {
                        j
                    } else {
                        j + 1
                    };
                    assert(self@.assets[i] == pre.assets[i0]);
                    assert(self@.assets[j] == pre.assets[j0]);
                    assert(pre.assets[i0].id != pre.assets[j0].id);
                }
            }
            assert(delete_ok(pre, self@, asset_id, owner_v));
        }
        Ok("Asset deleted successfully.".to_owned())
    }

    /// Lists every asset owned by `owner`, in order of registration.
    /// An owner with no assets gets `NotFound`, not an empty listing.
    pub fn list_assets_by_owner(&self, owner: String) -> (r: Result<Vec<Asset>, VaultError>)
        ensures
            (match r {
                Ok(v) => asset_views(v@) == owned_by(self@.assets, owner@) && v@.len() > 0,
                Err(e) => e == VaultError::NotFound && owned_by(self@.assets, owner@).len() == 0,
            }),
    {
        let ghost owner_v = owner@;
        let mut found: Vec<Asset> = Vec::new();
        let n = self.assets.len();
        let mut i: usize = 0;
        while i < n
            invariant
                0 <= i <= n,
                n == self@.assets.len(),
                owner_v == owner@,
                asset_views(found@) == owned_by(self@.assets.take(i as int), owner_v),
            decreases n - i,
        {
            let ghost prefix = self@.assets.take(i as int);
            let ghost before = asset_views(found@);
            proof {
                assert(self@.assets[i as int] == self.assets@[i as int]@);
            }
            if self.assets[i].owner == owner {
                found.push(self.assets[i].clone());
                proof {
                    assert(asset_views(found@) =~= before.push(self@.assets[i as int]));
                }
            }
            proof {
                let ext = self@.assets.take(i as int + 1);
                assert(ext.len() == i + 1);
                assert(ext.drop_last() =~= prefix);
                assert(ext.last() == self@.assets[i as int]);
                assert(ext.last().owner == self.assets@[i as int].owner@);
                assert(asset_views(found@) == owned_by(ext, owner_v));
            }
            i = i + 1;
        }
        proof {
            assert(self@.assets.take(n as int) =~= self@.assets);
        }
        if found.is_empty() {
            Err(VaultError::NotFound)
        } else {
            Ok(found)
        }
    }

    /// Lists every asset whose sharing set names `user_id`, in order of
    /// registration. An identity with no shared assets gets `NotFound`,
    /// not an empty listing.
    pub fn get_shared_assets(&self, user_id: String) -> (r: Result<Vec<Asset>, VaultError>)
        ensures
            (match r {
                Ok(v) => asset_views(v@) == shared_to(self@.assets, user_id@) && v@.len() > 0,
                Err(e) => e == VaultError::NotFound && shared_to(self@.assets, user_id@).len()
                    == 0,
            }),
    {
        let ghost user_v = user_id@;
        let mut found: Vec<Asset> = Vec::new();
        let n = self.assets.len();
        let mut i: usize = 0;
        while i < n
            invariant
                0 <= i <= n,
                n == self@.assets.len(),
                user_v == user_id@,
                asset_views(found@) == shared_to(self@.assets.take(i as int), user_v),
            decreases n - i,
        {
            let ghost prefix = self@.assets.take(i as int);
            let ghost before = asset_views(found@);
            proof {
                assert(self@.assets[i as int] == self.assets@[i as int]@);
            }
            let shared_ref = &self.assets[i].shared_with;
            let ghost sw = shared_ref@;
            proof {
                assert(sw == self.assets@[i as int].shared_with@);
            }
            match index_of_string(shared_ref, &user_id) {
                Some(j) => {
                    proof {
                        assert(str_views(sw)[j as int] == user_v);
                        assert(self@.assets[i as int].shared_with == str_views(sw));
                        assert(self@.assets[i as int].shared_with[j as int] == user_v);
                        assert(self@.assets[i as int].shared_with.contains(user_v));
                    }
                    found.push(self.assets[i].clone());
                    proof {
                        assert(asset_views(found@) =~= before.push(self@.assets[i as int]));
                    }
                },
                None => {
                    proof {
                        assert(!str_views(sw).contains(user_v));
                        assert(self@.assets[i as int].shared_with == str_views(sw));
                        assert(!self@.assets[i as int].shared_with.contains(user_v));
                    }
                },
            }
            proof {
                let ext = self@.assets.take(i as int + 1);
                assert(ext.len() == i + 1);
                assert(ext.drop_last() =~= prefix);
                assert(ext.last() == self@.assets[i as int]);
                assert(asset_views(found@) == shared_to(ext, user_v));
            }
            i = i + 1;
        }
        proof {
            assert(self@.assets.take(n as int) =~= self@.assets);
        }
        if found.is_empty() {
            Err(VaultError::NotFound)
        } else {
            Ok(found)
        }
    }
}

/// Copies a sharing set element by element.
fn copy_strings(v: &Vec<String>) -> (r: Vec<String>)
    ensures
        r@ == v@,
{
    let mut r: Vec<String> = Vec::new();
    let n = v.len();
    let mut i: usize = 0;
    while i < n
        invariant
            0 <= i <= n,
            n == v@.len(),
            r@ == v@.take(i as int),
        decreases n - i,
    {
        r.push(v[i].clone());
        proof {
            assert(v@.take(i as int + 1) =~= v@.take(i as int).push(v@[i as int]));
        }
        i = i + 1;
    }
    proof {
        assert(v@.take(n as int) =~= v@);
    }
    r
}

/// Copies an audit trail element by element.
fn copy_log(v: &Vec<AccessEntry>) -> (r: Vec<AccessEntry>)
    ensures
        r@ == v@,
{
    let mut r: Vec<AccessEntry> = Vec::new();
    let n = v.len();
    let mut i: usize = 0;
    while i < n
        invariant
            0 <= i <= n,
            n == v@.len(),
            r@ == v@.take(i as int),
        decreases n - i,
    {
        r.push(v[i].clone());
        proof {
            assert(v@.take(i as int + 1) =~= v@.take(i as int).push(v@[i as int]));
        }
        i = i + 1;
    }
    proof {
        assert(v@.take(n as int) =~= v@);
    }
    r
}

/// Copies a byte vector element by element.
fn copy_bytes(v: &Vec<u8>) -> (r: Vec<u8>)
    ensures
        r@ == v@,
{
    let mut r: Vec<u8> = Vec::new();
    let n = v.len();
    let mut i: usize = 0;
    while i < n
        invariant
            0 <= i <= n,
            n == v@.len(),
            r@ == v@.take(i as int),
        decreases n - i,
    {
        r.push(v[i]);
        proof {
            assert(v@.take(i as int + 1) =~= v@.take(i as int).push(v@[i as int]));
        }
        i = i + 1;
    }
    proof {
        assert(v@.take(n as int) =~= v@);
    }
    r
}

/// Joins two string slices into one owned string.
fn join_strs(head: &str, tail: &str) -> (m: String)
    ensures
        m@ == head@ + tail@,
{
    let mut m = head.to_owned();
    m.append(tail);
    m
}

/// The position of `x` in `v`, if any.
fn index_of_string(v: &Vec<String>, x: &String) -> (r: Option<usize>)
    ensures
        (match r {
            Some(j) => j < v@.len() && str_views(v@)[j as int] == x@,
            None => !str_views(v@).contains(x@),
        }),
{
    let n = v.len();
    let mut i: usize = 0;
    while i < n
        invariant
            0 <= i <= n,
            n == v@.len(),
            forall|j: int| 0 <= j < i ==> str_views(v@)[j] != x@,
        decreases n - i,
    {
        if v[i] == *x {
            proof {
                assert(str_views(v@)[i as int] == v@[i as int]@);
            }
            return Some(i);
        }
        i = i + 1;
    }
    proof {
        assert forall|j: int| 0 <= j < v@.len() implies str_views(v@)[j] != x@ by {}
    }
    None
}

} // verus!
