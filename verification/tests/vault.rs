use asset_vault::errors::VaultError;
use asset_vault::registry::Registry;

fn seeded() -> Registry {
    let mut reg = Registry::new();
    let id = reg
        .add_asset("alice".to_string(), "doc".to_string(), vec![1, 2, 3])
        .unwrap();
    assert_eq!(id, 1);
    reg
}

#[test]
fn register_returns_strictly_increasing_ids() {
    let mut reg = Registry::new();
    let a = reg
        .add_asset("alice".to_string(), "one".to_string(), vec![1])
        .unwrap();
    let b = reg
        .add_asset("bob".to_string(), "two".to_string(), vec![2])
        .unwrap();
    let c = reg
        .add_asset("alice".to_string(), "three".to_string(), vec![3])
        .unwrap();
    assert_eq!((a, b, c), (1, 2, 3));
}

#[test]
fn ids_are_not_reused_after_delete() {
    let mut reg = seeded();
    reg.delete_asset(1, "alice".to_string()).unwrap();
    let id = reg
        .add_asset("alice".to_string(), "doc2".to_string(), vec![9])
        .unwrap();
    assert_eq!(id, 2);
}

#[test]
fn register_rejects_blank_fields() {
    let mut reg = Registry::new();
    let r = reg.add_asset("".to_string(), "doc".to_string(), vec![1]);
    assert_eq!(
        r,
        Err(VaultError::InvalidInput(
            "Field 'owner' cannot be empty.".to_string()
        ))
    );
    let r = reg.add_asset("alice".to_string(), "   ".to_string(), vec![1]);
    assert_eq!(
        r,
        Err(VaultError::InvalidInput(
            "Field 'name' cannot be empty.".to_string()
        ))
    );
    let r = reg.add_asset("alice".to_string(), "doc".to_string(), vec![]);
    assert_eq!(
        r,
        Err(VaultError::InvalidInput(
            "Content cannot be empty.".to_string()
        ))
    );
    assert_eq!(reg.assets.len(), 0);
    assert_eq!(reg.next_id, 1);
}

#[test]
fn register_rejects_unicode_whitespace_owner() {
    let mut reg = Registry::new();
    let r = reg.add_asset("\u{2003}\u{00a0}".to_string(), "doc".to_string(), vec![1]);
    assert_eq!(
        r,
        Err(VaultError::InvalidInput(
            "Field 'owner' cannot be empty.".to_string()
        ))
    );
    assert_eq!(reg.assets.len(), 0);
}

#[test]
fn share_then_read_appends_one_log_entry() {
    let mut reg = seeded();
    let msg = reg
        .share_asset(1, "alice".to_string(), "bob".to_string())
        .unwrap();
    assert_eq!(msg, "Asset shared with user: bob");
    let (name, content) = reg.get_asset(1, "bob".to_string(), 42).unwrap();
    assert_eq!(name, "doc");
    assert_eq!(content, vec![1, 2, 3]);
    assert_eq!(reg.assets[0].access_log.len(), 1);
    assert_eq!(reg.assets[0].access_log[0].user_id, "bob");
    assert_eq!(reg.assets[0].access_log[0].timestamp, 42);
}

#[test]
fn share_twice_does_not_duplicate_recipient() {
    let mut reg = seeded();
    reg.share_asset(1, "alice".to_string(), "bob".to_string())
        .unwrap();
    reg.share_asset(1, "alice".to_string(), "bob".to_string())
        .unwrap();
    assert_eq!(reg.assets[0].shared_with.len(), 1);
    assert_eq!(reg.assets[0].shared_with[0], "bob");
}

#[test]
fn share_with_self_is_invalid() {
    let mut reg = seeded();
    let r = reg.share_asset(1, "alice".to_string(), "alice".to_string());
    assert_eq!(
        r,
        Err(VaultError::InvalidInput(
            "Owner cannot share the asset with themselves.".to_string()
        ))
    );
}

#[test]
fn share_unknown_asset_is_not_found() {
    let mut reg = seeded();
    let r = reg.share_asset(7, "alice".to_string(), "bob".to_string());
    assert_eq!(r, Err(VaultError::NotFound));
}

#[test]
fn only_owner_may_share_revoke_delete_or_audit() {
    let mut reg = seeded();
    reg.share_asset(1, "alice".to_string(), "bob".to_string())
        .unwrap();
    // A sharee is still forbidden on every owner-only operation.
    let r = reg.share_asset(1, "bob".to_string(), "carol".to_string());
    assert_eq!(r, Err(VaultError::Forbidden));
    let r = reg.revoke_access(1, "bob".to_string(), "bob".to_string());
    assert_eq!(r, Err(VaultError::Forbidden));
    let r = reg.get_access_log(1, "bob".to_string());
    assert_eq!(r, Err(VaultError::Forbidden));
    let r = reg.delete_asset(1, "bob".to_string());
    assert_eq!(r, Err(VaultError::Forbidden));
    assert_eq!(reg.assets.len(), 1);
}

#[test]
fn revoke_without_grant_is_not_shared() {
    let mut reg = seeded();
    let r = reg.revoke_access(1, "alice".to_string(), "bob".to_string());
    assert_eq!(r, Err(VaultError::NotShared));
}

#[test]
fn revoked_reader_is_forbidden() {
    let mut reg = seeded();
    reg.share_asset(1, "alice".to_string(), "bob".to_string())
        .unwrap();
    let msg = reg
        .revoke_access(1, "alice".to_string(), "bob".to_string())
        .unwrap();
    assert_eq!(msg, "Access revoked for user: bob");
    let r = reg.get_asset(1, "bob".to_string(), 5);
    assert_eq!(r, Err(VaultError::Forbidden));
    assert_eq!(reg.assets[0].access_log.len(), 0);
}

#[test]
fn unauthorized_read_leaves_no_log_entry() {
    let mut reg = seeded();
    let r = reg.get_asset(1, "mallory".to_string(), 7);
    assert_eq!(r, Err(VaultError::Forbidden));
    assert_eq!(reg.assets[0].access_log.len(), 0);
}

#[test]
fn owner_reads_own_asset_and_is_logged() {
    let mut reg = seeded();
    let (name, content) = reg.get_asset(1, "alice".to_string(), 9).unwrap();
    assert_eq!((name.as_str(), content), ("doc", vec![1, 2, 3]));
    assert_eq!(reg.assets[0].access_log.len(), 1);
    assert_eq!(reg.assets[0].access_log[0].user_id, "alice");
}

#[test]
fn delete_removes_asset_for_every_operation() {
    let mut reg = seeded();
    let msg = reg.delete_asset(1, "alice".to_string()).unwrap();
    assert_eq!(msg, "Asset deleted successfully.");
    assert_eq!(reg.assets.len(), 0);
    assert_eq!(reg.get_asset(1, "alice".to_string(), 1), Err(VaultError::NotFound));
    assert_eq!(
        reg.share_asset(1, "alice".to_string(), "bob".to_string()),
        Err(VaultError::NotFound)
    );
    assert_eq!(
        reg.revoke_access(1, "alice".to_string(), "bob".to_string()),
        Err(VaultError::NotFound)
    );
    assert_eq!(reg.get_access_log(1, "alice".to_string()), Err(VaultError::NotFound));
    assert_eq!(reg.delete_asset(1, "alice".to_string()), Err(VaultError::NotFound));
}

#[test]
fn full_sharing_scenario() {
    let mut reg = Registry::new();
    let id = reg
        .add_asset("alice".to_string(), "doc".to_string(), vec![1, 2, 3])
        .unwrap();
    assert_eq!(id, 1);
    reg.share_asset(1, "alice".to_string(), "bob".to_string())
        .unwrap();
    let (name, content) = reg.get_asset(1, "bob".to_string(), 100).unwrap();
    assert_eq!(name, "doc");
    assert_eq!(content, vec![1, 2, 3]);
    let log = reg.get_access_log(1, "alice".to_string()).unwrap();
    assert_eq!(log.len(), 1);
    let r = reg.get_asset(1, "carol".to_string(), 101);
    assert_eq!(r, Err(VaultError::Forbidden));
    let log = reg.get_access_log(1, "alice".to_string()).unwrap();
    assert_eq!(log.len(), 1);
    assert_eq!(reg.get_access_log(1, "bob".to_string()), Err(VaultError::Forbidden));
    let log = reg.get_access_log(1, "alice".to_string()).unwrap();
    assert_eq!(log.len(), 1);
    assert_eq!(log[0].user_id, "bob");
    assert_eq!(log[0].timestamp, 100);
}

#[test]
fn audit_log_is_a_copy_in_insertion_order() {
    let mut reg = seeded();
    reg.share_asset(1, "alice".to_string(), "bob".to_string())
        .unwrap();
    reg.get_asset(1, "bob".to_string(), 10).unwrap();
    reg.get_asset(1, "alice".to_string(), 11).unwrap();
    let log = reg.get_access_log(1, "alice".to_string()).unwrap();
    assert_eq!(log.len(), 2);
    assert_eq!((log[0].user_id.as_str(), log[0].timestamp), ("bob", 10));
    assert_eq!((log[1].user_id.as_str(), log[1].timestamp), ("alice", 11));
}

#[test]
fn generate_asset_id_advances() {
    let mut reg = Registry::new();
    assert_eq!(reg.generate_asset_id(), 1);
    assert_eq!(reg.generate_asset_id(), 2);
    assert_eq!(reg.next_id, 3);
}
