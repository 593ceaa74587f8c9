use asset_vault::errors::VaultError;
use asset_vault::registry::Registry;
use asset_vault::validate::validate_fields;

#[test]
fn list_owned_on_empty_store_is_an_error() {
    let reg = Registry::new();
    let r = reg.list_assets_by_owner("dave".to_string());
    assert!(matches!(r, Err(VaultError::NotFound)));
}

#[test]
fn list_shared_on_empty_store_is_an_error() {
    let reg = Registry::new();
    let r = reg.get_shared_assets("dave".to_string());
    assert!(matches!(r, Err(VaultError::NotFound)));
}

#[test]
fn list_owned_returns_only_that_owners_assets_in_order() {
    let mut reg = Registry::new();
    reg.add_asset("alice".to_string(), "one".to_string(), vec![1])
        .unwrap();
    reg.add_asset("bob".to_string(), "two".to_string(), vec![2])
        .unwrap();
    reg.add_asset("alice".to_string(), "three".to_string(), vec![3])
        .unwrap();
    let owned = reg.list_assets_by_owner("alice".to_string()).unwrap();
    assert_eq!(owned.len(), 2);
    assert_eq!((owned[0].id, owned[0].name.as_str()), (1, "one"));
    assert_eq!((owned[1].id, owned[1].name.as_str()), (3, "three"));
    let r = reg.list_assets_by_owner("carol".to_string());
    assert!(matches!(r, Err(VaultError::NotFound)));
}

#[test]
fn list_shared_returns_only_assets_shared_with_caller() {
    let mut reg = Registry::new();
    reg.add_asset("alice".to_string(), "one".to_string(), vec![1])
        .unwrap();
    reg.add_asset("alice".to_string(), "two".to_string(), vec![2])
        .unwrap();
    reg.share_asset(2, "alice".to_string(), "bob".to_string())
        .unwrap();
    let shared = reg.get_shared_assets("bob".to_string()).unwrap();
    assert_eq!(shared.len(), 1);
    assert_eq!(shared[0].id, 2);
    assert_eq!(shared[0].name, "two");
    // The owner's implicit access does not make the asset "shared with" them.
    let r = reg.get_shared_assets("alice".to_string());
    assert!(matches!(r, Err(VaultError::NotFound)));
}

#[test]
fn listing_is_a_copy_not_a_live_view() {
    let mut reg = Registry::new();
    reg.add_asset("alice".to_string(), "one".to_string(), vec![1])
        .unwrap();
    let mut owned = reg.list_assets_by_owner("alice".to_string()).unwrap();
    owned[0].name = "changed".to_string();
    assert_eq!(reg.assets[0].name, "one");
}

#[test]
fn validate_fields_accepts_non_blank_values() {
    let r = validate_fields(vec![("owner", "alice"), ("name", "doc")]);
    assert_eq!(r, Ok(()));
}

#[test]
fn validate_fields_reports_first_blank_field() {
    let r = validate_fields(vec![("owner", "alice"), ("name", " \t\n")]);
    assert_eq!(r, Err("Field 'name' cannot be empty.".to_string()));
    let r = validate_fields(vec![("owner", ""), ("name", "")]);
    assert_eq!(r, Err("Field 'owner' cannot be empty.".to_string()));
}
