use linkage::{AuthenticationResult, Store};

fn get_test_store() -> Store {
    let mut store = Store::new(String::from("test"));
    store.set("auth_token".to_string(), serde_json::to_vec(&"abc").unwrap());
    store.set("logged_in".to_string(), serde_json::to_vec(&true).unwrap());
    store.set("amount".to_string(), serde_json::to_vec(&0).unwrap());
    store
}

#[test]
fn test_test_store_as_expected() {
    let store = get_test_store();
    assert_eq!(Some(&vec![34, 97, 98, 99, 34]), store.get("auth_token".to_string()));
    assert_eq!(Some(&vec![116, 114, 117, 101]), store.get("logged_in".to_string()));
    assert_eq!(Some(&vec![48]), store.get("amount".to_string()));
}

#[test]
fn test_store_get_identifier() {
    let store = get_test_store();
    assert_eq!("test", store.get_identifier());
}

#[test]
fn test_store_key_exists() {
    let store = get_test_store();
    assert!(store.key_exists("auth_token".to_string()));
    assert!(store.key_exists("logged_in".to_string()));
    assert!(store.key_exists("amount".to_string()));
    assert!(!store.key_exists("abc".to_string()));
    assert!(!store.key_exists("and_the_6".to_string()));
}

#[test]
fn test_store_set() {
    let mut store = Store::new(String::from("new"));
    store.set("test-key".to_string(), serde_json::to_vec(&true).unwrap());
    store.set("test-key2".to_string(), serde_json::to_vec(&"henlo world").unwrap());
    assert_eq!(Some(&vec![116, 114, 117, 101]), store.get("test-key".to_string()));
    assert_eq!(
        Some(&vec![34, 104, 101, 110, 108, 111, 32, 119, 111, 114, 108, 100, 34]),
        store.get("test-key2".to_string())
    );
}

#[test]
fn setting_a_key_again_replaces_its_value() {
    let mut store = Store::new(String::from("s"));
    store.set("k".to_string(), vec![1]);
    store.set("k".to_string(), vec![2]);
    assert_eq!(Some(&vec![2]), store.get("k".to_string()));
}

#[test]
fn test_store_get() {
    let mut store = get_test_store();
    assert_eq!(None, store.get("sdojfnjkalsdfjknaskjdnf".to_string()));
    let token: String = serde_json::from_slice(store.get("auth_token".to_string()).unwrap()).unwrap();
    assert_eq!(String::from("abc"), token);
    let logged_in: bool = serde_json::from_slice(store.get("logged_in".to_string()).unwrap()).unwrap();
    assert!(logged_in);
    let amount: u32 = serde_json::from_slice(store.get("amount".to_string()).unwrap()).unwrap();
    assert_eq!(0, amount);

    let mut sub = Store::new("sub-store".to_string());
    sub.set("sub-value".to_string(), vec![48]);
    store.set_nested_store("another-store".to_string(), sub);
    assert!(store.key_exists("another-store".to_string()));
    assert_eq!(None, store.get("another-store".to_string()));
}

#[test]
fn test_get_nested_store() {
    let mut store = get_test_store();
    let mut sub = Store::new("sub-store".to_string());
    sub.set("sub-value".to_string(), vec![48]);
    store.set_nested_store("another-store".to_string(), sub);
    assert!(store.get_nested_store("auth_token".to_string()).is_none());
    assert!(store.get_nested_store("missing".to_string()).is_none());
    let nested = store.get_nested_store("another-store".to_string()).unwrap();
    assert_eq!("sub-store", nested.get_identifier());
    nested.set("more".to_string(), vec![1]);
    assert!(store.get_nested_store("another-store".to_string()).unwrap().key_exists("more".to_string()));
}

#[test]
fn authentication_results_differ() {
    assert_ne!(AuthenticationResult::Success, AuthenticationResult::Failed);
}

#[test]
fn test_store_data_has_same_keys_as_hashmap() {
    let store = get_test_store();
    for key in ["auth_token", "logged_in", "amount"] {
        assert!(store.get(key.to_string()).is_some());
    }
    for key in ["abc", "and_the_6"] {
        assert!(store.get(key.to_string()).is_none());
    }
}
