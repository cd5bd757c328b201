use account_sdk::felt::Felt;
use account_sdk::session::{AllowedMethod, Session};
use account_sdk::storage::{
    collect_keys, Credentials, InMemoryStorage, OriginProvider, Selectors, SessionMetadata,
    StorageBackend, StorageValue,
};

fn metadata(tag: u64) -> StorageValue {
    let session = Session::new(
        vec![AllowedMethod {
            contract_address: Felt::from_u64(0xaa),
            selector: Felt::from_u64(tag),
        }],
        1000 + tag,
        Felt::from_u64(tag),
    )
    .unwrap();
    StorageValue::Session(SessionMetadata {
        session,
        max_fee: None,
        credentials: Credentials {
            authorization: vec![Felt::from_u64(tag), Felt::from_u64(tag + 1)],
            private_key: Felt::from_u64(tag + 2),
        },
    })
}

#[test]
fn selector_is_scoped_by_account_origin_and_chain() {
    let key = Selectors::session(
        &Felt::from_u64(0x1234),
        "https://cartridge.gg",
        &Felt::from_short_string("SN_MAIN").unwrap(),
    );
    assert_eq!(
        key,
        "@cartridge/session/0x1234/https://cartridge.gg/0x534e5f4d41494e"
    );
}

#[test]
fn selectors_of_two_origins_never_collide() {
    let address = Felt::from_u64(0x1234);
    let chain = Felt::from_u64(1);
    let origins = ["https://a.example", "https://b.example", "", "a", "a/", "/a", "a/0x1"];
    for (i, a) in origins.iter().enumerate() {
        for (j, b) in origins.iter().enumerate() {
            let same = Selectors::session(&address, a, &chain) == Selectors::session(&address, b, &chain);
            assert_eq!(same, i == j);
        }
    }
}

#[test]
fn selectors_differ_by_account_and_by_chain() {
    let origin = "https://a.example";
    let k = Selectors::session(&Felt::from_u64(1), origin, &Felt::from_u64(1));
    assert_ne!(k, Selectors::session(&Felt::from_u64(2), origin, &Felt::from_u64(1)));
    assert_ne!(k, Selectors::session(&Felt::from_u64(1), origin, &Felt::from_u64(2)));
}

#[test]
fn in_memory_set_then_get_returns_what_was_written() {
    let mut store = InMemoryStorage::new();
    store.set("k", &metadata(1)).unwrap();
    assert_eq!(store.get("k").unwrap(), Some(metadata(1)));
    assert_eq!(store.get("other").unwrap(), None);
}

#[test]
fn in_memory_set_overwrites() {
    let mut store = InMemoryStorage::default();
    store.set("k", &metadata(1)).unwrap();
    store.set("j", &metadata(2)).unwrap();
    store.set("k", &metadata(3)).unwrap();
    assert_eq!(store.get("k").unwrap(), Some(metadata(3)));
    assert_eq!(store.get("j").unwrap(), Some(metadata(2)));
    assert_eq!(store.keys().unwrap().len(), 2);
}

#[test]
fn in_memory_remove_takes_only_its_key() {
    let mut store = InMemoryStorage::new();
    store.set("a", &metadata(1)).unwrap();
    store.set("b", &metadata(2)).unwrap();
    store.set("c", &metadata(3)).unwrap();
    store.remove("b").unwrap();
    assert_eq!(store.get("a").unwrap(), Some(metadata(1)));
    assert_eq!(store.get("b").unwrap(), None);
    assert_eq!(store.get("c").unwrap(), Some(metadata(3)));
    // a key that is not there
    store.remove("zzz").unwrap();
    let mut keys = store.keys().unwrap();
    keys.sort();
    assert_eq!(keys, vec!["a".to_string(), "c".to_string()]);
}

#[test]
fn in_memory_clear_empties_the_store() {
    let mut store = InMemoryStorage::new();
    store.set("a", &metadata(1)).unwrap();
    store.set("b", &metadata(2)).unwrap();
    store.clear().unwrap();
    assert_eq!(store.get("a").unwrap(), None);
    assert_eq!(store.get("b").unwrap(), None);
    assert!(store.keys().unwrap().is_empty());
}

#[test]
fn in_memory_keys_names_each_key_once() {
    let mut store = InMemoryStorage::new();
    assert!(store.keys().unwrap().is_empty());
    store.set("a", &metadata(1)).unwrap();
    store.set("b", &metadata(2)).unwrap();
    store.set("a", &metadata(3)).unwrap();
    let mut keys = store.keys().unwrap();
    keys.sort();
    assert_eq!(keys, vec!["a".to_string(), "b".to_string()]);
}

#[test]
fn in_memory_origin_is_fixed() {
    assert_eq!(InMemoryStorage::origin(), Ok("https://cartridge.gg".to_string()));
}

#[test]
fn storage_value_duplicate_is_equal() {
    let value = metadata(5);
    assert_eq!(value.duplicate(), value);
}

#[test]
fn collect_keys_passes_over_empty_slots() {
    let slots = vec![
        Some("a".to_string()),
        None,
        Some("b".to_string()),
        None,
        None,
        Some("a".to_string()),
    ];
    assert_eq!(
        collect_keys(slots),
        vec!["a".to_string(), "b".to_string(), "a".to_string()]
    );
    assert!(collect_keys(vec![]).is_empty());
    assert!(collect_keys(vec![None, None]).is_empty());
}
