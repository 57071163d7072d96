use bedrock::hostapi::mem_store::MemStore;
use bedrock::hostapi::state_store::StateStore;
use bedrock::primitives::bytemap::ByteMap;

#[test]
fn test_empty_store() {
    let store = MemStore::new();
    assert!(store.is_empty());
    assert_eq!(store.len(), 0);
    assert_eq!(store.get(b"missing").unwrap(), None);
    assert!(!store.contains(b"missing").unwrap());
}

#[test]
fn test_insert_and_get() {
    let mut store = MemStore::new();
    store.insert(b"key1".to_vec(), b"value1".to_vec());

    assert_eq!(store.get(b"key1").unwrap(), Some(b"value1".to_vec()));
    assert!(store.contains(b"key1").unwrap());
    assert_eq!(store.len(), 1);
}

#[test]
fn test_missing_key_returns_none() {
    let mut store = MemStore::new();
    store.insert(b"key1".to_vec(), b"value1".to_vec());

    assert_eq!(store.get(b"key2").unwrap(), None);
    assert!(!store.contains(b"key2").unwrap());
}

#[test]
fn test_overwrite() {
    let mut store = MemStore::new();
    store.insert(b"key1".to_vec(), b"v1".to_vec());
    store.insert(b"key1".to_vec(), b"v2".to_vec());

    assert_eq!(store.get(b"key1").unwrap(), Some(b"v2".to_vec()));
    assert_eq!(store.len(), 1);
}

#[test]
fn test_remove() {
    let mut store = MemStore::new();
    store.insert(b"key1".to_vec(), b"value1".to_vec());
    store.remove(b"key1");

    assert_eq!(store.get(b"key1").unwrap(), None);
    assert!(store.is_empty());
}

#[test]
fn test_with_data() {
    let mut data = ByteMap::new();
    data.insert(b"a".to_vec(), b"1".to_vec());
    data.insert(b"b".to_vec(), b"2".to_vec());

    let store = MemStore::with_data(data);
    assert_eq!(store.len(), 2);
    assert_eq!(store.get(b"a").unwrap(), Some(b"1".to_vec()));
    assert_eq!(store.get(b"b").unwrap(), Some(b"2".to_vec()));
}

#[test]
fn test_empty_key_and_value() {
    let mut store = MemStore::new();
    store.insert(vec![], b"empty_key".to_vec());
    store.insert(b"empty_val".to_vec(), vec![]);

    assert_eq!(store.get(b"").unwrap(), Some(b"empty_key".to_vec()));
    assert_eq!(store.get(b"empty_val").unwrap(), Some(vec![]));
}

#[test]
fn default_store_is_empty() {
    let store = MemStore::default();
    assert!(store.is_empty());
}
