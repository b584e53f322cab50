use devflow_pro::store::DataStore;

#[test]
fn test_data_store() {
    let mut store = DataStore::new();
    store.insert("key1".to_string(), vec![1, 2, 3]);
    assert_eq!(store.get("key1"), Some(&vec![1, 2, 3]));
    assert_eq!(store.process_data("key1"), "010203");
    store.clear();
    assert_eq!(store.get("key1"), None);
}

#[test]
fn test_multiple_operations() {
    let mut store = DataStore::new();
    store.insert("key1".to_string(), vec![1, 2, 3]);
    store.insert("key2".to_string(), vec![4, 5, 6]);
    assert_eq!(store.get("key1"), Some(&vec![1, 2, 3]));
    assert_eq!(store.get("key2"), Some(&vec![4, 5, 6]));
    assert_eq!(store.process_data("key1"), "010203");
    assert_eq!(store.process_data("key2"), "040506");
    store.clear();
    assert_eq!(store.get("key1"), None);
    assert_eq!(store.get("key2"), None);
}

#[test]
fn test_insert_overwrites() {
    let mut store = DataStore::new();
    store.insert("key1".to_string(), vec![1]);
    store.insert("key1".to_string(), vec![2]);
    assert_eq!(store.get("key1"), Some(&vec![2]));
}

#[test]
fn test_bytes_to_hex_exact() {
    assert_eq!(DataStore::bytes_to_hex(&[]), "");
    assert_eq!(DataStore::bytes_to_hex(&[0]), "00");
    assert_eq!(DataStore::bytes_to_hex(&[255, 0, 16]), "ff0010");
}

#[test]
fn test_process_data_missing_key() {
    let store = DataStore::new();
    assert_eq!(store.process_data("absent"), "");
}

#[test]
fn test_cache_set_get_clear() {
    let cache: devflow_pro::cache::Cache<u64, u64> = devflow_pro::cache::Cache::new(2);
    let mut cache = cache;
    assert_eq!(cache.get(&1), None);
    assert!(cache.set(1, 10).is_ok());
    assert!(cache.set(2, 20).is_ok());
    assert_eq!(cache.get(&1), Some(10));
    assert_eq!(cache.get(&2), Some(20));
    let err = cache.set(3, 30);
    assert_eq!(err, Err("Cache is full".to_string()));
    cache.clear();
    assert_eq!(cache.get(&1), None);
    assert!(cache.set(3, 30).is_ok());
    assert_eq!(cache.get(&3), Some(30));
}

#[test]
fn test_cache_string_keys() {
    let mut cache: devflow_pro::cache::Cache<String, Vec<u8>> =
        devflow_pro::cache::Cache::new(4);
    assert!(cache.set("a".to_string(), vec![1]).is_ok());
    assert!(cache.set("a".to_string(), vec![2]).is_ok());
    assert_eq!(cache.get(&"a".to_string()), Some(vec![2]));
    assert_eq!(cache.get(&"b".to_string()), None);
}
