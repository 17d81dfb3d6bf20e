use zk_storage_core::storage::Storage;

fn hex32(s: &str) -> [u8; 32] {
    let bytes = s.as_bytes();
    assert_eq!(bytes.len(), 64);
    let mut out = [0u8; 32];
    for i in 0..32 {
        let hi = (bytes[2 * i] as char).to_digit(16).unwrap() as u8;
        let lo = (bytes[2 * i + 1] as char).to_digit(16).unwrap() as u8;
        out[i] = hi * 16 + lo;
    }
    out
}

#[test]
fn test_put_and_get() {
    let mut storage = Storage::new();
    storage.put("value1".to_string());
    assert_eq!(storage.get(0), Some(&"value1".to_string()));
}

#[test]
fn test_delete() {
    let mut storage = Storage::new();
    storage.put("value1".to_string());
    storage.delete(0);
    assert_eq!(storage.get(0), None);
}

#[test]
fn test_get_root() {
    let mut storage = Storage::new();
    storage.put("value1".to_string());
    let root = storage.get_root();
    assert!(root.is_some());
}

#[test]
fn test_root_hash_changes() {
    let mut storage = Storage::new();

    // Initial root hash
    let initial_root = storage.get_root();

    // Add first item and check root hash changes
    storage.put("value1".to_string());
    let root_after_first_put = storage.get_root();
    assert_ne!(initial_root, root_after_first_put);

    // Add second item and check root hash changes
    storage.put("value2".to_string());
    let root_after_second_put = storage.get_root();
    assert_ne!(root_after_first_put, root_after_second_put);
}

#[test]
fn test_root_hash_changes_on_delete() {
    let mut storage = Storage::new();

    // Add items
    storage.put("value1".to_string());
    storage.put("value2".to_string());

    // Root hash after adding items
    let root_after_put = storage.get_root();

    // Delete an item and check root hash changes
    storage.delete(0);
    let root_after_delete = storage.get_root();
    assert_ne!(root_after_put, root_after_delete);
}

// A store with the single value "a" exposes the SHA-256 digest of the byte
// "a" as its root: a one-leaf tree's root is that leaf's digest.
#[test]
fn root_of_single_string_leaf_is_its_digest() {
    let mut storage = Storage::new();
    storage.put("a".to_string());
    let expected = hex32("ca978112ca1bbdcafac231b39a23dc4da786eff8147c4e72b9807785afee48bb");
    assert_eq!(storage.get_root(), Some(expected));
}

// With the two values "a" and "b" the root combines the two leaf digests,
// so it differs from both and matches the fixed two-leaf tree digest.
#[test]
fn root_of_two_string_leaves_combines_digests() {
    let mut storage = Storage::new();
    storage.put("a".to_string());
    storage.put("b".to_string());
    let expected = hex32("e5a01fee14e0ed5c48714f22180f25ad8365b53f9779f79dc4a3d7e93963f94a");
    assert_eq!(storage.get_root(), Some(expected));
}

// A u32 value is encoded as its four little-endian bytes before hashing.
#[test]
fn u32_leaf_uses_little_endian_encoding() {
    let mut storage = Storage::new();
    storage.put(1234u32);
    let encoded = 1234u32.to_le_bytes();
    let digest: [u8; 32] = <sha2::Sha256 as sha2::Digest>::digest(&encoded).into();
    assert_eq!(storage.get_root(), Some(digest));
}

// Determinism: the bulk construction and value-by-value puts of the same
// sequence expose the same root, run after run.
#[test]
fn bulk_build_matches_sequential_puts() {
    let values: Vec<u32> = vec![7, 1, 99, 1, 42];
    let bulk = Storage::new_from_vec(values.clone());
    let bulk_again = Storage::new_from_vec(values.clone());
    let mut sequential = Storage::new();
    for v in values {
        sequential.put(v);
    }
    assert!(bulk.get_root().is_some());
    assert_eq!(bulk.get_root(), bulk_again.get_root());
    assert_eq!(bulk.get_root(), sequential.get_root());
}

// Deleting an index that is not present leaves contents and root unchanged.
#[test]
fn delete_of_absent_index_changes_nothing() {
    let mut storage = Storage::new_from_vec(vec![10u32, 20u32]);
    let root_before = storage.get_root();
    storage.delete(2);
    storage.delete(1000);
    assert_eq!(storage.get(0), Some(&10u32));
    assert_eq!(storage.get(1), Some(&20u32));
    assert_eq!(storage.get(2), None);
    assert_eq!(storage.get_root(), root_before);
}

// After a delete the root equals the root of a store built fresh from the
// surviving values in their original order.
#[test]
fn delete_matches_fresh_build_of_survivors() {
    let mut storage = Storage::new();
    storage.put("value1".to_string());
    storage.put("value2".to_string());
    let root_before = storage.get_root();
    storage.delete(0);
    let fresh = Storage::new_from_vec(vec!["value2".to_string()]);
    assert_eq!(storage.get_root(), fresh.get_root());
    assert_ne!(storage.get_root(), root_before);
}

// Membership is decided by value equality, independent of position.
#[test]
fn contains_compares_by_value() {
    let storage = Storage::new_from_vec(vec![5u32, 6u32, 5u32]);
    assert!(storage.contains(&5u32));
    assert!(storage.contains(&6u32));
    assert!(!storage.contains(&7u32));
    let empty: Storage<u32> = Storage::new();
    assert!(!empty.contains(&5u32));
}

// An empty store has no root; the root appears with the first value.
#[test]
fn empty_store_has_no_root() {
    let storage: Storage<u32> = Storage::new();
    assert_eq!(storage.get_root(), None);
    assert_eq!(storage.get(0), None);
}
