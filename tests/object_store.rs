use forge::error::TransferError;
use forge::object::{check_well_formed, hash_object, link, link_count, HASH_LEN};
use forge::object_store::ObjectStore;

fn blob(content: &[u8]) -> Vec<u8> {
    let mut v = vec![0u8];
    v.extend_from_slice(content);
    v
}

#[test]
fn sha256_of_abc_is_the_known_digest() {
    let h = hash_object(b"abc");
    let expected: Vec<u8> = vec![
        0xba, 0x78, 0x16, 0xbf, 0x8f, 0x01, 0xcf, 0xea, 0x41, 0x41, 0x40, 0xde, 0x5d, 0xae, 0x22,
        0x23, 0xb0, 0x03, 0x61, 0xa3, 0x96, 0x17, 0x7a, 0x9c, 0xb4, 0x10, 0xff, 0x61, 0xf2, 0x00,
        0x15, 0xad,
    ];
    assert_eq!(h, expected);
    assert_eq!(h.len(), HASH_LEN);
}

#[test]
fn put_then_get_returns_the_same_bytes() {
    let mut store = ObjectStore::new(1024);
    let o = blob(b"hello");
    let h = store.put(o.clone()).unwrap();
    assert_eq!(h, hash_object(&o));
    assert_eq!(store.get(&h).unwrap(), o);
    assert!(store.contains(&h));
}

#[test]
fn putting_twice_keeps_one_copy() {
    let mut store = ObjectStore::new(1024);
    let o = blob(b"same");
    let h1 = store.put(o.clone()).unwrap();
    let h2 = store.put(o.clone()).unwrap();
    assert_eq!(h1, h2);
    assert_eq!(store.len(), 1);
    store.put(blob(b"other")).unwrap();
    assert_eq!(store.len(), 2);
}

#[test]
fn object_over_the_ceiling_is_refused() {
    let mut store = ObjectStore::new(4);
    assert_eq!(store.put(vec![0u8, 1, 2, 3, 4]), Err(TransferError::ObjectTooLarge));
    assert_eq!(store.len(), 0);
    assert!(store.put(vec![0u8, 1, 2, 3]).is_ok());
}

#[test]
fn unknown_hash_is_not_found() {
    let store = ObjectStore::new(1024);
    assert_eq!(store.get(&[7u8; 32]), Err(TransferError::NotFound));
    assert!(!store.contains(&[7u8; 32]));
}

#[test]
fn delete_all_empties_the_store() {
    let mut store = ObjectStore::new(1024);
    let h = store.put(blob(b"x")).unwrap();
    store.delete_all();
    assert_eq!(store.len(), 0);
    assert!(!store.contains(&h));
}

#[test]
fn object_layout_is_read_from_its_header() {
    let a = hash_object(b"a");
    let b = hash_object(b"b");
    let mut o = vec![2u8];
    o.extend_from_slice(&a);
    o.extend_from_slice(&b);
    o.extend_from_slice(b"tree");
    assert!(check_well_formed(&o));
    assert_eq!(link_count(&o), 2);
    assert_eq!(link(&o, 0), a);
    assert_eq!(link(&o, 1), b);
    assert!(!check_well_formed(&[1u8, 2, 3]));
    assert!(!check_well_formed(&[]));
    assert_eq!(link_count(&[3u8]), 0);
}

#[test]
fn reachable_objects_follow_references() {
    let mut store = ObjectStore::new(1024);
    let leaf = blob(b"leaf");
    let hl = store.put(leaf.clone()).unwrap();
    let mut mid = vec![1u8];
    mid.extend_from_slice(&hl);
    let hm = store.put(mid.clone()).unwrap();
    let stray = store.put(blob(b"stray")).unwrap();
    let found = store.reachable_objects(&vec![hm.clone()]);
    let mut hashes: Vec<Vec<u8>> = found.iter().map(|o| o.hash.clone()).collect();
    hashes.sort();
    let mut want = vec![hm, hl];
    want.sort();
    assert_eq!(hashes, want);
    assert!(found.iter().all(|o| o.hash != stray));
}
