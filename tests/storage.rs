use aadhaar_ballot::storage::{StorageKey, StorageMap};

#[test]
fn map_insert_get_remove() {
    let mut m: StorageMap<u32, u64> = StorageMap::new();
    assert_eq!(m.get(&1), None);
    m.insert(1, 10);
    m.insert(2, 20);
    m.insert(1, 11);
    assert_eq!(m.get(&1), Some(11));
    assert_eq!(m.get(&2), Some(20));
    assert!(m.contains_key(&2));
    m.remove(&2);
    assert!(!m.contains_key(&2));
    m.remove(&7);
    assert_eq!(m.get(&1), Some(11));
}

#[test]
fn array_keys_compare_by_content() {
    let a = *b"abcdefghijklmnop";
    let mut b = a;
    assert!(a.same(&b));
    b[15] = b'q';
    assert!(!a.same(&b));
    assert!((3u32, a).same(&(3u32, a)));
    assert!(!(3u32, a).same(&(4u32, a)));
}

#[test]
fn clear_prefix_respects_limit_and_other_prefixes() {
    let mut m: StorageMap<(u32, u64), bool> = StorageMap::new();
    for k in 0..5u64 {
        m.insert((7, k), true);
        m.insert((8, k), true);
    }
    assert_eq!(m.clear_prefix(&7, 3), (3, false));
    let left = (0..5u64).filter(|k| m.contains_key(&(7, *k))).count();
    assert_eq!(left, 2);
    assert_eq!(m.clear_prefix(&7, 3), (2, true));
    assert!((0..5u64).all(|k| !m.contains_key(&(7, k)) && m.contains_key(&(8, k))));
    assert_eq!(m.clear_prefix(&7, 3), (0, true));
    assert_eq!(m.clear_prefix(&8, 0), (0, false));
    assert_eq!(m.clear_prefix(&8, 5), (5, true));
}
