use bedrock::primitives::bytemap::{compare_keys, ByteMap, KeyOrder};
use bedrock::primitives::state::{OverlayResult, StateOverlay};

#[test]
fn test_overlay_set_and_get() {
    let mut overlay = StateOverlay::new();
    overlay.set(b"key1".to_vec(), b"value1".to_vec());
    assert_eq!(overlay.get(b"key1"), OverlayResult::Found(b"value1".to_vec()));
}

#[test]
fn test_overlay_not_in_overlay() {
    let overlay = StateOverlay::new();
    assert_eq!(overlay.get(b"missing"), OverlayResult::NotInOverlay);
}

#[test]
fn test_overlay_delete() {
    let mut overlay = StateOverlay::new();
    overlay.set(b"key1".to_vec(), b"value1".to_vec());
    overlay.delete(b"key1".to_vec());
    assert_eq!(overlay.get(b"key1"), OverlayResult::Deleted);
}

#[test]
fn test_overlay_delete_then_set() {
    let mut overlay = StateOverlay::new();
    overlay.delete(b"key1".to_vec());
    assert_eq!(overlay.get(b"key1"), OverlayResult::Deleted);

    overlay.set(b"key1".to_vec(), b"new_value".to_vec());
    assert_eq!(overlay.get(b"key1"), OverlayResult::Found(b"new_value".to_vec()));
}

#[test]
fn test_overlay_overwrite() {
    let mut overlay = StateOverlay::new();
    overlay.set(b"key1".to_vec(), b"v1".to_vec());
    overlay.set(b"key1".to_vec(), b"v2".to_vec());
    assert_eq!(overlay.get(b"key1"), OverlayResult::Found(b"v2".to_vec()));
}

#[test]
fn test_overlay_drain_order() {
    let mut overlay = StateOverlay::new();
    overlay.set(b"c".to_vec(), b"3".to_vec());
    overlay.set(b"a".to_vec(), b"1".to_vec());
    overlay.set(b"b".to_vec(), b"2".to_vec());
    overlay.delete(b"d".to_vec());

    let writes = overlay.drain();
    let mut keys: Vec<&Vec<u8>> = Vec::new();
    for i in 0..writes.len() {
        keys.push(writes.key_at(i));
    }
    assert_eq!(keys, vec![b"a", b"b", b"c", b"d"]);

    assert_eq!(writes.get(b"a"), Some(&Some(b"1".to_vec())));
    assert_eq!(writes.get(b"d"), Some(&None));
}

#[test]
fn test_overlay_clear() {
    let mut overlay = StateOverlay::new();
    overlay.set(b"key1".to_vec(), b"value1".to_vec());
    assert!(!overlay.is_empty());

    overlay.clear();
    assert!(overlay.is_empty());
    assert_eq!(overlay.len(), 0);
    assert_eq!(overlay.total_write_bytes(), 0);
}

#[test]
fn test_overlay_total_write_bytes() {
    let mut overlay = StateOverlay::new();
    overlay.set(b"key1".to_vec(), b"value1".to_vec());
    assert_eq!(overlay.total_write_bytes(), 10);

    overlay.set(b"key2".to_vec(), b"val2".to_vec());
    assert_eq!(overlay.total_write_bytes(), 18);

    overlay.set(b"key1".to_vec(), b"v".to_vec());
    assert_eq!(overlay.total_write_bytes(), 13);
}

#[test]
fn test_overlay_contains_key() {
    let mut overlay = StateOverlay::new();
    overlay.set(b"key1".to_vec(), b"value1".to_vec());
    overlay.delete(b"key2".to_vec());

    assert!(overlay.contains_key(b"key1"));
    assert!(overlay.contains_key(b"key2"));
    assert!(!overlay.contains_key(b"key3"));
}

#[test]
fn test_overlay_len() {
    let mut overlay = StateOverlay::new();
    assert_eq!(overlay.len(), 0);

    overlay.set(b"a".to_vec(), b"1".to_vec());
    assert_eq!(overlay.len(), 1);

    overlay.delete(b"b".to_vec());
    assert_eq!(overlay.len(), 2);

    overlay.set(b"a".to_vec(), b"2".to_vec());
    assert_eq!(overlay.len(), 2);
}

#[test]
fn delete_counts_the_key_bytes() {
    let mut overlay = StateOverlay::new();
    overlay.set(b"key1".to_vec(), b"value1".to_vec());
    overlay.delete(b"key1".to_vec());
    assert_eq!(overlay.total_write_bytes(), 4);
    overlay.delete(b"other".to_vec());
    assert_eq!(overlay.total_write_bytes(), 9);
    overlay.set(b"other".to_vec(), b"xy".to_vec());
    assert_eq!(overlay.total_write_bytes(), 11);
    assert_eq!(StateOverlay::default().total_write_bytes(), 0);
}

#[test]
fn writes_view_is_sorted_whatever_the_insertion_order() {
    let orders: [[&[u8]; 4]; 3] =
        [[b"d", b"a", b"c", b"b"], [b"a", b"b", b"c", b"d"], [b"c", b"d", b"b", b"a"]];
    for order in orders {
        let mut overlay = StateOverlay::new();
        for k in order {
            overlay.set(k.to_vec(), k.to_vec());
        }
        let writes = overlay.writes();
        let keys: Vec<Vec<u8>> = (0..writes.len()).map(|i| writes.key_at(i).clone()).collect();
        assert_eq!(keys, vec![b"a".to_vec(), b"b".to_vec(), b"c".to_vec(), b"d".to_vec()]);
    }
}

#[test]
fn key_order_is_lexicographic() {
    assert_eq!(compare_keys(b"a", b"b"), KeyOrder::Less);
    assert_eq!(compare_keys(b"b", b"a"), KeyOrder::Greater);
    assert_eq!(compare_keys(b"ab", b"ab"), KeyOrder::Equal);
    assert_eq!(compare_keys(b"a", b"ab"), KeyOrder::Less);
    assert_eq!(compare_keys(b"ab", b"a"), KeyOrder::Greater);
    assert_eq!(compare_keys(b"", b""), KeyOrder::Equal);
    assert_eq!(compare_keys(b"", b"\x00"), KeyOrder::Less);
    assert_eq!(compare_keys(b"\xff", b"\x00\x00"), KeyOrder::Greater);
    assert_eq!(compare_keys(b"a\x00", b"a"), KeyOrder::Greater);
}

#[test]
fn byte_map_behaves_like_an_ordered_map() {
    let mut map: ByteMap<u32> = ByteMap::new();
    assert!(map.is_empty());
    let keys: [&[u8]; 6] = [b"m", b"c", b"x", b"a", b"mm", b""];
    for (i, k) in keys.iter().enumerate() {
        map.insert(k.to_vec(), i as u32);
    }
    assert_eq!(map.len(), 6);
    let sorted: Vec<Vec<u8>> = (0..map.len()).map(|i| map.key_at(i).clone()).collect();
    let mut expected: Vec<Vec<u8>> = keys.iter().map(|k| k.to_vec()).collect();
    expected.sort();
    assert_eq!(sorted, expected);
    assert_eq!(map.get(b"x"), Some(&2));
    assert_eq!(map.get(b""), Some(&5));
    assert_eq!(map.get(b"zz"), None);
    assert_eq!(map.search(b"c"), (true, 2));
    assert_eq!(map.search(b"b"), (false, 2));
    map.insert(b"x".to_vec(), 9);
    assert_eq!(map.len(), 6);
    assert_eq!(map.get(b"x"), Some(&9));
    map.remove(b"m");
    map.remove(b"not there");
    assert_eq!(map.len(), 5);
    assert!(!map.contains_key(b"m"));
    assert!(map.contains_key(b"mm"));
    map.clear();
    assert!(map.is_empty());
}
