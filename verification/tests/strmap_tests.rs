use ccs::strmap::StrMap;

#[test]
fn keys_come_out_sorted() {
    let mut m: StrMap<u32> = StrMap::new();
    m.insert("zeta".to_string(), 1);
    m.insert("alpha".to_string(), 2);
    m.insert("mid".to_string(), 3);
    m.insert("Alpha".to_string(), 4);
    assert_eq!(m.keys(), vec!["Alpha", "alpha", "mid", "zeta"]);
    assert_eq!(m.len(), 4);
    assert_eq!(m.key_at(0), "Alpha");
    assert_eq!(*m.value_at(3), 1);
}

#[test]
fn insert_replaces_and_returns_old_value() {
    let mut m: StrMap<u32> = StrMap::new();
    assert_eq!(m.insert("a".to_string(), 1), None);
    assert_eq!(m.insert("a".to_string(), 2), Some(1));
    assert_eq!(m.get("a"), Some(&2));
    assert_eq!(m.len(), 1);
}

#[test]
fn remove_returns_value_and_forgets_key() {
    let mut m: StrMap<u32> = StrMap::new();
    m.insert("a".to_string(), 1);
    m.insert("b".to_string(), 2);
    assert_eq!(m.remove("a"), Some(1));
    assert_eq!(m.remove("a"), None);
    assert!(!m.contains_key("a"));
    assert!(m.contains_key("b"));
    assert_eq!(m.keys(), vec!["b"]);
}

#[test]
fn prefix_keys_order_before_longer_ones() {
    let mut m: StrMap<u32> = StrMap::new();
    m.insert("ab".to_string(), 1);
    m.insert("a".to_string(), 2);
    m.insert("".to_string(), 3);
    m.insert("é".to_string(), 4);
    m.insert("b".to_string(), 5);
    assert_eq!(m.keys(), vec!["", "a", "ab", "b", "é"]);
}
