use scholarships::assoc::AssocMap;

fn keys<V>(m: &AssocMap<V>) -> Vec<String> {
    m.entries().iter().map(|e| e.0.clone()).collect()
}

#[test]
fn insert_then_get() {
    let mut m: AssocMap<u32> = AssocMap::new();
    assert_eq!(m.len(), 0);
    m.insert("a".to_string(), 1);
    m.insert("b".to_string(), 2);
    assert_eq!(m.get("a"), Some(&1));
    assert_eq!(m.get("b"), Some(&2));
    assert_eq!(m.get("c"), None);
    assert!(m.contains_key("a"));
    assert!(!m.contains_key("c"));
    assert_eq!(m.len(), 2);
}

#[test]
fn insert_replaces_and_keeps_place() {
    let mut m: AssocMap<u32> = AssocMap::new();
    m.insert("a".to_string(), 1);
    m.insert("b".to_string(), 2);
    m.insert("a".to_string(), 3);
    assert_eq!(m.get("a"), Some(&3));
    assert_eq!(m.len(), 2);
    assert_eq!(keys(&m), vec!["a", "b"]);
}

#[test]
fn remove_takes_value_out() {
    let mut m: AssocMap<u32> = AssocMap::new();
    m.insert("a".to_string(), 1);
    m.insert("b".to_string(), 2);
    assert_eq!(m.remove("a"), Some(1));
    assert_eq!(m.remove("a"), None);
    assert_eq!(m.get("a"), None);
    assert_eq!(m.get("b"), Some(&2));
    assert_eq!(keys(&m), vec!["b"]);
}

#[test]
fn extend_prefers_new_values() {
    let mut m: AssocMap<u32> = AssocMap::new();
    m.insert("a".to_string(), 1);
    m.insert("b".to_string(), 2);
    let mut other: AssocMap<u32> = AssocMap::new();
    other.insert("b".to_string(), 20);
    other.insert("c".to_string(), 30);
    m.extend(other);
    assert_eq!(m.get("a"), Some(&1));
    assert_eq!(m.get("b"), Some(&20));
    assert_eq!(m.get("c"), Some(&30));
    assert_eq!(keys(&m), vec!["a", "b", "c"]);
}

#[test]
fn push_to_builds_lists() {
    let mut m: AssocMap<Vec<u32>> = AssocMap::new();
    m.push_to("x".to_string(), 1);
    m.push_to("y".to_string(), 2);
    m.push_to("x".to_string(), 3);
    assert_eq!(m.get("x"), Some(&vec![1, 3]));
    assert_eq!(m.get("y"), Some(&vec![2]));
    assert_eq!(keys(&m), vec!["x", "y"]);
}

#[test]
fn from_distinct_keeps_entries() {
    let m = AssocMap::from_distinct(vec![("k".to_string(), 5u8), ("l".to_string(), 6u8)]);
    assert_eq!(m.get("l"), Some(&6));
    let entries = m.into_entries();
    assert_eq!(entries, vec![("k".to_string(), 5u8), ("l".to_string(), 6u8)]);
}
