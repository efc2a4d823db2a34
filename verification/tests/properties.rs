use mantra::properties::{merge_local_and_base_properties, Properties};
use serde_json::Value;

fn props(entries: &[(&str, i64)]) -> Properties {
    let mut p = Properties::new();
    for (k, v) in entries {
        p.insert(k.to_string(), Value::from(*v));
    }
    p
}

#[test]
fn local_properties_take_precedence() {
    let merged = merge_local_and_base_properties(Some(props(&[("a", 1), ("b", 2)])), &Some(props(&[("b", 9), ("c", 3)]))).unwrap();
    assert_eq!(merged.len(), 3);
    assert_eq!(merged.get(&"a".to_string()), Some(&Value::from(1)));
    assert_eq!(merged.get(&"b".to_string()), Some(&Value::from(2)));
    assert_eq!(merged.get(&"c".to_string()), Some(&Value::from(3)));
}

#[test]
fn absent_properties_stay_absent() {
    assert!(merge_local_and_base_properties(None, &None).is_none());
    let only_base = merge_local_and_base_properties(None, &Some(props(&[("x", 1)]))).unwrap();
    assert_eq!(only_base.get(&"x".to_string()), Some(&Value::from(1)));
}

#[test]
fn insert_replaces_existing_key() {
    let mut p = props(&[("k", 1)]);
    p.insert("k".to_string(), Value::from(5));
    assert_eq!(p.len(), 1);
    assert!(p.contains_key(&"k".to_string()));
    assert_eq!(p.get(&"k".to_string()), Some(&Value::from(5)));
}
