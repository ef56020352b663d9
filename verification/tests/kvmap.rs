//! Unit tests for the per-track key/value store.

use tracktable::kvmap::KvMap;

#[test]
fn missing_key_is_none() {
    let m = KvMap::new();
    assert_eq!(m.get(&"Name".to_string()), None);
}

#[test]
fn set_then_get() {
    let mut m = KvMap::new();
    m.set("Name".to_string(), "A".to_string());
    assert_eq!(m.get(&"Name".to_string()), Some("A".to_string()));
    assert_eq!(m.get(&"Rating".to_string()), None);
}

#[test]
fn overwrite_takes_last_value() {
    let mut m = KvMap::new();
    m.set("Name".to_string(), "first".to_string());
    m.set("Name".to_string(), "second".to_string());
    assert_eq!(m.get(&"Name".to_string()), Some("second".to_string()));
}
