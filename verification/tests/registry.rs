use aj_studying::registry::Registry;

#[test]
fn set_then_get_returns_the_value() {
    let mut r = Registry::new();
    r.set(String::from("k"), String::from("v"));
    assert_eq!(r.get("k", 100), Some(String::from("v")));
    assert_eq!(r.get("other", 100), None);
}

#[test]
fn set_without_expire_never_dies() {
    let mut r = Registry::new();
    r.set(String::from("k"), String::new());
    assert!(r.get("k", i64::MAX - 1).is_some());
}

#[test]
fn expire_sets_a_deadline() {
    let mut r = Registry::new();
    r.set(String::from("k"), String::new());
    assert!(r.expire("k", 60, 1000));
    assert!(r.get("k", 1059).is_some());
    assert!(r.get("k", 1060).is_none());
}

#[test]
fn expire_on_a_missing_key_reports_false() {
    let mut r = Registry::new();
    assert!(!r.expire("k", 60, 1000));
}

#[test]
fn expire_on_a_dead_key_reports_false() {
    let mut r = Registry::new();
    r.set(String::from("k"), String::new());
    assert!(r.expire("k", 10, 1000));
    assert!(!r.expire("k", 10, 2000));
}

#[test]
fn set_overwrites_and_clears_the_deadline() {
    let mut r = Registry::new();
    r.set(String::from("k"), String::from("a"));
    assert!(r.expire("k", 10, 1000));
    r.set(String::from("k"), String::from("b"));
    assert_eq!(r.get("k", 5000), Some(String::from("b")));
    assert_eq!(r.len(), 1);
}

#[test]
fn del_removes_and_reports_liveness() {
    let mut r = Registry::new();
    r.set(String::from("k"), String::new());
    assert!(r.del("k", 100));
    assert!(r.get("k", 100).is_none());
    assert!(!r.del("k", 100));
}

#[test]
fn del_of_an_expired_key_reports_false() {
    let mut r = Registry::new();
    r.set(String::from("k"), String::new());
    assert!(r.expire("k", 10, 1000));
    assert!(!r.del("k", 2000));
    assert_eq!(r.len(), 0);
}

#[test]
fn distinct_keys_are_independent() {
    let mut r = Registry::new();
    r.set(String::from("a"), String::from("1"));
    r.set(String::from("b"), String::from("2"));
    assert!(r.del("a", 0));
    assert_eq!(r.get("b", 0), Some(String::from("2")));
    assert_eq!(r.len(), 1);
}
