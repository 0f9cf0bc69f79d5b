use my_lark::unread::UnreadCounts;

#[test]
fn empty_store_has_no_entries() {
    let u = UnreadCounts::new();
    assert_eq!(u.len(), 0);
    assert_eq!(u.get("anything"), None);
}

#[test]
fn set_adds_and_overwrites() {
    let mut u = UnreadCounts::new();
    u.set("a", 2);
    u.set("b", 5);
    assert_eq!(u.len(), 2);
    assert_eq!(u.get("a"), Some(2));
    assert_eq!(u.get("b"), Some(5));
    u.set("a", 9);
    assert_eq!(u.len(), 2);
    assert_eq!(u.get("a"), Some(9));
}

#[test]
fn increment_touches_only_existing_entries() {
    let mut u = UnreadCounts::new();
    u.set("a", 0);
    u.increment("a");
    u.increment("a");
    u.increment("ghost");
    assert_eq!(u.get("a"), Some(2));
    assert_eq!(u.get("ghost"), None);
}

#[test]
fn reset_zeroes_only_existing_entries() {
    let mut u = UnreadCounts::new();
    u.set("a", 8);
    u.reset("a");
    u.reset("ghost");
    assert_eq!(u.get("a"), Some(0));
    assert_eq!(u.get("ghost"), None);
}
