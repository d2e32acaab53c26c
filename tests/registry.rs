use chatroom::registry::Registry;

#[test]
fn new_registry_is_empty() {
    let r = Registry::new();
    assert_eq!(r.len(), 0);
    assert!(!r.contains("alice"));
}

#[test]
fn register_stores_trimmed_name() {
    let mut r = Registry::new();
    assert!(r.try_register("  alice \t"));
    assert!(r.contains("alice"));
    assert!(!r.contains("  alice \t"));
    assert_eq!(r.len(), 1);
}

#[test]
fn duplicate_name_is_rejected_unchanged() {
    let mut r = Registry::new();
    assert!(r.try_register("alice"));
    assert!(r.try_register("bob"));
    assert!(!r.try_register("alice"));
    assert_eq!(r.len(), 2);
    assert!(r.contains("alice"));
    assert!(r.contains("bob"));
}

#[test]
fn name_padded_with_white_space_is_a_duplicate() {
    let mut r = Registry::new();
    assert!(r.try_register("alice"));
    assert!(!r.try_register(" alice"));
    assert!(!r.try_register("alice\u{3000}"));
    assert_eq!(r.len(), 1);
}

#[test]
fn names_differing_in_case_are_distinct() {
    let mut r = Registry::new();
    assert!(r.try_register("alice"));
    assert!(r.try_register("Alice"));
    assert_eq!(r.len(), 2);
}

#[test]
fn unregister_frees_the_name_and_is_idempotent() {
    let mut r = Registry::new();
    assert!(r.try_register("alice"));
    assert!(r.try_register("carol"));
    r.unregister("alice");
    assert!(!r.contains("alice"));
    assert!(r.contains("carol"));
    r.unregister("alice");
    r.unregister("nobody");
    assert_eq!(r.len(), 1);
    assert!(r.try_register("alice"));
}
