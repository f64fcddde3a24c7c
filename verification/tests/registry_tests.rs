use chat_relay::registry::Registry;

#[test]
fn claim_succeeds_at_most_once() {
    let mut r = Registry::new();
    assert!(r.try_claim("alice"));
    assert!(r.contains_name("alice"));
    assert!(!r.try_claim("alice"));
}

#[test]
fn released_name_is_claimable_again() {
    let mut r = Registry::new();
    assert!(r.try_claim("alice"));
    r.release("alice");
    assert!(!r.contains_name("alice"));
    assert!(r.try_claim("alice"));
}

#[test]
fn release_of_unclaimed_name_is_a_noop() {
    let mut r = Registry::new();
    assert!(r.try_claim("alice"));
    r.release("bob");
    assert!(r.contains_name("alice"));
    assert!(!r.contains_name("bob"));
}

#[test]
fn distinct_names_coexist() {
    let mut r = Registry::new();
    assert!(r.try_claim("alice"));
    assert!(r.try_claim("bob"));
    assert!(r.contains_name("alice"));
    assert!(r.contains_name("bob"));
    r.release("alice");
    assert!(!r.contains_name("alice"));
    assert!(r.contains_name("bob"));
}
