use screenie_server::Registry;

#[test]
fn reserve_new_returns_fresh_identifier_below_bound() {
    let mut reg = Registry::new(100);
    let id = reg.reserve_new(10_000).expect("space is empty");
    assert!(id < 100);
    assert!(reg.contains(id));
}

#[test]
fn reserved_identifiers_are_distinct() {
    let mut reg = Registry::new(56800235584);
    let mut seen = Vec::new();
    for _ in 0..200 {
        let id = reg.reserve_new(1_000_000).expect("space is nearly empty");
        assert!(!seen.contains(&id));
        seen.push(id);
    }
    assert_eq!(reg.len(), 200);
}

#[test]
fn read_your_write() {
    let mut reg = Registry::new(1000);
    let mut ids = Vec::new();
    for _ in 0..50 {
        let id = reg.reserve_new(1_000_000).expect("space is nearly empty");
        ids.push(id);
        for earlier in &ids {
            assert!(reg.contains(*earlier));
        }
    }
}

#[test]
fn exhausted_space_is_reported() {
    let mut reg = Registry::new(1);
    assert_eq!(reg.reserve_new(100), Some(0));
    assert!(reg.contains(0));
    assert_eq!(reg.reserve_new(100), None);
    assert_eq!(reg.len(), 1);
}

#[test]
fn mark_used_is_idempotent_and_monotonic() {
    let mut reg = Registry::new(10);
    assert!(!reg.contains(7));
    reg.mark_used(7);
    assert!(reg.contains(7));
    reg.mark_used(7);
    assert!(reg.contains(7));
    assert_eq!(reg.len(), 1);
    reg.mark_used(3);
    assert_eq!(reg.len(), 2);
    assert!(reg.contains(7) && reg.contains(3));
}

#[test]
fn zero_attempts_reserve_nothing() {
    let mut reg = Registry::new(1000);
    assert_eq!(reg.reserve_new(0), None);
    assert_eq!(reg.len(), 0);
}

#[test]
fn a_free_space_owes_the_first_draw() {
    let mut reg = Registry::new(1000);
    let id = reg.reserve_new(1).expect("nothing is allocated, so one attempt suffices");
    assert!(id < 1000);
    assert!(reg.contains(id));
}
