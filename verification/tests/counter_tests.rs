use protofish::counter::ContextCounter;

#[test]
fn server_ids_are_odd() {
    let mut c = ContextCounter::new(true);
    assert_eq!(c.next_context_id(), 1);
    assert_eq!(c.next_context_id(), 3);
    assert_eq!(c.next_context_id(), 5);
    for _ in 0..100 {
        assert_eq!(c.next_context_id() % 2, 1);
    }
}

#[test]
fn client_ids_are_even() {
    let mut c = ContextCounter::new(false);
    assert_eq!(c.next_context_id(), 0);
    assert_eq!(c.next_context_id(), 2);
    assert_eq!(c.next_context_id(), 4);
    for _ in 0..100 {
        assert_eq!(c.next_context_id() % 2, 0);
    }
}

#[test]
fn server_wrap_returns_base_value() {
    // u64::MAX is odd: a server counter may reach it.
    let mut c = ContextCounter::with_counter(true, u64::MAX);
    let id = c.next_context_id();
    assert_eq!(id, 1);
    assert_eq!(id % 2, 1);
    assert_eq!(c.next_context_id(), 1);
    assert_eq!(c.next_context_id(), 3);
}

#[test]
fn client_wrap_returns_base_value() {
    // u64::MAX - 1 is even: a client counter may reach it.
    let mut c = ContextCounter::with_counter(false, u64::MAX - 1);
    let id = c.next_context_id();
    assert_eq!(id, 2);
    assert_eq!(id % 2, 0);
    assert_eq!(c.next_context_id(), 2);
    assert_eq!(c.next_context_id(), 4);
}

#[test]
fn near_wrap_boundary_still_advances() {
    // u64::MAX - 4 is odd; the wrap rule does not fire yet.
    let mut c = ContextCounter::with_counter(true, u64::MAX - 4);
    assert_eq!(c.next_context_id(), u64::MAX - 4);
    // Counter is now u64::MAX - 2: within 2 of the top, so it wraps.
    assert_eq!(c.next_context_id(), 1);
}
