use position_id::boundary::IdentifierArena;

#[test]
fn acquire_then_expose_round_trips_the_text() {
    let mut arena = IdentifierArena::new();
    let h = arena.acquire("P-123456789");
    assert_eq!(arena.expose(h), Some("P-123456789"));
    let id = arena.lookup(h).expect("handle must be live after acquire");
    assert_eq!(id.display(), "P-123456789");
}

#[test]
fn handles_of_equal_text_compare_equal_and_hash_alike() {
    let mut arena = IdentifierArena::new();
    let a = arena.acquire("P-123456789");
    let b = arena.acquire("P-123456789");
    let c = arena.acquire("P-234567890");
    assert_ne!(a, b);
    assert_eq!(arena.eq_handles(a, b), Some(1));
    assert_eq!(arena.eq_handles(a, c), Some(0));
    assert_eq!(arena.hash_handle(a), arena.hash_handle(b));
    assert_ne!(arena.hash_handle(a), arena.hash_handle(c));
}

#[test]
fn release_completes_without_error() {
    let mut arena = IdentifierArena::new();
    let h = arena.acquire("001");
    assert!(arena.release(h));
}

#[test]
fn release_is_terminal_and_checked() {
    let mut arena = IdentifierArena::new();
    let h = arena.acquire("P-123456789");
    assert!(arena.release(h));

    // Every later operation on the released handle fails cleanly.
    assert!(!arena.release(h));
    assert!(arena.lookup(h).is_none());
    assert_eq!(arena.expose(h), None);
    assert_eq!(arena.hash_handle(h), None);

    // Later acquires never revive the released handle.
    let fresh = arena.acquire("P-123456789");
    assert_ne!(fresh, h);
    assert!(arena.lookup(h).is_none());
    assert_eq!(arena.eq_handles(h, fresh), None);
}

#[test]
fn operations_on_a_never_acquired_handle_fail_cleanly() {
    let arena = IdentifierArena::new();
    assert!(arena.lookup(7).is_none());
    assert_eq!(arena.expose(7), None);
    assert_eq!(arena.hash_handle(7), None);
    assert_eq!(arena.eq_handles(0, 7), None);
}

#[test]
fn releasing_one_handle_leaves_the_others_untouched() {
    let mut arena = IdentifierArena::new();
    let a = arena.acquire("P-1");
    let b = arena.acquire("P-2");
    let c = arena.acquire("P-3");
    assert!(arena.release(b));
    assert_eq!(arena.expose(a), Some("P-1"));
    assert_eq!(arena.expose(b), None);
    assert_eq!(arena.expose(c), Some("P-3"));
}
