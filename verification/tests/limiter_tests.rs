use badmap::limiter::Limiter;

#[test]
fn a_new_gate_has_all_tokens_free() {
    let gate = Limiter::new(1000);
    assert_eq!(gate.capacity(), 1000);
    assert_eq!(gate.in_use(), 0);
    assert_eq!(gate.available(), 1000);
}

#[test]
fn a_gate_grants_no_more_than_its_limit() {
    let mut gate = Limiter::new(3);
    let mut granted = 0;
    for _ in 0..65535 {
        if gate.try_acquire() {
            granted += 1;
        }
        assert!(gate.in_use() <= gate.capacity());
    }
    assert_eq!(granted, 3);
    assert_eq!(gate.in_use(), 3);
    assert_eq!(gate.available(), 0);
}

#[test]
fn a_released_token_can_be_taken_again() {
    let mut gate = Limiter::new(2);
    assert!(gate.try_acquire());
    assert!(gate.try_acquire());
    assert!(!gate.try_acquire());
    assert!(gate.release());
    assert_eq!(gate.in_use(), 1);
    assert_eq!(gate.available(), 1);
    assert!(gate.try_acquire());
    assert!(!gate.try_acquire());
    assert!(gate.release());
    assert!(gate.release());
    assert_eq!(gate.in_use(), 0);
}

#[test]
fn releasing_nothing_changes_nothing() {
    let mut gate = Limiter::new(2);
    assert!(!gate.release());
    assert_eq!(gate.in_use(), 0);
    assert_eq!(gate.available(), 2);
}

#[test]
fn a_gate_without_tokens_grants_nothing() {
    let mut gate = Limiter::new(0);
    assert!(!gate.try_acquire());
    assert_eq!(gate.in_use(), 0);
    assert_eq!(gate.available(), 0);
}
