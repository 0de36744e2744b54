use scylla_pool::{Action, Event, PoolError, PoolState, RecyclingMethod};

fn granted(acts: &[Action]) -> Option<(u64, u64)> {
    acts.iter().find_map(|a| match a {
        Action::Grant { ticket, resource } => Some((*ticket, *resource)),
        _ => None,
    })
}

/// Acquire and complete the creation it asks for; returns the session.
fn acquire_new(p: &mut PoolState) -> u64 {
    let acts = p.acquire();
    let t = match acts[..] {
        [Action::Create { ticket }] => ticket,
        _ => panic!("expected a creation, got {:?}", acts),
    };
    let acts = p.created(t, true);
    assert_eq!(acts, vec![Action::Grant { ticket: t, resource: t }]);
    t
}

#[test]
fn first_acquire_creates_then_grants() {
    let mut p = PoolState::new(2, RecyclingMethod::Fast);
    assert_eq!(p.acquire(), vec![Action::Create { ticket: 0 }]);
    assert_eq!(p.creating_count(), 1);
    assert_eq!(p.created(0, true), vec![Action::Grant { ticket: 0, resource: 0 }]);
    assert_eq!(p.in_use_count(), 1);
    assert_eq!(p.creating_count(), 0);
}

#[test]
fn checked_out_never_exceeds_max_size() {
    let mut p = PoolState::new(3, RecyclingMethod::Fast);
    let mut held = Vec::new();
    for _ in 0..3 {
        held.push(acquire_new(&mut p));
    }
    for _ in 0..4 {
        let acts = p.acquire();
        assert!(matches!(acts[..], [Action::Wait { .. }]));
        assert!(p.in_use_count() <= p.max_size());
    }
    assert_eq!(p.in_use_count(), 3);
    assert_eq!(p.waiting_count(), 4);
    for r in held {
        p.release(r);
        assert!(p.in_use_count() <= 3);
    }
    assert_eq!(p.in_use_count(), 3);
    assert_eq!(p.waiting_count(), 1);
}

#[test]
fn full_pool_makes_next_caller_wait() {
    let mut p = PoolState::new(2, RecyclingMethod::Fast);
    let a = acquire_new(&mut p);
    let _b = acquire_new(&mut p);
    let acts = p.acquire();
    assert_eq!(acts, vec![Action::Wait { ticket: 2 }]);
    // Given back, the session goes to the waiter.
    assert_eq!(p.release(a), vec![Action::Grant { ticket: 2, resource: a }]);
    assert_eq!(p.waiting_count(), 0);
}

#[test]
fn waiters_are_served_in_order() {
    let mut p = PoolState::new(1, RecyclingMethod::Fast);
    let a = acquire_new(&mut p);
    assert_eq!(p.acquire(), vec![Action::Wait { ticket: 1 }]);
    assert_eq!(p.acquire(), vec![Action::Wait { ticket: 2 }]);
    assert_eq!(p.release(a), vec![Action::Grant { ticket: 1, resource: a }]);
    assert_eq!(p.release(a), vec![Action::Grant { ticket: 2, resource: a }]);
}

#[test]
fn fast_release_never_validates() {
    let mut p = PoolState::new(2, RecyclingMethod::Fast);
    let a = acquire_new(&mut p);
    let acts = p.release(a);
    assert!(acts.iter().all(|x| !matches!(x, Action::Validate { .. })));
    assert_eq!(p.idle_count(), 1);
    // The idle session is reused.
    assert_eq!(p.acquire(), vec![Action::Grant { ticket: 1, resource: a }]);
}

#[test]
fn idle_reuse_prefers_most_recent() {
    let mut p = PoolState::new(2, RecyclingMethod::Fast);
    let a = acquire_new(&mut p);
    let b = acquire_new(&mut p);
    p.release(a);
    p.release(b);
    assert_eq!(granted(&p.acquire()), Some((2, b)));
    assert_eq!(granted(&p.acquire()), Some((3, a)));
}

#[test]
fn checked_release_validates_exactly_once() {
    for method in [
        RecyclingMethod::Verified,
        RecyclingMethod::Clean,
        RecyclingMethod::Custom("SELECT 1".to_string()),
    ] {
        let mut p = PoolState::new(1, method);
        let a = acquire_new(&mut p);
        assert_eq!(p.release(a), vec![Action::Validate { resource: a }]);
        assert_eq!(p.recycling_count(), 1);
        assert_eq!(p.recycled(a, true), vec![]);
        assert_eq!(p.idle_count(), 1);
        assert_eq!(p.acquire(), vec![Action::Grant { ticket: 1, resource: a }]);
    }
}

#[test]
fn failed_check_retires_the_session() {
    let mut p = PoolState::new(1, RecyclingMethod::Verified);
    let a = acquire_new(&mut p);
    p.release(a);
    assert_eq!(p.recycled(a, false), vec![Action::Destroy { resource: a }]);
    assert_eq!(p.idle_count(), 0);
    let acts = p.acquire();
    assert_eq!(acts, vec![Action::Create { ticket: 1 }]);
    let acts = p.created(1, true);
    assert_eq!(granted(&acts), Some((1, 1)));
    assert_ne!(granted(&acts).unwrap().1, a);
    // A late or repeated report about the retired session changes nothing.
    assert_eq!(p.release(a), vec![]);
    assert_eq!(p.recycled(a, true), vec![]);
    assert_eq!(p.in_use_count(), 1);
}

#[test]
fn failed_check_replenishes_for_a_waiter() {
    let mut p = PoolState::new(1, RecyclingMethod::Verified);
    let a = acquire_new(&mut p);
    assert_eq!(p.acquire(), vec![Action::Wait { ticket: 1 }]);
    p.release(a);
    assert_eq!(
        p.recycled(a, false),
        vec![Action::Destroy { resource: a }, Action::Create { ticket: 1 }]
    );
    assert_eq!(p.created(1, true), vec![Action::Grant { ticket: 1, resource: 1 }]);
}

#[test]
fn timed_out_waiter_gets_nothing_later() {
    let mut p = PoolState::new(1, RecyclingMethod::Fast);
    let a = acquire_new(&mut p);
    assert_eq!(p.acquire(), vec![Action::Wait { ticket: 1 }]);
    assert_eq!(
        p.timeout(1),
        vec![Action::Fail { ticket: 1, error: PoolError::Timeout }]
    );
    // Released right after: nobody waits, so it goes idle.
    assert_eq!(p.release(a), vec![]);
    assert_eq!(p.idle_count(), 1);
    assert_eq!(p.timeout(1), vec![]);
}

#[test]
fn timeout_scenario_without_release() {
    // One slot; A holds it; B waits with a deadline that passes.
    let mut p = PoolState::new(1, RecyclingMethod::Fast);
    let _a = acquire_new(&mut p);
    assert_eq!(p.acquire(), vec![Action::Wait { ticket: 1 }]);
    assert_eq!(
        p.step(Event::Timeout { ticket: 1 }),
        vec![Action::Fail { ticket: 1, error: PoolError::Timeout }]
    );
}

#[test]
fn timeout_scenario_with_release_in_time() {
    let mut p = PoolState::new(1, RecyclingMethod::Fast);
    let a = acquire_new(&mut p);
    assert_eq!(p.acquire(), vec![Action::Wait { ticket: 1 }]);
    assert_eq!(
        p.step(Event::Release { resource: a }),
        vec![Action::Grant { ticket: 1, resource: a }]
    );
    // The deadline passing afterwards changes nothing.
    assert_eq!(p.step(Event::Timeout { ticket: 1 }), vec![]);
    assert_eq!(p.in_use_count(), 1);
}

#[test]
fn failed_creation_frees_capacity() {
    let mut p = PoolState::new(1, RecyclingMethod::Fast);
    assert_eq!(p.acquire(), vec![Action::Create { ticket: 0 }]);
    assert_eq!(
        p.created(0, false),
        vec![Action::Fail { ticket: 0, error: PoolError::CreateFailed }]
    );
    assert_eq!(p.creating_count(), 0);
    assert_eq!(p.acquire(), vec![Action::Create { ticket: 1 }]);
}

#[test]
fn failed_creation_passes_slot_to_waiter() {
    let mut p = PoolState::new(1, RecyclingMethod::Fast);
    assert_eq!(p.acquire(), vec![Action::Create { ticket: 0 }]);
    assert_eq!(p.acquire(), vec![Action::Wait { ticket: 1 }]);
    assert_eq!(
        p.created(0, false),
        vec![
            Action::Fail { ticket: 0, error: PoolError::CreateFailed },
            Action::Create { ticket: 1 }
        ]
    );
}

#[test]
fn close_destroys_idle_now_and_held_on_release() {
    let mut p = PoolState::new(3, RecyclingMethod::Fast);
    let a = acquire_new(&mut p);
    let b = acquire_new(&mut p);
    let c = acquire_new(&mut p);
    p.release(a);
    p.release(b);
    assert_eq!(p.idle_count(), 2);
    assert_eq!(
        p.close(),
        vec![Action::Destroy { resource: a }, Action::Destroy { resource: b }]
    );
    assert!(p.is_closed());
    assert_eq!(p.idle_count(), 0);
    assert_eq!(p.in_use_count(), 1);
    assert_eq!(
        p.acquire(),
        vec![Action::Fail { ticket: 3, error: PoolError::Closed }]
    );
    assert_eq!(p.release(c), vec![Action::Destroy { resource: c }]);
    assert_eq!(p.in_use_count(), 0);
}

#[test]
fn close_cancels_waiters() {
    let mut p = PoolState::new(1, RecyclingMethod::Verified);
    let a = acquire_new(&mut p);
    p.acquire();
    p.acquire();
    assert_eq!(
        p.step(Event::Close),
        vec![
            Action::Fail { ticket: 1, error: PoolError::Closed },
            Action::Fail { ticket: 2, error: PoolError::Closed }
        ]
    );
    assert_eq!(p.waiting_count(), 0);
    // A held session given back after close is destroyed, not checked.
    assert_eq!(p.release(a), vec![Action::Destroy { resource: a }]);
}

#[test]
fn check_passing_after_close_destroys() {
    let mut p = PoolState::new(1, RecyclingMethod::Verified);
    let a = acquire_new(&mut p);
    assert_eq!(p.release(a), vec![Action::Validate { resource: a }]);
    assert_eq!(p.close(), vec![]);
    assert_eq!(p.recycled(a, true), vec![Action::Destroy { resource: a }]);
}

#[test]
fn unknown_events_are_ignored() {
    let mut p = PoolState::new(1, RecyclingMethod::Fast);
    assert_eq!(p.created(7, true), vec![]);
    assert_eq!(p.release(7), vec![]);
    assert_eq!(p.recycled(7, false), vec![]);
    assert_eq!(p.timeout(7), vec![]);
    assert_eq!(p.in_use_count() + p.idle_count() + p.waiting_count(), 0);
}

#[test]
fn zero_sized_pool_only_queues() {
    let mut p = PoolState::new(0, RecyclingMethod::Fast);
    assert_eq!(p.acquire(), vec![Action::Wait { ticket: 0 }]);
}
