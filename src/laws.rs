use vstd::prelude::*;

use crate::pool::{
    destroy_all, fail_all, grants, lemma_drop_last, lemma_next_wf, lemma_push, lemma_remove,
    lemma_without, without, Action, Event, PoolError, PoolModel,
};

verus! {

/// A new pool is well formed.
pub proof fn lemma_initial_wf(max_size: nat, validates: bool)
    ensures
        PoolModel::initial(max_size, validates).wf(),
{
    let m = PoolModel::initial(max_size, validates);
    assert forall|x: u64| #[trigger] m.places(x) <= 1 && (m.places(x) > 0 ==> x < m.next_id) by {
        assert(!m.idle.contains(x));
        assert(!m.in_use.contains(x));
        assert(!m.recycling.contains(x));
        assert(!m.creating.contains(x));
        assert(!m.waiters.contains(x));
    }
}

/// Whatever events happen, the pool stays well formed, and in particular
/// never has more sessions checked out than its maximum size.
pub proof fn lemma_checked_out_bounded(m: PoolModel, events: Seq<Event>)
    requires
        m.wf(),
    ensures
        m.run(events).wf(),
        m.run(events).in_use.len() <= m.max_size,
        m.run(events).max_size == m.max_size,
    decreases events.len(),
{
    if events.len() > 0 {
        lemma_next_wf(m, events[0]);
        lemma_checked_out_bounded(m.next(events[0]).0, events.drop_first());
    }
}

/// When every session is checked out, a new caller waits in line.
pub proof fn lemma_full_pool_waits(m: PoolModel)
    requires
        m.wf(),
        !m.closed,
        m.next_id < u64::MAX,
        m.in_use.len() == m.max_size,
    ensures
        m.next(Event::Acquire).1 == seq![Action::Wait { ticket: m.next_id as u64 }],
        m.next(Event::Acquire).0.waiters == m.waiters.push(m.next_id as u64),
{
}

/// A waiting caller keeps its place while other callers arrive, while
/// sessions are opened for others, and while returned sessions are checked:
/// only a session or capacity coming free, its deadline, or a close ends the wait.
pub proof fn lemma_waiter_keeps_place(m: PoolModel, t: u64, e: Event)
    requires
        m.wf(),
        m.waiters.contains(t),
        e is Acquire || (e is Created && e->Created_ok) || (e is Release && m.validates),
    ensures
        m.next(e).0.waiters.contains(t),
        forall|i: int| 0 <= i < m.next(e).1.len() ==> !grants(#[trigger] m.next(e).1[i], t),
{
    assert(m.places(t) <= 1);
    match e {
        Event::Acquire => {
            lemma_push(m.waiters, m.next_id as u64);
        },
        Event::Release { resource } => {
            if m.in_use.contains(resource) && !m.closed {
                assert(m.places(resource) <= 1);
            }
        },
        _ => {},
    }
}

/// Without a check on return, a session given back while callers wait goes
/// straight to the one that has waited longest.
pub proof fn lemma_release_serves_oldest_waiter(m: PoolModel, r: u64)
    requires
        m.wf(),
        !m.closed,
        !m.validates,
        m.in_use.contains(r),
        m.waiters.len() > 0,
    ensures
        m.next(Event::Release { resource: r }).1 == seq![
            Action::Grant { ticket: m.waiters[0], resource: r },
        ],
{
}

/// A pool that does not check returned sessions never asks for a check.
pub proof fn lemma_fast_never_validates(m: PoolModel, events: Seq<Event>)
    requires
        !m.validates,
    ensures
        forall|i: int| 0 <= i < m.trace(events).len() ==> !(#[trigger] m.trace(events)[i] is Validate),
    decreases events.len(),
{
    if events.len() > 0 {
        let (m2, acts) = m.next(events[0]);
        assert(!m2.validates);
        lemma_fast_never_validates(m2, events.drop_first());
        let rest = m2.trace(events.drop_first());
        assert(m.trace(events) == acts + rest);
        assert forall|i: int| 0 <= i < acts.len() implies !(#[trigger] acts[i] is Validate) by {
            match events[0] {
                Event::Close => {
                    let k = m.waiters.len() as int;
                    if i >= k {
                        assert(acts[i] == Action::Destroy { resource: m.idle[i - k] });
                    }
                },
                _ => {},
            }
        }
        assert forall|i: int| 0 <= i < m.trace(events).len() implies !(
        #[trigger] m.trace(events)[i] is Validate) by {
            if i >= acts.len() {
                assert(m.trace(events)[i] == rest[i - acts.len()]);
            }
        }
    }
}

/// With a check configured, giving back a held session asks for exactly one check.
pub proof fn lemma_release_validates_once(m: PoolModel, r: u64)
    requires
        m.wf(),
        !m.closed,
        m.validates,
        m.in_use.contains(r),
    ensures
        m.next(Event::Release { resource: r }).1 == seq![Action::Validate { resource: r }],
{
}

/// Something the pool has let go of stays gone: no later step hands it out,
/// as a caller or as a session.
proof fn lemma_gone_step(m: PoolModel, x: u64, e: Event)
    requires
        m.wf(),
        m.gone(x),
    ensures
        m.next(e).0.gone(x),
        forall|i: int| 0 <= i < m.next(e).1.len() ==> !grants(#[trigger] m.next(e).1[i], x),
{
    let (m2, acts) = m.next(e);
    match e {
        Event::Acquire => {
            if m.next_id < u64::MAX && !m.closed {
                let t = m.next_id as u64;
                if m.idle.len() > 0 {
                    lemma_drop_last(m.idle);
                    lemma_push(m.in_use, m.idle.last());
                    assert(m.idle.contains(m.idle.last()));
                } else if m.live() < m.max_size {
                    lemma_push(m.creating, t);
                } else {
                    lemma_push(m.waiters, t);
                }
            }
        },
        Event::Created { ticket, ok } => {
            if m.creating.contains(ticket) {
                lemma_without(m.creating, ticket);
                if ok {
                    lemma_push(m.in_use, ticket);
                } else if m.waiters.len() > 0 {
                    lemma_remove(m.waiters, 0);
                    lemma_push(without(m.creating, ticket), m.waiters[0]);
                    assert(m.waiters.contains(m.waiters[0]));
                }
            }
        },
        Event::Release { resource } => {
            if m.in_use.contains(resource) {
                lemma_without(m.in_use, resource);
                let s = PoolModel { in_use: without(m.in_use, resource), ..m };
                if m.closed {
                } else if m.validates {
                    lemma_push(m.recycling, resource);
                } else if m.waiters.len() > 0 {
                    lemma_remove(m.waiters, 0);
                    lemma_push(s.in_use, resource);
                    assert(m.waiters.contains(m.waiters[0]));
                } else {
                    lemma_push(m.idle, resource);
                }
            }
        },
        Event::Recycled { resource, ok } => {
            if m.recycling.contains(resource) {
                lemma_without(m.recycling, resource);
                if !ok {
                    if m.waiters.len() > 0 {
                        lemma_remove(m.waiters, 0);
                        lemma_push(m.creating, m.waiters[0]);
                        assert(m.waiters.contains(m.waiters[0]));
                    }
                } else if m.closed {
                } else if m.waiters.len() > 0 {
                    lemma_remove(m.waiters, 0);
                    lemma_push(m.in_use, resource);
                    assert(m.waiters.contains(m.waiters[0]));
                } else {
                    lemma_push(m.idle, resource);
                }
            }
        },
        Event::Timeout { ticket } => {
            if m.waiters.contains(ticket) {
                lemma_without(m.waiters, ticket);
            }
        },
        Event::Close => {
            assert(!m2.idle.contains(x));
            assert(!m2.waiters.contains(x));
            let k = m.waiters.len() as int;
            assert forall|i: int| 0 <= i < acts.len() implies !grants(#[trigger] acts[i], x) by {
                if i < k {
                    assert(acts[i] == Action::Fail { ticket: m.waiters[i], error: PoolError::Closed });
                } else {
                    assert(acts[i] == Action::Destroy { resource: m.idle[i - k] });
                }
            }
        },
    }
}

/// Over any run of events, something the pool has let go of is never handed out again.
proof fn lemma_gone_run(m: PoolModel, x: u64, events: Seq<Event>)
    requires
        m.wf(),
        m.gone(x),
    ensures
        forall|i: int| 0 <= i < m.trace(events).len() ==> !grants(#[trigger] m.trace(events)[i], x),
    decreases events.len(),
{
    if events.len() > 0 {
        let (m2, acts) = m.next(events[0]);
        lemma_gone_step(m, x, events[0]);
        lemma_next_wf(m, events[0]);
        lemma_gone_run(m2, x, events.drop_first());
        let rest = m2.trace(events.drop_first());
        assert forall|i: int| 0 <= i < m.trace(events).len() implies !grants(
            #[trigger] m.trace(events)[i],
            x,
        ) by {
            if i < acts.len() {
                assert(m.trace(events)[i] == acts[i]);
            } else {
                assert(m.trace(events)[i] == rest[i - acts.len()]);
            }
        }
    }
}

/// A session whose check failed is destroyed and never handed out again,
/// whatever happens afterwards.
pub proof fn lemma_failed_check_retires(m: PoolModel, r: u64, events: Seq<Event>)
    requires
        m.wf(),
        m.recycling.contains(r),
    ensures
        m.next(Event::Recycled { resource: r, ok: false }).1[0] == (Action::Destroy { resource: r }),
        m.next(Event::Recycled { resource: r, ok: false }).0.gone(r),
        forall|i: int|
            0 <= i < m.next(Event::Recycled { resource: r, ok: false }).0.trace(events).len()
                ==> !grants(
                #[trigger] m.next(Event::Recycled { resource: r, ok: false }).0.trace(events)[i],
                r,
            ),
{
    let e = Event::Recycled { resource: r, ok: false };
    let m2 = m.next(e).0;
    assert(m.places(r) <= 1);
    lemma_without(m.recycling, r);
    if m.waiters.len() > 0 {
        lemma_remove(m.waiters, 0);
        lemma_push(m.creating, m.waiters[0]);
        assert(m.waiters.contains(m.waiters[0]));
    }
    assert(m2.gone(r));
    lemma_next_wf(m, e);
    lemma_gone_run(m2, r, events);
}

/// A caller whose deadline passes while it waits is told so, and no later
/// event hands it a session.
pub proof fn lemma_timed_out_waiter_never_served(m: PoolModel, t: u64, events: Seq<Event>)
    requires
        m.wf(),
        m.waiters.contains(t),
    ensures
        m.next(Event::Timeout { ticket: t }).1 == seq![
            Action::Fail { ticket: t, error: PoolError::Timeout },
        ],
        forall|i: int|
            0 <= i < m.next(Event::Timeout { ticket: t }).0.trace(events).len() ==> !grants(
                #[trigger] m.next(Event::Timeout { ticket: t }).0.trace(events)[i],
                t,
            ),
{
    let e = Event::Timeout { ticket: t };
    let m2 = m.next(e).0;
    assert(m.places(t) <= 1);
    lemma_without(m.waiters, t);
    assert(m2.gone(t));
    lemma_next_wf(m, e);
    lemma_gone_run(m2, t, events);
}

/// A failed creation gives its unit of capacity back: with nobody waiting,
/// the next caller is not told to wait but is served or gets a new session.
pub proof fn lemma_failed_create_frees_capacity(m: PoolModel, t: u64)
    requires
        m.wf(),
        !m.closed,
        m.creating.contains(t),
        m.waiters.len() == 0,
        m.next_id < u64::MAX,
    ensures
        m.next(Event::Created { ticket: t, ok: false }).1 == seq![
            Action::Fail { ticket: t, error: PoolError::CreateFailed },
        ],
        m.next(Event::Created { ticket: t, ok: false }).0.live() + 1 == m.live(),
        m.next(Event::Created { ticket: t, ok: false }).0.next(Event::Acquire).1[0] is Grant
            || m.next(Event::Created { ticket: t, ok: false }).0.next(Event::Acquire).1
            == seq![Action::Create { ticket: m.next_id as u64 }],
{
    lemma_without(m.creating, t);
    assert(m.next(Event::Created { ticket: t, ok: false }).1 =~= seq![
        Action::Fail { ticket: t, error: PoolError::CreateFailed },
    ]);
}

/// Closing tells every waiter the pool is closed and destroys every idle
/// session at once; sessions still held are left to their holders.
pub proof fn lemma_close_drains(m: PoolModel)
    ensures
        m.next(Event::Close).1 == fail_all(m.waiters, PoolError::Closed) + destroy_all(m.idle),
        m.next(Event::Close).0.closed,
        m.next(Event::Close).0.idle.len() == 0,
        m.next(Event::Close).0.waiters.len() == 0,
        m.next(Event::Close).0.in_use == m.in_use,
{
}

/// A closed pool refuses every new caller at once, and destroys each held
/// session when it is given back.
pub proof fn lemma_closed_pool(m: PoolModel, r: u64)
    requires
        m.closed,
    ensures
        m.next_id < u64::MAX ==> m.next(Event::Acquire).1 == seq![
            Action::Fail { ticket: m.next_id as u64, error: PoolError::Closed },
        ],
        m.in_use.contains(r) ==> m.next(Event::Release { resource: r }).1 == seq![
            Action::Destroy { resource: r },
        ],
{
}

} // verus!
