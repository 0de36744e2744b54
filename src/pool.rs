use vstd::prelude::*;

use crate::recycling::RecyclingMethod;

verus! {

/// Why an acquire did not produce a session.
#[derive(PartialEq, Eq, Structural, Clone, Copy, Debug)]
pub enum PoolError {
    /// The pool was closed before or while the caller waited.
    Closed,
    /// The caller's deadline passed while it waited.
    Timeout,
    /// The session factory failed for this caller.
    CreateFailed,
    /// The pool has handed out every ticket it can number.
    Exhausted,
}

/// Something that happened to the pool, reported by the driver.
#[derive(PartialEq, Eq, Structural, Clone, Copy, Debug)]
pub enum Event {
    /// A new caller asks for a session.
    Acquire,
    /// The creation started for `ticket` finished, successfully or not.
    Created { ticket: u64, ok: bool },
    /// The holder of `resource` gives it back.
    Release { resource: u64 },
    /// The check of a returned `resource` finished, successfully or not.
    Recycled { resource: u64, ok: bool },
    /// The deadline of the caller holding `ticket` passed.
    Timeout { ticket: u64 },
    /// The pool is shut down.
    Close,
}

/// Work the driver must do in answer to an event.
#[derive(PartialEq, Eq, Structural, Clone, Copy, Debug)]
pub enum Action {
    /// Hand `resource` to the caller of `ticket`. A new session takes its
    /// creator's ticket as its identity.
    Grant { ticket: u64, resource: u64 },
    /// The caller of `ticket` waits in line.
    Wait { ticket: u64 },
    /// Open a new session for the caller of `ticket`.
    Create { ticket: u64 },
    /// Run the recycling statement against `resource`.
    Validate { resource: u64 },
    /// Close `resource` for good.
    Destroy { resource: u64 },
    /// Answer the caller of `ticket` with `error`.
    Fail { ticket: u64, error: PoolError },
}

/// The pool's bookkeeping as mathematics.
pub struct PoolModel {
    pub max_size: nat,
    /// Whether returned sessions are checked before reuse.
    pub validates: bool,
    /// Sessions ready for reuse; the last one is the most recently returned.
    pub idle: Seq<u64>,
    /// Sessions held by callers.
    pub in_use: Seq<u64>,
    /// Returned sessions whose check is running.
    pub recycling: Seq<u64>,
    /// Tickets whose session is being opened.
    pub creating: Seq<u64>,
    /// Tickets waiting in line, oldest first.
    pub waiters: Seq<u64>,
    pub closed: bool,
    /// The next ticket to give out; every identity in use is below it.
    pub next_id: nat,
}

/// `s` without the element `x`.
pub open spec fn without(s: Seq<u64>, x: u64) -> Seq<u64> {
    s.remove(s.index_of(x))
}

pub open spec fn one_if(b: bool) -> nat {
    if b { 1 } else { 0 }
}

/// Whether `a` gives something to `x`, as a caller or as a session.
pub open spec fn grants(a: Action, x: u64) -> bool {
    match a {
        Action::Grant { ticket, resource } => ticket == x || resource == x,
        _ => false,
    }
}

pub open spec fn fail_all(tickets: Seq<u64>, error: PoolError) -> Seq<Action> {
    tickets.map_values(|t: u64| Action::Fail { ticket: t, error })
}

pub open spec fn destroy_all(resources: Seq<u64>) -> Seq<Action> {
    resources.map_values(|r: u64| Action::Destroy { resource: r })
}

impl PoolModel {
    /// A fresh, open pool with nothing in it.
    pub open spec fn initial(max_size: nat, validates: bool) -> PoolModel {
        PoolModel {
            max_size,
            validates,
            idle: seq![],
            in_use: seq![],
            recycling: seq![],
            creating: seq![],
            waiters: seq![],
            closed: false,
            next_id: 0,
        }
    }

    /// Sessions that count against capacity: idle, held, being checked or being opened.
    pub open spec fn live(self) -> nat {
        self.idle.len() + self.in_use.len() + self.recycling.len() + self.creating.len()
    }

    /// In how many of the five collections `x` stands.
    pub open spec fn places(self, x: u64) -> nat {
        one_if(self.idle.contains(x)) + one_if(self.in_use.contains(x)) + one_if(
            self.recycling.contains(x),
        ) + one_if(self.creating.contains(x)) + one_if(self.waiters.contains(x))
    }

    /// `x` was given out once and the pool holds nothing of it any more.
    pub open spec fn gone(self, x: u64) -> bool {
        x < self.next_id && self.places(x) == 0
    }

    pub open spec fn wf(self) -> bool {
        &&& self.idle.no_duplicates()
        &&& self.in_use.no_duplicates()
        &&& self.recycling.no_duplicates()
        &&& self.creating.no_duplicates()
        &&& self.waiters.no_duplicates()
        &&& forall|x: u64| #[trigger]
            self.places(x) <= 1 && (self.places(x) > 0 ==> x < self.next_id)
        &&& self.next_id <= u64::MAX
        &&& self.live() <= self.max_size
        &&& self.waiters.len() > 0 ==> self.idle.len() == 0 && self.live() == self.max_size
        &&& self.closed ==> self.waiters.len() == 0 && self.idle.len() == 0
    }

    /// A session that passed its check goes to the oldest waiter, or else
    /// becomes the most recent idle one.
    pub open spec fn hand_back(self, r: u64) -> (PoolModel, Seq<Action>) {
        if self.waiters.len() > 0 {
            (
                PoolModel { waiters: self.waiters.remove(0), in_use: self.in_use.push(r), ..self },
                seq![Action::Grant { ticket: self.waiters[0], resource: r }],
            )
        } else {
            (PoolModel { idle: self.idle.push(r), ..self }, seq![])
        }
    }

    /// A unit of capacity came free: the oldest waiter, if any, gets a new session opened.
    pub open spec fn pass_slot(self) -> (PoolModel, Seq<Action>) {
        if self.waiters.len() > 0 {
            (
                PoolModel {
                    waiters: self.waiters.remove(0),
                    creating: self.creating.push(self.waiters[0]),
                    ..self
                },
                seq![Action::Create { ticket: self.waiters[0] }],
            )
        } else {
            (self, seq![])
        }
    }

    pub open spec fn on_acquire(self) -> (PoolModel, Seq<Action>) {
        if self.next_id >= u64::MAX {
            (self, seq![Action::Fail { ticket: u64::MAX, error: PoolError::Exhausted }])
        } else {
            let t = self.next_id as u64;
            let s = PoolModel { next_id: self.next_id + 1, ..self };
            if self.closed {
                (s, seq![Action::Fail { ticket: t, error: PoolError::Closed }])
            } else if self.idle.len() > 0 {
                let r = self.idle.last();
                (
                    PoolModel { idle: self.idle.drop_last(), in_use: self.in_use.push(r), ..s },
                    seq![Action::Grant { ticket: t, resource: r }],
                )
            } else if self.live() < self.max_size {
                (PoolModel { creating: self.creating.push(t), ..s }, seq![Action::Create { ticket: t }])
            } else {
                (PoolModel { waiters: self.waiters.push(t), ..s }, seq![Action::Wait { ticket: t }])
            }
        }
    }

    pub open spec fn on_created(self, t: u64, ok: bool) -> (PoolModel, Seq<Action>) {
        if !self.creating.contains(t) {
            (self, seq![])
        } else {
            let s = PoolModel { creating: without(self.creating, t), ..self };
            if ok {
                (
                    PoolModel { in_use: self.in_use.push(t), ..s },
                    seq![Action::Grant { ticket: t, resource: t }],
                )
            } else {
                let (s2, acts) = s.pass_slot();
                (s2, seq![Action::Fail { ticket: t, error: PoolError::CreateFailed }] + acts)
            }
        }
    }

    pub open spec fn on_release(self, r: u64) -> (PoolModel, Seq<Action>) {
        if !self.in_use.contains(r) {
            (self, seq![])
        } else {
            let s = PoolModel { in_use: without(self.in_use, r), ..self };
            if self.closed {
                (s, seq![Action::Destroy { resource: r }])
            } else if self.validates {
                (
                    PoolModel { recycling: self.recycling.push(r), ..s },
                    seq![Action::Validate { resource: r }],
                )
            } else {
                s.hand_back(r)
            }
        }
    }

    pub open spec fn on_recycled(self, r: u64, ok: bool) -> (PoolModel, Seq<Action>) {
        if !self.recycling.contains(r) {
            (self, seq![])
        } else {
            let s = PoolModel { recycling: without(self.recycling, r), ..self };
            if !ok {
                let (s2, acts) = s.pass_slot();
                (s2, seq![Action::Destroy { resource: r }] + acts)
            } else if self.closed {
                (s, seq![Action::Destroy { resource: r }])
            } else {
                s.hand_back(r)
            }
        }
    }

    pub open spec fn on_timeout(self, t: u64) -> (PoolModel, Seq<Action>) {
        if self.waiters.contains(t) {
            (
                PoolModel { waiters: without(self.waiters, t), ..self },
                seq![Action::Fail { ticket: t, error: PoolError::Timeout }],
            )
        } else {
            (self, seq![])
        }
    }

    pub open spec fn on_close(self) -> (PoolModel, Seq<Action>) {
        (
            PoolModel { closed: true, waiters: seq![], idle: seq![], ..self },
            fail_all(self.waiters, PoolError::Closed) + destroy_all(self.idle),
        )
    }

    /// The new state and the driver's work after event `e`.
    pub open spec fn next(self, e: Event) -> (PoolModel, Seq<Action>) {
        match e {
            Event::Acquire => self.on_acquire(),
            Event::Created { ticket, ok } => self.on_created(ticket, ok),
            Event::Release { resource } => self.on_release(resource),
            Event::Recycled { resource, ok } => self.on_recycled(resource, ok),
            Event::Timeout { ticket } => self.on_timeout(ticket),
            Event::Close => self.on_close(),
        }
    }

    /// The state after the events, in order.
    pub open spec fn run(self, events: Seq<Event>) -> PoolModel
        decreases events.len(),
    {
        if events.len() == 0 {
            self
        } else {
            self.next(events[0]).0.run(events.drop_first())
        }
    }

    /// Every action asked for while the events happen, in order.
    pub open spec fn trace(self, events: Seq<Event>) -> Seq<Action>
        decreases events.len(),
    {
        if events.len() == 0 {
            seq![]
        } else {
            self.next(events[0]).1 + self.next(events[0]).0.trace(events.drop_first())
        }
    }
}

pub(crate) proof fn lemma_push(s: Seq<u64>, x: u64)
    ensures
        forall|y: u64| #[trigger] s.push(x).contains(y) <==> (s.contains(y) || y == x),
        s.no_duplicates() && !s.contains(x) ==> s.push(x).no_duplicates(),
{
    assert forall|y: u64| #[trigger] s.push(x).contains(y) <==> (s.contains(y) || y == x) by {
        if s.contains(y) {
            let i = choose|i: int| 0 <= i < s.len() && s[i] == y;
            assert(s.push(x)[i] == y);
        }
        if y == x {
            assert(s.push(x)[s.len() as int] == x);
        }
        if s.push(x).contains(y) {
            let i = choose|i: int| 0 <= i < s.len() + 1 && s.push(x)[i] == y;
            if i < s.len() {
                assert(s[i] == y);
            }
        }
    }
    if s.no_duplicates() && !s.contains(x) {
        let p = s.push(x);
        assert forall|i: int, j: int|
            0 <= i < p.len() && 0 <= j < p.len() && i != j implies p[i] != p[j] by {
            if i < s.len() {
                assert(s.contains(s[i]));
            }
            if j < s.len() {
                assert(s.contains(s[j]));
            }
        }
    }
}

pub(crate) proof fn lemma_remove(s: Seq<u64>, i: int)
    requires
        s.no_duplicates(),
        0 <= i < s.len(),
    ensures
        s.remove(i).no_duplicates(),
        forall|y: u64| #[trigger] s.remove(i).contains(y) <==> (s.contains(y) && y != s[i]),
{
    let r = s.remove(i);
    assert forall|y: u64| #[trigger] r.contains(y) <==> (s.contains(y) && y != s[i]) by {
        if r.contains(y) {
            let k = choose|k: int| 0 <= k < r.len() && r[k] == y;
            if k < i {
                assert(s[k] == y);
            } else {
                assert(s[k + 1] == y);
            }
        }
        if s.contains(y) && y != s[i] {
            let k = choose|k: int| 0 <= k < s.len() && s[k] == y;
            if k < i {
                assert(r[k] == y);
            } else {
                assert(r[k - 1] == y);
            }
        }
    }
    assert forall|a: int, b: int| 0 <= a < r.len() && 0 <= b < r.len() && a != b implies r[a]
        != r[b] by {
        let a2 = if a < i { a } else { a + 1 };
        let b2 = if b < i { b } else { b + 1 };
        assert(r[a] == s[a2]);
        assert(r[b] == s[b2]);
    }
}

pub(crate) proof fn lemma_without(s: Seq<u64>, x: u64)
    requires
        s.no_duplicates(),
        s.contains(x),
    ensures
        0 <= s.index_of(x) < s.len(),
        s[s.index_of(x)] == x,
        without(s, x).len() == s.len() - 1,
        without(s, x).no_duplicates(),
        forall|y: u64| #[trigger] without(s, x).contains(y) <==> (s.contains(y) && y != x),
{
    lemma_remove(s, s.index_of(x));
}

pub(crate) proof fn lemma_drop_last(s: Seq<u64>)
    requires
        s.no_duplicates(),
        s.len() > 0,
    ensures
        s.drop_last().no_duplicates(),
        forall|y: u64| #[trigger] s.drop_last().contains(y) <==> (s.contains(y) && y != s.last()),
{
    assert(s.drop_last() =~= s.remove(s.len() - 1));
    lemma_remove(s, s.len() - 1);
}

/// Every step keeps the bookkeeping well formed.
pub proof fn lemma_next_wf(m: PoolModel, e: Event)
    requires
        m.wf(),
    ensures
        m.next(e).0.wf(),
{
    let m2 = m.next(e).0;
    match e {
        Event::Acquire => {
            if m.next_id < u64::MAX && !m.closed {
                let t = m.next_id as u64;
                assert(m.places(t) == 0);
                if m.idle.len() > 0 {
                    lemma_drop_last(m.idle);
                    assert(m.idle.contains(m.idle.last()));
                    assert(m.places(m.idle.last()) <= 1);
                    lemma_push(m.in_use, m.idle.last());
                } else if m.live() < m.max_size {
                    lemma_push(m.creating, t);
                } else {
                    lemma_push(m.waiters, t);
                }
            }
            assert forall|x: u64| #[trigger]
                m2.places(x) <= 1 && (m2.places(x) > 0 ==> x < m2.next_id) by {
                assert(m.places(x) <= 1);
            }
        },
        Event::Created { ticket, ok } => {
            if m.creating.contains(ticket) {
                lemma_without(m.creating, ticket);
                assert(m.places(ticket) <= 1);
                if ok {
                    lemma_push(m.in_use, ticket);
                } else if m.waiters.len() > 0 {
                    lemma_remove(m.waiters, 0);
                    lemma_push(without(m.creating, ticket), m.waiters[0]);
                    assert(m.waiters.contains(m.waiters[0]));
                    assert(m.places(m.waiters[0]) <= 1);
                }
                assert forall|x: u64| #[trigger]
                    m2.places(x) <= 1 && (m2.places(x) > 0 ==> x < m2.next_id) by {
                    assert(m.places(x) <= 1);
                }
            }
        },
        Event::Release { resource } => {
            if m.in_use.contains(resource) {
                lemma_without(m.in_use, resource);
                assert(m.places(resource) <= 1);
                let s = PoolModel { in_use: without(m.in_use, resource), ..m };
                if m.closed {
                } else if m.validates {
                    lemma_push(m.recycling, resource);
                } else if m.waiters.len() > 0 {
                    lemma_remove(m.waiters, 0);
                    lemma_push(s.in_use, resource);
                } else {
                    lemma_push(m.idle, resource);
                }
                assert forall|x: u64| #[trigger]
                    m2.places(x) <= 1 && (m2.places(x) > 0 ==> x < m2.next_id) by {
                    assert(m.places(x) <= 1);
                }
            }
        },
        Event::Recycled { resource, ok } => {
            if m.recycling.contains(resource) {
                lemma_without(m.recycling, resource);
                assert(m.places(resource) <= 1);
                let s = PoolModel { recycling: without(m.recycling, resource), ..m };
                if !ok {
                    if m.waiters.len() > 0 {
                        lemma_remove(m.waiters, 0);
                        lemma_push(m.creating, m.waiters[0]);
                        assert(m.waiters.contains(m.waiters[0]));
                        assert(m.places(m.waiters[0]) <= 1);
                    }
                } else if m.closed {
                } else if m.waiters.len() > 0 {
                    lemma_remove(m.waiters, 0);
                    lemma_push(m.in_use, resource);
                } else {
                    lemma_push(m.idle, resource);
                }
                assert forall|x: u64| #[trigger]
                    m2.places(x) <= 1 && (m2.places(x) > 0 ==> x < m2.next_id) by {
                    assert(m.places(x) <= 1);
                }
            }
        },
        Event::Timeout { ticket } => {
            if m.waiters.contains(ticket) {
                lemma_without(m.waiters, ticket);
                assert forall|x: u64| #[trigger]
                    m2.places(x) <= 1 && (m2.places(x) > 0 ==> x < m2.next_id) by {
                    assert(m.places(x) <= 1);
                }
            }
        },
        Event::Close => {
            assert(m2.idle.no_duplicates());
            assert(m2.waiters.no_duplicates());
            assert forall|x: u64| #[trigger]
                m2.places(x) <= 1 && (m2.places(x) > 0 ==> x < m2.next_id) by {
                assert(m.places(x) <= 1);
            }
        },
    }
}

/// In a sequence without repeats, an element's position is the one it stands at.
/// Callers use it to evaluate `without` on concrete contents.
pub proof fn lemma_index_of(s: Seq<u64>, i: int)
    requires
        s.no_duplicates(),
        0 <= i < s.len(),
    ensures
        s.contains(s[i]),
        s.index_of(s[i]) == i,
{
    assert(s.contains(s[i]));
    let j = s.index_of(s[i]);
    assert(0 <= j < s.len() && s[j] == s[i]);
}

/// Where `x` stands in `v`, if it does.
fn position(v: &Vec<u64>, x: u64) -> (r: Option<usize>)
    ensures
        match r {
            Some(i) => i < v@.len() && v@[i as int] == x,
            None => !v@.contains(x),
        },
{
    let mut i: usize = 0;
    while i < v.len()
        invariant
            i <= v@.len(),
            forall|j: int| 0 <= j < i ==> v@[j] != x,
        decreases v@.len() - i,
    {
        if v[i] == x {
            return Some(i);
        }
        i = i + 1;
    }
    None
}

/// One `Fail` with `error` for each ticket, in order.
fn fail_each(tickets: &Vec<u64>, error: PoolError) -> (r: Vec<Action>)
    ensures
        r@ == fail_all(tickets@, error),
{
    let mut r: Vec<Action> = Vec::new();
    let mut i: usize = 0;
    while i < tickets.len()
        invariant
            i <= tickets@.len(),
            r@.len() == i,
            forall|j: int| 0 <= j < i ==> r@[j] == (Action::Fail { ticket: tickets@[j], error }),
        decreases tickets@.len() - i,
    {
        r.push(Action::Fail { ticket: tickets[i], error });
        i = i + 1;
    }
    assert(r@ =~= fail_all(tickets@, error));
    r
}

/// One `Destroy` for each session, in order.
fn destroy_each(resources: &Vec<u64>) -> (r: Vec<Action>)
    ensures
        r@ == destroy_all(resources@),
{
    let mut r: Vec<Action> = Vec::new();
    let mut i: usize = 0;
    while i < resources.len()
        invariant
            i <= resources@.len(),
            r@.len() == i,
            forall|j: int| 0 <= j < i ==> r@[j] == (Action::Destroy { resource: resources@[j] }),
        decreases resources@.len() - i,
    {
        r.push(Action::Destroy { resource: resources[i] });
        i = i + 1;
    }
    assert(r@ =~= destroy_all(resources@));
    r
}

/// The pool's bookkeeping: which sessions are idle, held, being checked or
/// being opened, and who waits. It does no I/O; a driver feeds it events and
/// carries out the actions it returns.
pub struct PoolState {
    max_size: usize,
    method: RecyclingMethod,
    idle: Vec<u64>,
    in_use: Vec<u64>,
    recycling: Vec<u64>,
    creating: Vec<u64>,
    waiters: Vec<u64>,
    closed: bool,
    next_id: u64,
}

impl View for PoolState {
    type V = PoolModel;

    closed spec fn view(&self) -> PoolModel {
        PoolModel {
            max_size: self.max_size as nat,
            validates: self.method.spec_validates(),
            idle: self.idle@,
            in_use: self.in_use@,
            recycling: self.recycling@,
            creating: self.creating@,
            waiters: self.waiters@,
            closed: self.closed,
            next_id: self.next_id as nat,
        }
    }
}

impl PoolState {
    pub open spec fn wf(&self) -> bool {
        self@.wf()
    }

    /// An open, empty pool of at most `max_size` sessions, checked on return
    /// as `method` says.
    pub fn new(max_size: usize, method: RecyclingMethod) -> (r: Self)
        ensures
            r@ == PoolModel::initial(max_size as nat, method.spec_validates()),
            r.wf(),
    {
        let validates = method.validates();
        let r = PoolState {
            max_size,
            method,
            idle: Vec::new(),
            in_use: Vec::new(),
            recycling: Vec::new(),
            creating: Vec::new(),
            waiters: Vec::new(),
            closed: false,
            next_id: 0,
        };
        proof {
            crate::laws::lemma_initial_wf(max_size as nat, validates);
            assert(r@.idle =~= seq![]);
            assert(r@.in_use =~= seq![]);
            assert(r@.recycling =~= seq![]);
            assert(r@.creating =~= seq![]);
            assert(r@.waiters =~= seq![]);
        }
        r
    }

    fn hand_back(&mut self, r: u64) -> (acts: Vec<Action>)
        ensures
            (final(self)@, acts@) == old(self)@.hand_back(r),
            final(self).method == old(self).method,
    {
        if self.waiters.len() > 0 {
            let w = self.waiters.remove(0);
            self.in_use.push(r);
            vec![Action::Grant { ticket: w, resource: r }]
        } else {
            self.idle.push(r);
            Vec::new()
        }
    }

    fn pass_slot(&mut self) -> (acts: Vec<Action>)
        ensures
            (final(self)@, acts@) == old(self)@.pass_slot(),
            final(self).method == old(self).method,
    {
        if self.waiters.len() > 0 {
            let w = self.waiters.remove(0);
            self.creating.push(w);
            vec![Action::Create { ticket: w }]
        } else {
            Vec::new()
        }
    }

    /// A new caller asks for a session: it is given an idle one, the most
    /// recently returned; else a new one is opened for it if there is room;
    /// else it waits in line.
    pub fn acquire(&mut self) -> (acts: Vec<Action>)
        requires
            old(self).wf(),
        ensures
            final(self).wf(),
            (final(self)@, acts@) == old(self)@.on_acquire(),
    {
        proof {
            lemma_next_wf(self@, Event::Acquire);
        }
        if self.next_id == u64::MAX {
            return vec![Action::Fail { ticket: u64::MAX, error: PoolError::Exhausted }];
        }
        let t = self.next_id;
        self.next_id = t + 1;
        if self.closed {
            vec![Action::Fail { ticket: t, error: PoolError::Closed }]
        } else if self.idle.len() > 0 {
            let r = self.idle.pop().unwrap();
            self.in_use.push(r);
            vec![Action::Grant { ticket: t, resource: r }]
        } else if self.idle.len() + self.in_use.len() + self.recycling.len() + self.creating.len()
            < self.max_size {
            self.creating.push(t);
            vec![Action::Create { ticket: t }]
        } else {
            self.waiters.push(t);
            vec![Action::Wait { ticket: t }]
        }
    }

    /// The session opened for `ticket` is ready, or could not be opened. A
    /// failure frees its unit of capacity for the oldest waiter.
    pub fn created(&mut self, ticket: u64, ok: bool) -> (acts: Vec<Action>)
        requires
            old(self).wf(),
        ensures
            final(self).wf(),
            (final(self)@, acts@) == old(self)@.on_created(ticket, ok),
    {
        proof {
            lemma_next_wf(self@, Event::Created { ticket, ok });
        }
        match position(&self.creating, ticket) {
            None => Vec::new(),
            Some(i) => {
                proof {
                    lemma_index_of(self.creating@, i as int);
                }
                self.creating.remove(i);
                if ok {
                    self.in_use.push(ticket);
                    vec![Action::Grant { ticket, resource: ticket }]
                } else {
                    let mut acts = vec![Action::Fail { ticket, error: PoolError::CreateFailed }];
                    let mut more = self.pass_slot();
                    acts.append(&mut more);
                    acts
                }
            },
        }
    }

    /// The holder gives `resource` back. After a close it is destroyed;
    /// with a check configured, the check is asked for; otherwise it goes to
    /// the oldest waiter or back to the idle set.
    pub fn release(&mut self, resource: u64) -> (acts: Vec<Action>)
        requires
            old(self).wf(),
        ensures
            final(self).wf(),
            (final(self)@, acts@) == old(self)@.on_release(resource),
    {
        proof {
            lemma_next_wf(self@, Event::Release { resource });
        }
        match position(&self.in_use, resource) {
            None => Vec::new(),
            Some(i) => {
                proof {
                    lemma_index_of(self.in_use@, i as int);
                }
                self.in_use.remove(i);
                if self.closed {
                    vec![Action::Destroy { resource }]
                } else if self.method.validates() {
                    self.recycling.push(resource);
                    vec![Action::Validate { resource }]
                } else {
                    self.hand_back(resource)
                }
            },
        }
    }

    /// The check of a returned `resource` finished. A failed check destroys
    /// it and frees its unit of capacity for the oldest waiter; a passed one
    /// hands it on, or destroys it if the pool was closed meanwhile.
    pub fn recycled(&mut self, resource: u64, ok: bool) -> (acts: Vec<Action>)
        requires
            old(self).wf(),
        ensures
            final(self).wf(),
            (final(self)@, acts@) == old(self)@.on_recycled(resource, ok),
    {
        proof {
            lemma_next_wf(self@, Event::Recycled { resource, ok });
        }
        match position(&self.recycling, resource) {
            None => Vec::new(),
            Some(i) => {
                proof {
                    lemma_index_of(self.recycling@, i as int);
                }
                self.recycling.remove(i);
                if !ok {
                    let mut acts = vec![Action::Destroy { resource }];
                    let mut more = self.pass_slot();
                    acts.append(&mut more);
                    acts
                } else if self.closed {
                    vec![Action::Destroy { resource }]
                } else {
                    self.hand_back(resource)
                }
            },
        }
    }

    /// The deadline of `ticket` passed: if it still waits, it leaves the line
    /// and is told so; otherwise nothing changes.
    pub fn timeout(&mut self, ticket: u64) -> (acts: Vec<Action>)
        requires
            old(self).wf(),
        ensures
            final(self).wf(),
            (final(self)@, acts@) == old(self)@.on_timeout(ticket),
    {
        proof {
            lemma_next_wf(self@, Event::Timeout { ticket });
        }
        match position(&self.waiters, ticket) {
            None => Vec::new(),
            Some(i) => {
                proof {
                    lemma_index_of(self.waiters@, i as int);
                }
                self.waiters.remove(i);
                vec![Action::Fail { ticket, error: PoolError::Timeout }]
            },
        }
    }

    /// Shuts the pool: every waiter is told it is closed, every idle session
    /// is destroyed, and held sessions will be destroyed when given back.
    pub fn close(&mut self) -> (acts: Vec<Action>)
        requires
            old(self).wf(),
        ensures
            final(self).wf(),
            (final(self)@, acts@) == old(self)@.on_close(),
    {
        proof {
            lemma_next_wf(self@, Event::Close);
        }
        let mut acts = fail_each(&self.waiters, PoolError::Closed);
        let mut destroyed = destroy_each(&self.idle);
        acts.append(&mut destroyed);
        self.closed = true;
        self.waiters = Vec::new();
        self.idle = Vec::new();
        proof {
            assert(self@.waiters =~= seq![]);
            assert(self@.idle =~= seq![]);
        }
        acts
    }

    /// The most sessions that may be alive at once.
    pub fn max_size(&self) -> (r: usize)
        ensures
            r as nat == self@.max_size,
    {
        self.max_size
    }

    /// How returned sessions are checked.
    pub fn recycling_method(&self) -> (r: &RecyclingMethod)
        ensures
            r.spec_validates() == self@.validates,
    {
        &self.method
    }

    /// Sessions ready for reuse.
    pub fn idle_count(&self) -> (r: usize)
        ensures
            r == self@.idle.len(),
    {
        self.idle.len()
    }

    /// Sessions held by callers.
    pub fn in_use_count(&self) -> (r: usize)
        ensures
            r == self@.in_use.len(),
    {
        self.in_use.len()
    }

    /// Callers waiting in line.
    pub fn waiting_count(&self) -> (r: usize)
        ensures
            r == self@.waiters.len(),
    {
        self.waiters.len()
    }

    /// Sessions being opened.
    pub fn creating_count(&self) -> (r: usize)
        ensures
            r == self@.creating.len(),
    {
        self.creating.len()
    }

    /// Returned sessions whose check is running.
    pub fn recycling_count(&self) -> (r: usize)
        ensures
            r == self@.recycling.len(),
    {
        self.recycling.len()
    }

    pub fn is_closed(&self) -> (r: bool)
        ensures
            r == self@.closed,
    {
        self.closed
    }

    /// Applies one event.
    pub fn step(&mut self, e: Event) -> (acts: Vec<Action>)
        requires
            old(self).wf(),
        ensures
            final(self).wf(),
            (final(self)@, acts@) == old(self)@.next(e),
    {
        match e {
            Event::Acquire => self.acquire(),
            Event::Created { ticket, ok } => self.created(ticket, ok),
            Event::Release { resource } => self.release(resource),
            Event::Recycled { resource, ok } => self.recycled(resource, ok),
            Event::Timeout { ticket } => self.timeout(ticket),
            Event::Close => self.close(),
        }
    }
}

} // verus!
