//! The worker-pool layer: a queue of work items consumed by a fixed set of
//! workers, and events whose completion fans registered callbacks back onto
//! that queue.
//!
//! Thunks are named by identifiers: the driver that owns the actual
//! closures maps each identifier to its code, feeds the queue to its worker
//! threads, and performs the dispatches this module decides on. Every
//! decision — what a completion enqueues, where a late registration goes —
//! is a contract here, and the single-completion and exactly-once dispatch
//! laws are proved over whole histories ([`lemma_event_single_completion`],
//! [`lemma_event_callback_dispatch`]).

use vstd::prelude::*;

verus! {

/// Errors carried by work items and completions.
#[derive(Debug, Clone)]
pub enum Error {
    /// The event whose result this is has not completed yet.
    NotCompleted,
    /// A failure described by the worker that hit it.
    Custom(String),
}

/// The outcome a thunk is run with, and the outcome an event completes with.
pub type WorkResult = Result<(), Error>;

/// Copy a work outcome. Written out (rather than derived) so that the copy
/// is known to equal the original.
pub fn clone_result(r: &WorkResult) -> (c: WorkResult)
    ensures
        c == *r,
{
    match r {
        Ok(u) => {
            let c: WorkResult = Ok(*u);
            proof {
                assert(c == *r);
            }
            c
        },
        Err(Error::NotCompleted) => {
            let c: WorkResult = Err(Error::NotCompleted);
            proof {
                assert(c == *r);
            }
            c
        },
        Err(Error::Custom(s)) => {
            let c: WorkResult = Err(Error::Custom(s.clone()));
            proof {
                assert(c == *r);
            }
            c
        },
    }
}

/// One item on a worker pool's queue: run a thunk with an outcome, or shut
/// one worker down.
#[derive(Debug)]
pub enum WorkItem {
    /// Run the thunk with this identifier, handing it the outcome.
    Run(u64, WorkResult),
    /// The worker that pops this exits.
    Close,
}

/// The state of an event, as specs see it.
pub ghost struct EventState {
    /// Identifier, unique within the owning pool.
    pub id: nat,
    /// Whether `complete` has succeeded yet.
    pub completed: bool,
    /// The stored outcome; the not-completed sentinel until then.
    pub result: WorkResult,
    /// Thunks registered and not yet dispatched, in registration order.
    pub callbacks: Seq<u64>,
}

/// Registering callback `f`: queued on the event while it is pending;
/// dispatched at once, with the stored result, if it already completed.
pub open spec fn event_callback_spec(s: EventState, f: u64) -> (EventState, Option<WorkItem>) {
    if s.completed {
        (s, Some(WorkItem::Run(f, s.result)))
    } else {
        (
            EventState {
                id: s.id,
                completed: s.completed,
                result: s.result,
                callbacks: s.callbacks.push(f),
            },
            None,
        )
    }
}

/// Completing with `r`: the first completion stores the result and
/// dispatches every queued callback with it, in registration order; any
/// later completion has no effect and reports failure.
pub open spec fn event_complete_spec(s: EventState, r: WorkResult) -> (
    EventState,
    bool,
    Seq<WorkItem>,
) {
    if s.completed {
        (s, false, Seq::empty())
    } else {
        (
            EventState { id: s.id, completed: true, result: r, callbacks: Seq::empty() },
            true,
            s.callbacks.map(|_i: int, cb: u64| WorkItem::Run(cb, r)),
        )
    }
}

/// An event: a single-assignment completable whose callbacks are fanned out
/// onto its worker pool.
#[derive(Debug)]
pub struct Event {
    id: usize,
    completed: bool,
    result: WorkResult,
    callbacks: Vec<u64>,
}

impl Event {
    /// The event's state, as specs see it.
    pub closed spec fn state(self) -> EventState {
        EventState {
            id: self.id as nat,
            completed: self.completed,
            result: self.result,
            callbacks: self.callbacks@,
        }
    }

    /// The identifier, unique within the pool the event was created on.
    pub fn id(&self) -> (r: usize)
        ensures
            r == self.state().id,
    {
        self.id
    }

    /// A snapshot of the stored result: the not-completed sentinel before
    /// completion, and afterwards the result completion stored.
    pub fn result(&self) -> (r: WorkResult)
        ensures
            r == self.state().result,
    {
        clone_result(&self.result)
    }

    /// Register a callback thunk; see [`event_callback_spec`]. If the event
    /// has already completed, the thunk is enqueued on `pool` at once, with
    /// the stored result; otherwise it waits on the event.
    pub fn callback_box(&mut self, f: u64, pool: &mut WorkerPool)
        ensures
            ({
                let (s2, dispatch) = event_callback_spec(old(self).state(), f);
                &&& final(self).state() == s2
                &&& match dispatch {
                    Some(item) => final(pool).queue_spec() == old(pool).queue_spec().push(item),
                    None => final(pool).queue_spec() == old(pool).queue_spec(),
                }
                &&& final(pool).pool_size_spec() == old(pool).pool_size_spec()
                &&& final(pool).next_event_id_spec() == old(pool).next_event_id_spec()
            }),
    {
        if self.completed {
            let r = clone_result(&self.result);
            pool.spawn_box_fn(f, r);
        } else {
            self.callbacks.push(f);
        }
    }

    /// Complete the event; see [`event_complete_spec`]. On the first call
    /// the result is stored, every queued callback is enqueued on `pool`
    /// with it, in registration order, and `true` comes back. Any later
    /// call changes nothing and returns `false`.
    pub fn complete(&mut self, result: WorkResult, pool: &mut WorkerPool) -> (r: bool)
        ensures
            ({
                let (s2, ok, items) = event_complete_spec(old(self).state(), result);
                &&& r == ok
                &&& final(self).state() == s2
                &&& final(pool).queue_spec() == old(pool).queue_spec() + items
                &&& final(pool).pool_size_spec() == old(pool).pool_size_spec()
                &&& final(pool).next_event_id_spec() == old(pool).next_event_id_spec()
            }),
    {
        if self.completed {
            proof {
                assert(final(pool).queue_spec() =~= old(pool).queue_spec() + Seq::<
                    WorkItem,
                >::empty());
            }
            false
        } else {
            self.completed = true;
            self.result = clone_result(&result);
            let ghost items = old(self).callbacks@.map(
                |_i: int, cb: u64| WorkItem::Run(cb, result),
            );
            let mut k: usize = 0;
            while k < self.callbacks.len()
                invariant
                    k <= self.callbacks@.len(),
                    self.callbacks@ == old(self).callbacks@,
                    items == self.callbacks@.map(|_i: int, cb: u64| WorkItem::Run(cb, result)),
                    pool.queue_spec() == old(pool).queue_spec() + items.subrange(0, k as int),
                    pool.pool_size_spec() == old(pool).pool_size_spec(),
                    pool.next_event_id_spec() == old(pool).next_event_id_spec(),
                decreases self.callbacks@.len() - k,
            {
                let cb = self.callbacks[k];
                let r = clone_result(&result);
                pool.spawn_box_fn(cb, r);
                k = k + 1;
            }
            self.callbacks = Vec::new();
            proof {
                assert(items.subrange(0, items.len() as int) =~= items);
            }
            true
        }
    }
}

// ---------------------------------------------------------------------------
// Laws of the event lifecycle, over whole histories of operations.
// ---------------------------------------------------------------------------
/// One operation on an event, as the lifecycle sees it.
pub ghost enum EventOp {
    /// A callback registration.
    Callback(u64),
    /// A completion attempt with this outcome.
    Complete(WorkResult),
}

/// The event state after one operation.
pub open spec fn event_op_state(s: EventState, op: EventOp) -> EventState {
    match op {
        EventOp::Callback(f) => event_callback_spec(s, f).0,
        EventOp::Complete(r) => event_complete_spec(s, r).0,
    }
}

/// The event state after a whole history of operations.
pub open spec fn event_state_after(s: EventState, ops: Seq<EventOp>) -> EventState
    decreases ops.len(),
{
    if ops.len() == 0 {
        s
    } else {
        event_op_state(event_state_after(s, ops.drop_last()), ops.last())
    }
}

/// Event single-completion: the first completion of a pending event succeeds
/// and stores its result; after it, whatever registrations and completion
/// attempts follow, the event stays completed with that same result — every
/// observer's `result()` sees it — and every further completion attempt
/// reports failure, changes nothing and dispatches nothing.
pub proof fn lemma_event_single_completion(s: EventState, r: WorkResult, ops: Seq<EventOp>)
    requires
        !s.completed,
    ensures
        ({
            let s1 = event_complete_spec(s, r).0;
            let s2 = event_state_after(s1, ops);
            &&& event_complete_spec(s, r).1
            &&& s1.completed && s1.result == r
            &&& s2.completed && s2.result == r
            &&& forall|r2: WorkResult|
                event_complete_spec(s2, r2) == (s2, false, Seq::<WorkItem>::empty())
        }),
    decreases ops.len(),
{
    if ops.len() > 0 {
        lemma_event_single_completion(s, r, ops.drop_last());
    }
}

/// Event callback dispatch: a callback registered once while the event is
/// pending is dispatched exactly once — by the completion, with the
/// completion's result, and by nothing else (the completion empties the
/// callback list, and later completion attempts dispatch nothing). A
/// callback registered after completion is dispatched exactly once as well,
/// immediately, with that same stored result.
pub proof fn lemma_event_callback_dispatch(s: EventState, f: u64, r: WorkResult)
    requires
        !s.completed,
        !s.callbacks.contains(f),
    ensures
        ({
            let (s1, at_registration) = event_callback_spec(s, f);
            let (s2, ok, items) = event_complete_spec(s1, r);
            &&& at_registration is None
            &&& ok
            &&& items.len() > 0 && items.last() == WorkItem::Run(f, r)
            &&& forall|i: int| 0 <= i < items.len() - 1 ==> items[i] != WorkItem::Run(f, r)
            &&& s2.callbacks.len() == 0
            &&& forall|f2: u64|
                event_callback_spec(s2, f2) == (s2, Some(WorkItem::Run(f2, r)))
        }),
{
    let s1 = event_callback_spec(s, f).0;
    let items = event_complete_spec(s1, r).2;
    assert(s1.callbacks == s.callbacks.push(f));
    assert forall|i: int| 0 <= i < items.len() - 1 implies items[i] != WorkItem::Run(f, r) by {
        assert(items[i] == WorkItem::Run(s1.callbacks[i], r));
        assert(s1.callbacks[i] == s.callbacks[i]);
        assert(s.callbacks[i] != f);
    }
}

/// A worker pool: `pool_size` workers consume the queue front to back; each
/// `Run` item invokes its thunk, each `Close` stops one worker. The queue
/// holds what was spawned and not yet consumed, in spawn order.
#[derive(Debug)]
pub struct WorkerPool {
    pool_size: usize,
    next_event_id: usize,
    queue: Vec<WorkItem>,
}

impl WorkerPool {
    /// The pending work items, front of the queue first.
    pub closed spec fn queue_spec(self) -> Seq<WorkItem> {
        self.queue@
    }

    /// How many workers consume the queue.
    pub closed spec fn pool_size_spec(self) -> nat {
        self.pool_size as nat
    }

    /// The identifier the next created event will get.
    pub closed spec fn next_event_id_spec(self) -> nat {
        self.next_event_id as nat
    }

    /// A pool with `pool_size` workers and an empty queue.
    pub fn new_with_size(pool_size: usize) -> (p: WorkerPool)
        ensures
            p.pool_size_spec() == pool_size,
            p.next_event_id_spec() == 0,
            p.queue_spec().len() == 0,
    {
        WorkerPool { pool_size, next_event_id: 0, queue: Vec::new() }
    }

    /// Enqueue thunk `f` to be run with outcome `r`. Items are consumed in
    /// spawn order, but nothing is promised about the order in which
    /// different workers finish them.
    pub fn spawn_box_fn(&mut self, f: u64, r: WorkResult)
        ensures
            final(self).queue_spec() == old(self).queue_spec().push(WorkItem::Run(f, r)),
            final(self).pool_size_spec() == old(self).pool_size_spec(),
            final(self).next_event_id_spec() == old(self).next_event_id_spec(),
    {
        self.queue.push(WorkItem::Run(f, r));
    }

    /// Create a pending event bound to this pool, with a fresh identifier
    /// drawn from the pool's monotonic counter.
    pub fn create_event(&mut self) -> (ev: Event)
        requires
            old(self).next_event_id_spec() < usize::MAX,
        ensures
            ev.state() == (EventState {
                id: old(self).next_event_id_spec(),
                completed: false,
                result: Err(Error::NotCompleted),
                callbacks: Seq::<u64>::empty(),
            }),
            final(self).next_event_id_spec() == old(self).next_event_id_spec() + 1,
            final(self).queue_spec() == old(self).queue_spec(),
            final(self).pool_size_spec() == old(self).pool_size_spec(),
    {
        let id = self.next_event_id;
        self.next_event_id = self.next_event_id + 1;
        Event { id, completed: false, result: Err(Error::NotCompleted), callbacks: Vec::new() }
    }

    /// Take the item a worker runs next: the front of the queue, if any.
    pub fn take_work(&mut self) -> (r: Option<WorkItem>)
        ensures
            old(self).queue_spec().len() == 0 ==> r is None && final(self).queue_spec() == old(self).queue_spec(),
            old(self).queue_spec().len() > 0 ==> (r matches Some(item) && item == old(self).queue_spec()[0] && final(self).queue_spec() == old(self).queue_spec().subrange(
                1,
                old(self).queue_spec().len() as int,
            )),
            final(self).pool_size_spec() == old(self).pool_size_spec(),
            final(self).next_event_id_spec() == old(self).next_event_id_spec(),
    {
        if self.queue.len() > 0 {
            Some(self.queue.remove(0))
        } else {
            None
        }
    }

    /// Wind the pool down: one close sentinel per worker, behind whatever
    /// is already queued, so every worker exits after the remaining work.
    pub fn shutdown(&mut self)
        ensures
            final(self).queue_spec().len() == old(self).queue_spec().len() + old(self).pool_size_spec(),
            forall|i: int|
                0 <= i < old(self).queue_spec().len() ==> final(self).queue_spec()[i] == old(self).queue_spec()[i],
            forall|i: int|
                old(self).queue_spec().len() <= i < final(self).queue_spec().len() ==> final(self).queue_spec()[i] is Close,
            final(self).pool_size_spec() == old(self).pool_size_spec(),
            final(self).next_event_id_spec() == old(self).next_event_id_spec(),
    {
        let mut k: usize = 0;
        while k < self.pool_size
            invariant
                k <= self.pool_size,
                self.pool_size == old(self).pool_size,
                self.next_event_id == old(self).next_event_id,
                self.queue@.len() == old(self).queue@.len() + k,
                forall|i: int| 0 <= i < old(self).queue@.len() ==> self.queue@[i] == old(self).queue@[i],
                forall|i: int|
                    old(self).queue@.len() <= i < self.queue@.len() ==> self.queue@[i] is Close,
            decreases self.pool_size - k,
        {
            self.queue.push(WorkItem::Close);
            k = k + 1;
        }
    }
}

} // verus!
