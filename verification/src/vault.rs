//! The vault: a lock whose guard is a free-standing value, so that exclusive
//! access can be carried across a chain of asynchronous steps instead of
//! being tied to a lexical scope.
//!
//! The lock protocol lives in [`InnerLock`]: a `locked` flag plus a FIFO of
//! task identifiers waiting to acquire. Every transition is also written as
//! a spec function over [`LockState`], so that the exclusion and progress
//! laws can be stated and proved over whole sequences of operations
//! ([`lemma_vault_exclusion`], [`lemma_vault_progress`]).
//!
//! [`Vault`] pairs the protocol with the guarded value: acquiring moves the
//! value into the guard ([`VaultAcquired`]), releasing moves it back and
//! names the waiter to wake. A driver that owns the real task handles
//! performs the parking and waking.

use vstd::prelude::*;

verus! {

/// The protocol state of one vault: whether it is held, and the tasks
/// parked on it, front of the queue first.
pub ghost struct LockState {
    pub locked: bool,
    pub waiting: Seq<u64>,
}

/// One non-blocking acquisition attempt: succeeds exactly when the vault is
/// free, and parks nothing.
pub open spec fn try_acquire_spec(s: LockState) -> (LockState, bool) {
    if s.locked {
        (s, false)
    } else {
        (LockState { locked: true, waiting: s.waiting }, true)
    }
}

/// One poll of an acquire future by task `task`: acquires when the vault is
/// free, otherwise parks the task at the back of the queue.
pub open spec fn poll_acquire_spec(s: LockState, task: u64) -> (LockState, bool) {
    if s.locked {
        (LockState { locked: s.locked, waiting: s.waiting.push(task) }, false)
    } else {
        (LockState { locked: true, waiting: s.waiting }, true)
    }
}

/// Releasing the vault: unlocks, and wakes the longest-waiting task if any
/// (first in, first out, so no waiter starves under finite contention).
pub open spec fn release_spec(s: LockState) -> (LockState, Option<u64>) {
    if s.waiting.len() > 0 {
        (
            LockState { locked: false, waiting: s.waiting.subrange(1, s.waiting.len() as int) },
            Some(s.waiting[0]),
        )
    } else {
        (LockState { locked: false, waiting: s.waiting }, None)
    }
}

/// The lock word of a vault: a held flag and the queue of parked tasks.
#[derive(Debug)]
pub struct InnerLock {
    locked: bool,
    waiting: Vec<u64>,
}

impl View for InnerLock {
    type V = LockState;

    closed spec fn view(&self) -> LockState {
        LockState { locked: self.locked, waiting: self.waiting@ }
    }
}

impl InnerLock {
    /// A fresh lock: free, nobody waiting.
    pub fn new() -> (r: InnerLock)
        ensures
            !r@.locked,
            r@.waiting.len() == 0,
    {
        InnerLock { locked: false, waiting: Vec::new() }
    }

    /// Non-blocking attempt; see [`try_acquire_spec`].
    pub fn try_acquire(&mut self) -> (got: bool)
        ensures
            (final(self)@, got) == try_acquire_spec(old(self)@),
    {
        if self.locked {
            false
        } else {
            self.locked = true;
            true
        }
    }

    /// One poll by task `task`; see [`poll_acquire_spec`].
    pub fn poll_acquire(&mut self, task: u64) -> (got: bool)
        ensures
            (final(self)@, got) == poll_acquire_spec(old(self)@, task),
    {
        if self.locked {
            self.waiting.push(task);
            false
        } else {
            self.locked = true;
            true
        }
    }

    /// Release the lock and name the task to wake; see [`release_spec`].
    pub fn release(&mut self) -> (woken: Option<u64>)
        ensures
            (final(self)@, woken) == release_spec(old(self)@),
    {
        self.locked = false;
        if self.waiting.len() > 0 {
            let w = self.waiting.remove(0);
            Some(w)
        } else {
            None
        }
    }

    /// Whether the vault is currently held.
    pub fn is_locked(&self) -> (r: bool)
        ensures
            r == self@.locked,
    {
        self.locked
    }
}

/// A vault: the lock word together with the guarded value. While the vault
/// is free it holds the value; acquiring moves the value out into the guard,
/// so at most one party can ever read or write it at a time.
#[derive(Debug)]
pub struct Vault<T> {
    lock: InnerLock,
    data: Option<T>,
}

/// The guard: sole owner of the guarded value until it is handed back to
/// the vault. It is a free-standing value, so it may cross task and thread
/// boundaries before the release.
#[derive(Debug)]
pub struct VaultAcquired<T> {
    data: T,
}

/// A pending acquisition by one task: the model of the acquire future. Each
/// poll either yields the guard or parks the task on the vault.
#[derive(Debug, Clone, Copy)]
pub struct VaultAcquire {
    task: u64,
}

impl<T> Vault<T> {
    /// The lock protocol state.
    pub closed spec fn lock_state(self) -> LockState {
        self.lock@
    }

    /// The guarded value, present exactly while the vault is free.
    pub closed spec fn stored(self) -> Option<T> {
        self.data
    }

    /// A vault holds its value exactly while it is not held.
    pub open spec fn wf(self) -> bool {
        self.stored() is Some <==> !self.lock_state().locked
    }

    /// Create a vault holding `t`, free, with nobody waiting.
    pub fn new(t: T) -> (v: Vault<T>)
        ensures
            v.wf(),
            !v.lock_state().locked,
            v.lock_state().waiting.len() == 0,
            v.stored() == Some(t),
    {
        Vault { lock: InnerLock::new(), data: Some(t) }
    }

    /// Begin a future-driven acquisition on behalf of task `task`.
    pub fn lock(&self, task: u64) -> (r: VaultAcquire)
        ensures
            r.task_id() == task,
    {
        VaultAcquire { task }
    }

    /// Non-blocking acquisition: the guard, or `Err` if the vault is held.
    pub fn try_lock(&mut self) -> (r: Result<VaultAcquired<T>, ()>)
        requires
            old(self).wf(),
        ensures
            final(self).wf(),
            (final(self).lock_state(), r is Ok) == try_acquire_spec(old(self).lock_state()),
            r matches Ok(g) ==> Some(g.value()) == old(self).stored() && final(self).stored() is None,
            r is Err ==> final(self).stored() == old(self).stored(),
    {
        if self.lock.try_acquire() {
            let data = self.data.take();
            match data {
                Some(t) => Ok(VaultAcquired { data: t }),
                None => {
                    proof {
                        assert(false);
                    }
                    Err(())
                },
            }
        } else {
            Err(())
        }
    }

    /// Hand the guarded value back, unlocking the vault, and name the task
    /// to wake (the longest-waiting one, if any).
    pub fn release(&mut self, guard: VaultAcquired<T>) -> (woken: Option<u64>)
        requires
            old(self).wf(),
            old(self).lock_state().locked,
        ensures
            final(self).wf(),
            (final(self).lock_state(), woken) == release_spec(old(self).lock_state()),
            final(self).stored() == Some(guard.value()),
    {
        self.data = Some(guard.into_inner());
        self.lock.release()
    }
}

impl VaultAcquire {
    /// The task this acquisition polls for.
    pub closed spec fn task_id(self) -> u64 {
        self.task
    }

    /// One poll: the guard if the vault was free, otherwise the task is
    /// parked on the vault's queue.
    pub fn poll<T>(&self, vault: &mut Vault<T>) -> (r: Option<VaultAcquired<T>>)
        requires
            old(vault).wf(),
        ensures
            final(vault).wf(),
            (final(vault).lock_state(), r is Some) == poll_acquire_spec(
                old(vault).lock_state(),
                self.task_id(),
            ),
            r matches Some(g) ==> Some(g.value()) == old(vault).stored() && final(vault).stored() is None,
            r is None ==> final(vault).stored() == old(vault).stored(),
    {
        if vault.lock.poll_acquire(self.task) {
            let data = vault.data.take();
            match data {
                Some(t) => Some(VaultAcquired { data: t }),
                None => {
                    proof {
                        assert(false);
                    }
                    None
                },
            }
        } else {
            None
        }
    }
}

impl<T> VaultAcquired<T> {
    /// The guarded value, as specs see it.
    pub closed spec fn value(self) -> T {
        self.data
    }

    /// Read access to the guarded value.
    pub fn get(&self) -> (r: &T)
        ensures
            *r == self.value(),
    {
        &self.data
    }

    /// Write access to the guarded value.
    pub fn get_mut(&mut self) -> (r: &mut T)
        ensures
            *r == old(self).value(),
            final(self).value() == *final(r),
    {
        &mut self.data
    }

    /// Give up the guard without returning the value to a vault.
    pub fn into_inner(self) -> (r: T)
        ensures
            r == self.value(),
    {
        self.data
    }
}

// ---------------------------------------------------------------------------
// Laws of the protocol, over whole histories of operations.
// ---------------------------------------------------------------------------
/// One operation on a vault, as seen by the protocol.
pub ghost enum VaultOp {
    /// A non-blocking acquisition attempt.
    TryLock,
    /// One poll of an acquire future by the given task.
    Poll(u64),
    /// The current guard is given back.
    Release,
}

/// Protocol state extended with the number of guards outstanding.
pub ghost struct VaultModel {
    pub state: LockState,
    pub guards: nat,
}

/// A fresh vault: free, nobody waiting, no guard out.
pub open spec fn vault_model_init() -> VaultModel {
    VaultModel { state: LockState { locked: false, waiting: Seq::empty() }, guards: 0 }
}

/// How one operation moves the extended state. A release only happens while
/// a guard is out, since only the guard holder can perform it.
pub open spec fn vault_model_step(m: VaultModel, op: VaultOp) -> VaultModel {
    match op {
        VaultOp::TryLock => {
            let (s2, got) = try_acquire_spec(m.state);
            VaultModel { state: s2, guards: m.guards + if got { 1nat } else { 0nat } }
        },
        VaultOp::Poll(task) => {
            let (s2, got) = poll_acquire_spec(m.state, task);
            VaultModel { state: s2, guards: m.guards + if got { 1nat } else { 0nat } }
        },
        VaultOp::Release => {
            if m.guards > 0 {
                let (s2, _woken) = release_spec(m.state);
                VaultModel { state: s2, guards: (m.guards - 1) as nat }
            } else {
                m
            }
        },
    }
}

/// The extended state after a whole history of operations.
pub open spec fn vault_model_after(ops: Seq<VaultOp>) -> VaultModel
    decreases ops.len(),
{
    if ops.len() == 0 {
        vault_model_init()
    } else {
        vault_model_step(vault_model_after(ops.drop_last()), ops.last())
    }
}

/// Vault exclusion: whatever sequence of interleaved acquisitions, polls and
/// releases a vault sees, at most one guard is ever outstanding, and one is
/// outstanding exactly while the vault is locked. Every further acquisition
/// attempt made while a guard is out parks or fails.
pub proof fn lemma_vault_exclusion(ops: Seq<VaultOp>)
    ensures
        vault_model_after(ops).guards <= 1,
        vault_model_after(ops).guards == if vault_model_after(ops).state.locked {
            1nat
        } else {
            0nat
        },
    decreases ops.len(),
{
    if ops.len() > 0 {
        lemma_vault_exclusion(ops.drop_last());
    }
}

/// Vault progress: if the vault is held and tasks are waiting, the release
/// wakes the longest-waiting task, and that task's next poll acquires the
/// guard. No pending acquirer is starved under finite contention.
pub proof fn lemma_vault_progress(s: LockState)
    requires
        s.locked,
        s.waiting.len() > 0,
    ensures
        ({
            let (s1, woken) = release_spec(s);
            &&& woken == Some(s.waiting[0])
            &&& poll_acquire_spec(s1, s.waiting[0]).1
        }),
{
}

} // verus!
