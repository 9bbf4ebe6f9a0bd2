//! The CPU device: an execution context that owns a worker pool, issues
//! events bound to itself, and allocates device memory.
//!
//! A `CpuEvent` joins a pool-level event with the device it will complete
//! on and the device-level outcome it stores; completing it stores the
//! outcome once and fans the registered callbacks onto the device's pool.

use crate::event;
use crate::native;
use crate::work;
use vstd::prelude::*;

verus! {

/// An event occurring on a CPU device: the pool-level event that carries
/// the callbacks, the identity of the device it completes on, and the
/// stored device-level outcome.
#[derive(Debug)]
pub struct CpuEvent {
    device: native::Device,
    work_event: work::Event,
    result: event::EventResult,
}

impl CpuEvent {
    /// The underlying pool-level event state.
    pub closed spec fn work_state(self) -> work::EventState {
        self.work_event.state()
    }

    /// The stored device-level outcome.
    pub closed spec fn result_spec(self) -> event::EventResult {
        self.result
    }

    /// The identity of the device this event completes on.
    pub closed spec fn device_spec(self) -> native::Device {
        self.device
    }

    /// Pair a device with a pool-level event. The stored outcome starts as
    /// the not-completed sentinel.
    pub fn new(device: native::Device, work_event: work::Event) -> (ev: CpuEvent)
        ensures
            ev.device_spec() == device,
            ev.work_state() == work_event.state(),
            ev.result_spec() == Result::<(), event::Error>::Err(event::Error::NotCompleted),
    {
        CpuEvent { device, work_event, result: Err(event::Error::NotCompleted) }
    }

    /// The identifier of the underlying pool-level event.
    pub fn event_id(&self) -> (r: usize)
        ensures
            r == self.work_state().id,
    {
        self.work_event.id()
    }

    /// The device this event completes on.
    pub fn device(&self) -> (d: native::Device)
        ensures
            d == self.device_spec(),
    {
        self.device
    }

    /// Register callback `f`: it runs exactly once with the completion
    /// outcome — queued on the event while it is pending, dispatched onto
    /// `pool` at once if the event already completed.
    pub fn callback(&mut self, f: u64, pool: &mut work::WorkerPool)
        ensures
            ({
                let (s2, dispatch) = work::event_callback_spec(old(self).work_state(), f);
                &&& final(self).work_state() == s2
                &&& final(self).result_spec() == old(self).result_spec()
                &&& final(self).device_spec() == old(self).device_spec()
                &&& match dispatch {
                    Some(item) => final(pool).queue_spec() == old(pool).queue_spec().push(item),
                    None => final(pool).queue_spec() == old(pool).queue_spec(),
                }
                &&& final(pool).pool_size_spec() == old(pool).pool_size_spec()
                &&& final(pool).next_event_id_spec() == old(pool).next_event_id_spec()
            }),
    {
        self.work_event.callback_box(f, pool);
    }

    /// Complete the event with `result`: on the first call the outcome is
    /// stored and every queued callback is dispatched onto `pool` with its
    /// pool-level translation; later calls change nothing and return false.
    pub fn complete(&mut self, result: event::EventResult, pool: &mut work::WorkerPool) -> (r:
        bool)
        ensures
            ({
                let wr = event::to_work_result_spec(result);
                let (s2, ok, items) = work::event_complete_spec(old(self).work_state(), wr);
                &&& r == ok
                &&& final(self).work_state() == s2
                &&& final(self).result_spec() == if ok {
                    result
                } else {
                    old(self).result_spec()
                }
                &&& final(self).device_spec() == old(self).device_spec()
                &&& final(pool).queue_spec() == old(pool).queue_spec() + items
                &&& final(pool).pool_size_spec() == old(pool).pool_size_spec()
                &&& final(pool).next_event_id_spec() == old(pool).next_event_id_spec()
            }),
    {
        let wr = event::event_result_to_work(event::clone_result(&result));
        let ok = self.work_event.complete(wr, pool);
        if ok {
            self.result = result;
        }
        ok
    }

    /// A snapshot of the stored outcome: the not-completed sentinel before
    /// the first completion, afterwards the outcome it stored.
    pub fn result(&self) -> (r: event::EventResult)
        ensures
            r == self.result_spec(),
    {
        event::clone_result(&self.result)
    }
}

/// A CPU device: a stable identity together with the worker pool that runs
/// its thunks and event callbacks.
#[derive(Debug)]
pub struct CpuDevice {
    device: native::Device,
    worker_pool: work::WorkerPool,
}

impl CpuDevice {
    /// The device's identity.
    pub closed spec fn device_spec(self) -> native::Device {
        self.device
    }

    /// The state of the device's worker pool.
    pub closed spec fn pool_spec(self) -> work::WorkerPool {
        self.worker_pool
    }

    /// A CPU device with a freshly drawn identity and a pool of
    /// `pool_size` workers.
    pub fn new(pool_size: usize) -> (d: CpuDevice)
        ensures
            d.pool_spec().pool_size_spec() == pool_size,
            d.pool_spec().next_event_id_spec() == 0,
            d.pool_spec().queue_spec().len() == 0,
    {
        CpuDevice { device: native::Device::new(), worker_pool: work::WorkerPool::new_with_size(pool_size) }
    }

    /// The device's unique identifier.
    pub fn device_id(&self) -> (r: u128)
        ensures
            r == self.device_spec().id_spec(),
    {
        self.device.id()
    }

    /// The identity handle used to key buffer copies.
    pub fn device(&self) -> (d: native::Device)
        ensures
            d == self.device_spec(),
    {
        self.device
    }

    /// The worker pool that runs this device's thunks.
    pub fn worker_pool(&self) -> (p: &work::WorkerPool)
        ensures
            *p == self.pool_spec(),
    {
        &self.worker_pool
    }

    /// Write access to the worker pool, for the driver that consumes it.
    pub fn worker_pool_mut(&mut self) -> (p: &mut work::WorkerPool)
        ensures
            *p == old(self).pool_spec(),
            final(self).pool_spec() == *final(p),
            final(self).device_spec() == old(self).device_spec(),
    {
        &mut self.worker_pool
    }

    /// Create a pending event bound to this device, with a fresh identifier
    /// from the device's pool.
    pub fn create_cpu_event(&mut self) -> (ev: CpuEvent)
        requires
            old(self).pool_spec().next_event_id_spec() < usize::MAX,
        ensures
            ev.device_spec() == old(self).device_spec(),
            ev.work_state() == (work::EventState {
                id: old(self).pool_spec().next_event_id_spec(),
                completed: false,
                result: Err(work::Error::NotCompleted),
                callbacks: Seq::<u64>::empty(),
            }),
            ev.result_spec() == Result::<(), event::Error>::Err(event::Error::NotCompleted),
            final(self).device_spec() == old(self).device_spec(),
            final(self).pool_spec().next_event_id_spec() == old(
                self,
            ).pool_spec().next_event_id_spec() + 1,
            final(self).pool_spec().queue_spec() == old(self).pool_spec().queue_spec(),
            final(self).pool_spec().pool_size_spec() == old(self).pool_spec().pool_size_spec(),
    {
        let work_event = self.worker_pool.create_event();
        CpuEvent::new(self.device, work_event)
    }

    /// Allocate storage for `size` elements on this device. The returned
    /// event reports readiness; on a CPU the allocation is immediate, so it
    /// comes back already completed with success, its callbacks free to be
    /// registered before or after.
    pub fn allocate<T: Copy>(&mut self, size: usize) -> (r: (native::Memory<T>, CpuEvent))
        requires
            old(self).pool_spec().next_event_id_spec() < usize::MAX,
        ensures
            r.0@.len() == size,
            forall|i: int| 0 <= i < size ==> r.0@[i] is None,
            r.1.device_spec() == old(self).device_spec(),
            r.1.work_state().completed,
            r.1.result_spec() == Result::<(), event::Error>::Ok(()),
            final(self).device_spec() == old(self).device_spec(),
            final(self).pool_spec().queue_spec() == old(self).pool_spec().queue_spec(),
            final(self).pool_spec().pool_size_spec() == old(self).pool_spec().pool_size_spec(),
    {
        let memory = native::Memory::allocate(size);
        let mut ev = self.create_cpu_event();
        let ok = ev.complete(Ok(()), &mut self.worker_pool);
        proof {
            assert(final(self).pool_spec().queue_spec() =~= old(self).pool_spec().queue_spec());
        }
        (memory, ev)
    }
}

} // verus!
