use popcorn::device::CpuDevice;
use popcorn::event::{event_result_to_work, work_result_to_event, Error as EventError};
use popcorn::work::{Error as WorkError, WorkItem, WorkerPool};

#[test]
fn event_ids_are_monotonic() {
    let mut pool = WorkerPool::new_with_size(2);
    let e0 = pool.create_event();
    let e1 = pool.create_event();
    assert_eq!(e0.id(), 0);
    assert_eq!(e1.id(), 1);
}

#[test]
fn event_single_completion() {
    let mut pool = WorkerPool::new_with_size(2);
    let mut ev = pool.create_event();
    // before completion the result is the not-completed sentinel
    assert!(matches!(ev.result(), Err(WorkError::NotCompleted)));
    assert!(ev.complete(Ok(()), &mut pool));
    // the second completion has no effect and reports failure
    assert!(!ev.complete(Err(WorkError::Custom("late".to_string())), &mut pool));
    assert!(matches!(ev.result(), Ok(())));
}

#[test]
fn event_callback_before_completion_dispatches_once() {
    let mut pool = WorkerPool::new_with_size(1);
    let mut ev = pool.create_event();
    ev.callback_box(7, &mut pool);
    // not dispatched at registration
    assert!(pool.take_work().is_none());
    assert!(ev.complete(Ok(()), &mut pool));
    // dispatched exactly once, with the completion result
    match pool.take_work() {
        Some(WorkItem::Run(thunk, Ok(()))) => assert_eq!(thunk, 7),
        other => panic!("expected the registered thunk, got {:?}", other),
    }
    assert!(pool.take_work().is_none());
    // a second completion attempt dispatches nothing
    assert!(!ev.complete(Ok(()), &mut pool));
    assert!(pool.take_work().is_none());
}

#[test]
fn event_callback_after_completion_dispatches_with_stored_result() {
    let mut pool = WorkerPool::new_with_size(1);
    let mut ev = pool.create_event();
    let msg = "boom".to_string();
    assert!(ev.complete(Err(WorkError::Custom(msg)), &mut pool));
    ev.callback_box(9, &mut pool);
    match pool.take_work() {
        Some(WorkItem::Run(thunk, Err(WorkError::Custom(s)))) => {
            assert_eq!(thunk, 9);
            assert_eq!(s, "boom");
        },
        other => panic!("expected the late thunk with the stored result, got {:?}", other),
    }
    assert!(pool.take_work().is_none());
}

#[test]
fn event_callbacks_dispatch_in_registration_order() {
    let mut pool = WorkerPool::new_with_size(1);
    let mut ev = pool.create_event();
    ev.callback_box(1, &mut pool);
    ev.callback_box(2, &mut pool);
    ev.callback_box(3, &mut pool);
    assert!(ev.complete(Ok(()), &mut pool));
    for expected in 1..=3u64 {
        match pool.take_work() {
            Some(WorkItem::Run(thunk, _)) => assert_eq!(thunk, expected),
            other => panic!("expected thunk {}, got {:?}", expected, other),
        }
    }
}

#[test]
fn worker_pool_queue_is_fifo_and_shutdown_closes_each_worker() {
    let mut pool = WorkerPool::new_with_size(3);
    pool.spawn_box_fn(10, Ok(()));
    pool.spawn_box_fn(20, Ok(()));
    pool.shutdown();
    match pool.take_work() {
        Some(WorkItem::Run(t, _)) => assert_eq!(t, 10),
        other => panic!("unexpected {:?}", other),
    }
    match pool.take_work() {
        Some(WorkItem::Run(t, _)) => assert_eq!(t, 20),
        other => panic!("unexpected {:?}", other),
    }
    for _ in 0..3 {
        assert!(matches!(pool.take_work(), Some(WorkItem::Close)));
    }
    assert!(pool.take_work().is_none());
}

#[test]
fn result_conversions_round_trip() {
    let cases: Vec<Result<(), EventError>> = vec![
        Ok(()),
        Err(EventError::NotCompleted),
        Err(EventError::Custom("x".to_string())),
    ];
    for c in cases {
        let there = event_result_to_work(c.clone());
        let back = work_result_to_event(there);
        match (c, back) {
            (Ok(()), Ok(())) => {},
            (Err(EventError::NotCompleted), Err(EventError::NotCompleted)) => {},
            (Err(EventError::Custom(a)), Err(EventError::Custom(b))) => assert_eq!(a, b),
            _ => panic!("conversion did not round-trip"),
        }
    }
}

#[test]
fn cpu_device_events_complete_once_with_device_identity() {
    let mut dev = CpuDevice::new(2);
    let dev_id = dev.device_id();
    let mut ev = dev.create_cpu_event();
    assert_eq!(ev.device().id(), dev_id);
    assert!(matches!(ev.result(), Err(EventError::NotCompleted)));
    let pool = dev.worker_pool_mut();
    assert!(ev.complete(Ok(()), pool));
    assert!(!ev.complete(Err(EventError::NotCompleted), pool));
    assert!(matches!(ev.result(), Ok(())));
}

#[test]
fn cpu_device_allocate_completes_synchronously() {
    let mut dev = CpuDevice::new(1);
    let (mem, ev) = dev.allocate::<i64>(5);
    assert_eq!(mem.len(), 5);
    // a fresh allocation is raw storage: nothing to read back yet
    assert!(mem.get(0).is_none());
    assert!(matches!(ev.result(), Ok(())));
}
