use popcorn::buffer::{Buffer, BufferDevice, Error};
use popcorn::native::{Device, Error as NativeError};

#[test]
fn test_native() {
    let dev = Device::new();
    let mut buf: Buffer<f64> = Buffer::new(BufferDevice::Native(dev), 4).unwrap();
    let mut lbuf = buf.try_lock().unwrap();
    lbuf.sync_from_vec(vec![23.0, 45.5, 54.2, 42.0]).unwrap();
    let nv = lbuf.sync_to_vec().unwrap();

    assert_eq!(nv, vec![23.0, 45.5, 54.2, 42.0]);
}

#[test]
fn buffer_round_trip_from_vec() {
    let dev = Device::new();
    let mut buf: Buffer<i64> = Buffer::from_vec_native(&dev, vec![1, 2, 3]).unwrap();
    let locked = buf.try_lock().unwrap();
    assert_eq!(locked.size(), 3);
    assert_eq!(locked.sync_to_vec().unwrap(), vec![1, 2, 3]);
}

#[test]
fn buffer_sync_to_latest_device_is_a_no_op() {
    let dev = Device::with_id(1);
    let mut buf: Buffer<i64> = Buffer::from_vec_native(&dev, vec![5, 6]).unwrap();
    let mut locked = buf.try_lock().unwrap();
    locked.sync(&BufferDevice::Native(dev)).unwrap();
    locked.sync(&BufferDevice::Native(dev)).unwrap();
    // the single copy is untouched and still authoritative
    assert_eq!(locked.raw().native_memory(&dev).unwrap().len(), 2);
    assert_eq!(locked.sync_to_vec().unwrap(), vec![5, 6]);
}

#[test]
fn buffer_sync_materializes_copy_on_new_device() {
    let dev_a = Device::with_id(1);
    let dev_b = Device::with_id(2);
    let mut buf: Buffer<i64> = Buffer::from_vec_native(&dev_a, vec![7, 8, 9]).unwrap();
    let mut locked = buf.try_lock().unwrap();
    assert!(matches!(
        locked.raw().native_memory(&dev_b),
        Err(Error::InvalidDevice)
    ));
    locked.sync(&BufferDevice::Native(dev_b)).unwrap();
    // both devices hold a copy of the same length; the target is authoritative
    assert_eq!(locked.raw().native_memory(&dev_a).unwrap().len(), 3);
    assert_eq!(locked.raw().native_memory(&dev_b).unwrap().len(), 3);
    assert_eq!(locked.sync_to_vec().unwrap(), vec![7, 8, 9]);
}

#[test]
fn buffer_uninitialized_read_fails() {
    let dev = Device::new();
    let mut buf: Buffer<i64> = Buffer::new(BufferDevice::Native(dev), 2).unwrap();
    let locked = buf.try_lock().unwrap();
    assert!(matches!(
        locked.sync_to_vec(),
        Err(Error::Native(NativeError::Uninitialized))
    ));
}

#[test]
fn buffer_sync_from_vec_rejects_wrong_length() {
    let dev = Device::new();
    let mut buf: Buffer<i64> = Buffer::new(BufferDevice::Native(dev), 2).unwrap();
    let mut locked = buf.try_lock().unwrap();
    assert!(matches!(
        locked.sync_from_vec(vec![1, 2, 3]),
        Err(Error::Native(NativeError::SizeMismatch))
    ));
}

#[test]
fn buffer_try_lock_excludes_and_unlock_restores() {
    let dev = Device::new();
    let mut buf: Buffer<i64> = Buffer::from_vec_native(&dev, vec![4]).unwrap();
    let locked = buf.try_lock().unwrap();
    assert!(matches!(buf.try_lock(), Err(Error::InvalidLock)));
    assert_eq!(buf.unlock(locked), None);
    assert!(buf.try_lock().is_ok());
}

#[test]
fn buffer_lock_future_parks_until_released() {
    let dev = Device::new();
    let mut buf: Buffer<i64> = Buffer::from_vec_native(&dev, vec![1]).unwrap();
    let acquire = buf.lock(5);
    let first = buf.poll_lock(&acquire).unwrap();
    let acquire2 = buf.lock(6);
    assert!(buf.poll_lock(&acquire2).is_none());
    assert_eq!(buf.unlock(first), Some(6));
    assert!(buf.poll_lock(&acquire2).is_some());
}

#[test]
fn buffer_mutation_through_native_memory_mut() {
    let dev = Device::with_id(9);
    let mut buf: Buffer<i64> = Buffer::new(BufferDevice::Native(dev), 2).unwrap();
    let mut locked = buf.try_lock().unwrap();
    {
        let raw = locked.raw_mut();
        let mem = raw.native_memory_mut(&dev).unwrap();
        mem.set(0, 10);
        mem.set(1, 11);
    }
    assert_eq!(locked.sync_to_vec().unwrap(), vec![10, 11]);
}
