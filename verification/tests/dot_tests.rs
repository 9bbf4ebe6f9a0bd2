use popcorn::broadcast::broadcast_shape;
use popcorn::buffer::{Buffer, Error};
use popcorn::core_ops::{bcast_dot, bcast_dot_buffers, Dot};
use popcorn::native::Device;

#[test]
fn dot_primitive_on_runs() {
    let a: Vec<i64> = vec![1, 2, 3];
    let b: Vec<i64> = vec![2, 2, 2];
    assert_eq!(<i64 as Dot>::dot(&a, &b), 12);
    let empty: Vec<i64> = Vec::new();
    assert_eq!(<i64 as Dot>::dot(&empty, &empty), 0);
}

#[test]
fn broadcast_shape_aligns_from_the_right() {
    assert_eq!(
        broadcast_shape(&vec![2, 1], &vec![1, 3]).unwrap(),
        vec![2, 3]
    );
    assert_eq!(broadcast_shape(&vec![4], &vec![2, 4]).unwrap(), vec![2, 4]);
    assert!(matches!(
        broadcast_shape(&vec![2], &vec![3]),
        Err(Error::InvalidBroadcast)
    ));
}

#[test]
fn bcast_dot_broadcasts_rows() {
    // A of shape [2, 3] against B of shape [1, 3]: B's single row is
    // replicated over A's two rows, the trailing axis is contracted.
    let (shape_c, c) = bcast_dot::<i64>(
        &vec![2, 3],
        &vec![1, 2, 3, 4, 5, 6],
        &vec![1, 3],
        &vec![2, 2, 2],
    )
    .unwrap();
    assert_eq!(shape_c, vec![2]);
    assert_eq!(c, vec![12, 30]);
}

#[test]
fn bcast_dot_identity_shapes() {
    let (shape_c, c) = bcast_dot::<i64>(
        &vec![1, 4],
        &vec![1, 2, 3, 4],
        &vec![1, 4],
        &vec![2, 2, 2, 2],
    )
    .unwrap();
    assert_eq!(shape_c, vec![1]);
    assert_eq!(c, vec![20]);
}

#[test]
fn bcast_dot_rejects_incompatible_shapes() {
    let r = bcast_dot::<i64>(
        &vec![2, 3],
        &vec![1, 2, 3, 4, 5, 6],
        &vec![3, 3],
        &vec![1, 1, 1, 1, 1, 1, 1, 1, 1],
    );
    assert!(matches!(r, Err(Error::InvalidBroadcast)));
}

#[test]
fn bcast_dot_rejects_data_not_matching_shape() {
    let r = bcast_dot::<i64>(&vec![2, 2], &vec![1, 2, 3], &vec![2, 2], &vec![1, 2, 3, 4]);
    assert!(matches!(r, Err(Error::InvalidBroadcast)));
}

#[test]
fn bcast_dot_rejects_mismatched_contraction_axis() {
    let r = bcast_dot::<i64>(&vec![2], &vec![1, 2], &vec![3], &vec![1, 2, 3]);
    assert!(matches!(r, Err(Error::InvalidBroadcast)));
}

#[test]
fn bcast_dot_zero_contraction_axis_gives_zeros() {
    // rows of length zero contract to the empty dot
    let (shape_c, c) = bcast_dot::<i64>(&vec![2, 0], &vec![], &vec![1, 0], &vec![]).unwrap();
    assert_eq!(shape_c, vec![2]);
    assert_eq!(c, vec![0, 0]);
}

#[test]
fn bcast_dot_rejects_result_too_large_for_machine() {
    // both data rows are empty (trailing axis 0), but the broadcast leading
    // shape describes more rows than any machine length
    let big = usize::MAX;
    let r = bcast_dot::<i64>(&vec![big, big, 0], &vec![], &vec![big, big, 0], &vec![]);
    assert!(matches!(r, Err(Error::InvalidBroadcast)));
}

#[test]
fn bcast_rows_exposes_aligned_pairs() {
    let (shape_c, pairs) = popcorn::core_ops::bcast_rows::<i64>(
        &vec![2, 3],
        &vec![1, 2, 3, 4, 5, 6],
        &vec![1, 3],
        &vec![2, 2, 2],
    )
    .unwrap();
    assert_eq!(shape_c, vec![2]);
    assert_eq!(pairs.len(), 2);
    assert_eq!(pairs[0], (vec![1, 2, 3], vec![2, 2, 2]));
    assert_eq!(pairs[1], (vec![4, 5, 6], vec![2, 2, 2]));
}

#[test]
fn bcast_dot_over_locked_buffers() {
    let dev = Device::new();
    let mut shape_a: Buffer<usize> = Buffer::from_vec_native(&dev, vec![2, 3]).unwrap();
    let mut a: Buffer<i64> = Buffer::from_vec_native(&dev, vec![1, 2, 3, 4, 5, 6]).unwrap();
    let mut shape_b: Buffer<usize> = Buffer::from_vec_native(&dev, vec![1, 3]).unwrap();
    let mut b: Buffer<i64> = Buffer::from_vec_native(&dev, vec![2, 2, 2]).unwrap();

    let mut l_shape_a = shape_a.try_lock().unwrap();
    let mut l_a = a.try_lock().unwrap();
    let mut l_shape_b = shape_b.try_lock().unwrap();
    let mut l_b = b.try_lock().unwrap();

    let (shape_c, c) =
        bcast_dot_buffers::<i64>(&dev, &mut l_shape_a, &mut l_a, &mut l_shape_b, &mut l_b)
            .unwrap();
    assert_eq!(shape_c.sync_to_vec().unwrap(), vec![2]);
    assert_eq!(c.sync_to_vec().unwrap(), vec![12, 30]);

    // the inputs are still locked and intact
    assert_eq!(l_a.sync_to_vec().unwrap(), vec![1, 2, 3, 4, 5, 6]);
    assert!(matches!(a.try_lock(), Err(Error::InvalidLock)));
}

#[test]
fn dot_test() {
    let dev = Device::new();
    let shape_vec: Vec<usize> = vec![1, 4];

    let mut shape_a: Buffer<usize> = Buffer::from_vec_native(&dev, shape_vec.clone()).unwrap();
    let mut a: Buffer<i64> = Buffer::from_vec_native(&dev, vec![1, 2, 3, 4]).unwrap();
    let mut shape_b: Buffer<usize> = Buffer::from_vec_native(&dev, shape_vec.clone()).unwrap();
    let mut b: Buffer<i64> = Buffer::from_vec_native(&dev, vec![2, 2, 2, 2]).unwrap();
    let mut shape_c: Buffer<usize> = Buffer::new(popcorn::buffer::BufferDevice::Native(dev), 0).unwrap();
    let mut c: Buffer<i64> = Buffer::new(popcorn::buffer::BufferDevice::Native(dev), 1).unwrap();

    let mut l_shape_a = shape_a.try_lock().unwrap();
    let mut l_a = a.try_lock().unwrap();
    let mut l_shape_b = shape_b.try_lock().unwrap();
    let mut l_b = b.try_lock().unwrap();
    let mut l_shape_c = shape_c.try_lock().unwrap();
    let mut l_c = c.try_lock().unwrap();

    popcorn::core_ops::bcast_dot_into::<i64>(
        &dev,
        &mut l_shape_a,
        &mut l_a,
        &mut l_shape_b,
        &mut l_b,
        &mut l_shape_c,
        &mut l_c,
    )
    .unwrap();

    let shape_c_vec = l_shape_c.sync_to_vec().unwrap();
    let c_vec = l_c.sync_to_vec().unwrap();
    println!("Shape: {:?}", &shape_c_vec);
    println!("Contents: {:?}", &c_vec);
    assert_eq!(shape_c_vec, Vec::<usize>::new());
    assert_eq!(c_vec, vec![20]);
}

#[test]
fn bcast_dot_into_preallocated_outputs() {
    let dev = Device::new();
    let mut shape_a: Buffer<usize> = Buffer::from_vec_native(&dev, vec![1, 4]).unwrap();
    let mut a: Buffer<i64> = Buffer::from_vec_native(&dev, vec![1, 2, 3, 4]).unwrap();
    let mut shape_b: Buffer<usize> = Buffer::from_vec_native(&dev, vec![1, 4]).unwrap();
    let mut b: Buffer<i64> = Buffer::from_vec_native(&dev, vec![2, 2, 2, 2]).unwrap();
    let mut shape_c: Buffer<usize> = Buffer::from_vec_native(&dev, vec![0]).unwrap();
    let mut c: Buffer<i64> = Buffer::from_vec_native(&dev, vec![0]).unwrap();

    let mut l_shape_a = shape_a.try_lock().unwrap();
    let mut l_a = a.try_lock().unwrap();
    let mut l_shape_b = shape_b.try_lock().unwrap();
    let mut l_b = b.try_lock().unwrap();
    let mut l_shape_c = shape_c.try_lock().unwrap();
    let mut l_c = c.try_lock().unwrap();

    popcorn::core_ops::bcast_dot_into::<i64>(
        &dev,
        &mut l_shape_a,
        &mut l_a,
        &mut l_shape_b,
        &mut l_b,
        &mut l_shape_c,
        &mut l_c,
    )
    .unwrap();
    assert_eq!(l_shape_c.sync_to_vec().unwrap(), vec![1]);
    assert_eq!(l_c.sync_to_vec().unwrap(), vec![20]);
}

#[test]
fn bcast_dot_buffers_surface_shape_failures() {
    let dev = Device::new();
    let mut shape_a: Buffer<usize> = Buffer::from_vec_native(&dev, vec![2, 3]).unwrap();
    let mut a: Buffer<i64> = Buffer::from_vec_native(&dev, vec![1, 2, 3, 4, 5, 6]).unwrap();
    let mut shape_b: Buffer<usize> = Buffer::from_vec_native(&dev, vec![3, 3]).unwrap();
    let mut b: Buffer<i64> =
        Buffer::from_vec_native(&dev, vec![1, 1, 1, 1, 1, 1, 1, 1, 1]).unwrap();

    let mut l_shape_a = shape_a.try_lock().unwrap();
    let mut l_a = a.try_lock().unwrap();
    let mut l_shape_b = shape_b.try_lock().unwrap();
    let mut l_b = b.try_lock().unwrap();

    let r = bcast_dot_buffers::<i64>(&dev, &mut l_shape_a, &mut l_a, &mut l_shape_b, &mut l_b);
    assert!(matches!(r, Err(Error::InvalidBroadcast)));
}
