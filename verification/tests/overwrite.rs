use spsc_ring::SharedRb;

#[test]
fn push() {
    let mut rb = SharedRb::<i32>::new(2);

    assert_eq!(rb.push_overwrite(0), None);
    assert_eq!(rb.push_overwrite(1), None);
    assert_eq!(rb.push_overwrite(2), Some(0));

    assert_eq!(rb.try_pop(), Some(1));
    assert_eq!(rb.try_pop(), Some(2));
    assert_eq!(rb.try_pop(), None);
}

#[test]
fn push_iter() {
    let mut rb = SharedRb::<i32>::new(2);
    rb.push_iter_overwrite(vec![0, 1, 2, 3, 4, 5]);
    assert_eq!(rb.pop_iter(), vec![4, 5]);
}

#[test]
fn push_slice() {
    let mut rb = SharedRb::<i32>::new(2);
    rb.push_slice_overwrite(&[0, 1, 2, 3, 4, 5]);
    assert_eq!(rb.pop_iter(), vec![4, 5]);
}
