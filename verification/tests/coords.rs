use mask_generator::coords::CoordinateIter;

#[test]
fn positions_include_the_bound() {
    let v = CoordinateIter::new(-10, 5, 20).collect();
    assert_eq!(v, vec![-10, -5, 0, 5, 10, 15, 20]);
}

#[test]
fn start_beyond_bound_yields_nothing() {
    let v = CoordinateIter::new(5, 10, 4).collect();
    assert_eq!(v, Vec::<i32>::new());
}

#[test]
fn bound_not_hit_exactly() {
    assert_eq!(CoordinateIter::new(1, 4, 10).collect(), vec![1, 5, 9]);
    assert_eq!(CoordinateIter::new(0, 1, 0).collect(), vec![0]);
}

#[test]
fn next_steps_and_then_stays_exhausted() {
    let mut it = CoordinateIter::new(3, 2, 6);
    assert_eq!(it.next(), Some(3));
    assert_eq!(it.next(), Some(5));
    assert_eq!(it.next(), None);
    assert_eq!(it.next(), None);
}

#[test]
fn zero_stride_repeats_the_position() {
    let mut it = CoordinateIter::new(2, 0, 6);
    assert_eq!(it.next(), Some(2));
    assert_eq!(it.next(), Some(2));
    assert_eq!(it.next(), Some(2));
}

#[test]
fn largest_values_do_not_overflow() {
    let v = CoordinateIter::new(i32::MAX - 1, i32::MAX as u32, i32::MAX as u32).collect();
    assert_eq!(v, vec![i32::MAX - 1]);
    let w = CoordinateIter::new(i32::MIN, i32::MAX as u32, 0).collect();
    assert_eq!(w, vec![i32::MIN, -1]);
}
