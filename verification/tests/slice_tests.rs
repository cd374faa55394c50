use rc_slice2::{ArcSlice, IndexRange, RcSlice, RcSliceContainer, SmallBuf};
use std::rc::Rc;
use std::sync::Arc;

#[test]
fn rc_test_from() {
    let buffer: Rc<[u8; 4]> = Rc::new([4, 5, 6, 7]);
    let ref_slice: RcSlice<_> = buffer.into();
    assert_eq!(RcSlice::as_slice(&ref_slice), &[4, 5, 6, 7]);
}

#[test]
fn arc_test_from() {
    let buffer: Arc<[u8; 4]> = Arc::new([4, 5, 6, 7]);
    let ref_slice: ArcSlice<_> = buffer.into();
    assert_eq!(ArcSlice::as_slice(&ref_slice), &[4, 5, 6, 7]);
}

#[test]
fn test_slice_container_raw_array() {
    let buffer: Rc<[u8; 5]> = Rc::new([2, 4, 6, 8, 10]);

    assert_eq!(
        RcSlice::as_slice(&RcSlice::new(&buffer, IndexRange::from_to(1, 4))),
        &[4, 6, 8]
    );
    assert_eq!(
        RcSlice::as_slice(&RcSlice::new(&buffer, IndexRange::full())),
        &[2, 4, 6, 8, 10]
    );
    assert_eq!(
        RcSlice::as_slice(&RcSlice::new(&buffer, IndexRange::from_to_inclusive(0, 2))),
        &[2, 4, 6]
    );
    assert_eq!(
        RcSlice::as_slice(&RcSlice::new(&buffer, IndexRange::from(10))),
        &[] as &[u8]
    );
}

#[test]
fn test_slice_container_boxed_array() {
    let buffer: Rc<Box<[u8; 5]>> = Rc::new(Box::new([2, 4, 6, 8, 10]));

    assert_eq!(
        RcSlice::as_slice(&RcSlice::new(&buffer, IndexRange::from_to(1, 4))),
        &[4, 6, 8]
    );
    assert_eq!(
        RcSlice::as_slice(&RcSlice::new(&buffer, IndexRange::full())),
        &[2, 4, 6, 8, 10]
    );
    assert_eq!(
        RcSlice::as_slice(&RcSlice::new(&buffer, IndexRange::from_to_inclusive(0, 2))),
        &[2, 4, 6]
    );
    assert_eq!(
        RcSlice::as_slice(&RcSlice::new(&buffer, IndexRange::from(10))),
        &[] as &[u8]
    );
}

#[test]
fn test_slice_container_vec() {
    let buffer: Rc<Vec<u8>> = Rc::new(vec![2, 4, 6, 8, 10]);

    assert_eq!(
        RcSlice::as_slice(&RcSlice::new(&buffer, IndexRange::from_to(1, 4))),
        &[4, 6, 8]
    );
    assert_eq!(
        RcSlice::as_slice(&RcSlice::new(&buffer, IndexRange::full())),
        &[2, 4, 6, 8, 10]
    );
    assert_eq!(
        RcSlice::as_slice(&RcSlice::new(&buffer, IndexRange::from_to_inclusive(0, 2))),
        &[2, 4, 6]
    );
    assert_eq!(
        RcSlice::as_slice(&RcSlice::new(&buffer, IndexRange::from(10))),
        &[] as &[u8]
    );

    let mut slice = RcSlice::new(&buffer, IndexRange::from_to(1, 4));
    std::mem::drop(buffer);
    assert_eq!(Rc::strong_count(RcSlice::inner(&slice)), 1);
    assert_eq!(RcSlice::as_slice(&slice), &[4, 6, 8]);
    assert_eq!(**RcSlice::inner(&slice), vec![2, 4, 6, 8, 10]);
    assert_eq!(RcSlice::shrink(&mut slice), true);
    assert_eq!(RcSlice::as_slice(&slice), &[4, 6, 8]);
    assert_eq!(**RcSlice::inner(&slice), vec![4, 6, 8]);
}

#[test]
fn test_slice_container_smallvec() {
    let buffer: Rc<SmallBuf> = Rc::new(SmallBuf::from_vec(vec![2, 4, 6, 8, 10]));

    assert_eq!(
        RcSlice::as_slice(&RcSlice::new(&buffer, IndexRange::from_to(1, 4))),
        &[4, 6, 8]
    );
    assert_eq!(
        RcSlice::as_slice(&RcSlice::new(&buffer, IndexRange::full())),
        &[2, 4, 6, 8, 10]
    );
    assert_eq!(
        RcSlice::as_slice(&RcSlice::new(&buffer, IndexRange::from_to_inclusive(0, 2))),
        &[2, 4, 6]
    );
    assert_eq!(
        RcSlice::as_slice(&RcSlice::new(&buffer, IndexRange::from(10))),
        &[] as &[u8]
    );

    let mut slice = RcSlice::new(&buffer, IndexRange::from_to(1, 4));
    std::mem::drop(buffer);
    assert_eq!(Rc::strong_count(RcSlice::inner(&slice)), 1);
    assert_eq!(RcSlice::as_slice(&slice), &[4, 6, 8]);
    assert_eq!(
        RcSliceContainer::get(&**RcSlice::inner(&slice), 0..5).unwrap(),
        &[2, 4, 6, 8, 10]
    );
    assert_eq!(RcSlice::inner(&slice).spilled(), true);

    assert_eq!(RcSlice::shrink(&mut slice), true);

    assert_eq!(RcSlice::as_slice(&slice), &[4, 6, 8]);
    assert_eq!(
        RcSliceContainer::get(&**RcSlice::inner(&slice), 0..3).unwrap(),
        &[4, 6, 8]
    );
    assert_eq!(RcSlice::inner(&slice).spilled(), false);
}
