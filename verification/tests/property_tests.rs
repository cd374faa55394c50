use rc_slice2::{ArcSlice, IndexBound, IndexRange, RcSlice, RcSliceContainer};
use std::rc::Rc;
use std::sync::Arc;

#[test]
fn clamp_start_past_length_yields_empty_at_end() {
    let buffer: Rc<Vec<u8>> = Rc::new(vec![2, 4, 6, 8, 10]);
    let view = RcSlice::new(&buffer, IndexRange::from_to(7, 9));
    assert_eq!(RcSlice::bounds(&view), (5, 5));
    assert!(RcSlice::is_empty(&view));
}

#[test]
fn clamp_unbounded_yields_whole_container() {
    let buffer: Rc<Vec<u8>> = Rc::new(vec![2, 4, 6, 8, 10]);
    let view = RcSlice::new(&buffer, IndexRange::full());
    assert_eq!(RcSlice::bounds(&view), (0, 5));
    assert_eq!(RcSlice::len(&view), 5);
}

#[test]
fn clamp_inverted_range_is_empty() {
    let buffer: Rc<Vec<u8>> = Rc::new(vec![2, 4, 6, 8, 10]);
    let view = RcSlice::new(&buffer, IndexRange::from_to(4, 2));
    assert_eq!(RcSlice::bounds(&view), (2, 2));
    assert!(RcSlice::is_empty(&view));
}

#[test]
fn clamp_excluded_start_begins_one_past() {
    let buffer: Rc<Vec<u8>> = Rc::new(vec![2, 4, 6, 8, 10]);
    let range = IndexRange {
        start: IndexBound::Excluded(1),
        end: IndexBound::Unbounded,
    };
    let view = RcSlice::new(&buffer, range);
    assert_eq!(RcSlice::bounds(&view), (2, 5));
    assert_eq!(RcSlice::as_slice(&view), &[6, 8, 10]);
}

#[test]
fn resolve_is_total_on_extreme_indices() {
    let range = IndexRange {
        start: IndexBound::Excluded(usize::MAX),
        end: IndexBound::Included(usize::MAX),
    };
    assert_eq!(range.resolve(5), (5, 5));
    assert_eq!(IndexRange::from_to(0, usize::MAX).resolve(5), (0, 5));
}

#[test]
fn split_conserves_elements_and_allocation() {
    let buffer: Rc<Vec<u8>> = Rc::new(vec![2, 4, 6, 8, 10]);
    let view = RcSlice::new(&buffer, IndexRange::from_to(1, 4));
    let (low, high) = RcSlice::split_at(&view, 2);
    assert_eq!(RcSlice::as_slice(&low), &[4, 6]);
    assert_eq!(RcSlice::as_slice(&high), &[8]);
    let mut rejoined = RcSlice::as_slice(&low).to_vec();
    rejoined.extend_from_slice(RcSlice::as_slice(&high));
    assert_eq!(rejoined, RcSlice::as_slice(&view).to_vec());
    assert!(Rc::ptr_eq(RcSlice::inner(&low), RcSlice::inner(&view)));
    assert!(Rc::ptr_eq(RcSlice::inner(&high), RcSlice::inner(&view)));
}

#[test]
fn try_split_at_rejects_out_of_range_mid() {
    let buffer: Rc<Vec<u8>> = Rc::new(vec![2, 4, 6, 8, 10]);
    let view = RcSlice::new(&buffer, IndexRange::from_to(1, 4));
    assert!(RcSlice::try_split_at(&view, 3).is_some());
    assert!(RcSlice::try_split_at(&view, 4).is_none());
}

#[test]
fn narrowing_round_trip_restores_elements() {
    let buffer: Rc<Vec<u8>> = Rc::new(vec![2, 4, 6, 8, 10]);
    let mut view = RcSlice::new(&buffer, IndexRange::from_to(1, 4));
    assert_eq!(RcSlice::advance(&mut view, 2), Some([4, 6].as_slice()));
    assert_eq!(RcSlice::as_slice(&view), &[8]);
    assert_eq!(RcSlice::change_range(&mut view, IndexRange::from_to(1, 4)), 1..4);
    assert_eq!(RcSlice::as_slice(&view), &[4, 6, 8]);
}

#[test]
fn saturating_advance_is_total_and_empties() {
    let buffer: Rc<Vec<u8>> = Rc::new(vec![2, 4, 6, 8, 10]);
    let mut view = RcSlice::new(&buffer, IndexRange::from_to(1, 4));
    {
        let shed = RcSlice::saturating_advance(&mut view, usize::MAX);
        assert_eq!(shed, &[4, 6, 8]);
    }
    assert!(RcSlice::is_empty(&view));
    {
        let shed = RcSlice::saturating_advance(&mut view, 2);
        assert_eq!(shed, &[] as &[u8]);
    }
    assert!(RcSlice::is_empty(&view));
}

#[test]
fn saturating_retract_is_total_and_empties() {
    let buffer: Rc<Vec<u8>> = Rc::new(vec![2, 4, 6, 8, 10]);
    let mut view = RcSlice::new(&buffer, IndexRange::from_to(1, 4));
    {
        let shed = RcSlice::saturating_retract(&mut view, 99);
        assert_eq!(shed, &[4, 6, 8]);
    }
    assert!(RcSlice::is_empty(&view));
    assert_eq!(RcSlice::bounds(&view), (1, 1));
}

#[test]
fn advance_and_retract_reject_overlong_steps() {
    let buffer: Rc<Vec<u8>> = Rc::new(vec![2, 4, 6, 8, 10, 12, 14, 16, 18]);
    let mut view = RcSlice::new(&buffer, IndexRange::from_to(1, 8));
    assert_eq!(RcSlice::as_slice(&view), &[4, 6, 8, 10, 12, 14, 16]);

    assert_eq!(RcSlice::advance(&mut view, 2), Some([4, 6].as_slice()));
    assert_eq!(RcSlice::as_slice(&view), &[8, 10, 12, 14, 16]);
    assert_eq!(RcSlice::advance(&mut view, 3), Some([8, 10, 12].as_slice()));
    assert_eq!(RcSlice::as_slice(&view), &[14, 16]);
    assert_eq!(RcSlice::advance(&mut view, 3), None);
    assert_eq!(RcSlice::as_slice(&view), &[14, 16]);

    assert_eq!(RcSlice::retract(&mut view, 1), Some([16].as_slice()));
    assert_eq!(RcSlice::as_slice(&view), &[14]);
    assert_eq!(RcSlice::retract(&mut view, 2), None);
    assert_eq!(RcSlice::as_slice(&view), &[14]);
    assert_eq!(RcSlice::retract(&mut view, 1), Some([14].as_slice()));
    assert!(RcSlice::is_empty(&view));
}

#[test]
fn split_off_before_and_after_cut_in_place() {
    let buffer: Rc<Vec<u8>> = Rc::new(vec![2, 4, 6, 8, 10]);
    let mut view = RcSlice::new(&buffer, IndexRange::from_to(1, 5));
    let front = RcSlice::split_off_before(&mut view, 2).unwrap();
    assert_eq!(RcSlice::as_slice(&front), &[4, 6]);
    assert_eq!(RcSlice::as_slice(&view), &[8, 10]);
    assert_eq!(RcSlice::split_off_before(&mut view, 5).map(|v| RcSlice::bounds(&v)), None);
    assert_eq!(RcSlice::as_slice(&view), &[8, 10]);

    let back = RcSlice::split_off_after(&mut view, 1).unwrap();
    assert_eq!(RcSlice::as_slice(&back), &[10]);
    assert_eq!(RcSlice::as_slice(&view), &[8]);
    assert_eq!(RcSlice::split_off_after(&mut view, 2).map(|v| RcSlice::bounds(&v)), None);
    assert_eq!(RcSlice::as_slice(&view), &[8]);
}

#[test]
fn uniqueness_gates_get_mut_and_shrink() {
    let buffer: Rc<Vec<u8>> = Rc::new(vec![2, 4, 6, 8, 10]);
    let mut view = RcSlice::new(&buffer, IndexRange::from_to(1, 4));
    let second = view.clone();

    // Two live handles (plus the original buffer): no mutation, no compaction.
    assert!(RcSlice::get_mut(&mut view).is_none());
    assert_eq!(RcSlice::shrink(&mut view), false);
    assert_eq!(RcSlice::as_slice(&view), &[4, 6, 8]);

    std::mem::drop(buffer);
    assert!(RcSlice::get_mut(&mut view).is_none());

    std::mem::drop(second);
    // Sole handle left: mutation is granted now.
    assert!(RcSlice::get_mut(&mut view).is_some());
    assert_eq!(RcSlice::shrink(&mut view), true);
    assert_eq!(RcSlice::as_slice(&view), &[4, 6, 8]);
}

#[test]
fn get_mut_writes_are_visible_and_stay_in_range() {
    let buffer: Rc<Vec<u8>> = Rc::new(vec![2, 4, 6, 8, 10]);
    let mut view = RcSlice::new(&buffer, IndexRange::from_to(1, 4));
    std::mem::drop(buffer);
    {
        let elems = RcSlice::get_mut(&mut view).unwrap();
        assert_eq!(elems, &mut [4, 6, 8]);
        elems[0] = 42;
        elems.reverse();
    }
    assert_eq!(RcSlice::as_slice(&view), &[8, 6, 42]);
    // The rest of the container is untouched.
    assert_eq!(**RcSlice::inner(&view), vec![2, 8, 6, 42, 10]);
}

#[test]
fn shrink_compacts_container_to_view() {
    let buffer: Rc<Vec<u8>> = Rc::new(vec![2, 4, 6, 8, 10, 12]);
    let mut view = RcSlice::new(&buffer, IndexRange::from_to(2, 4));
    assert_eq!(RcSlice::shrink(&mut view), false);
    let weak_buffer = Rc::downgrade(&buffer);
    std::mem::drop(buffer);

    assert_eq!(RcSlice::shrink(&mut view), true);
    assert_eq!(RcSlice::as_slice(&view), &[6, 8]);
    assert_eq!(RcSlice::bounds(&view), (0, 2));
    assert_eq!(RcSliceContainer::len(&**RcSlice::inner(&view)), 2);
    assert_eq!(**RcSlice::inner(&view), vec![6, 8]);

    // Weak references into the old allocation are not preserved.
    assert_eq!(weak_buffer.upgrade(), None);
}

#[test]
fn shrink_declines_on_full_view_and_fixed_containers() {
    let buffer: Rc<Vec<u8>> = Rc::new(vec![2, 4, 6]);
    let mut view = RcSlice::new(&buffer, IndexRange::full());
    std::mem::drop(buffer);
    // The view already spans the whole container: nothing to reclaim.
    assert_eq!(RcSlice::shrink(&mut view), false);

    // A fixed array cannot be compacted at all.
    let fixed: Rc<[u8; 3]> = Rc::new([2, 4, 6]);
    let mut fixed_view = RcSlice::new(&fixed, IndexRange::from_to(0, 1));
    std::mem::drop(fixed);
    assert_eq!(RcSlice::shrink(&mut fixed_view), false);
    assert_eq!(RcSlice::as_slice(&fixed_view), &[2]);
}

#[test]
fn ptr_eq_distinguishes_allocation_and_range() {
    let buffer: Rc<Vec<u8>> = Rc::new(vec![2, 4, 6, 8, 10]);
    let first = RcSlice::new(&buffer, IndexRange::to(4));
    let second = RcSlice::new(&buffer, IndexRange::to(3));
    assert_eq!(RcSlice::ptr_eq(&first, &second), false);

    let same = RcSlice::new(&buffer, IndexRange::to(4));
    assert_eq!(RcSlice::ptr_eq(&first, &same), true);

    let other_buffer: Rc<Vec<u8>> = Rc::new(vec![2, 4, 6, 8, 10]);
    let other = RcSlice::new(&other_buffer, IndexRange::to(4));
    assert_eq!(RcSlice::ptr_eq(&first, &other), false);
}

#[test]
fn example_scenario() {
    let container: Rc<Vec<u8>> = Rc::new(vec![2, 4, 6, 8, 10]);
    let view = RcSlice::new(&container, IndexRange::from_to(1, 4));
    assert_eq!(RcSlice::as_slice(&view), &[4, 6, 8]);

    let (low, high) = RcSlice::split_at(&view, 2);
    assert_eq!(RcSlice::as_slice(&low), &[4, 6]);
    assert_eq!(RcSlice::as_slice(&high), &[8]);

    let mut view_copy = RcSlice::new(&container, IndexRange::from_to(1, 4));
    assert_eq!(RcSlice::advance(&mut view_copy, 2), Some([4, 6].as_slice()));
    assert_eq!(RcSlice::as_slice(&view_copy), &[8]);
}

#[test]
fn arc_views_behave_like_rc_views() {
    let buffer: Arc<Vec<u8>> = Arc::new(vec![2, 4, 6, 8, 10]);
    let mut view = ArcSlice::new(&buffer, IndexRange::from_to(1, 4));
    assert_eq!(ArcSlice::as_slice(&view), &[4, 6, 8]);
    assert_eq!(ArcSlice::len(&view), 3);
    assert_eq!(ArcSlice::bounds_range(&view), 1..4);
    assert_eq!(ArcSlice::advance(&mut view, 1), Some([4].as_slice()));
    assert_eq!(ArcSlice::retract(&mut view, 1), Some([8].as_slice()));
    assert_eq!(ArcSlice::as_slice(&view), &[6]);

    let (low, high) = ArcSlice::split_at(&view, 1);
    assert_eq!(ArcSlice::as_slice(&low), &[6]);
    assert!(ArcSlice::is_empty(&high));
}

#[test]
fn arc_uniqueness_gates_mutation_and_compaction() {
    let buffer: Arc<Vec<u8>> = Arc::new(vec![2, 4, 6, 8, 10]);
    let mut view = ArcSlice::new(&buffer, IndexRange::from_to(1, 4));
    assert!(ArcSlice::get_mut(&mut view).is_none());
    assert_eq!(ArcSlice::shrink(&mut view), false);

    std::mem::drop(buffer);
    {
        let elems = ArcSlice::get_mut(&mut view).unwrap();
        elems[1] = 7;
    }
    assert_eq!(ArcSlice::as_slice(&view), &[4, 7, 8]);
    assert_eq!(ArcSlice::shrink(&mut view), true);
    assert_eq!(ArcSlice::as_slice(&view), &[4, 7, 8]);
    assert_eq!(**ArcSlice::inner(&view), vec![4, 7, 8]);
}

#[test]
fn smallvec_inline_shrink_reports_success_without_compacting() {
    // Three bytes fit inline: compaction is declined by the container, but
    // the attempt still succeeds and the view is unharmed.
    let buffer = Rc::new(rc_slice2::SmallBuf::from_vec(vec![1, 2, 3]));
    let mut view = RcSlice::new(&buffer, IndexRange::from_to(0, 2));
    std::mem::drop(buffer);
    assert_eq!(RcSlice::shrink(&mut view), true);
    assert_eq!(RcSlice::as_slice(&view), &[1, 2]);
    assert_eq!(RcSliceContainer::len(&**RcSlice::inner(&view)), 3);
}

#[test]
fn smallvec_get_mut_writes_are_visible() {
    let buffer = Rc::new(rc_slice2::SmallBuf::from_vec(vec![1, 2, 3, 4, 5]));
    let mut view = RcSlice::new(&buffer, IndexRange::from_to(1, 4));
    std::mem::drop(buffer);
    {
        let elems = RcSlice::get_mut(&mut view).unwrap();
        assert_eq!(elems, &mut [2, 3, 4]);
        elems[2] = 40;
    }
    assert_eq!(RcSlice::as_slice(&view), &[2, 3, 40]);
    assert_eq!(
        RcSliceContainer::get(&**RcSlice::inner(&view), 0..5).unwrap(),
        &[1, 2, 3, 40, 5]
    );
}

#[test]
fn inclusive_end_takes_one_more() {
    let buffer: Rc<Vec<u8>> = Rc::new(vec![2, 4, 6, 8, 10]);
    let view = RcSlice::new(&buffer, IndexRange::to_inclusive(2));
    assert_eq!(RcSlice::as_slice(&view), &[2, 4, 6]);
    let clamped = RcSlice::new(&buffer, IndexRange::to_inclusive(9));
    assert_eq!(RcSlice::bounds(&clamped), (0, 5));
}

#[test]
fn default_views_are_empty() {
    let rc_view: RcSlice<Vec<u8>> = Default::default();
    assert!(RcSlice::is_empty(&rc_view));
    assert_eq!(RcSlice::bounds(&rc_view), (0, 0));
    assert_eq!(**RcSlice::inner(&rc_view), Vec::<u8>::new());

    let arc_view: ArcSlice<Vec<u8>> = Default::default();
    assert!(ArcSlice::is_empty(&arc_view));
    assert_eq!(ArcSlice::bounds(&arc_view), (0, 0));
}
