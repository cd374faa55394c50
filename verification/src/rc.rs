//! `RcSlice`: a view over a container shared through a single-threaded
//! reference-counted handle.

use vstd::prelude::*;

use crate::container::RcSliceContainer;
use crate::ranges::{clamped_end, clamped_start, IndexBound, IndexRange};
use core::ops::Range;
use std::rc::Rc;

verus! {

/// A read-only view into part of an underlying reference-counted container.
///
/// The associated functions provided for this type do not take a receiver, to
/// keep the call sites in the style of `Rc` itself; it is recommended to
/// include `use RcSlice as Rcs` where needed.
pub struct RcSlice<T: RcSliceContainer> {
    /// The underlying container.
    underlying: Rc<T>,
    /// The start of the view's range, inclusive. At most `end`.
    start: usize,
    /// The end of the view's range, exclusive. At most `underlying.len()`.
    end: usize,
}

/// The middle piece of a three-way concatenation is recovered by taking the
/// subrange it occupies.
proof fn lemma_mid_of_concat<A>(prefix: Seq<A>, mid: Seq<A>, suffix: Seq<A>)
    ensures
        (prefix + mid + suffix).subrange(
            prefix.len() as int,
            prefix.len() as int + mid.len() as int,
        ) == mid,
{
    assert((prefix + mid + suffix).subrange(
        prefix.len() as int,
        prefix.len() as int + mid.len() as int,
    ) =~= mid);
}

/// Relies on `alloc::rc::Rc::clone`: the clone is a handle to the same
/// allocation, so it carries the same container value.
#[verifier::external_body]
fn clone_handle<T>(rc: &Rc<T>) -> (r: Rc<T>)
    ensures
        *r == **rc,
{
    Rc::clone(rc)
}

/// Relies on `alloc::rc::Rc::get_mut`: it returns `Some` exactly when no other
/// strong or weak handle shares the allocation, and the reference then leads
/// to the single shared container value.
#[verifier::external_body]
fn handle_get_mut<T>(rc: &mut Rc<T>) -> (r: Option<&mut T>)
    ensures
        r.is_some() ==> *r.unwrap() == **old(rc) && **final(rc) == *final(r.unwrap()),
        r.is_none() ==> **final(rc) == **old(rc),
{
    Rc::get_mut(rc)
}

/// Relies on `alloc::rc::Rc::ptr_eq`: it is true only for handles to one and
/// the same allocation, which therefore hold the same container value.
#[verifier::external_body]
fn same_allocation<T>(a: &Rc<T>, b: &Rc<T>) -> (r: bool)
    ensures
        r ==> **a == **b,
{
    Rc::ptr_eq(a, b)
}

impl<T: RcSliceContainer> RcSlice<T> {
    /// The full contents of the shared underlying container.
    pub closed spec fn buf(&self) -> Seq<T::Item> {
        (*self.underlying).contents()
    }

    /// The start of the view's range, inclusive.
    pub closed spec fn start_index(&self) -> int {
        self.start as int
    }

    /// The end of the view's range, exclusive.
    pub closed spec fn end_index(&self) -> int {
        self.end as int
    }

    /// The number of elements visible through the view.
    pub open spec fn view_len(&self) -> int {
        self.end_index() - self.start_index()
    }

    /// The view invariant: the range is ordered and lies within the container.
    pub open spec fn wf(&self) -> bool {
        0 <= self.start_index() <= self.end_index() <= self.buf().len()
    }

    /// The elements visible through the view.
    pub open spec fn elements(&self) -> Seq<T::Item> {
        self.buf().subrange(self.start_index(), self.end_index())
    }

    /// Create a new `RcSlice` over `range` of the container behind
    /// `underlying`. Total: the range is clamped into bounds, so every
    /// request yields a valid (possibly empty) view.
    pub fn new(underlying: &Rc<T>, range: IndexRange) -> (s: Self)
        ensures
            s.wf(),
            s.buf() == (**underlying).contents(),
            s.start_index() == clamped_start(range, (**underlying).contents().len() as int),
            s.end_index() == clamped_end(range, (**underlying).contents().len() as int),
    {
        let len = (**underlying).len();
        let (start, end) = range.resolve(len);
        RcSlice { underlying: clone_handle(underlying), start, end }
    }

    /// The number of elements in the view. Computed from the view's own
    /// fields, without touching the shared container.
    pub fn len(it: &Self) -> (n: usize)
        requires
            it.wf(),
        ensures
            n == it.view_len(),
            n == it.elements().len(),
    {
        it.end - it.start
    }

    /// True if the view has a length of 0. Computed from the view's own
    /// fields, without touching the shared container.
    pub fn is_empty(it: &Self) -> (r: bool)
        requires
            it.wf(),
        ensures
            r == (it.view_len() == 0),
    {
        it.end == it.start
    }

    /// The elements visible through the view, as a slice of the shared
    /// container.
    pub fn as_slice(it: &Self) -> (s: &[T::Item])
        requires
            it.wf(),
        ensures
            s@ == it.elements(),
    {
        (*it.underlying).get(it.start..it.end).unwrap()
    }

    /// Divide one view into two at `mid`: the first covers `[0, mid)` of the
    /// view, the second `[mid, len)`. Both share the original's handle; the
    /// original view and the container are untouched. Together the halves
    /// carry exactly the original's elements.
    pub fn split_at(it: &Self, mid: usize) -> (r: (Self, Self))
        requires
            it.wf(),
            mid <= it.view_len(),
        ensures
            r.0.wf(),
            r.1.wf(),
            r.0.buf() == it.buf(),
            r.1.buf() == it.buf(),
            r.0.start_index() == it.start_index(),
            r.0.end_index() == it.start_index() + mid,
            r.1.start_index() == it.start_index() + mid,
            r.1.end_index() == it.end_index(),
            r.0.elements() + r.1.elements() == it.elements(),
    {
        let real_mid = it.start + mid;
        let low = RcSlice { underlying: clone_handle(&it.underlying), start: it.start, end: real_mid };
        let high = RcSlice { underlying: clone_handle(&it.underlying), start: real_mid, end: it.end };
        proof {
            assert(low.elements() + high.elements() =~= it.elements());
        }
        (low, high)
    }

    /// The same as [`split_at`](RcSlice::split_at), but total: `None` is
    /// returned if `mid` exceeds the view's length.
    pub fn try_split_at(it: &Self, mid: usize) -> (r: Option<(Self, Self)>)
        requires
            it.wf(),
        ensures
            r.is_some() <==> mid <= it.view_len(),
            r.is_some() ==> {
                let (low, high) = r.unwrap();
                &&& low.wf()
                &&& high.wf()
                &&& low.buf() == it.buf()
                &&& high.buf() == it.buf()
                &&& low.start_index() == it.start_index()
                &&& low.end_index() == it.start_index() + mid
                &&& high.start_index() == it.start_index() + mid
                &&& high.end_index() == it.end_index()
                &&& low.elements() + high.elements() == it.elements()
            },
    {
        if mid <= RcSlice::len(it) {
            Some(RcSlice::split_at(it, mid))
        } else {
            None
        }
    }

    /// In-place cut at `start + index`: the view keeps the upper part
    /// `[index, len)`, and the lower part `[0, index)` is returned as a new
    /// view. `None` (view unchanged) if `index` exceeds the view's length.
    pub fn split_off_before(it: &mut Self, index: usize) -> (r: Option<Self>)
        requires
            old(it).wf(),
        ensures
            final(it).wf(),
            final(it).buf() == old(it).buf(),
            r.is_some() <==> index <= old(it).view_len(),
            r.is_some() ==> {
                let front = r.unwrap();
                &&& front.wf()
                &&& front.buf() == old(it).buf()
                &&& front.start_index() == old(it).start_index()
                &&& front.end_index() == old(it).start_index() + index
                &&& final(it).start_index() == old(it).start_index() + index
                &&& final(it).end_index() == old(it).end_index()
                &&& front.elements() + final(it).elements() == old(it).elements()
            },
            r.is_none() ==> *final(it) == *old(it),
    {
        if index <= it.end - it.start {
            let cut = it.start + index;
            let front = RcSlice {
                underlying: clone_handle(&it.underlying),
                start: it.start,
                end: cut,
            };
            it.start = cut;
            proof {
                assert(front.elements() + it.elements() =~= old(it).elements());
            }
            Some(front)
        } else {
            None
        }
    }

    /// In-place cut at `start + index`: the view keeps the lower part
    /// `[0, index)`, and the upper part `[index, len)` is returned as a new
    /// view. `None` (view unchanged) if `index` exceeds the view's length.
    pub fn split_off_after(it: &mut Self, index: usize) -> (r: Option<Self>)
        requires
            old(it).wf(),
        ensures
            final(it).wf(),
            final(it).buf() == old(it).buf(),
            r.is_some() <==> index <= old(it).view_len(),
            r.is_some() ==> {
                let back = r.unwrap();
                &&& back.wf()
                &&& back.buf() == old(it).buf()
                &&& back.start_index() == old(it).start_index() + index
                &&& back.end_index() == old(it).end_index()
                &&& final(it).start_index() == old(it).start_index()
                &&& final(it).end_index() == old(it).start_index() + index
                &&& final(it).elements() + back.elements() == old(it).elements()
            },
            r.is_none() ==> *final(it) == *old(it),
    {
        if index <= it.end - it.start {
            let cut = it.start + index;
            let back = RcSlice {
                underlying: clone_handle(&it.underlying),
                start: cut,
                end: it.end,
            };
            it.end = cut;
            proof {
                assert(it.elements() + back.elements() =~= old(it).elements());
            }
            Some(back)
        } else {
            None
        }
    }

    /// The shared handle to the underlying container (read access only).
    pub fn inner(it: &Self) -> (r: &Rc<T>)
        ensures
            (**r).contents() == it.buf(),
    {
        &it.underlying
    }

    /// The starting and ending indices of the view within the underlying
    /// container, as a pair. Superseded by
    /// [`bounds_range`](RcSlice::bounds_range).
    pub fn bounds(it: &Self) -> (r: (usize, usize))
        ensures
            r.0 == it.start_index(),
            r.1 == it.end_index(),
    {
        (it.start, it.end)
    }

    /// The range of the underlying container that the view covers.
    pub fn bounds_range(it: &Self) -> (r: Range<usize>)
        ensures
            r.start == it.start_index(),
            r.end == it.end_index(),
    {
        it.start..it.end
    }

    /// Move the view's start forward by `incr` places; the end is unaffected.
    /// Returns the excluded prefix as a slice. `None` (view unchanged) if the
    /// new start would pass the end.
    pub fn advance(it: &mut Self, incr: usize) -> (r: Option<&[T::Item]>)
        requires
            old(it).wf(),
        ensures
            final(it).wf(),
            final(it).buf() == old(it).buf(),
            r.is_some() <==> incr <= old(it).view_len(),
            r.is_some() ==> {
                &&& r.unwrap()@ == old(it).elements().take(incr as int)
                &&& final(it).start_index() == old(it).start_index() + incr
                &&& final(it).end_index() == old(it).end_index()
                &&& final(it).elements() == old(it).elements().skip(incr as int)
            },
            r.is_none() ==> *final(it) == *old(it),
    {
        if incr <= it.end - it.start {
            let cut = it.start + incr;
            let old_start = it.start;
            it.start = cut;
            let shed = (*it.underlying).get(old_start..cut).unwrap();
            proof {
                assert(shed@ =~= old(it).elements().take(incr as int));
                assert(it.elements() =~= old(it).elements().skip(incr as int));
            }
            Some(shed)
        } else {
            None
        }
    }

    /// Move the view's start forward by `incr` places, clamped to the view's
    /// end. Total: if the view is too short, all of its elements are excluded.
    /// Returns the excluded prefix.
    pub fn saturating_advance(it: &mut Self, incr: usize) -> (r: &[T::Item])
        requires
            old(it).wf(),
        ensures
            final(it).wf(),
            final(it).buf() == old(it).buf(),
            final(it).end_index() == old(it).end_index(),
            final(it).start_index() == if incr <= old(it).view_len() {
                old(it).start_index() + incr
            } else {
                old(it).end_index()
            },
            r@ == old(it).elements().take(
                if incr <= old(it).view_len() {
                    incr as int
                } else {
                    old(it).view_len()
                },
            ),
            final(it).elements() == old(it).elements().skip(
                if incr <= old(it).view_len() {
                    incr as int
                } else {
                    old(it).view_len()
                },
            ),
    {
        let cut = if incr <= it.end - it.start {
            it.start + incr
        } else {
            it.end
        };
        let old_start = it.start;
        it.start = cut;
        let shed = (*it.underlying).get(old_start..cut).unwrap();
        proof {
            let k = if incr <= old(it).view_len() {
                incr as int
            } else {
                old(it).view_len()
            };
            assert(shed@ =~= old(it).elements().take(k));
            assert(it.elements() =~= old(it).elements().skip(k));
        }
        shed
    }

    /// Move the view's end backward by `decr` places; the start is unaffected.
    /// Returns the excluded suffix as a slice. `None` (view unchanged) if the
    /// new end would pass the start.
    pub fn retract(it: &mut Self, decr: usize) -> (r: Option<&[T::Item]>)
        requires
            old(it).wf(),
        ensures
            final(it).wf(),
            final(it).buf() == old(it).buf(),
            r.is_some() <==> decr <= old(it).view_len(),
            r.is_some() ==> {
                &&& r.unwrap()@ == old(it).elements().skip(old(it).view_len() - decr)
                &&& final(it).start_index() == old(it).start_index()
                &&& final(it).end_index() == old(it).end_index() - decr
                &&& final(it).elements() == old(it).elements().take(old(it).view_len() - decr)
            },
            r.is_none() ==> *final(it) == *old(it),
    {
        if decr <= it.end - it.start {
            let cut = it.end - decr;
            let old_end = it.end;
            it.end = cut;
            let shed = (*it.underlying).get(cut..old_end).unwrap();
            proof {
                assert(shed@ =~= old(it).elements().skip(old(it).view_len() - decr));
                assert(it.elements() =~= old(it).elements().take(old(it).view_len() - decr));
            }
            Some(shed)
        } else {
            None
        }
    }

    /// Move the view's end backward by `decr` places, clamped to the view's
    /// start. Total: if the view is too short, all of its elements are
    /// excluded. Returns the excluded suffix.
    pub fn saturating_retract(it: &mut Self, decr: usize) -> (r: &[T::Item])
        requires
            old(it).wf(),
        ensures
            final(it).wf(),
            final(it).buf() == old(it).buf(),
            final(it).start_index() == old(it).start_index(),
            final(it).end_index() == if decr <= old(it).view_len() {
                old(it).end_index() - decr
            } else {
                old(it).start_index()
            },
            r@ == old(it).elements().skip(
                if decr <= old(it).view_len() {
                    old(it).view_len() - decr
                } else {
                    0
                },
            ),
            final(it).elements() == old(it).elements().take(
                if decr <= old(it).view_len() {
                    old(it).view_len() - decr
                } else {
                    0
                },
            ),
    {
        let cut = if decr <= it.end - it.start {
            it.end - decr
        } else {
            it.start
        };
        let old_end = it.end;
        it.end = cut;
        let shed = (*it.underlying).get(cut..old_end).unwrap();
        proof {
            let k = if decr <= old(it).view_len() {
                old(it).view_len() - decr
            } else {
                0
            };
            assert(shed@ =~= old(it).elements().skip(k));
            assert(it.elements() =~= old(it).elements().take(k));
        }
        shed
    }

    /// Replace the view's range in place, resolving `new_range` against the
    /// *underlying container's* length with the same clamping rule as
    /// [`new`](RcSlice::new). The view can both widen and move, anywhere
    /// within the container's bounds. Returns the resulting concrete range.
    pub fn change_range(it: &mut Self, new_range: IndexRange) -> (r: Range<usize>)
        requires
            old(it).wf(),
        ensures
            final(it).wf(),
            final(it).buf() == old(it).buf(),
            final(it).start_index() == clamped_start(new_range, old(it).buf().len() as int),
            final(it).end_index() == clamped_end(new_range, old(it).buf().len() as int),
            r.start == final(it).start_index(),
            r.end == final(it).end_index(),
    {
        let len = (*it.underlying).len();
        let (start, end) = new_range.resolve(len);
        it.start = start;
        it.end = end;
        start..end
    }

    /// A mutable slice over the view's elements, granted only if this view
    /// holds the only handle to the underlying container; `None` otherwise.
    /// Writes through the slice replace exactly the visible elements.
    ///
    /// A mutable slice cannot change its own length, so once the caller's
    /// borrow ends with the slice at its original length, the view is
    /// well-formed again and shows exactly the written elements.
    pub fn get_mut(it: &mut Self) -> (r: Option<&mut [T::Item]>)
        requires
            old(it).wf(),
        ensures
            final(it).start_index() == old(it).start_index(),
            final(it).end_index() == old(it).end_index(),
            r.is_some() ==> {
                &&& r.unwrap()@ == old(it).elements()
                &&& final(it).buf() == old(it).buf().subrange(0, old(it).start_index())
                    + final(r.unwrap())@ + old(it).buf().subrange(
                    old(it).end_index(),
                    old(it).buf().len() as int,
                )
            },
            r.is_some() && final(r.unwrap())@.len() == old(it).view_len() ==> final(it).wf()
                && final(it).elements() == final(r.unwrap())@,
            r.is_none() ==> *final(it) == *old(it) && final(it).wf(),
    {
        let start = it.start;
        let end = it.end;
        match handle_get_mut(&mut it.underlying) {
            Some(c) => {
                let s = c.get_mut(start..end).unwrap();
                proof {
                    lemma_mid_of_concat(
                        old(it).buf().subrange(0, old(it).start_index()),
                        final(s)@,
                        old(it).buf().subrange(old(it).end_index(), old(it).buf().len() as int),
                    );
                }
                Some(s)
            },
            None => None,
        }
    }

    /// True exactly when both views point at the same allocation *and* cover
    /// the same range of it. Views over equal-valued but separately allocated
    /// containers compare unequal here, in contrast to element-wise equality.
    pub fn ptr_eq(this: &Self, other: &Self) -> (r: bool)
        ensures
            r ==> this.buf() == other.buf() && this.start_index() == other.start_index()
                && this.end_index() == other.end_index() && this.elements() == other.elements(),
            this.start_index() != other.start_index() ==> !r,
            this.end_index() != other.end_index() ==> !r,
    {
        same_allocation(&this.underlying, &other.underlying) && this.start == other.start
            && this.end == other.end
    }
}

impl<T: RcSliceContainer + Default> RcSlice<T> {
    /// Try to physically discard the container elements outside this view, to
    /// reclaim memory. Succeeds only if the container kind supports
    /// compaction, the view does not already span the whole container, and
    /// this view holds the only handle to it. On failure the view and the
    /// container are left exactly as they were; in every case the view's
    /// visible elements are unchanged. On success, a container kind that
    /// always compacts (such as the growable vector) then holds exactly the
    /// view's elements.
    pub fn shrink(it: &mut Self) -> (r: bool)
        requires
            old(it).wf(),
        ensures
            final(it).wf(),
            final(it).elements() == old(it).elements(),
            !r ==> *final(it) == *old(it),
            !T::shrinkable() ==> !r,
            old(it).start_index() == 0 && old(it).end_index() == old(it).buf().len() ==> !r,
            r ==> (final(it).start_index() == 0
                && final(it).end_index() == final(it).buf().len()
                && final(it).buf() == old(it).elements()) || (final(it).buf() == old(it).buf()
                && final(it).start_index() == old(it).start_index()
                && final(it).end_index() == old(it).end_index()),
            r && T::always_compacts() ==> final(it).start_index() == 0
                && final(it).end_index() == final(it).buf().len()
                && final(it).buf() == old(it).elements(),
    {
        if !T::is_shrinkable() {
            return false;
        }
        let container_len = (*it.underlying).len();
        if it.start == 0 && it.end == container_len {
            return false;
        }
        let mut temp: Rc<T> = Rc::new(T::default());
        core::mem::swap(&mut temp, &mut it.underlying);
        match Rc::try_unwrap(temp) {
            Ok(mut container) => {
                match container.shrink_container_to_range(it.start..it.end) {
                    Some(new_range) => {
                        it.start = new_range.start;
                        it.end = new_range.end;
                    },
                    None => {},
                }
                let mut temp2 = Rc::new(container);
                core::mem::swap(&mut temp2, &mut it.underlying);
                proof {
                    assert(it.elements() =~= old(it).elements());
                }
                true
            },
            Err(mut temp2) => {
                core::mem::swap(&mut temp2, &mut it.underlying);
                false
            },
        }
    }
}

/// Narrowing round-trip: after an `advance` moved a view's start forward and
/// left the buffer untouched, a `change_range` request for the original
/// bounds resolves to exactly those bounds again, so the restored view shows
/// the original elements.
pub proof fn lemma_rc_narrowing_round_trip<T: RcSliceContainer>(pre: RcSlice<T>, mid: RcSlice<T>, k: int)
    requires
        pre.wf(),
        0 <= k <= pre.view_len(),
        mid.buf() == pre.buf(),
        mid.start_index() == pre.start_index() + k,
        mid.end_index() == pre.end_index(),
    ensures
        ({
            let req = IndexRange {
                start: IndexBound::Included(pre.start_index() as usize),
                end: IndexBound::Excluded(pre.end_index() as usize),
            };
            &&& clamped_start(req, mid.buf().len() as int) == pre.start_index()
            &&& clamped_end(req, mid.buf().len() as int) == pre.end_index()
            &&& mid.buf().subrange(
                clamped_start(req, mid.buf().len() as int),
                clamped_end(req, mid.buf().len() as int),
            ) == pre.elements()
        }),
{
    crate::ranges::lemma_clamp_exact(
        pre.start_index() as usize,
        pre.end_index() as usize,
        mid.buf().len() as int,
    );
}

impl<T: RcSliceContainer> From<Rc<T>> for RcSlice<T> {
    /// A view of the whole container behind `underlying`.
    fn from(underlying: Rc<T>) -> (s: Self)
        ensures
            s.wf(),
            s.buf() == (*underlying).contents(),
            s.start_index() == 0,
            s.end_index() == s.buf().len(),
    {
        let end = (*underlying).len();
        RcSlice { underlying, start: 0, end }
    }
}

impl<T: RcSliceContainer> vstd::std_specs::convert::FromSpecImpl<Rc<T>> for RcSlice<T> {
    closed spec fn obeys_from_spec() -> bool {
        true
    }

    closed spec fn from_spec(v: Rc<T>) -> Self {
        RcSlice {
            underlying: v,
            start: 0,
            end: (*v).contents().len() as usize,
        }
    }
}

impl<T: RcSliceContainer> Clone for RcSlice<T> {
    /// Cloning a view duplicates the handle (incrementing the shared
    /// reference count) and copies the range; no element is copied.
    fn clone(&self) -> (res: Self)
        ensures
            res == *self,
    {
        RcSlice {
            underlying: clone_handle(&self.underlying),
            start: self.start,
            end: self.end,
        }
    }
}


impl<T: RcSliceContainer + Default> Default for RcSlice<T> {
    /// A view over the whole of a freshly default-constructed container; the
    /// standard containers default to empty, so the default view is empty.
    fn default() -> (s: Self)
        ensures
            s.wf(),
            s.start_index() == 0,
            s.end_index() == s.buf().len(),
            exists|c: T| #[trigger] T::default.ensures((), c) && s.buf() == c.contents(),
    {
        let container = T::default();
        let ghost c = container;
        let handle = Rc::new(container);
        let s = RcSlice::new(&handle, IndexRange::full());
        proof {
            assert(T::default.ensures((), c) && s.buf() == c.contents());
        }
        s
    }
}

} // verus!
