//! The capability contract an underlying storage type must satisfy to be
//! viewable, and its implementations for the standard containers.

use vstd::prelude::*;

use core::ops::Range;

verus! {

/// Trait implemented by any container that `RcSlice` / `ArcSlice` can view:
/// it reports its length, hands out sub-slices of a requested index range, and
/// may support physically compacting itself down to a kept range.
pub trait RcSliceContainer: Sized {
    /// The type of the elements in this container.
    type Item;

    /// The elements currently held, as a mathematical sequence.
    spec fn contents(&self) -> Seq<Self::Item>;

    /// Whether this container kind supports compaction at all. Known at the
    /// type level, so views over non-compactable containers can skip the
    /// compaction machinery outright.
    spec fn shrinkable() -> bool;

    /// Whether this container kind, when asked to compact, always does so.
    /// The growable vector does; the small-buffer vector may decline when its
    /// elements already sit inline.
    spec fn always_compacts() -> bool;

    /// Executable mirror of [`shrinkable`](RcSliceContainer::shrinkable).
    fn is_shrinkable() -> (r: bool)
        ensures
            r == Self::shrinkable(),
    ;

    /// The total number of elements in the container.
    fn len(&self) -> (n: usize)
        ensures
            n == self.contents().len(),
    ;

    /// An immutable slice of the elements within `range`, or `None` if the
    /// range does not lie within the container.
    fn get(&self, range: Range<usize>) -> (r: Option<&[Self::Item]>)
        ensures
            match r {
                Some(s) => range.start <= range.end <= self.contents().len() && s@
                    == self.contents().subrange(range.start as int, range.end as int),
                None => !(range.start <= range.end <= self.contents().len()),
            },
    ;

    /// A mutable slice of the elements within `range`, or `None` if the range
    /// does not lie within the container. Writes through the slice replace
    /// exactly those elements; the rest of the container is untouched.
    fn get_mut(&mut self, range: Range<usize>) -> (r: Option<&mut [Self::Item]>)
        ensures
            r.is_some() ==> range.start <= range.end <= old(self).contents().len(),
            r.is_some() ==> r.unwrap()@ == old(self).contents().subrange(
                range.start as int,
                range.end as int,
            ),
            r.is_some() ==> final(self).contents() == old(self).contents().subrange(
                0,
                range.start as int,
            ) + final(r.unwrap())@ + old(self).contents().subrange(
                range.end as int,
                old(self).contents().len() as int,
            ),
            r.is_none() ==> !(range.start <= range.end <= old(self).contents().len())
                && final(self).contents() == old(self).contents(),
    ;

    /// Physically discard every element outside `keep_range`, so that the
    /// container holds exactly the kept elements, and report the range they
    /// now occupy; or report `None` and leave the container unchanged, if this
    /// particular container chose not to compact.
    ///
    /// Never called unless [`shrinkable`](RcSliceContainer::shrinkable) holds.
    fn shrink_container_to_range(&mut self, keep_range: Range<usize>) -> (r: Option<Range<usize>>)
        requires
            Self::shrinkable(),
            keep_range.start <= keep_range.end <= old(self).contents().len(),
        ensures
            Self::always_compacts() ==> r.is_some(),
            match r {
                Some(nr) => final(self).contents() == old(self).contents().subrange(
                    keep_range.start as int,
                    keep_range.end as int,
                ) && nr.start == 0 && nr.end == final(self).contents().len(),
                None => final(self).contents() == old(self).contents(),
            },
    ;
}

impl<T, const N: usize> RcSliceContainer for [T; N] {
    type Item = T;

    open spec fn contents(&self) -> Seq<T> {
        self@
    }

    open spec fn shrinkable() -> bool {
        false
    }

    open spec fn always_compacts() -> bool {
        false
    }

    fn is_shrinkable() -> (r: bool) {
        false
    }

    fn len(&self) -> (n: usize) {
        proof {
            vstd::array::array_len_matches_n(self);
        }
        N
    }

    fn get(&self, range: Range<usize>) -> (r: Option<&[T]>) {
        proof {
            vstd::array::array_len_matches_n(self);
        }
        if range.start <= range.end && range.end <= N {
            Some(vstd::slice::slice_subrange(self.as_slice(), range.start, range.end))
        } else {
            None
        }
    }

    fn get_mut(&mut self, range: Range<usize>) -> (r: Option<&mut [T]>) {
        proof {
            vstd::array::array_len_matches_n(self);
        }
        if range.start <= range.end && range.end <= N {
            let s = vstd::array::ref_mut_array_unsizing_coercion(self);
            let (_front, rest) = s.split_at_mut(range.start);
            let (mid, _back) = rest.split_at_mut(range.end - range.start);
            Some(mid)
        } else {
            None
        }
    }

    fn shrink_container_to_range(&mut self, _keep_range: Range<usize>) -> (r: Option<Range<usize>>) {
        None
    }
}

impl<T, const N: usize> RcSliceContainer for Box<[T; N]> {
    type Item = T;

    open spec fn contents(&self) -> Seq<T> {
        (**self)@
    }

    open spec fn shrinkable() -> bool {
        false
    }

    open spec fn always_compacts() -> bool {
        false
    }

    fn is_shrinkable() -> (r: bool) {
        false
    }

    fn len(&self) -> (n: usize) {
        (**self).len()
    }

    fn get(&self, range: Range<usize>) -> (r: Option<&[T]>) {
        (**self).get(range)
    }

    fn get_mut(&mut self, range: Range<usize>) -> (r: Option<&mut [T]>) {
        (**self).get_mut(range)
    }

    fn shrink_container_to_range(&mut self, _keep_range: Range<usize>) -> (r: Option<Range<usize>>) {
        None
    }
}

impl<T> RcSliceContainer for Vec<T> {
    type Item = T;

    open spec fn contents(&self) -> Seq<T> {
        self@
    }

    open spec fn shrinkable() -> bool {
        true
    }

    open spec fn always_compacts() -> bool {
        true
    }

    fn is_shrinkable() -> (r: bool) {
        true
    }

    fn len(&self) -> (n: usize) {
        Vec::len(self)
    }

    fn get(&self, range: Range<usize>) -> (r: Option<&[T]>) {
        if range.start <= range.end && range.end <= Vec::len(self) {
            Some(vstd::slice::slice_subrange(self.as_slice(), range.start, range.end))
        } else {
            None
        }
    }

    fn get_mut(&mut self, range: Range<usize>) -> (r: Option<&mut [T]>) {
        if range.start <= range.end && range.end <= Vec::len(self) {
            let s = self.as_mut_slice();
            let (_front, rest) = s.split_at_mut(range.start);
            let (mid, _back) = rest.split_at_mut(range.end - range.start);
            Some(mid)
        } else {
            None
        }
    }

    fn shrink_container_to_range(&mut self, keep_range: Range<usize>) -> (r: Option<Range<usize>>) {
        self.truncate(keep_range.end);
        let kept = self.split_off(keep_range.start);
        *self = kept;
        Some(0..Vec::len(self))
    }
}

} // verus!
