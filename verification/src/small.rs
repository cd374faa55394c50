//! Container support for the small-buffer-optimized vector of the `smallvec`
//! crate: inline storage up to a fixed capacity, heap storage beyond it.
//!
//! `SmallBuf` holds a byte small-vector with an inline capacity of four,
//! `smallvec::SmallVec<[u8; 4]>`. The vector stays an opaque outside value;
//! the trusted items below give its operations contracts over the
//! uninterpreted name [`sv_contents`], and the capability implementation is
//! verified against those contracts.

use vstd::prelude::*;

use crate::container::RcSliceContainer;
use core::ops::Range;

verus! {

/// A byte buffer backed by `smallvec::SmallVec<[u8; 4]>`: up to four bytes
/// live inline, longer contents spill to the heap. Compaction can move
/// spilled contents back inline.
#[verifier::external_body]
pub struct SmallBuf {
    inner: smallvec::SmallVec<[u8; 4]>,
}

/// The bytes a `SmallBuf` currently holds, as a sequence.
pub uninterp spec fn sv_contents(v: SmallBuf) -> Seq<u8>;

/// Relies on `smallvec::SmallVec::from_vec`: the small-vector holds exactly
/// the vector's elements, in order.
#[verifier::external_body]
fn sv_from_vec(v: Vec<u8>) -> (r: SmallBuf)
    ensures
        sv_contents(r) == v@,
{
    SmallBuf { inner: smallvec::SmallVec::from_vec(v) }
}

/// Relies on `smallvec::SmallVec::new`: a freshly created small-vector is
/// empty.
#[verifier::external_body]
fn sv_new() -> (r: SmallBuf)
    ensures
        sv_contents(r) == Seq::<u8>::empty(),
{
    SmallBuf { inner: smallvec::SmallVec::new() }
}

/// Relies on `smallvec::SmallVec::len`: the number of elements stored.
#[verifier::external_body]
fn sv_len(v: &SmallBuf) -> (n: usize)
    ensures
        n == sv_contents(*v).len(),
{
    v.inner.len()
}

/// Relies on `smallvec::SmallVec::as_slice`: a slice of the entire vector.
#[verifier::external_body]
fn sv_as_slice(v: &SmallBuf) -> (s: &[u8])
    ensures
        s@ == sv_contents(*v),
{
    v.inner.as_slice()
}

/// Relies on `smallvec::SmallVec::as_mut_slice`: a mutable slice of the
/// entire vector; writes through it replace the elements one for one.
#[verifier::external_body]
fn sv_as_mut_slice(v: &mut SmallBuf) -> (s: &mut [u8])
    ensures
        s@ == sv_contents(*old(v)),
        sv_contents(*final(v)) == final(s)@,
{
    v.inner.as_mut_slice()
}

/// Relies on `smallvec::SmallVec::truncate`: keeps the first `len` elements
/// and drops the rest; no effect if the vector is already short enough.
#[verifier::external_body]
fn sv_truncate(v: &mut SmallBuf, len: usize)
    ensures
        len <= sv_contents(*old(v)).len() ==> sv_contents(*final(v)) == sv_contents(
            *old(v),
        ).subrange(0, len as int),
        len > sv_contents(*old(v)).len() ==> sv_contents(*final(v)) == sv_contents(*old(v)),
{
    v.inner.truncate(len)
}

/// Relies on `smallvec::SmallVec::drain`: draining `0..n` removes exactly the
/// first `n` elements, whether or not the iterator is consumed.
#[verifier::external_body]
fn sv_remove_prefix(v: &mut SmallBuf, n: usize)
    requires
        n <= sv_contents(*old(v)).len(),
    ensures
        sv_contents(*final(v)) == sv_contents(*old(v)).skip(n as int),
{
    v.inner.drain(0..n);
}

/// Relies on `smallvec::SmallVec::shrink_to_fit`: reduces the capacity,
/// moving the data back inline when it fits; the elements are unchanged.
#[verifier::external_body]
fn sv_shrink_to_fit(v: &mut SmallBuf)
    ensures
        sv_contents(*final(v)) == sv_contents(*old(v)),
{
    v.inner.shrink_to_fit()
}

/// Relies on `smallvec::SmallVec::spilled`: whether the elements live in a
/// separate heap allocation. That depends on the vector's allocation history,
/// so nothing is stated of the result.
#[verifier::external_body]
fn sv_spilled(v: &SmallBuf) -> bool {
    v.inner.spilled()
}

impl SmallBuf {
    /// A buffer holding exactly the given bytes. More than four of them spill
    /// to the heap.
    pub fn from_vec(v: Vec<u8>) -> (r: SmallBuf)
        ensures
            r.contents() == v@,
    {
        sv_from_vec(v)
    }

    /// Whether the bytes currently live in a separate heap allocation rather
    /// than inline. Depends on the buffer's allocation history, so nothing is
    /// stated of the result.
    pub fn spilled(&self) -> bool {
        sv_spilled(self)
    }
}

impl Default for SmallBuf {
    /// An empty buffer.
    fn default() -> (r: SmallBuf)
        ensures
            sv_contents(r) == Seq::<u8>::empty(),
    {
        sv_new()
    }
}

impl RcSliceContainer for SmallBuf {
    type Item = u8;

    open spec fn contents(&self) -> Seq<u8> {
        sv_contents(*self)
    }

    open spec fn shrinkable() -> bool {
        true
    }

    open spec fn always_compacts() -> bool {
        false
    }

    fn is_shrinkable() -> (r: bool) {
        true
    }

    fn len(&self) -> (n: usize) {
        sv_len(self)
    }

    fn get(&self, range: Range<usize>) -> (r: Option<&[u8]>) {
        if range.start <= range.end && range.end <= sv_len(self) {
            Some(vstd::slice::slice_subrange(sv_as_slice(self), range.start, range.end))
        } else {
            None
        }
    }

    fn get_mut(&mut self, range: Range<usize>) -> (r: Option<&mut [u8]>) {
        if range.start <= range.end && range.end <= sv_len(self) {
            let s = sv_as_mut_slice(self);
            let (_front, rest) = s.split_at_mut(range.start);
            let (mid, _back) = rest.split_at_mut(range.end - range.start);
            Some(mid)
        } else {
            None
        }
    }

    fn shrink_container_to_range(&mut self, keep_range: Range<usize>) -> (r: Option<Range<usize>>) {
        if !sv_spilled(self) {
            // The elements already sit inline: there is no allocation to give
            // back, so compaction is declined.
            return None;
        }
        sv_truncate(self, keep_range.end);
        sv_remove_prefix(self, keep_range.start);
        sv_shrink_to_fit(self);
        Some(0..sv_len(self))
    }
}

} // verus!
