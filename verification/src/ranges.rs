//! Requested index ranges and the clamping rule that resolves them.
//!
//! A view is constructed from a *requested* range whose endpoints may be
//! inclusive, exclusive, or absent. Resolution against the container length is
//! total: any request yields a valid (possibly empty) concrete window, by
//! clamping each endpoint into `0..=len` and then forcing `start <= end`.

use vstd::prelude::*;

verus! {

/// One endpoint of a requested index range.
#[derive(Clone, Copy, PartialEq, Eq, Structural, Debug)]
pub enum IndexBound {
    /// No constraint: the container edge is used.
    Unbounded,
    /// The index itself is part of the range.
    Included(usize),
    /// The range starts or ends just past the index.
    Excluded(usize),
}

/// A requested window, not yet clamped to a container length.
#[derive(Clone, Copy, PartialEq, Eq, Structural, Debug)]
pub struct IndexRange {
    /// Where the window begins.
    pub start: IndexBound,
    /// Where the window ends.
    pub end: IndexBound,
}

/// The concrete start index that a requested start endpoint resolves to,
/// against a container of length `len`.
pub open spec fn resolved_start(b: IndexBound, len: int) -> int {
    match b {
        IndexBound::Unbounded => 0,
        IndexBound::Included(x) => if x as int <= len {
            x as int
        } else {
            len
        },
        IndexBound::Excluded(x) => if x as int + 1 <= len {
            x as int + 1
        } else {
            len
        },
    }
}

/// The concrete end index that a requested end endpoint resolves to,
/// against a container of length `len`.
pub open spec fn resolved_end(b: IndexBound, len: int) -> int {
    match b {
        IndexBound::Unbounded => len,
        IndexBound::Included(x) => if x as int + 1 <= len {
            x as int + 1
        } else {
            len
        },
        IndexBound::Excluded(x) => if x as int <= len {
            x as int
        } else {
            len
        },
    }
}

/// The clamped start of a requested range: the resolved start, pulled back to
/// the resolved end if the request was inverted.
pub open spec fn clamped_start(r: IndexRange, len: int) -> int {
    if resolved_start(r.start, len) <= resolved_end(r.end, len) {
        resolved_start(r.start, len)
    } else {
        resolved_end(r.end, len)
    }
}

/// The clamped end of a requested range: the resolved end endpoint.
pub open spec fn clamped_end(r: IndexRange, len: int) -> int {
    resolved_end(r.end, len)
}

impl IndexRange {
    /// The whole container: `..`.
    pub fn full() -> (r: IndexRange)
        ensures
            r == (IndexRange { start: IndexBound::Unbounded, end: IndexBound::Unbounded }),
    {
        IndexRange { start: IndexBound::Unbounded, end: IndexBound::Unbounded }
    }

    /// Everything from index `a` on: `a..`.
    pub fn from(a: usize) -> (r: IndexRange)
        ensures
            r == (IndexRange { start: IndexBound::Included(a), end: IndexBound::Unbounded }),
    {
        IndexRange { start: IndexBound::Included(a), end: IndexBound::Unbounded }
    }

    /// Everything before index `b`: `..b`.
    pub fn to(b: usize) -> (r: IndexRange)
        ensures
            r == (IndexRange { start: IndexBound::Unbounded, end: IndexBound::Excluded(b) }),
    {
        IndexRange { start: IndexBound::Unbounded, end: IndexBound::Excluded(b) }
    }

    /// Everything up to and including index `b`: `..=b`.
    pub fn to_inclusive(b: usize) -> (r: IndexRange)
        ensures
            r == (IndexRange { start: IndexBound::Unbounded, end: IndexBound::Included(b) }),
    {
        IndexRange { start: IndexBound::Unbounded, end: IndexBound::Included(b) }
    }

    /// The half-open window `a..b`.
    pub fn from_to(a: usize, b: usize) -> (r: IndexRange)
        ensures
            r == (IndexRange { start: IndexBound::Included(a), end: IndexBound::Excluded(b) }),
    {
        IndexRange { start: IndexBound::Included(a), end: IndexBound::Excluded(b) }
    }

    /// The closed window `a..=b`.
    pub fn from_to_inclusive(a: usize, b: usize) -> (r: IndexRange)
        ensures
            r == (IndexRange { start: IndexBound::Included(a), end: IndexBound::Included(b) }),
    {
        IndexRange { start: IndexBound::Included(a), end: IndexBound::Included(b) }
    }

    /// Resolve this request against a container of length `len`, clamping both
    /// endpoints into bounds and forcing `start <= end`.
    pub fn resolve(&self, len: usize) -> (out: (usize, usize))
        ensures
            out.0 == clamped_start(*self, len as int),
            out.1 == clamped_end(*self, len as int),
            0 <= out.0 <= out.1 <= len,
    {
        let start = match self.start {
            IndexBound::Unbounded => 0,
            IndexBound::Included(x) => if x <= len {
                x
            } else {
                len
            },
            IndexBound::Excluded(x) => {
                let xp = if x < usize::MAX {
                    x + 1
                } else {
                    usize::MAX
                };
                if xp <= len {
                    xp
                } else {
                    len
                }
            },
        };
        let end = match self.end {
            IndexBound::Unbounded => len,
            IndexBound::Included(x) => {
                let xp = if x < usize::MAX {
                    x + 1
                } else {
                    usize::MAX
                };
                if xp <= len {
                    xp
                } else {
                    len
                }
            },
            IndexBound::Excluded(x) => if x <= len {
                x
            } else {
                len
            },
        };
        if start <= end {
            (start, end)
        } else {
            (end, end)
        }
    }
}

/// Clamping is total and always yields a valid window: for every request and
/// every length, `0 <= start <= end <= len`.
pub proof fn lemma_clamp_valid(r: IndexRange, len: int)
    requires
        len >= 0,
    ensures
        0 <= clamped_start(r, len) <= clamped_end(r, len) <= len,
{
}

/// A half-open request that lies within bounds resolves to exactly itself:
/// `a..b` with `a <= b <= len` clamps to `(a, b)`.
pub proof fn lemma_clamp_exact(a: usize, b: usize, len: int)
    requires
        a <= b <= len,
    ensures
        clamped_start(
            IndexRange { start: IndexBound::Included(a), end: IndexBound::Excluded(b) },
            len,
        ) == a,
        clamped_end(
            IndexRange { start: IndexBound::Included(a), end: IndexBound::Excluded(b) },
            len,
        ) == b,
{
}

/// A half-open request starting past the container clamps to the empty window
/// at the container's end: `a..b` with `len < a` (and `b` not short of the
/// container either, as in any forward range `a..b`) yields `(len, len)`.
pub proof fn lemma_clamp_past_length(a: usize, b: usize, len: int)
    requires
        0 <= len < a,
        len <= b,
    ensures
        clamped_start(
            IndexRange { start: IndexBound::Included(a), end: IndexBound::Excluded(b) },
            len,
        ) == len,
        clamped_end(
            IndexRange { start: IndexBound::Included(a), end: IndexBound::Excluded(b) },
            len,
        ) == len,
{
}

/// The unbounded request covers the whole container: `..` clamps to `(0, len)`.
pub proof fn lemma_clamp_full(len: int)
    requires
        len >= 0,
    ensures
        clamped_start(IndexRange { start: IndexBound::Unbounded, end: IndexBound::Unbounded }, len)
            == 0,
        clamped_end(IndexRange { start: IndexBound::Unbounded, end: IndexBound::Unbounded }, len)
            == len,
{
}

} // verus!
