//! Shared, reference-counted slice views.
//!
//! `RcSlice` and `ArcSlice` are windows (`[start, end)` index ranges) into an
//! array-like container held behind a shared, reference-counted handle
//! (`Rc` or `Arc`). Views are cheap to clone and to narrow; mutation and
//! physical compaction of the underlying container are gated on the handle
//! being the only one alive.

mod arc;
mod container;
mod ranges;
mod rc;
mod small;

pub use arc::lemma_arc_narrowing_round_trip;
pub use arc::ArcSlice;
pub use container::RcSliceContainer;
pub use ranges::clamped_end;
pub use ranges::clamped_start;
pub use ranges::lemma_clamp_exact;
pub use ranges::lemma_clamp_full;
pub use ranges::lemma_clamp_past_length;
pub use ranges::lemma_clamp_valid;
pub use ranges::resolved_end;
pub use ranges::resolved_start;
pub use ranges::IndexBound;
pub use ranges::IndexRange;
pub use rc::lemma_rc_narrowing_round_trip;
pub use rc::RcSlice;
pub use small::SmallBuf;
