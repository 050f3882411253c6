//! The one value shared between the sampler and the audio callback.

use std::sync::atomic::AtomicUsize;
use std::sync::atomic::Ordering;
use vstd::prelude::*;

verus! {

/// A single integer slot with a wait-free writer and a wait-free reader.
///
/// The sampler is the only writer and the audio callback the only reader.
/// Nothing is queued: a read sees the newest published value or, while a
/// publish is in flight, the one before it. Because another thread may
/// publish at any moment, no contract here speaks of the value read; the
/// functions that consume a control value are specified for every value.
pub struct ControlValueCell {
    slot: AtomicUsize,
}

impl ControlValueCell {
    /// A cell holding `initial`. Create it before either side starts.
    pub fn new(initial: usize) -> (cell: Self) {
        ControlValueCell { slot: AtomicUsize::new(initial) }
    }

    /// Overwrites the cell with a release-ordered store. Never blocks.
    pub fn publish(&self, value: usize) {
        self.slot.store(value, Ordering::Release);
    }

    /// Reads the cell with an acquire-ordered load. Never blocks.
    pub fn read(&self) -> (value: usize) {
        self.slot.load(Ordering::Acquire)
    }
}

} // verus!
