//! Statistics of a ring-buffer reader.

use vstd::prelude::*;

verus! {

/// Frames a ring-buffer tap has delivered, and those it knows were dropped
/// on the way (a lower bound: the ring buffer may drop more before they
/// reach the channel).
#[derive(Debug, Clone, Copy, PartialEq, Eq, Structural)]
pub struct ReaderStats {
    pub frames_received: usize,
    pub frames_dropped: usize,
}

} // verus!
