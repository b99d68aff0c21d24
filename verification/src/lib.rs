//! Hardware-resource management core for a fixed, resource-constrained game
//! console: a bounded video-memory tile arena shared by many logical tile
//! images, and a bounded set of audio channels mixed into a double-buffered
//! stream.
//!
//! The two subsystems arbitrate small, fixed hardware pools under hard
//! real-time framing: the tile cache deduplicates, reference-counts and
//! garbage-collects fixed-size tile slots; the mixer owns a fixed channel
//! table, performs saturating software mixing and drives a frame-synchronized
//! double-buffered hardware handoff.

use vstd::prelude::*;

pub mod font;
pub mod mixer;
pub mod slot_alloc;
pub mod tiled;
pub mod tiles;
pub mod vram;

verus! {

/// Error for the recoverable failure mode of both subsystems: the fixed
/// hardware pool (tile slots, or mixer channels) is exhausted.  Invariant
/// violations (such as decrementing a reference count already at zero) are
/// programmer errors, excluded by preconditions rather than reported.
#[derive(Clone, Copy, Debug, PartialEq, Eq, Structural)]
pub enum ResourceError {
    ResourceExhausted,
}

} // verus!
