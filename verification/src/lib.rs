//! A verified model of a toy train scene: a track built from cubic Bezier
//! curves, rail geometry emitted into a fixed-capacity arena, and a train of
//! cars placed along the track by travelled distance.
//!
//! All coordinates are fixed-point integers in milliunits: 1000 = one world
//! unit. Window handling, GPU work and floating-point conversions live with
//! the callers; the library states and proves what the scene logic computes.

pub mod geom;
pub mod curve;
pub mod track;
pub mod path;
pub mod art;
pub mod queue;
pub mod cars;
pub mod blob;

use vstd::prelude::*;

verus! {

/// Scene coordinates are bounded so that every intermediate product in the
/// curve arithmetic fits in `i64`.
pub const COORD_LIMIT: i64 = 1048576;

/// One world unit in fixed-point milliunits.
pub const SCALE: i64 = 1000;

} // verus!
