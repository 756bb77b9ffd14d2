//! Core engine for a Conway's Game of Life simulation: a fixed-size
//! rectangular grid of boolean cells, a synchronous generation step with the
//! standard rule over the eight-connected neighborhood and hard dead borders,
//! an immutable pattern type parsed from a line-oriented marker text, and an
//! operation that stamps a pattern's live cells onto a grid at an offset.
//!
//! Rendering, windowing and file reading are left to the caller; the engine
//! works on plain in-memory values only.

pub mod grid;
pub mod laws;
pub mod model;
pub mod object;
pub mod placement;
pub mod text;

use vstd::prelude::*;

verus! {

/// The ways an engine operation can fail.
///
/// `advance` is total and never fails; the variants cover pattern parsing,
/// placement parsing and stamping. `IoError` is never produced by the engine
/// itself: it is reserved for callers that read pattern files and need to
/// report an unreadable path in the same taxonomy.
#[derive(Clone, Copy, Debug, PartialEq, Eq, Structural)]
pub enum Error {
    /// A pattern file could not be read at all.
    IoError,
    /// A pattern or placement text contained something unrecognized.
    ParseError,
    /// A stamped pattern cell would land outside the grid.
    OutOfBounds,
}

} // verus!
