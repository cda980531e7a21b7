//! A verified generation engine for Conway's Game of Life on a fixed-size,
//! bordered boolean grid.
//!
//! The grid keeps a one-cell-wide sentinel border that is always dead, so
//! neighbor counting never needs bounds checks.  Each generation is computed
//! row by row: every row is a resumable task that reads one immutable
//! snapshot of the committed grid and writes its own disjoint output buffer.
//! Tasks can be driven to completion independently (parallel mode) or
//! interleaved round-robin under a bounded work budget (cooperative mode);
//! both schedules commit bit-identical grids.  A bounded history of grid
//! checksums heuristically detects stable or oscillating simulations and
//! halts automatic progression.

pub mod cycle;
pub mod engine;
pub mod grid;
pub mod laws;
pub mod patterns;
pub mod row_task;
pub mod rules;
