//! Conway's Game of Life on a fixed-size toroidal (edge-wrapping) grid.
//!
//! The [`Universe`] holds one bit per cell in a packed bit set, addressed by
//! the flattened row-major index `row * width + col`. Neighbor lookups wrap
//! around both edges, so every cell has exactly eight neighbors, even on
//! degenerate grids where a cell can be its own neighbor. `tick` advances the
//! whole grid one generation in lockstep from the pre-tick state alone.

mod bitgrid;
mod universe;
mod laws;

pub use universe::Universe;
