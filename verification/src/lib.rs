//! Escape-time fractal kernel over a rectangular pixel grid.
//!
//! A [`Generator`] owns a dense row-major buffer of per-pixel iteration
//! counts. `generate` maps every pixel onto a point of a plane viewport and
//! runs a fixed absolute-value escape-time recurrence on it, writing the
//! resulting count into the buffer. All plane values are IEEE-754 binary64
//! numbers carried as `u64` bit patterns, so the whole kernel is verified
//! over the bit-level arithmetic model in [`float64`].

pub mod escape;
pub mod float64;
pub mod generator;

pub use generator::Generator;
