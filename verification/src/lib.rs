//! Light attenuation over a 2D tile grid.
//!
//! The engine turns a grid of per-cell opacity ("decay") values plus a light
//! position into a grid of per-cell attenuation factors, using a bidirectional
//! multi-pass sweep that avoids directional bias.  All scalars are fixed-point
//! values: a `u64` counts millionths, so `fixed::SCALE` stands for 1.0.

pub mod fixed;
pub mod sweep;
pub mod engine;
pub mod lights;
pub mod subpixel;
pub mod grid;
pub mod display;
pub mod editor;

pub use fixed::{DIAG_SQRT2, SCALE, SCALE_SQ};
pub use sweep::{SweepDir, run_forward_sweeps, run_reverse_sweeps};
pub use engine::{AttenuationAlgorithm, GridError, LightSource, Sweeping, combine};
pub use lights::combine_lights;
pub use subpixel::interpolate;
pub use grid::{attenuation_to_string, flatten_grid};
pub use display::WallOverlayUniforms;
pub use editor::MapEditor;
