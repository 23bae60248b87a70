//! Plain-data parameter blocks handed to the display layer.
//!
//! The display layer (outside this crate) re-executes the engine's blend
//! arithmetic for presentation and tints wall cells after blurring.  Its
//! wall-overlay pass takes the grid's shape as a 16-byte parameter block;
//! the block itself is plain integers and lives here so that verified code
//! can build it from a checked grid shape.

use vstd::prelude::*;

verus! {

/// Uniform data for the display layer's wall-overlay pass: the grid shape,
/// padded to 16 bytes.
#[derive(Clone, Copy, Debug)]
pub struct WallOverlayUniforms {
    pub grid_width: u32,
    pub grid_height: u32,
    pub _padding: [u32; 2],
}

impl WallOverlayUniforms {
    /// The parameter block for a grid of the given shape.
    pub fn new(grid_width: u32, grid_height: u32) -> (r: WallOverlayUniforms)
        ensures
            r.grid_width == grid_width,
            r.grid_height == grid_height,
            r._padding == [0u32, 0u32],
    {
        WallOverlayUniforms { grid_width, grid_height, _padding: [0, 0] }
    }
}

} // verus!
