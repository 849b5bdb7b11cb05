//! The values a new editor and a new shape start with.

use vstd::prelude::*;

verus! {

/// The bit pattern of the single-precision number 0.
pub const ZERO_BITS: u32 = 0;

/// The bit pattern of the single-precision number 1.
pub const ONE_BITS: u32 = 0x3F80_0000;

/// The width of the side panel, 550, as a single-precision bit pattern.
pub const SIDE_PANEL_WIDTH_BITS: u32 = 0x4409_8000;

/// The horizontal camera position that centres the shapes in the space
/// beside the panel: minus half the panel width, as a bit pattern.
pub const DEFAULT_CAMERA_X_BITS: u32 = 0xC389_8000;

/// The vertical camera position at the start.
pub const DEFAULT_CAMERA_Y_BITS: u32 = ZERO_BITS;

/// The rotation of a new shape.
pub const DEFAULT_SHAPE_ROTATION_BITS: u32 = ZERO_BITS;

/// The scale of a new shape.
pub const DEFAULT_SHAPE_SCALE_BITS: u32 = ONE_BITS;

/// The bounds length of a new shape, 500, as a bit pattern.
pub const DEFAULT_SHAPE_BOUNDS_LENGTH_BITS: u32 = 0x43FA_0000;

/// The name of the template that a new shape's distance function starts from.
pub const DEFAULT_SDF_TEMPLATE: &'static str = "circle";

/// The name of the template that a new shape's fill function starts from.
pub const DEFAULT_FILL_TEMPLATE: &'static str = "cubic_falloff";

} // verus!
