//! State management core of an editor for signed-distance-field shapes.

pub mod consts;
pub mod shader;
pub mod shape;
pub mod state;
pub mod templates;
pub mod text;
pub mod util;
