//! About:Face, the verified core.
//!
//! The Grid and the Assignment of Faces onto it, the Window the wall shows,
//! which portrait sits in which texture slot, the camera seam and the Shutter,
//! the layout of the Corpus on disk, model assets and execution providers.
//! Everything here is plain integers, strings and vectors; the floating-point
//! vision and rendering code and all file, camera and GPU access live in the
//! application around this crate.

pub mod grid;
pub mod text;
pub mod frame;
pub mod camera;
pub mod fake_camera;
pub mod shutter;
pub mod residency;
pub mod window;
pub mod model;
pub mod provider;
pub mod vision;
pub mod portrait;
pub mod store;
pub mod booth;
