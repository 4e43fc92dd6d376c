//! The values that a frame is made of.

pub mod color4u8;
pub mod intersection;
pub mod light;
pub mod plane;
pub mod scene;
pub mod sphere;
