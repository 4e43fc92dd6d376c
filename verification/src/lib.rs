//! The integer core of a small CPU ray tracer.
//!
//! Single-precision numbers cross this library's boundary as their IEEE 754 bit
//! patterns. The library decides with them: which hit is nearest, which root of a
//! sphere counts, when a plane is hit, which byte a light level becomes and where
//! in the frame a colour lands. The arithmetic between those decisions is the
//! caller's.

pub mod frame;
pub mod maths;
pub mod objects;
