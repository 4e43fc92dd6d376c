//! The frame and the pass that fills it.

pub mod application;
