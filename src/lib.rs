//! Lays a sequence of RGBA pictures side by side on one transparent canvas,
//! with a fixed gap between neighbours, and optionally rescales the result
//! to a requested height.

pub mod picture;
pub mod image_set;
pub mod compose;
pub mod resample;
pub mod config;
pub mod decode;
