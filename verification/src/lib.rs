//! Perceptual palette matching: hex colour parsing, palette construction,
//! nearest-entry search over perceptual distances, and the blending fallback
//! for colours that have no close palette entry.

pub mod blend;
pub mod color;
pub mod distance;
pub mod hex;
pub mod matcher;
pub mod palette;
pub mod pipeline;
