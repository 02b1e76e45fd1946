//! Bouncing circular bodies in a rectangular box: wall reflection, position
//! integration and elastic pairwise collision response.
//!
//! Lengths, positions and velocities are fixed-point integers in a length
//! unit of the caller's choosing (a renderer may, for instance, count 65536
//! units to the pixel). Masses count in thousandths. Every computation is
//! exact integer arithmetic; the only rounding is the truncation toward zero
//! of the collision impulse, and values are held within documented limits by
//! saturation.
pub mod body;
pub mod collision;
pub mod frame;
pub mod laws;
pub mod motion;
