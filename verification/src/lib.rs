//! Orientation-transform engine.
//!
//! Tracks the sequence of non-destructive flip/rotate operations applied to a
//! displayed image, collapses adjacent operations of the same class, and
//! derives from that sequence the resulting pixel dimensions, a display-time
//! transform matrix, and a pixel-level re-sampling of the image buffer.

pub mod filter;
pub mod flip_rotate_op;
pub mod grid;
pub mod input_handling;
pub mod matrix;
pub mod orientation;
pub mod pixel_buffer;
