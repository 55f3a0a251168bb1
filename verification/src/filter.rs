//! The capability interface shared by image filters.
//!
//! A filter exposes three independent pure views of its current state: the
//! output dimensions for given input dimensions, a display-time transform
//! matrix, and a pixel-level application to a buffer. Each is specified by a
//! spec-level companion so implementations pin all three down exactly.

use vstd::prelude::*;

use crate::matrix::{Mat4, MatSpec};
use crate::pixel_buffer::{pixel_grid, PixelBuffer};

verus! {

/// A filtering operation over images.
pub trait ImageFilterOp {
    /// The (width, height) pair the filter turns the given pair into.
    spec fn spec_dimensions(&self, d: (int, int)) -> (int, int);

    /// The display transform matrix of the filter's current state.
    spec fn spec_transform(&self) -> MatSpec;

    /// The pixel grid the filter turns the given grid into.
    spec fn spec_filtered(&self, g: Seq<Seq<u32>>) -> Seq<Seq<u32>>;

    /// Dimensions of the image after applying the filter.
    fn dimensions(&self, w: u32, h: u32) -> (r: (u32, u32))
        ensures
            (r.0 as int, r.1 as int) == self.spec_dimensions((w as int, h as int)),
    ;

    /// The 4x4 transform matrix to apply to the image when displaying it.
    fn transform_matrix(&self) -> (r: Mat4)
        ensures
            r@ == self.spec_transform(),
    ;

    /// Applies the filter to the pixels of a non-empty buffer.
    fn apply_filter(&self, image: PixelBuffer) -> (r: PixelBuffer)
        requires
            pixel_grid(image).len() > 0,
            pixel_grid(image)[0].len() > 0,
        ensures
            pixel_grid(r) == self.spec_filtered(pixel_grid(image)),
    ;
}

} // verus!
