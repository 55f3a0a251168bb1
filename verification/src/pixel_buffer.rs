//! Owned RGBA pixel buffers, held behind a small set of trusted wrappers
//! around the `image` crate.
//!
//! A buffer's contents are modelled by the uninterpreted `pixel_grid`
//! function as a sequence of rows of packed `0xRRGGBBAA` pixels; every
//! wrapper states its effect on that model, and the verified code reasons
//! only through those contracts.

use vstd::prelude::*;

use crate::grid::{hflip, is_grid, rot180, rot_ccw, rot_cw, vflip};

verus! {

/// An owned width x height RGBA image buffer.
#[verifier::external_body]
pub struct PixelBuffer {
    img: image::RgbaImage,
}

/// The contents of a pixel buffer: one sequence per row, top row first, each
/// entry a pixel packed as `0xRRGGBBAA`.
pub uninterp spec fn pixel_grid(b: PixelBuffer) -> Seq<Seq<u32>>;

/// Relies on `image::RgbaImage::new`: a fresh buffer holds `h` rows of `w`
/// pixels, all channels zero.
#[verifier::external_body]
fn buffer_new(w: u32, h: u32) -> (b: PixelBuffer)
    requires
        w as int * h as int * 4 <= usize::MAX as int,
    ensures
        pixel_grid(b) == Seq::new(h as nat, |y: int| Seq::new(w as nat, |x: int| 0u32)),
{
    PixelBuffer { img: image::RgbaImage::new(w, h) }
}

/// Relies on `image::ImageBuffer::dimensions`: a buffer is rectangular, with
/// exactly the width and height it reports.
#[verifier::external_body]
pub(crate) fn buffer_dims(b: &PixelBuffer) -> (r: (u32, u32))
    ensures
        is_grid(pixel_grid(*b), r.0 as int, r.1 as int),
{
    b.img.dimensions()
}

/// Relies on `image::ImageBuffer::get_pixel`: reads the pixel at column `x`,
/// row `y`.
#[verifier::external_body]
fn buffer_get(b: &PixelBuffer, x: u32, y: u32) -> (r: u32)
    requires
        0 <= y < pixel_grid(*b).len(),
        0 <= x < pixel_grid(*b)[y as int].len(),
    ensures
        r == pixel_grid(*b)[y as int][x as int],
{
    let p = b.img.get_pixel(x, y);
    ((p.0[0] as u32) << 24) | ((p.0[1] as u32) << 16) | ((p.0[2] as u32) << 8) | (p.0[3] as u32)
}

/// Relies on `image::ImageBuffer::put_pixel`: overwrites the pixel at column
/// `x`, row `y` and changes nothing else.
#[verifier::external_body]
fn buffer_set(b: &mut PixelBuffer, x: u32, y: u32, px: u32)
    requires
        0 <= y < pixel_grid(*old(b)).len(),
        0 <= x < pixel_grid(*old(b))[y as int].len(),
    ensures
        pixel_grid(*final(b)) == pixel_grid(*old(b)).update(
            y as int,
            pixel_grid(*old(b))[y as int].update(x as int, px),
        ),
{
    let p = image::Rgba([(px >> 24) as u8, (px >> 16) as u8, (px >> 8) as u8, px as u8]);
    b.img.put_pixel(x, y, p);
}

/// Relies on `image::imageops::rotate270` (270 degrees clockwise): the
/// result is the buffer rotated a quarter turn counter-clockwise. A buffer
/// with a zero dimension is excluded: its grid view loses the other
/// dimension, which the rotated buffer would resurrect.
#[verifier::external_body]
pub(crate) fn buffer_rotate_ccw(b: &PixelBuffer) -> (r: PixelBuffer)
    requires
        pixel_grid(*b).len() > 0,
        pixel_grid(*b)[0].len() > 0,
    ensures
        pixel_grid(r) == rot_ccw(pixel_grid(*b)),
{
    PixelBuffer { img: image::imageops::rotate270(&b.img) }
}

/// Relies on `image::imageops::rotate90` (90 degrees clockwise): the result
/// is the buffer rotated a quarter turn clockwise. A buffer with a zero
/// dimension is excluded, as for the counter-clockwise rotation.
#[verifier::external_body]
pub(crate) fn buffer_rotate_cw(b: &PixelBuffer) -> (r: PixelBuffer)
    requires
        pixel_grid(*b).len() > 0,
        pixel_grid(*b)[0].len() > 0,
    ensures
        pixel_grid(r) == rot_cw(pixel_grid(*b)),
{
    PixelBuffer { img: image::imageops::rotate90(&b.img) }
}

/// Relies on `image::imageops::rotate180_in_place`: reverses both axes.
#[verifier::external_body]
pub(crate) fn buffer_rotate180(b: &mut PixelBuffer)
    ensures
        pixel_grid(*final(b)) == rot180(pixel_grid(*old(b))),
{
    image::imageops::rotate180_in_place(&mut b.img);
}

/// Relies on `image::imageops::flip_horizontal_in_place`: mirrors each row.
#[verifier::external_body]
pub(crate) fn buffer_flip_horizontal(b: &mut PixelBuffer)
    ensures
        pixel_grid(*final(b)) == hflip(pixel_grid(*old(b))),
{
    image::imageops::flip_horizontal_in_place(&mut b.img);
}

/// Relies on `image::imageops::flip_vertical_in_place`: reverses the order
/// of the rows.
#[verifier::external_body]
pub(crate) fn buffer_flip_vertical(b: &mut PixelBuffer)
    ensures
        pixel_grid(*final(b)) == vflip(pixel_grid(*old(b))),
{
    image::imageops::flip_vertical_in_place(&mut b.img);
}

/// The width of a row table: the length of its first row.
pub open spec fn rows_width(rows: Seq<Seq<u32>>) -> int {
    if rows.len() == 0 {
        0
    } else {
        rows[0].len() as int
    }
}

/// Builds a pixel buffer from a rectangular table of packed pixels.
pub fn buffer_from_rows(rows: &Vec<Vec<u32>>) -> (b: PixelBuffer)
    requires
        rows@.len() <= u32::MAX,
        rows_width(rows.deep_view()) <= u32::MAX,
        forall|y: int|
            0 <= y < rows@.len() ==> (#[trigger] rows@[y])@.len() == rows_width(rows.deep_view()),
        rows@.len() * rows_width(rows.deep_view()) * 4 <= usize::MAX as int,
    ensures
        pixel_grid(b) == rows.deep_view(),
{
    let h: u32 = rows.len() as u32;
    let w: u32 = if rows.len() == 0 {
        0
    } else {
        rows[0].len() as u32
    };
    proof {
        let ww = w as int;
        let hh = h as int;
        assert(ww * hh * 4 == hh * ww * 4) by (nonlinear_arith);
    }
    let mut b = buffer_new(w, h);
    let mut y: usize = 0;
    while y < rows.len()
        invariant
            y <= rows@.len(),
            h == rows@.len(),
            w == rows_width(rows.deep_view()),
            forall|i: int| 0 <= i < rows@.len() ==> (#[trigger] rows@[i])@.len() == w,
            is_grid(pixel_grid(b), w as int, h as int),
            forall|i: int| 0 <= i < y ==> #[trigger] pixel_grid(b)[i] == rows@[i]@,
        decreases rows@.len() - y,
    {
        let row = &rows[y];
        let mut x: usize = 0;
        while x < row.len()
            invariant
                y < rows@.len(),
                x <= row@.len(),
                row@ == rows@[y as int]@,
                h == rows@.len(),
                w == rows_width(rows.deep_view()),
                forall|i: int| 0 <= i < rows@.len() ==> (#[trigger] rows@[i])@.len() == w,
                is_grid(pixel_grid(b), w as int, h as int),
                forall|i: int| 0 <= i < y ==> #[trigger] pixel_grid(b)[i] == rows@[i]@,
                forall|j: int| 0 <= j < x ==> pixel_grid(b)[y as int][j] == rows@[y as int]@[j],
            decreases row@.len() - x,
    {
            buffer_set(&mut b, x as u32, y as u32, row[x]);
            x += 1;
        }
        y += 1;
    }
    proof {
        assert(pixel_grid(b) =~~= rows.deep_view()) by {
            assert(forall|i: int|
                0 <= i < rows@.len() ==> rows.deep_view()[i] == (#[trigger] rows@[i]).deep_view());
            assert(forall|i: int|
                0 <= i < rows@.len() ==> (#[trigger] rows@[i]).deep_view() =~= rows@[i]@);
        }
    }
    b
}

/// Reads a pixel buffer back as a rectangular table of packed pixels.
pub fn buffer_rows(b: &PixelBuffer) -> (rows: Vec<Vec<u32>>)
    ensures
        rows.deep_view() == pixel_grid(*b),
{
    let (w, h) = buffer_dims(b);
    let mut rows: Vec<Vec<u32>> = Vec::new();
    let mut y: u32 = 0;
    while y < h
        invariant
            y <= h,
            is_grid(pixel_grid(*b), w as int, h as int),
            rows@.len() == y,
            forall|i: int| 0 <= i < y ==> (#[trigger] rows@[i])@ =~= pixel_grid(*b)[i],
        decreases h - y,
    {
        let mut row: Vec<u32> = Vec::new();
        let mut x: u32 = 0;
        while x < w
            invariant
                y < h,
                x <= w,
                is_grid(pixel_grid(*b), w as int, h as int),
                row@.len() == x,
                forall|j: int| 0 <= j < x ==> row@[j] == pixel_grid(*b)[y as int][j],
            decreases w - x,
        {
            row.push(buffer_get(b, x, y));
            x += 1;
        }
        rows.push(row);
        y += 1;
    }
    proof {
        assert(rows.deep_view() =~~= pixel_grid(*b)) by {
            assert(forall|i: int|
                0 <= i < rows@.len() ==> rows.deep_view()[i] =~= (#[trigger] rows@[i])@);
        }
    }
    rows
}

} // verus!
