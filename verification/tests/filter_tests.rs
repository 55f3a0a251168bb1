use flip_rotate::filter::ImageFilterOp;
use flip_rotate::flip_rotate_op::ImageFlipRotateOp;
use flip_rotate::orientation::Orientation;
use flip_rotate::pixel_buffer::{buffer_from_rows, buffer_rows};

// A 2 x 3 test pattern with all pixels distinct, so every rotation and
// mirror produces a different grid.
fn pattern() -> Vec<Vec<u32>> {
    vec![vec![1, 2], vec![3, 4], vec![5, 6]]
}

fn apply_single(o: Orientation) -> Vec<Vec<u32>> {
    let stack = ImageFlipRotateOp::new(o);
    let out = stack.apply_filter(buffer_from_rows(&pattern()));
    buffer_rows(&out)
}

#[test]
fn pixels_rot0_is_identity() {
    assert_eq!(apply_single(Orientation::Rot0), pattern());
}

#[test]
fn pixels_rot0_flip_mirrors_rows() {
    assert_eq!(apply_single(Orientation::Rot0Flip), vec![vec![2, 1], vec![4, 3], vec![6, 5]]);
}

#[test]
fn pixels_rot90_turns_counter_clockwise() {
    assert_eq!(apply_single(Orientation::Rot90), vec![vec![2, 4, 6], vec![1, 3, 5]]);
}

#[test]
fn pixels_rot90_flip() {
    assert_eq!(apply_single(Orientation::Rot90Flip), vec![vec![6, 4, 2], vec![5, 3, 1]]);
}

#[test]
fn pixels_rot180_reverses_both_axes() {
    assert_eq!(apply_single(Orientation::Rot180), vec![vec![6, 5], vec![4, 3], vec![2, 1]]);
}

#[test]
fn pixels_rot180_flip_is_vertical_mirror() {
    assert_eq!(apply_single(Orientation::Rot180Flip), vec![vec![5, 6], vec![3, 4], vec![1, 2]]);
}

#[test]
fn pixels_rot270_turns_clockwise() {
    assert_eq!(apply_single(Orientation::Rot270), vec![vec![5, 3, 1], vec![6, 4, 2]]);
}

#[test]
fn pixels_rot270_flip() {
    assert_eq!(apply_single(Orientation::Rot270Flip), vec![vec![1, 3, 5], vec![2, 4, 6]]);
}

#[test]
fn buffer_round_trip_preserves_pixels() {
    let rows = vec![vec![0xdeadbeef, 0x01020304], vec![0, 0xffffffff]];
    let buffer = buffer_from_rows(&rows);
    assert_eq!(buffer_rows(&buffer), rows);
}

#[test]
fn double_flip_restores_pixels() {
    let mut stack = ImageFlipRotateOp::new(Orientation::Rot0);
    stack.flip_horizontal();
    stack.flip_horizontal();
    let out = stack.apply_filter(buffer_from_rows(&pattern()));
    assert_eq!(buffer_rows(&out), pattern());
}

#[test]
fn stacked_operations_apply_in_order() {
    // Rotate a quarter turn counter-clockwise, then mirror horizontally:
    // the two stay separate entries and apply left to right.
    let mut stack = ImageFlipRotateOp::new(Orientation::Rot0);
    stack.rotate_left();
    stack.flip_horizontal();
    let out = stack.apply_filter(buffer_from_rows(&pattern()));
    assert_eq!(buffer_rows(&out), vec![vec![6, 4, 2], vec![5, 3, 1]]);
}

#[test]
fn matrix_identity_for_rot0() {
    let stack = ImageFlipRotateOp::new(Orientation::Rot0);
    let m = stack.transform_matrix();
    assert_eq!(
        (m.m00, m.m01, m.m10, m.m11, m.m22, m.m33),
        (1, 0, 0, 1, 1, 1)
    );
}

#[test]
fn matrix_rot90_rotates_counter_clockwise() {
    let stack = ImageFlipRotateOp::new(Orientation::Rot90);
    let m = stack.transform_matrix();
    assert_eq!((m.m00, m.m01, m.m10, m.m11), (0, 1, -1, 0));
    // The row vector (1, 0) maps to (0, 1): the right edge turns upward.
    assert_eq!(m.apply_xy(1, 0), (0, 1));
}

#[test]
fn matrix_of_stack_multiplies_in_order() {
    let mut stack = ImageFlipRotateOp::new(Orientation::Rot0);
    stack.rotate_left();
    stack.flip_horizontal();
    let m = stack.transform_matrix();
    // Quarter turn counter-clockwise then horizontal mirror swaps the axes.
    assert_eq!((m.m00, m.m01, m.m10, m.m11), (0, 1, 1, 0));
}

#[test]
fn matrix_and_pixels_agree_for_rot90() {
    // For every pixel of an asymmetric pattern, map its centered doubled
    // coordinates (so that pixel centers stay integral) through the
    // composed matrix and check the pixel landed exactly there.
    let rows = pattern();
    let (w, h) = (2i32, 3i32);
    let stack = ImageFlipRotateOp::new(Orientation::Rot90);
    let m = stack.transform_matrix();
    let out = buffer_rows(&stack.apply_filter(buffer_from_rows(&rows)));
    let (ow, oh) = (out[0].len() as i32, out.len() as i32);
    assert_eq!((ow, oh), (3, 2));
    for y in 0..h {
        for x in 0..w {
            let value = rows[y as usize][x as usize];
            let mapped = m.apply_xy(2 * x + 1 - w, h - 2 * y - 1);
            let mut found = None;
            for oy in 0..oh {
                for ox in 0..ow {
                    if out[oy as usize][ox as usize] == value {
                        found = Some((ox, oy));
                    }
                }
            }
            let (ox, oy) = found.expect("pixel value must survive the rotation");
            assert_eq!(mapped, (2 * ox + 1 - ow, oh - 2 * oy - 1));
        }
    }
}

#[test]
fn flip_vertical_mirrors_rows_of_pixels() {
    let mut stack = ImageFlipRotateOp::new(Orientation::Rot0);
    stack.flip_vertical();
    let out = stack.apply_filter(buffer_from_rows(&pattern()));
    assert_eq!(buffer_rows(&out), vec![vec![5, 6], vec![3, 4], vec![1, 2]]);
}

#[test]
fn dimensions_match_transformed_buffer() {
    let mut stack = ImageFlipRotateOp::new(Orientation::Rot90);
    stack.rotate_left();
    stack.flip_horizontal();
    stack.rotate_right();
    let out = buffer_rows(&stack.apply_filter(buffer_from_rows(&pattern())));
    let (w, h) = stack.dimensions(2, 3);
    assert_eq!((out[0].len() as u32, out.len() as u32), (w, h));
}
