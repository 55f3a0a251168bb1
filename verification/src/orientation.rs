//! The eight canonical orientation states and their composition algebra.
//!
//! `RotN` rotates the image N degrees counter-clockwise from its stored
//! orientation; `RotNFlip` rotates N degrees counter-clockwise and then
//! mirrors the result horizontally.

use vstd::prelude::*;

verus! {

/// One of the eight canonical rotate/flip states an image may be displayed in.
#[derive(Clone, Copy, Debug, PartialEq, Eq, Structural)]
pub enum Orientation {
    Rot0,
    Rot0Flip,
    Rot90,
    Rot90Flip,
    Rot180,
    Rot180Flip,
    Rot270,
    Rot270Flip,
}

/// Whether the orientation carries the horizontal-mirror bit.
pub open spec fn is_flip(o: Orientation) -> bool {
    match o {
        Orientation::Rot0Flip
        | Orientation::Rot90Flip
        | Orientation::Rot180Flip
        | Orientation::Rot270Flip => true,
        _ => false,
    }
}

/// The counter-clockwise rotation of the orientation, in quarter turns (0..3).
pub open spec fn quarters(o: Orientation) -> int {
    match o {
        Orientation::Rot0 | Orientation::Rot0Flip => 0,
        Orientation::Rot90 | Orientation::Rot90Flip => 1,
        Orientation::Rot180 | Orientation::Rot180Flip => 2,
        Orientation::Rot270 | Orientation::Rot270Flip => 3,
    }
}

/// The orientation with the given quarter-turn count and flip bit.
pub open spec fn orient(q: int, f: bool) -> Orientation {
    if f {
        if q == 0 {
            Orientation::Rot0Flip
        } else if q == 1 {
            Orientation::Rot90Flip
        } else if q == 2 {
            Orientation::Rot180Flip
        } else {
            Orientation::Rot270Flip
        }
    } else {
        if q == 0 {
            Orientation::Rot0
        } else if q == 1 {
            Orientation::Rot90
        } else if q == 2 {
            Orientation::Rot180
        } else {
            Orientation::Rot270
        }
    }
}

/// The single orientation equivalent to applying `a` first and `b` second.
///
/// Rotation angles add; a leading flip mirrors the frame, so a later rotation
/// acts in the opposite direction; two flips cancel to a pure rotation.
pub open spec fn compose(a: Orientation, b: Orientation) -> Orientation {
    orient(
        if is_flip(a) {
            (quarters(a) - quarters(b) + 4) % 4
        } else {
            (quarters(a) + quarters(b)) % 4
        },
        is_flip(a) != is_flip(b),
    )
}

/// Classifies an orientation: flip-class operations are not compatible with
/// rotate-class operations when combining adjacent stack entries.
pub fn orientation_is_flip_op(orientation: Orientation) -> (r: bool)
    ensures
        r == is_flip(orientation),
{
    match orientation {
        Orientation::Rot0Flip
        | Orientation::Rot90Flip
        | Orientation::Rot180Flip
        | Orientation::Rot270Flip => true,
        _ => false,
    }
}

/// The quarter-turn count of an orientation.
pub fn orientation_quarters(orientation: Orientation) -> (r: u8)
    ensures
        r as int == quarters(orientation),
{
    match orientation {
        Orientation::Rot0 | Orientation::Rot0Flip => 0,
        Orientation::Rot90 | Orientation::Rot90Flip => 1,
        Orientation::Rot180 | Orientation::Rot180Flip => 2,
        Orientation::Rot270 | Orientation::Rot270Flip => 3,
    }
}

/// Builds the orientation with the given quarter-turn count and flip bit.
pub fn orientation_from_parts(q: u8, f: bool) -> (r: Orientation)
    requires
        q < 4,
    ensures
        r == orient(q as int, f),
{
    if f {
        if q == 0 {
            Orientation::Rot0Flip
        } else if q == 1 {
            Orientation::Rot90Flip
        } else if q == 2 {
            Orientation::Rot180Flip
        } else {
            Orientation::Rot270Flip
        }
    } else {
        if q == 0 {
            Orientation::Rot0
        } else if q == 1 {
            Orientation::Rot90
        } else if q == 2 {
            Orientation::Rot180
        } else {
            Orientation::Rot270
        }
    }
}

/// Composes two orientations into the single equivalent orientation.
pub fn compose_orientations(a: Orientation, b: Orientation) -> (r: Orientation)
    ensures
        r == compose(a, b),
{
    let qa = orientation_quarters(a);
    let qb = orientation_quarters(b);
    let fa = orientation_is_flip_op(a);
    let fb = orientation_is_flip_op(b);
    let q = if fa {
        (qa + 4 - qb) % 4
    } else {
        (qa + qb) % 4
    };
    orientation_from_parts(q, fa != fb)
}

} // verus!
