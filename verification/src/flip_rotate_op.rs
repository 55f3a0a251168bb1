//! The flip/rotate operation stack.
//!
//! An ordered, non-empty sequence of orientations: the entry at index 0 is
//! the orientation derived from the image's metadata at load time and is
//! never removed, replaced or combined; later entries record user actions and
//! are applied after earlier ones. Two adjacent operations of the same class
//! (flip with flip, rotation with rotation) are combined eagerly at insertion
//! time into their algebraic composition.

use vstd::prelude::*;

use crate::filter::ImageFilterOp;
use crate::grid::{
    apply_ops, grid_op, hflip, is_grid, lemma_apply_ops_push, lemma_grid_op_compose, lemma_hflip_rect,
    lemma_rot180_is_two_ccw, lemma_rot_ccw_n_rect, lemma_rot_ccw_rect, lemma_rot_cw_is_three_ccw,
    lemma_vflip_is_hflip_rot2, rot_ccw, rot_ccw_n,
};
use crate::matrix::{
    lemma_mat_of_ops_small, lemma_op_mat_small, mat_of_ops, orientation_matrix, Mat4, MatSpec,
};
use crate::orientation::{
    compose, compose_orientations, is_flip, orientation_quarters, quarters, Orientation,
};
use crate::pixel_buffer::{
    buffer_dims, buffer_flip_horizontal, buffer_flip_vertical, buffer_rotate180,
    buffer_rotate_ccw, buffer_rotate_cw, pixel_grid, PixelBuffer,
};

verus! {

/// Whether a candidate operation would combine with the stack's last entry:
/// never with the metadata seed alone on the stack, otherwise exactly when
/// both belong to the same class.
pub open spec fn can_combine(s: Seq<Orientation>, op: Orientation) -> bool {
    s.len() > 1 && is_flip(s.last()) == is_flip(op)
}

/// The stack after pushing one operation: the last entry is replaced by the
/// composition when the classes agree, otherwise the operation is appended.
pub open spec fn spec_push(s: Seq<Orientation>, op: Orientation) -> Seq<Orientation> {
    if can_combine(s, op) {
        s.drop_last().push(compose(s.last(), op))
    } else {
        s.push(op)
    }
}

/// The effect of one orientation on a (width, height) pair: quarter-turn
/// counts 1 and 3 swap the pair, counts 0 and 2 keep it.
pub open spec fn dim_step(o: Orientation, d: (int, int)) -> (int, int) {
    if quarters(o) == 1 || quarters(o) == 3 {
        (d.1, d.0)
    } else {
        d
    }
}

/// Left fold of the whole stack over a (width, height) pair.
pub open spec fn dims_of_ops(s: Seq<Orientation>, d: (int, int)) -> (int, int)
    decreases s.len(),
{
    if s.len() == 0 {
        d
    } else {
        dim_step(s.last(), dims_of_ops(s.drop_last(), d))
    }
}

/// Stack of flip/rotate operations seeded with the metadata-derived
/// orientation. The latest operation sits at the end.
pub struct ImageFlipRotateOp {
    op_stack: Vec<Orientation>,
}

impl View for ImageFlipRotateOp {
    type V = Seq<Orientation>;

    closed spec fn view(&self) -> Seq<Orientation> {
        self.op_stack@
    }
}

impl ImageFlipRotateOp {
    /// The stack is well formed: construction seeds one entry and nothing
    /// ever removes it.
    pub open spec fn wf(&self) -> bool {
        self@.len() >= 1
    }

    /// Creates a stack holding only the metadata-derived orientation.
    pub fn new(exif_orientation: Orientation) -> (r: ImageFlipRotateOp)
        ensures
            r@ == seq![exif_orientation],
            r.wf(),
    {
        let mut op_stack: Vec<Orientation> = Vec::new();
        op_stack.push(exif_orientation);
        proof {
            assert(op_stack@ =~= seq![exif_orientation]);
        }
        ImageFlipRotateOp { op_stack }
    }

    /// The most recent operation on the stack.
    pub fn last_op(&self) -> (r: Orientation)
        requires
            self.wf(),
        ensures
            r == self@.last(),
    {
        self.op_stack[self.op_stack.len() - 1]
    }

    /// Whether `op` would combine with the most recent operation. The seed
    /// entry alone on the stack combines with nothing; otherwise two flips
    /// combine, two rotations combine, a flip and a rotation never combine.
    pub fn can_combine_with_last_op(&self, op: Orientation) -> (r: bool)
        requires
            self.wf(),
        ensures
            r == can_combine(self@, op),
    {
        if self.op_stack.len() == 1 {
            return false;
        }
        let last_is_flip = crate::orientation::orientation_is_flip_op(self.last_op());
        let op_is_flip = crate::orientation::orientation_is_flip_op(op);
        last_is_flip == op_is_flip
    }

    /// Pushes one operation, combining it with the most recent entry when
    /// both belong to the same class. The seed at index 0 is never touched
    /// and the stack never shrinks.
    pub fn add_operation(&mut self, op: Orientation)
        requires
            old(self).wf(),
        ensures
            final(self)@ == spec_push(old(self)@, op),
            final(self).wf(),
            final(self)@[0] == old(self)@[0],
            final(self)@.len() >= old(self)@.len(),
    {
        if self.can_combine_with_last_op(op) {
            let combined_op = compose_orientations(self.last_op(), op);
            let _replaced = self.op_stack.pop();
            self.op_stack.push(combined_op);
        } else {
            self.op_stack.push(op);
        }
        proof {
            assert(self@ =~= spec_push(old(self)@, op));
        }
    }

    /// Adds a rotate-left operation (a quarter turn counter-clockwise).
    pub fn rotate_left(&mut self)
        requires
            old(self).wf(),
        ensures
            final(self)@ == spec_push(old(self)@, Orientation::Rot90),
            final(self).wf(),
            final(self)@[0] == old(self)@[0],
    {
        self.add_operation(Orientation::Rot90);
    }

    /// Adds a rotate-right operation (a quarter turn clockwise).
    pub fn rotate_right(&mut self)
        requires
            old(self).wf(),
        ensures
            final(self)@ == spec_push(old(self)@, Orientation::Rot270),
            final(self).wf(),
            final(self)@[0] == old(self)@[0],
    {
        self.add_operation(Orientation::Rot270);
    }

    /// Adds a horizontal mirror.
    pub fn flip_horizontal(&mut self)
        requires
            old(self).wf(),
        ensures
            final(self)@ == spec_push(old(self)@, Orientation::Rot0Flip),
            final(self).wf(),
            final(self)@[0] == old(self)@[0],
    {
        self.add_operation(Orientation::Rot0Flip);
    }

    /// Adds a vertical mirror. No dedicated vertical-flip state exists among
    /// the eight orientations, so it is realised as the half-turn composed
    /// with a horizontal mirror, which acts on pixels as a pure vertical
    /// mirror.
    pub fn flip_vertical(&mut self)
        requires
            old(self).wf(),
        ensures
            final(self)@ == spec_push(old(self)@, Orientation::Rot180Flip),
            final(self).wf(),
            final(self)@[0] == old(self)@[0],
    {
        self.add_operation(Orientation::Rot180Flip);
    }

    /// The number of operations currently on the stack.
    pub fn op_count(&self) -> (r: usize)
        ensures
            r == self@.len(),
    {
        self.op_stack.len()
    }

    /// The operation at position `i`, counted from the seed at 0.
    pub fn op_at(&self, i: usize) -> (r: Orientation)
        requires
            i < self@.len(),
        ensures
            r == self@[i as int],
    {
        self.op_stack[i]
    }
}

impl ImageFilterOp for ImageFlipRotateOp {
    open spec fn spec_dimensions(&self, d: (int, int)) -> (int, int) {
        dims_of_ops(self@, d)
    }

    open spec fn spec_transform(&self) -> MatSpec {
        mat_of_ops(self@)
    }

    open spec fn spec_filtered(&self, g: Seq<Seq<u32>>) -> Seq<Seq<u32>> {
        apply_ops(self@, g)
    }

    /// Dimensions of the image after applying the whole stack: each entry
    /// with an odd quarter-turn count swaps the running pair.
    fn dimensions(&self, w: u32, h: u32) -> (r: (u32, u32)) {
        let mut rw = w;
        let mut rh = h;
        let n = self.op_stack.len();
        let mut i: usize = 0;
        while i < n
            invariant
                i <= n,
                n == self@.len(),
                (rw as int, rh as int) == dims_of_ops(self@.take(i as int), (w as int, h as int)),
            decreases n - i,
        {
            let q = orientation_quarters(self.op_stack[i]);
            if q == 1 || q == 3 {
                let t = rw;
                rw = rh;
                rh = t;
            }
            proof {
                assert(self@.take(i as int + 1).drop_last() =~= self@.take(i as int));
                assert(self@.take(i as int + 1).last() == self@[i as int]);
            }
            i += 1;
        }
        proof {
            assert(self@.take(n as int) =~= self@);
        }
        (rw, rh)
    }

    /// Folds the stack's matrices starting from the identity, multiplying in
    /// stack order so the earliest operation applies first.
    fn transform_matrix(&self) -> (r: Mat4) {
        let mut result = Mat4::identity();
        let n = self.op_stack.len();
        let mut i: usize = 0;
        while i < n
            invariant
                i <= n,
                n == self@.len(),
                result@ == mat_of_ops(self@.take(i as int)),
            decreases n - i,
        {
            let op = self.op_stack[i];
            proof {
                lemma_mat_of_ops_small(self@.take(i as int));
                lemma_op_mat_small(op);
                assert(self@.take(i as int + 1).drop_last() =~= self@.take(i as int));
                assert(self@.take(i as int + 1).last() == self@[i as int]);
            }
            result = result.multiply(&orientation_matrix(op));
            i += 1;
        }
        proof {
            assert(self@.take(n as int) =~= self@);
        }
        result
    }

    /// Folds the stack over the pixel buffer, applying each orientation's
    /// quarter turns and mirror in stack order.
    fn apply_filter(&self, image: PixelBuffer) -> (r: PixelBuffer) {
        let ghost g0 = pixel_grid(image);
        let mut result = image;
        let n = self.op_stack.len();
        let mut i: usize = 0;
        while i < n
            invariant
                i <= n,
                n == self@.len(),
                pixel_grid(result) == apply_ops(self@.take(i as int), g0),
                pixel_grid(result).len() > 0,
                pixel_grid(result)[0].len() > 0,
            decreases n - i,
        {
            let op = self.op_stack[i];
            let ghost g = pixel_grid(result);
            let (w, h) = buffer_dims(&result);
            proof {
                assert(w > 0 && h > 0);
                assert(rot_ccw_n(0, g) == g);
                assert(rot_ccw_n(1, g) == rot_ccw(g));
                if quarters(op) == 2 {
                    lemma_rot180_is_two_ccw(g, w as int, h as int);
                    lemma_vflip_is_hflip_rot2(g, w as int, h as int);
                }
                if quarters(op) == 3 {
                    lemma_rot_cw_is_three_ccw(g, w as int, h as int);
                }
                lemma_grid_op_rect(op, g, w as int, h as int);
                assert(self@.take(i as int + 1).drop_last() =~= self@.take(i as int));
                assert(self@.take(i as int + 1).last() == self@[i as int]);
            }
            match op {
                Orientation::Rot0 => {},
                Orientation::Rot0Flip => {
                    buffer_flip_horizontal(&mut result);
                },
                Orientation::Rot90 => {
                    result = buffer_rotate_ccw(&result);
                },
                Orientation::Rot90Flip => {
                    result = buffer_rotate_ccw(&result);
                    buffer_flip_horizontal(&mut result);
                },
                Orientation::Rot180 => {
                    buffer_rotate180(&mut result);
                },
                Orientation::Rot180Flip => {
                    buffer_flip_vertical(&mut result);
                },
                Orientation::Rot270 => {
                    result = buffer_rotate_cw(&result);
                },
                Orientation::Rot270Flip => {
                    result = buffer_rotate_cw(&result);
                    buffer_flip_horizontal(&mut result);
                },
            }
            i += 1;
        }
        proof {
            assert(self@.take(n as int) =~= self@);
        }
        result
    }
}

/// Seed immutability: pushing any operation onto any non-empty stack leaves
/// the entry at index 0 unchanged, so any number of pushes does too.
pub proof fn lemma_seed_immutable(s: Seq<Orientation>, op: Orientation)
    requires
        s.len() >= 1,
    ensures
        spec_push(s, op).len() >= s.len(),
        spec_push(s, op)[0] == s[0],
{
}

/// Each orientation keeps every grid rectangular; an odd quarter-turn count
/// swaps the dimensions exactly as the dimension fold says.
pub proof fn lemma_grid_op_rect(o: Orientation, g: Seq<Seq<u32>>, w: int, h: int)
    requires
        is_grid(g, w, h),
        h > 0 || w == 0,
        w > 0 || h == 0,
    ensures
        is_grid(grid_op(o, g), dim_step(o, (w, h)).0, dim_step(o, (w, h)).1),
{
    let k = quarters(o) as nat;
    lemma_rot_ccw_n_rect(k, g, w, h);
    if is_flip(o) {
        if k % 2 == 0 {
            lemma_hflip_rect(rot_ccw_n(k, g), w, h);
        } else {
            lemma_hflip_rect(rot_ccw_n(k, g), h, w);
        }
    }
}

/// The pixel fold and the dimension fold agree: applying a stack to a
/// rectangular grid yields a rectangular grid with exactly the dimensions the
/// dimension fold computes.
pub proof fn lemma_dims_pixels_agree(s: Seq<Orientation>, g: Seq<Seq<u32>>, w: int, h: int)
    requires
        is_grid(g, w, h),
        h > 0 || w == 0,
        w > 0 || h == 0,
    ensures
        is_grid(apply_ops(s, g), dims_of_ops(s, (w, h)).0, dims_of_ops(s, (w, h)).1),
        dims_of_ops(s, (w, h)).1 > 0 || dims_of_ops(s, (w, h)).0 == 0,
        dims_of_ops(s, (w, h)).0 > 0 || dims_of_ops(s, (w, h)).1 == 0,
    decreases s.len(),
{
    if s.len() > 0 {
        lemma_dims_pixels_agree(s.drop_last(), g, w, h);
        let d = dims_of_ops(s.drop_last(), (w, h));
        lemma_grid_op_rect(s.last(), apply_ops(s.drop_last(), g), d.0, d.1);
    }
}

/// Combine closure: pushing two operations of the same class onto a stack
/// of length at least two makes the second push combine, so it adds no
/// entry, the new top is the composition of the old top with the second
/// operation, and the reduced stack transforms every rectangular grid as if
/// both operations had been applied one after the other. Two flips pushed
/// onto a flip top are excluded: there the first push already cancels the
/// top to a rotation, so the second flip appends instead of combining.
pub proof fn lemma_combine_closure(
    s: Seq<Orientation>,
    a: Orientation,
    b: Orientation,
    g: Seq<Seq<u32>>,
    w: int,
    h: int,
)
    requires
        s.len() >= 2,
        is_flip(a) == is_flip(b),
        is_flip(a) ==> !is_flip(s.last()),
        is_grid(g, w, h),
        h > 0 || w == 0,
        w > 0 || h == 0,
    ensures
        spec_push(spec_push(s, a), b).len() == spec_push(s, a).len(),
        spec_push(spec_push(s, a), b).last() == compose(spec_push(s, a).last(), b),
        apply_ops(spec_push(spec_push(s, a), b), g) == grid_op(b, grid_op(a, apply_ops(s, g))),
{
    let s1 = spec_push(s, a);
    lemma_dims_pixels_agree(s.drop_last(), g, w, h);
    let dd = dims_of_ops(s.drop_last(), (w, h));
    let ad = apply_ops(s.drop_last(), g);
    lemma_dims_pixels_agree(s, g, w, h);
    let d = dims_of_ops(s, (w, h));
    if can_combine(s, a) {
        let t = s.last();
        let c1 = compose(t, a);
        assert(s1 == s.drop_last().push(c1));
        assert(s.drop_last().push(c1).drop_last() =~= s.drop_last());
        assert(!is_flip(c1));
        assert(can_combine(s1, b));
        assert(spec_push(s1, b) == s.drop_last().push(compose(c1, b)));
        lemma_apply_ops_push(s.drop_last(), compose(c1, b), g);
        lemma_grid_op_compose(c1, b, ad, dd.0, dd.1);
        lemma_grid_op_compose(t, a, ad, dd.0, dd.1);
        assert(apply_ops(s, g) == grid_op(t, ad));
    } else {
        assert(s1 == s.push(a));
        assert(s.push(a).drop_last() =~= s);
        assert(can_combine(s1, b));
        assert(spec_push(s1, b) == s.push(compose(a, b)));
        lemma_apply_ops_push(s, compose(a, b), g);
        lemma_grid_op_compose(a, b, apply_ops(s, g), d.0, d.1);
    }
}

/// Non-combine preservation: a flip and a rotation never combine, so pushing
/// two operations of different classes (the first not combinable with the
/// current top either) appends both and grows the stack by exactly two.
pub proof fn lemma_non_combine(s: Seq<Orientation>, a: Orientation, b: Orientation)
    requires
        s.len() >= 1,
        is_flip(a) != is_flip(b),
        s.len() == 1 || is_flip(s.last()) != is_flip(a),
    ensures
        spec_push(spec_push(s, a), b) == s.push(a).push(b),
        spec_push(spec_push(s, a), b).len() == s.len() + 2,
{
}

/// Double-flip cancellation: pushing the horizontal mirror twice combines
/// into the identity orientation, which changes neither the dimension fold
/// nor the pixel fold of the stack.
pub proof fn lemma_double_flip_cancels(
    s: Seq<Orientation>,
    d: (int, int),
    g: Seq<Seq<u32>>,
)
    requires
        s.len() >= 1,
        s.len() == 1 || !is_flip(s.last()),
    ensures
        spec_push(spec_push(s, Orientation::Rot0Flip), Orientation::Rot0Flip) == s.push(
            Orientation::Rot0,
        ),
        dims_of_ops(s.push(Orientation::Rot0), d) == dims_of_ops(s, d),
        apply_ops(s.push(Orientation::Rot0), g) == apply_ops(s, g),
{
    assert(s.push(Orientation::Rot0Flip).drop_last() =~= s);
    assert(spec_push(spec_push(s, Orientation::Rot0Flip), Orientation::Rot0Flip) =~= s.push(
        Orientation::Rot0,
    ));
    assert(s.push(Orientation::Rot0).drop_last() =~= s);
    lemma_apply_ops_push(s, Orientation::Rot0, g);
    assert(rot_ccw_n(0, apply_ops(s, g)) == apply_ops(s, g));
}

/// Matrix/pixel agreement: for any orientation and any pixel of a
/// rectangular grid, mapping the pixel's centered doubled coordinates
/// (`2x + 1 - w` rightward, `h - 2y - 1` upward, so that pixel centers stay
/// integral) through the orientation's matrix gives exactly the centered
/// doubled coordinates of the position where the pixel transform puts that
/// pixel, inside the dimensions the dimension fold computes.
pub proof fn lemma_matrix_pixel_agree(
    o: Orientation,
    g: Seq<Seq<u32>>,
    w: int,
    h: int,
    x: int,
    y: int,
)
    requires
        is_grid(g, w, h),
        w > 0,
        h > 0,
        0 <= x < w,
        0 <= y < h,
    ensures
        ({
            let d = dim_step(o, (w, h));
            let c = crate::matrix::apply_xy_spec(
                crate::matrix::op_mat(o),
                2 * x + 1 - w,
                h - 2 * y - 1,
            );
            let px = (c.0 - 1 + d.0) / 2;
            let py = (d.1 - 1 - c.1) / 2;
            &&& 0 <= px < d.0
            &&& 0 <= py < d.1
            &&& grid_op(o, g)[py][px] == g[y][x]
        }),
{
    assert(forall|p: int| #![trigger p * 1int] #![trigger p * -1int] #![trigger p * 0int]
        p * 1int == p && p * -1int == -p && p * 0int == 0) by (nonlinear_arith);
    let g1 = rot_ccw(g);
    let g2 = rot_ccw(g1);
    let g3 = rot_ccw(g2);
    lemma_rot_ccw_rect(g, w, h);
    lemma_rot_ccw_rect(g1, h, w);
    lemma_rot_ccw_rect(g2, w, h);
    assert(rot_ccw_n(0, g) == g);
    assert(rot_ccw_n(1, g) == g1);
    assert(rot_ccw_n(2, g) == g2);
    assert(rot_ccw_n(3, g) == g3);
    assert(g1[w - 1 - x][y] == g[y][x]);
    assert(g2[h - 1 - y][w - 1 - x] == g[y][x]);
    assert(g3[x][h - 1 - y] == g[y][x]);
    let d = dim_step(o, (w, h));
    let m = crate::matrix::op_mat(o);
    let c = crate::matrix::apply_xy_spec(m, 2 * x + 1 - w, h - 2 * y - 1);
    let px = (c.0 - 1 + d.0) / 2;
    let py = (d.1 - 1 - c.1) / 2;
    if !is_flip(o) {
        if quarters(o) == 0 {
            assert(px == x && py == y);
        } else if quarters(o) == 1 {
            assert(px == y && py == w - 1 - x);
        } else if quarters(o) == 2 {
            assert(px == w - 1 - x && py == h - 1 - y);
        } else {
            assert(px == h - 1 - y && py == x);
        }
    } else {
        if quarters(o) == 0 {
            assert(px == w - 1 - x && py == y);
            assert(hflip(g)[y][w - 1 - x] == g[y][x]);
        } else if quarters(o) == 1 {
            assert(px == h - 1 - y && py == w - 1 - x);
            assert(hflip(g1)[w - 1 - x][h - 1 - y] == g1[w - 1 - x][y]);
        } else if quarters(o) == 2 {
            assert(px == x && py == h - 1 - y);
            assert(hflip(g2)[h - 1 - y][x] == g2[h - 1 - y][w - 1 - x]);
        } else {
            assert(px == y && py == x);
            assert(hflip(g3)[x][y] == g3[x][h - 1 - y]);
        }
    }
}

/// The dimension fold keeps both components positive.
pub proof fn lemma_dims_positive(s: Seq<Orientation>, w: int, h: int)
    requires
        w > 0,
        h > 0,
    ensures
        dims_of_ops(s, (w, h)).0 > 0,
        dims_of_ops(s, (w, h)).1 > 0,
    decreases s.len(),
{
    if s.len() > 0 {
        lemma_dims_positive(s.drop_last(), w, h);
    }
}

/// Matrix/pixel agreement for a whole stack: the three folds are consistent.
/// Mapping a pixel's centered doubled coordinates through the stack's
/// composed matrix gives exactly the centered doubled coordinates of the
/// position where the stack's pixel fold puts that pixel, inside the
/// dimensions the stack's dimension fold computes.
pub proof fn lemma_stack_matrix_pixel_agree(
    s: Seq<Orientation>,
    g: Seq<Seq<u32>>,
    w: int,
    h: int,
    x: int,
    y: int,
)
    requires
        is_grid(g, w, h),
        w > 0,
        h > 0,
        0 <= x < w,
        0 <= y < h,
    ensures
        ({
            let d = dims_of_ops(s, (w, h));
            let c = crate::matrix::apply_xy_spec(mat_of_ops(s), 2 * x + 1 - w, h - 2 * y - 1);
            let px = (c.0 - 1 + d.0) / 2;
            let py = (d.1 - 1 - c.1) / 2;
            &&& 0 <= px < d.0
            &&& 0 <= py < d.1
            &&& c.0 == 2 * px + 1 - d.0
            &&& c.1 == d.1 - 2 * py - 1
            &&& apply_ops(s, g)[py][px] == g[y][x]
        }),
    decreases s.len(),
{
    assert(forall|p: int| #![trigger p * 1int] #![trigger p * -1int] #![trigger p * 0int]
        p * 1int == p && p * -1int == -p && p * 0int == 0) by (nonlinear_arith);
    let cx = 2 * x + 1 - w;
    let cy = h - 2 * y - 1;
    if s.len() > 0 {
        let sp = s.drop_last();
        let o = s.last();
        lemma_stack_matrix_pixel_agree(sp, g, w, h, x, y);
        let d1 = dims_of_ops(sp, (w, h));
        let m1 = mat_of_ops(sp);
        let c1 = crate::matrix::apply_xy_spec(m1, cx, cy);
        let px1 = (c1.0 - 1 + d1.0) / 2;
        let py1 = (d1.1 - 1 - c1.1) / 2;
        lemma_dims_positive(sp, w, h);
        lemma_dims_pixels_agree(sp, g, w, h);
        lemma_matrix_pixel_agree(o, apply_ops(sp, g), d1.0, d1.1, px1, py1);
        crate::matrix::lemma_mat_of_ops_planar(sp);
        crate::matrix::lemma_op_mat_planar(o);
        crate::matrix::lemma_apply_xy_mul(m1, crate::matrix::op_mat(o), cx, cy);
    }
}

/// Dimension round-trip: the four orientations without a quarter turn or
/// with a half turn keep a (width, height) pair; the four with an odd
/// quarter-turn count swap it.
pub proof fn lemma_dimension_round_trip(o: Orientation, w: int, h: int)
    ensures
        (o == Orientation::Rot0 || o == Orientation::Rot180 || o == Orientation::Rot0Flip || o
            == Orientation::Rot180Flip) ==> dim_step(o, (w, h)) == (w, h),
        (o == Orientation::Rot90 || o == Orientation::Rot270 || o == Orientation::Rot90Flip || o
            == Orientation::Rot270Flip) ==> dim_step(o, (w, h)) == (h, w),
{
}

} // verus!
