//! Mathematical model of a pixel buffer and of the effect each orientation
//! has on it.
//!
//! A buffer is modelled as a sequence of rows, each row a sequence of packed
//! RGBA pixels; `g[y][x]` is the pixel in column `x` of row `y`, with `y`
//! growing downward. Every orientation acts as a counter-clockwise rotation
//! by a number of quarter turns followed, for flip-class orientations, by a
//! horizontal mirror.

use vstd::prelude::*;

use crate::orientation::{compose, is_flip, orient, quarters, Orientation};

verus! {

/// The width of a rectangular grid (the length of its first row).
pub open spec fn grid_w(g: Seq<Seq<u32>>) -> int {
    if g.len() == 0 {
        0
    } else {
        g[0].len() as int
    }
}

/// The grid is rectangular with `h` rows of `w` pixels each.
pub open spec fn is_grid(g: Seq<Seq<u32>>, w: int, h: int) -> bool {
    &&& g.len() == h
    &&& w >= 0
    &&& forall|y: int| 0 <= y < h ==> (#[trigger] g[y]).len() == w
}

/// Mirror each row: the pixel in column `x` moves to column `w - 1 - x`.
pub open spec fn hflip(g: Seq<Seq<u32>>) -> Seq<Seq<u32>> {
    Seq::new(g.len(), |y: int| Seq::new(g[y].len(), |x: int| g[y][g[y].len() - 1 - x]))
}

/// Reverse the order of the rows: the row `y` moves to row `h - 1 - y`.
pub open spec fn vflip(g: Seq<Seq<u32>>) -> Seq<Seq<u32>> {
    Seq::new(g.len(), |y: int| g[g.len() - 1 - y])
}

/// Rotate a quarter turn counter-clockwise: the pixel at column `x`, row `y`
/// of a `w`-wide grid moves to column `y`, row `w - 1 - x`.
pub open spec fn rot_ccw(g: Seq<Seq<u32>>) -> Seq<Seq<u32>> {
    Seq::new(grid_w(g) as nat, |y: int| Seq::new(g.len(), |x: int| g[x][grid_w(g) - 1 - y]))
}

/// Rotate half a turn: the pixel at column `x`, row `y` moves to column
/// `w - 1 - x`, row `h - 1 - y`.
pub open spec fn rot180(g: Seq<Seq<u32>>) -> Seq<Seq<u32>> {
    Seq::new(
        g.len(),
        |y: int| Seq::new(grid_w(g) as nat, |x: int| g[g.len() - 1 - y][grid_w(g) - 1 - x]),
    )
}

/// Rotate a quarter turn clockwise: the pixel at column `x`, row `y` of an
/// `h`-high grid moves to column `h - 1 - y`, row `x`.
pub open spec fn rot_cw(g: Seq<Seq<u32>>) -> Seq<Seq<u32>> {
    Seq::new(grid_w(g) as nat, |y: int| Seq::new(g.len(), |x: int| g[g.len() - 1 - x][y]))
}

/// `k` quarter turns counter-clockwise.
pub open spec fn rot_ccw_n(k: nat, g: Seq<Seq<u32>>) -> Seq<Seq<u32>>
    decreases k,
{
    if k == 0 {
        g
    } else {
        rot_ccw(rot_ccw_n((k - 1) as nat, g))
    }
}

/// The effect of one orientation on a pixel grid: its counter-clockwise
/// quarter turns, then a horizontal mirror when the flip bit is set.
pub open spec fn grid_op(o: Orientation, g: Seq<Seq<u32>>) -> Seq<Seq<u32>> {
    if is_flip(o) {
        hflip(rot_ccw_n(quarters(o) as nat, g))
    } else {
        rot_ccw_n(quarters(o) as nat, g)
    }
}

/// Left fold of a whole operation stack over a pixel grid: earlier stack
/// entries are applied before later ones.
pub open spec fn apply_ops(s: Seq<Orientation>, g: Seq<Seq<u32>>) -> Seq<Seq<u32>>
    decreases s.len(),
{
    if s.len() == 0 {
        g
    } else {
        grid_op(s.last(), apply_ops(s.drop_last(), g))
    }
}

/// A horizontal mirror keeps the grid's dimensions.
pub proof fn lemma_hflip_rect(g: Seq<Seq<u32>>, w: int, h: int)
    requires
        is_grid(g, w, h),
    ensures
        is_grid(hflip(g), w, h),
{
}

/// A quarter turn swaps the grid's dimensions.
pub proof fn lemma_rot_ccw_rect(g: Seq<Seq<u32>>, w: int, h: int)
    requires
        is_grid(g, w, h),
        h > 0 || w == 0,
    ensures
        is_grid(rot_ccw(g), h, w),
{
}

/// `k` quarter turns swap the dimensions when `k` is odd and keep them when
/// `k` is even.
pub proof fn lemma_rot_ccw_n_rect(k: nat, g: Seq<Seq<u32>>, w: int, h: int)
    requires
        is_grid(g, w, h),
        h > 0 || w == 0,
        w > 0 || h == 0,
    ensures
        k % 2 == 0 ==> is_grid(rot_ccw_n(k, g), w, h),
        k % 2 == 1 ==> is_grid(rot_ccw_n(k, g), h, w),
    decreases k,
{
    if k > 0 {
        lemma_rot_ccw_n_rect((k - 1) as nat, g, w, h);
        if k % 2 == 0 {
            lemma_rot_ccw_rect(rot_ccw_n((k - 1) as nat, g), h, w);
        } else {
            lemma_rot_ccw_rect(rot_ccw_n((k - 1) as nat, g), w, h);
        }
    }
}

/// Two horizontal mirrors cancel.
pub proof fn lemma_hflip_hflip(g: Seq<Seq<u32>>)
    ensures
        hflip(hflip(g)) == g,
{
    assert(hflip(hflip(g)) =~~= g);
}

/// Four quarter turns bring a rectangular grid back to itself.
pub proof fn lemma_rot4(g: Seq<Seq<u32>>, w: int, h: int)
    requires
        is_grid(g, w, h),
        h > 0 || w == 0,
        w > 0 || h == 0,
    ensures
        rot_ccw_n(4, g) == g,
{
    let g1 = rot_ccw(g);
    let g2 = rot_ccw(g1);
    let g3 = rot_ccw(g2);
    let g4 = rot_ccw(g3);
    lemma_rot_ccw_rect(g, w, h);
    lemma_rot_ccw_rect(g1, h, w);
    lemma_rot_ccw_rect(g2, w, h);
    lemma_rot_ccw_rect(g3, h, w);
    assert(rot_ccw_n(4, g) == g4) by {
        assert(rot_ccw_n(0, g) == g);
        assert(rot_ccw_n(1, g) == g1);
        assert(rot_ccw_n(2, g) == g2);
        assert(rot_ccw_n(3, g) == g3);
    }
    assert(g4 =~~= g);
}

/// Splitting a turn count applies the two parts one after the other.
pub proof fn lemma_rotn_add(i: nat, j: nat, g: Seq<Seq<u32>>)
    ensures
        rot_ccw_n(i + j, g) == rot_ccw_n(i, rot_ccw_n(j, g)),
    decreases i,
{
    if i > 0 {
        lemma_rotn_add((i - 1) as nat, j, g);
    }
}

/// Turn counts only matter modulo four on rectangular grids.
pub proof fn lemma_rotn_mod(k: nat, g: Seq<Seq<u32>>, w: int, h: int)
    requires
        is_grid(g, w, h),
        h > 0 || w == 0,
        w > 0 || h == 0,
    ensures
        rot_ccw_n(k, g) == rot_ccw_n((k % 4) as nat, g),
    decreases k,
{
    if k >= 4 {
        lemma_rotn_add((k - 4) as nat, 4, g);
        lemma_rot4(g, w, h);
        lemma_rotn_mod((k - 4) as nat, g, w, h);
        assert(rot_ccw_n(k, g) == rot_ccw_n((k - 4) as nat, rot_ccw_n(4, g)));
        assert((k - 4) % 4 == k % 4);
    }
}

/// A quarter turn after a horizontal mirror equals a horizontal mirror after
/// three quarter turns: both transpose the grid.
pub proof fn lemma_rot_hflip(g: Seq<Seq<u32>>, w: int, h: int)
    requires
        is_grid(g, w, h),
        h > 0 || w == 0,
        w > 0 || h == 0,
    ensures
        rot_ccw(hflip(g)) == hflip(rot_ccw_n(3, g)),
{
    let g1 = rot_ccw(g);
    let g2 = rot_ccw(g1);
    let g3 = rot_ccw(g2);
    lemma_rot_ccw_rect(g, w, h);
    lemma_rot_ccw_rect(g1, h, w);
    lemma_rot_ccw_rect(g2, w, h);
    assert(rot_ccw_n(3, g) == g3) by {
        assert(rot_ccw_n(0, g) == g);
        assert(rot_ccw_n(1, g) == g1);
        assert(rot_ccw_n(2, g) == g2);
    }
    lemma_hflip_rect(g, w, h);
    assert(rot_ccw(hflip(g)) =~~= hflip(g3));
}

/// Quarter turns of a mirrored grid run in the opposite direction: `j` turns
/// after a mirror equal a mirror after `4 - j (mod 4)` turns.
pub proof fn lemma_rotn_hflip(j: nat, g: Seq<Seq<u32>>, w: int, h: int)
    requires
        is_grid(g, w, h),
        h > 0 || w == 0,
        w > 0 || h == 0,
    ensures
        rot_ccw_n(j, hflip(g)) == hflip(rot_ccw_n(((4 - (j % 4)) % 4) as nat, g)),
    decreases j,
{
    if j == 0 {
        assert((4 - (0int % 4)) % 4 == 0);
    } else {
        let e = ((4 - ((j - 1) % 4)) % 4) as nat;
        lemma_rotn_hflip((j - 1) as nat, g, w, h);
        assert(rot_ccw_n(j, hflip(g)) == rot_ccw(rot_ccw_n((j - 1) as nat, hflip(g))));
        let ge = rot_ccw_n(e, g);
        lemma_rot_ccw_n_rect(e, g, w, h);
        if e % 2 == 0 {
            lemma_rot_hflip(ge, w, h);
        } else {
            lemma_rot_hflip(ge, h, w);
        }
        lemma_rotn_add(3, e, g);
        lemma_rotn_mod(3 + e, g, w, h);
        assert((3 + e) % 4 == (4 - (j % 4)) % 4) by {
            assert(j % 4 == ((j - 1) % 4 + 1) % 4) by {
                assert(j == ((j - 1) / 4) * 4 + (j - 1) % 4 + 1) by {
                    vstd::arithmetic::div_mod::lemma_fundamental_div_mod((j - 1) as int, 4);
                }
                vstd::arithmetic::div_mod::lemma_mod_multiples_vanish(
                    ((j - 1) / 4) as int,
                    ((j - 1) % 4 + 1) as int,
                    4,
                );
            }
        }
    }
}

/// Applying orientation `a` and then orientation `b` to a rectangular grid
/// equals applying their composition once.
pub proof fn lemma_grid_op_compose(a: Orientation, b: Orientation, g: Seq<Seq<u32>>, w: int, h: int)
    requires
        is_grid(g, w, h),
        h > 0 || w == 0,
        w > 0 || h == 0,
    ensures
        grid_op(b, grid_op(a, g)) == grid_op(compose(a, b), g),
{
    let qa = quarters(a) as nat;
    let qb = quarters(b) as nat;
    let ga = rot_ccw_n(qa, g);
    lemma_rot_ccw_n_rect(qa, g, w, h);
    if !is_flip(a) {
        let q = ((qa + qb) % 4) as nat;
        lemma_rotn_add(qb, qa, g);
        lemma_rotn_mod(qa + qb, g, w, h);
        assert(rot_ccw_n(qb, ga) == rot_ccw_n(q, g));
        assert(quarters(orient(q as int, is_flip(b))) == q as int);
    } else {
        let e = ((4 - (qb % 4)) % 4) as nat;
        let q = ((qa - qb + 4) % 4) as nat;
        if qa % 2 == 0 {
            lemma_rotn_hflip(qb, ga, w, h);
        } else {
            lemma_rotn_hflip(qb, ga, h, w);
        }
        assert(rot_ccw_n(qb, hflip(ga)) == hflip(rot_ccw_n(e, ga)));
        lemma_rotn_add(e, qa, g);
        lemma_rotn_mod(e + qa, g, w, h);
        assert((e + qa) % 4 == (qa - qb + 4) % 4);
        assert(rot_ccw_n(e, ga) == rot_ccw_n(q, g));
        if is_flip(b) {
            lemma_hflip_hflip(rot_ccw_n(q, g));
            assert(grid_op(b, grid_op(a, g)) == rot_ccw_n(q, g));
            assert(quarters(orient(q as int, false)) == q as int);
        } else {
            assert(grid_op(b, grid_op(a, g)) == hflip(rot_ccw_n(q, g)));
            assert(quarters(orient(q as int, true)) == q as int);
        }
    }
}

/// On rectangular grids a clockwise quarter turn equals three
/// counter-clockwise ones.
pub proof fn lemma_rot_cw_is_three_ccw(g: Seq<Seq<u32>>, w: int, h: int)
    requires
        is_grid(g, w, h),
        h > 0 || w == 0,
        w > 0 || h == 0,
    ensures
        rot_cw(g) == rot_ccw_n(3, g),
{
    let g1 = rot_ccw(g);
    let g2 = rot_ccw(g1);
    let g3 = rot_ccw(g2);
    lemma_rot_ccw_rect(g, w, h);
    lemma_rot_ccw_rect(g1, h, w);
    lemma_rot_ccw_rect(g2, w, h);
    assert(rot_ccw_n(3, g) == g3) by {
        assert(rot_ccw_n(0, g) == g);
        assert(rot_ccw_n(1, g) == g1);
        assert(rot_ccw_n(2, g) == g2);
    }
    assert(rot_cw(g) =~~= g3);
}

/// On rectangular grids the half turn equals two counter-clockwise quarter
/// turns.
pub proof fn lemma_rot180_is_two_ccw(g: Seq<Seq<u32>>, w: int, h: int)
    requires
        is_grid(g, w, h),
        h > 0 || w == 0,
        w > 0 || h == 0,
    ensures
        rot180(g) == rot_ccw_n(2, g),
{
    let g1 = rot_ccw(g);
    let g2 = rot_ccw(g1);
    lemma_rot_ccw_rect(g, w, h);
    lemma_rot_ccw_rect(g1, h, w);
    assert(rot_ccw_n(2, g) == g2) by {
        assert(rot_ccw_n(0, g) == g);
        assert(rot_ccw_n(1, g) == g1);
    }
    assert(rot180(g) =~~= g2);
}

/// On rectangular grids a vertical mirror equals the half turn followed by a
/// horizontal mirror: flipping both axes and then undoing the horizontal one.
pub proof fn lemma_vflip_is_hflip_rot2(g: Seq<Seq<u32>>, w: int, h: int)
    requires
        is_grid(g, w, h),
        h > 0 || w == 0,
        w > 0 || h == 0,
    ensures
        vflip(g) == hflip(rot_ccw_n(2, g)),
{
    lemma_rot180_is_two_ccw(g, w, h);
    assert(vflip(g) =~~= hflip(rot180(g)));
}

/// Pushing one more operation onto a stack folds it after all earlier ones.
pub proof fn lemma_apply_ops_push(s: Seq<Orientation>, o: Orientation, g: Seq<Seq<u32>>)
    ensures
        apply_ops(s.push(o), g) == grid_op(o, apply_ops(s, g)),
{
    assert(s.push(o).drop_last() =~= s);
    assert(s.push(o).last() == o);
}

} // verus!
