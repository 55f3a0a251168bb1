//! Exact 4x4 display-transform matrices.
//!
//! Every orientation's matrix is a signed permutation of the axes, so all
//! entries are -1, 0 or 1, and products of such matrices stay within those
//! bounds. The matrices act on row vectors: `v * m` with `v = (x, y, z, 1)`,
//! so folding a stack left to right applies the earliest operation first.

use vstd::prelude::*;

use crate::orientation::{is_flip, quarters, Orientation};

verus! {

/// Mathematical value of a 4x4 matrix, row major: `mRC` is row `R`, column `C`.
pub ghost struct MatSpec {
    pub m00: int, pub m01: int, pub m02: int, pub m03: int,
    pub m10: int, pub m11: int, pub m12: int, pub m13: int,
    pub m20: int, pub m21: int, pub m22: int, pub m23: int,
    pub m30: int, pub m31: int, pub m32: int, pub m33: int,
}

/// Executable 4x4 matrix with integer entries, row major.
#[derive(Clone, Copy, Debug, PartialEq, Eq, Structural)]
pub struct Mat4 {
    pub m00: i32, pub m01: i32, pub m02: i32, pub m03: i32,
    pub m10: i32, pub m11: i32, pub m12: i32, pub m13: i32,
    pub m20: i32, pub m21: i32, pub m22: i32, pub m23: i32,
    pub m30: i32, pub m31: i32, pub m32: i32, pub m33: i32,
}

impl View for Mat4 {
    type V = MatSpec;

    open spec fn view(&self) -> MatSpec {
        MatSpec {
            m00: self.m00 as int, m01: self.m01 as int, m02: self.m02 as int, m03: self.m03 as int,
            m10: self.m10 as int, m11: self.m11 as int, m12: self.m12 as int, m13: self.m13 as int,
            m20: self.m20 as int, m21: self.m21 as int, m22: self.m22 as int, m23: self.m23 as int,
            m30: self.m30 as int, m31: self.m31 as int, m32: self.m32 as int, m33: self.m33 as int,
        }
    }
}

/// The identity matrix.
pub open spec fn mat_ident() -> MatSpec {
    MatSpec {
        m00: 1, m01: 0, m02: 0, m03: 0,
        m10: 0, m11: 1, m12: 0, m13: 0,
        m20: 0, m21: 0, m22: 1, m23: 0,
        m30: 0, m31: 0, m32: 0, m33: 1,
    }
}

/// Every entry of the matrix lies in `[-1, 1]`.
pub open spec fn mat_small(m: MatSpec) -> bool {
    &&& -1 <= m.m00 <= 1 && -1 <= m.m01 <= 1 && -1 <= m.m02 <= 1 && -1 <= m.m03 <= 1
    &&& -1 <= m.m10 <= 1 && -1 <= m.m11 <= 1 && -1 <= m.m12 <= 1 && -1 <= m.m13 <= 1
    &&& -1 <= m.m20 <= 1 && -1 <= m.m21 <= 1 && -1 <= m.m22 <= 1 && -1 <= m.m23 <= 1
    &&& -1 <= m.m30 <= 1 && -1 <= m.m31 <= 1 && -1 <= m.m32 <= 1 && -1 <= m.m33 <= 1
}

/// Matrix product `a * b`.
pub open spec fn mat_mul_spec(a: MatSpec, b: MatSpec) -> MatSpec {
    MatSpec {
        m00: a.m00 * b.m00 + a.m01 * b.m10 + a.m02 * b.m20 + a.m03 * b.m30,
        m01: a.m00 * b.m01 + a.m01 * b.m11 + a.m02 * b.m21 + a.m03 * b.m31,
        m02: a.m00 * b.m02 + a.m01 * b.m12 + a.m02 * b.m22 + a.m03 * b.m32,
        m03: a.m00 * b.m03 + a.m01 * b.m13 + a.m02 * b.m23 + a.m03 * b.m33,
        m10: a.m10 * b.m00 + a.m11 * b.m10 + a.m12 * b.m20 + a.m13 * b.m30,
        m11: a.m10 * b.m01 + a.m11 * b.m11 + a.m12 * b.m21 + a.m13 * b.m31,
        m12: a.m10 * b.m02 + a.m11 * b.m12 + a.m12 * b.m22 + a.m13 * b.m32,
        m13: a.m10 * b.m03 + a.m11 * b.m13 + a.m12 * b.m23 + a.m13 * b.m33,
        m20: a.m20 * b.m00 + a.m21 * b.m10 + a.m22 * b.m20 + a.m23 * b.m30,
        m21: a.m20 * b.m01 + a.m21 * b.m11 + a.m22 * b.m21 + a.m23 * b.m31,
        m22: a.m20 * b.m02 + a.m21 * b.m12 + a.m22 * b.m22 + a.m23 * b.m32,
        m23: a.m20 * b.m03 + a.m21 * b.m13 + a.m22 * b.m23 + a.m23 * b.m33,
        m30: a.m30 * b.m00 + a.m31 * b.m10 + a.m32 * b.m20 + a.m33 * b.m30,
        m31: a.m30 * b.m01 + a.m31 * b.m11 + a.m32 * b.m21 + a.m33 * b.m31,
        m32: a.m30 * b.m02 + a.m31 * b.m12 + a.m32 * b.m22 + a.m33 * b.m32,
        m33: a.m30 * b.m03 + a.m31 * b.m13 + a.m32 * b.m23 + a.m33 * b.m33,
    }
}

/// The point `(x, y)` mapped through the matrix as the row vector
/// `(x, y, 0, 1)`.
pub open spec fn apply_xy_spec(m: MatSpec, x: int, y: int) -> (int, int) {
    (x * m.m00 + y * m.m10 + m.m30, x * m.m01 + y * m.m11 + m.m31)
}

/// The 2-D block of an orientation's matrix. Rotation by `q` quarter turns
/// counter-clockwise maps `(x, y)` to `(x cos - y sin, x sin + y cos)`; the
/// flip bit negates the resulting x axis.
pub open spec fn op_mat(o: Orientation) -> MatSpec {
    let q = quarters(o);
    let c: int = if q == 0 { 1 } else if q == 2 { -1 } else { 0 };
    let s: int = if q == 1 { 1 } else if q == 3 { -1 } else { 0 };
    let f: int = if is_flip(o) { -1 } else { 1 };
    MatSpec {
        m00: f * c, m01: s, m02: 0, m03: 0,
        m10: f * -s, m11: c, m12: 0, m13: 0,
        m20: 0, m21: 0, m22: 1, m23: 0,
        m30: 0, m31: 0, m32: 0, m33: 1,
    }
}

/// Left fold of the stack's matrices starting from the identity, multiplying
/// in stack order so the earliest operation applies first.
pub open spec fn mat_of_ops(s: Seq<Orientation>) -> MatSpec
    decreases s.len(),
{
    if s.len() == 0 {
        mat_ident()
    } else {
        mat_mul_spec(mat_of_ops(s.drop_last()), op_mat(s.last()))
    }
}

/// The matrix moves points only in the x-y plane: its z and w rows and
/// columns are those of the identity, and it translates nothing.
pub open spec fn mat_planar(m: MatSpec) -> bool {
    &&& m.m02 == 0 && m.m03 == 0 && m.m12 == 0 && m.m13 == 0
    &&& m.m20 == 0 && m.m21 == 0 && m.m22 == 1 && m.m23 == 0
    &&& m.m30 == 0 && m.m31 == 0 && m.m32 == 0 && m.m33 == 1
}

/// Every orientation's matrix is planar.
pub proof fn lemma_op_mat_planar(o: Orientation)
    ensures
        mat_planar(op_mat(o)),
{
}

/// The product of two planar matrices is planar.
pub proof fn lemma_mul_planar(a: MatSpec, b: MatSpec)
    requires
        mat_planar(a),
        mat_planar(b),
    ensures
        mat_planar(mat_mul_spec(a, b)),
{
    assert(forall|p: int| #![trigger p * 1int] #![trigger p * -1int] #![trigger p * 0int]
        p * 1int == p && p * -1int == -p && p * 0int == 0) by (nonlinear_arith);
}

/// Every stack's composed matrix is planar.
pub proof fn lemma_mat_of_ops_planar(s: Seq<Orientation>)
    ensures
        mat_planar(mat_of_ops(s)),
    decreases s.len(),
{
    if s.len() > 0 {
        lemma_mat_of_ops_planar(s.drop_last());
        lemma_op_mat_planar(s.last());
        lemma_mul_planar(mat_of_ops(s.drop_last()), op_mat(s.last()));
    }
}

/// Applying a product of planar matrices to a point applies the two factors
/// one after the other.
pub proof fn lemma_apply_xy_mul(a: MatSpec, b: MatSpec, x: int, y: int)
    requires
        mat_planar(a),
        mat_planar(b),
    ensures
        apply_xy_spec(mat_mul_spec(a, b), x, y) == apply_xy_spec(
            b,
            apply_xy_spec(a, x, y).0,
            apply_xy_spec(a, x, y).1,
        ),
{
    assert(forall|p: int| #![trigger p * 1int] #![trigger p * -1int] #![trigger p * 0int]
        p * 1int == p && p * -1int == -p && p * 0int == 0) by (nonlinear_arith);
    lemma_bilinear(x, y, a.m00, a.m01, a.m10, a.m11, b.m00, b.m01, b.m10, b.m11);
}

/// Distributivity of a two-step linear map: mapping through the composed
/// coefficients equals mapping twice.
proof fn lemma_bilinear(
    x: int,
    y: int,
    a00: int,
    a01: int,
    a10: int,
    a11: int,
    b00: int,
    b01: int,
    b10: int,
    b11: int,
)
    ensures
        x * (a00 * b00 + a01 * b10) + y * (a10 * b00 + a11 * b10) == (x * a00 + y * a10) * b00 + (
        x * a01 + y * a11) * b10,
        x * (a00 * b01 + a01 * b11) + y * (a10 * b01 + a11 * b11) == (x * a00 + y * a10) * b01 + (
        x * a01 + y * a11) * b11,
{
    vstd::arithmetic::mul::lemma_mul_is_distributive_add(x, a00 * b00, a01 * b10);
    vstd::arithmetic::mul::lemma_mul_is_distributive_add(y, a10 * b00, a11 * b10);
    vstd::arithmetic::mul::lemma_mul_is_distributive_add_other_way(b00, x * a00, y * a10);
    vstd::arithmetic::mul::lemma_mul_is_distributive_add_other_way(b10, x * a01, y * a11);
    vstd::arithmetic::mul::lemma_mul_is_associative(x, a00, b00);
    vstd::arithmetic::mul::lemma_mul_is_associative(x, a01, b10);
    vstd::arithmetic::mul::lemma_mul_is_associative(y, a10, b00);
    vstd::arithmetic::mul::lemma_mul_is_associative(y, a11, b10);
    vstd::arithmetic::mul::lemma_mul_is_distributive_add(x, a00 * b01, a01 * b11);
    vstd::arithmetic::mul::lemma_mul_is_distributive_add(y, a10 * b01, a11 * b11);
    vstd::arithmetic::mul::lemma_mul_is_distributive_add_other_way(b01, x * a00, y * a10);
    vstd::arithmetic::mul::lemma_mul_is_distributive_add_other_way(b11, x * a01, y * a11);
    vstd::arithmetic::mul::lemma_mul_is_associative(x, a00, b01);
    vstd::arithmetic::mul::lemma_mul_is_associative(x, a01, b11);
    vstd::arithmetic::mul::lemma_mul_is_associative(y, a10, b01);
    vstd::arithmetic::mul::lemma_mul_is_associative(y, a11, b11);
}

/// Each orientation's matrix has entries in `[-1, 1]`.
pub proof fn lemma_op_mat_small(o: Orientation)
    ensures
        mat_small(op_mat(o)),
{
    assert(forall|p: int, q: int| -1 <= p <= 1 && -1 <= q <= 1 ==> -1 <= #[trigger] (p * q)
        <= 1) by (nonlinear_arith);
}

/// Multiplying a small matrix by an orientation matrix keeps every entry in
/// `[-1, 1]`: each column of an orientation matrix has a single signed unit.
pub proof fn lemma_mul_op_small(m: MatSpec, o: Orientation)
    requires
        mat_small(m),
    ensures
        mat_small(mat_mul_spec(m, op_mat(o))),
{
    assert(forall|p: int, q: int| -1 <= p <= 1 && -1 <= q <= 1 ==> -1 <= #[trigger] (p * q)
        <= 1) by (nonlinear_arith);
    assert(forall|p: int| #![trigger p * 1int] #![trigger p * -1int] #![trigger p * 0int]
        p * 1int == p && p * -1int == -p && p * 0int == 0) by (nonlinear_arith);
    let b = op_mat(o);
    assert(quarters(o) == 0 || quarters(o) == 1 || quarters(o) == 2 || quarters(o) == 3);
}

/// Every stack's composed matrix has entries in `[-1, 1]`.
pub proof fn lemma_mat_of_ops_small(s: Seq<Orientation>)
    ensures
        mat_small(mat_of_ops(s)),
    decreases s.len(),
{
    if s.len() > 0 {
        lemma_mat_of_ops_small(s.drop_last());
        lemma_mul_op_small(mat_of_ops(s.drop_last()), s.last());
    }
}

impl Mat4 {
    /// The identity matrix.
    pub fn identity() -> (r: Mat4)
        ensures
            r@ == mat_ident(),
    {
        Mat4 {
            m00: 1, m01: 0, m02: 0, m03: 0,
            m10: 0, m11: 1, m12: 0, m13: 0,
            m20: 0, m21: 0, m22: 1, m23: 0,
            m30: 0, m31: 0, m32: 0, m33: 1,
        }
    }

    /// The product `self * b` of two matrices with entries in `[-1, 1]`.
    pub fn multiply(&self, b: &Mat4) -> (r: Mat4)
        requires
            mat_small(self@),
            mat_small(b@),
        ensures
            r@ == mat_mul_spec(self@, b@),
    {
        proof {
            assert(forall|p: int, q: int|
                -1 <= p <= 1 && -1 <= q <= 1 ==> -1 <= #[trigger] (p * q) <= 1) by (nonlinear_arith);
        }
        Mat4 {
            m00: self.m00 * b.m00 + self.m01 * b.m10 + self.m02 * b.m20 + self.m03 * b.m30,
            m01: self.m00 * b.m01 + self.m01 * b.m11 + self.m02 * b.m21 + self.m03 * b.m31,
            m02: self.m00 * b.m02 + self.m01 * b.m12 + self.m02 * b.m22 + self.m03 * b.m32,
            m03: self.m00 * b.m03 + self.m01 * b.m13 + self.m02 * b.m23 + self.m03 * b.m33,
            m10: self.m10 * b.m00 + self.m11 * b.m10 + self.m12 * b.m20 + self.m13 * b.m30,
            m11: self.m10 * b.m01 + self.m11 * b.m11 + self.m12 * b.m21 + self.m13 * b.m31,
            m12: self.m10 * b.m02 + self.m11 * b.m12 + self.m12 * b.m22 + self.m13 * b.m32,
            m13: self.m10 * b.m03 + self.m11 * b.m13 + self.m12 * b.m23 + self.m13 * b.m33,
            m20: self.m20 * b.m00 + self.m21 * b.m10 + self.m22 * b.m20 + self.m23 * b.m30,
            m21: self.m20 * b.m01 + self.m21 * b.m11 + self.m22 * b.m21 + self.m23 * b.m31,
            m22: self.m20 * b.m02 + self.m21 * b.m12 + self.m22 * b.m22 + self.m23 * b.m32,
            m23: self.m20 * b.m03 + self.m21 * b.m13 + self.m22 * b.m23 + self.m23 * b.m33,
            m30: self.m30 * b.m00 + self.m31 * b.m10 + self.m32 * b.m20 + self.m33 * b.m30,
            m31: self.m30 * b.m01 + self.m31 * b.m11 + self.m32 * b.m21 + self.m33 * b.m31,
            m32: self.m30 * b.m02 + self.m31 * b.m12 + self.m32 * b.m22 + self.m33 * b.m32,
            m33: self.m30 * b.m03 + self.m31 * b.m13 + self.m32 * b.m23 + self.m33 * b.m33,
        }
    }

    /// Maps a point `(x, y)` through the matrix as the row vector
    /// `(x, y, 0, 1)`, returning the transformed x and y.
    pub fn apply_xy(&self, x: i32, y: i32) -> (r: (i32, i32))
        requires
            mat_small(self@),
            -0x40000000 < x < 0x40000000,
            -0x40000000 < y < 0x40000000,
        ensures
            (r.0 as int, r.1 as int) == apply_xy_spec(self@, x as int, y as int),
    {
        proof {
            let m = self@;
            assert((-0x3fffffff <= x * m.m00 <= 0x3fffffff) && (-0x3fffffff <= y * m.m10
                <= 0x3fffffff) && (-0x3fffffff <= x * m.m01 <= 0x3fffffff) && (-0x3fffffff <= y
                * m.m11 <= 0x3fffffff)) by (nonlinear_arith)
                requires
                    -1 <= m.m00 <= 1,
                    -1 <= m.m01 <= 1,
                    -1 <= m.m10 <= 1,
                    -1 <= m.m11 <= 1,
                    -0x40000000 < x < 0x40000000,
                    -0x40000000 < y < 0x40000000,
            ;
        }
        (x * self.m00 + y * self.m10 + self.m30, x * self.m01 + y * self.m11 + self.m31)
    }
}

/// The matrix of one orientation.
pub fn orientation_matrix(o: Orientation) -> (r: Mat4)
    ensures
        r@ == op_mat(o),
{
    let q = crate::orientation::orientation_quarters(o);
    let c: i32 = if q == 0 { 1 } else if q == 2 { -1 } else { 0 };
    let s: i32 = if q == 1 { 1 } else if q == 3 { -1 } else { 0 };
    let f: i32 = if crate::orientation::orientation_is_flip_op(o) { -1 } else { 1 };
    Mat4 {
        m00: f * c, m01: s, m02: 0, m03: 0,
        m10: f * -s, m11: c, m12: 0, m13: 0,
        m20: 0, m21: 0, m22: 1, m23: 0,
        m30: 0, m31: 0, m32: 0, m33: 1,
    }
}

} // verus!
