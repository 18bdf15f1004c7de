//! Builders for the affine transforms a scene uses: translation,
//! scaling, rotation, shearing, and the camera's view transform.
//!
//! Rotations take the sine and cosine of the turning angle as scalars:
//! the trigonometric evaluation itself lies outside the fixed-point
//! core, and the matrix depends on nothing but those two values.

use vstd::prelude::*;
use crate::scalar::{Scalar, SCALE, fadd, fsub, fneg, fmul, fdiv, fsqrt, lemma_fdiv_zero};
use crate::matrices::{Matrix, mul_spec, det_spec};
use crate::tuples::Tuple4;

verus! {

/// The translation by `(x, y, z)`.
pub open spec fn translation_spec(x: int, y: int, z: int) -> Seq<Seq<int>> {
    seq![
        seq![SCALE as int, 0int, 0int, x],
        seq![0int, SCALE as int, 0int, y],
        seq![0int, 0int, SCALE as int, z],
        seq![0int, 0int, 0int, SCALE as int],
    ]
}

/// The scaling by `(x, y, z)`.
pub open spec fn scaling_spec(x: int, y: int, z: int) -> Seq<Seq<int>> {
    seq![
        seq![x, 0int, 0int, 0int],
        seq![0int, y, 0int, 0int],
        seq![0int, 0int, z, 0int],
        seq![0int, 0int, 0int, SCALE as int],
    ]
}

/// Rotation about the x axis, from the angle's sine and cosine.
pub open spec fn rotation_x_spec(s: int, c: int) -> Seq<Seq<int>> {
    seq![
        seq![SCALE as int, 0int, 0int, 0int],
        seq![0int, c, fneg(s), 0int],
        seq![0int, s, c, 0int],
        seq![0int, 0int, 0int, SCALE as int],
    ]
}

/// Rotation about the y axis, from the angle's sine and cosine.
pub open spec fn rotation_y_spec(s: int, c: int) -> Seq<Seq<int>> {
    seq![
        seq![c, 0int, s, 0int],
        seq![0int, SCALE as int, 0int, 0int],
        seq![fneg(s), 0int, c, 0int],
        seq![0int, 0int, 0int, SCALE as int],
    ]
}

/// Rotation about the z axis, from the angle's sine and cosine.
pub open spec fn rotation_z_spec(s: int, c: int) -> Seq<Seq<int>> {
    seq![
        seq![c, fneg(s), 0int, 0int],
        seq![s, c, 0int, 0int],
        seq![0int, 0int, SCALE as int, 0int],
        seq![0int, 0int, 0int, SCALE as int],
    ]
}

/// The shearing with the six coupling coefficients.
pub open spec fn shearing_spec(xy: int, xz: int, yx: int, yz: int, zx: int, zy: int) -> Seq<
    Seq<int>,
> {
    seq![
        seq![SCALE as int, xy, xz, 0int],
        seq![yx, SCALE as int, yz, 0int],
        seq![zx, zy, SCALE as int, 0int],
        seq![0int, 0int, 0int, SCALE as int],
    ]
}

/// A four-component value at the specification level.
pub open spec fn g4(t: Tuple4) -> (int, int, int, int) {
    (t.x@, t.y@, t.z@, t.w@)
}

/// Component-wise difference.
pub open spec fn g_sub(a: (int, int, int, int), b: (int, int, int, int)) -> (int, int, int, int) {
    (fsub(a.0, b.0), fsub(a.1, b.1), fsub(a.2, b.2), fsub(a.3, b.3))
}

/// Dot product, summed left to right.
pub open spec fn g_dot(a: (int, int, int, int), b: (int, int, int, int)) -> int {
    fadd(fadd(fadd(fmul(a.0, b.0), fmul(a.1, b.1)), fmul(a.2, b.2)), fmul(a.3, b.3))
}

/// Magnitude: the grid square root of the dot product with itself.
pub open spec fn g_mag(a: (int, int, int, int)) -> int {
    fsqrt(g_dot(a, a))
}

/// Every component divided by the magnitude.
pub open spec fn g_norm(a: (int, int, int, int)) -> (int, int, int, int) {
    (
        fdiv(a.0, g_mag(a)),
        fdiv(a.1, g_mag(a)),
        fdiv(a.2, g_mag(a)),
        fdiv(a.3, g_mag(a)),
    )
}

/// Cross product of two vectors; the result is a vector.
pub open spec fn g_cross(a: (int, int, int, int), b: (int, int, int, int)) -> (
    int,
    int,
    int,
    int,
) {
    (
        fsub(fmul(a.1, b.2), fmul(a.2, b.1)),
        fsub(fmul(a.2, b.0), fmul(a.0, b.2)),
        fsub(fmul(a.0, b.1), fmul(a.1, b.0)),
        0,
    )
}

/// The camera orientation: `left`, the true up vector, and the
/// forward vector (which points from the scene toward the eye) as the
/// first three rows.
pub open spec fn orientation_spec(from: Tuple4, to: Tuple4, up: Tuple4) -> Seq<Seq<int>> {
    let forward = g_norm(g_sub(g4(from), g4(to)));
    let left = g_cross(g_norm(g4(up)), forward);
    let true_up = g_cross(forward, left);
    seq![
        seq![left.0, left.1, left.2, 0int],
        seq![true_up.0, true_up.1, true_up.2, 0int],
        seq![forward.0, forward.1, forward.2, 0int],
        seq![0int, 0int, 0int, SCALE as int],
    ]
}

/// The view transform: the orientation times the translation that
/// carries the eye to the origin.
pub open spec fn view_transform_spec(from: Tuple4, to: Tuple4, up: Tuple4) -> Seq<Seq<int>> {
    mul_spec(
        orientation_spec(from, to, up),
        translation_spec(fneg(from.x@), fneg(from.y@), fneg(from.z@)),
    )
}

/// The sixteen cofactors of a translation: one on the diagonal, the
/// negated offsets beside it, zero elsewhere.
#[verifier::rlimit(100)]
proof fn lemma_translation_cofactors(x: int, y: int, z: int)
    requires
        -(i64::MAX as int) <= x <= i64::MAX as int,
        -(i64::MAX as int) <= y <= i64::MAX as int,
        -(i64::MAX as int) <= z <= i64::MAX as int,
    ensures
        ({
            let m = translation_spec(x, y, z);
            &&& crate::matrices::cof_spec(m, 0, 0) == SCALE as int
            &&& crate::matrices::cof_spec(m, 1, 1) == SCALE as int
            &&& crate::matrices::cof_spec(m, 2, 2) == SCALE as int
            &&& crate::matrices::cof_spec(m, 3, 3) == SCALE as int
            &&& crate::matrices::cof_spec(m, 3, 0) == fneg(x)
            &&& crate::matrices::cof_spec(m, 3, 1) == fneg(y)
            &&& crate::matrices::cof_spec(m, 3, 2) == fneg(z)
            &&& crate::matrices::cof_spec(m, 0, 1) == 0
            &&& crate::matrices::cof_spec(m, 0, 2) == 0
            &&& crate::matrices::cof_spec(m, 0, 3) == 0
            &&& crate::matrices::cof_spec(m, 1, 0) == 0
            &&& crate::matrices::cof_spec(m, 1, 2) == 0
            &&& crate::matrices::cof_spec(m, 1, 3) == 0
            &&& crate::matrices::cof_spec(m, 2, 0) == 0
            &&& crate::matrices::cof_spec(m, 2, 1) == 0
            &&& crate::matrices::cof_spec(m, 2, 3) == 0
        }),
{
    let s = SCALE as int;
    let m = translation_spec(x, y, z);
    crate::scalar::lemma_fmul_one(s);
    crate::scalar::lemma_fmul_one(x);
    crate::scalar::lemma_fmul_one(z);
    crate::scalar::lemma_fmul_one(fneg(y));
    crate::scalar::lemma_fmul_neg_one(y);
    crate::scalar::lemma_fmul_zero(0);
    crate::scalar::lemma_fmul_zero(s);
    crate::scalar::lemma_fmul_zero(x);
    crate::scalar::lemma_fmul_zero(y);
    crate::scalar::lemma_fmul_zero(z);
    crate::scalar::lemma_fmul_zero(fneg(s));
    crate::scalar::lemma_fmul_zero(fneg(y));
    crate::scalar::lemma_fmul_zero(fneg(z));
    // the two by two minors that appear
    assert(crate::matrices::det2_formula(s, z, 0, s) == s);
    assert(crate::matrices::det2_formula(s, y, 0, s) == s);
    assert(crate::matrices::det2_formula(s, 0, 0, s) == s);
    assert(crate::matrices::det2_formula(0, s, 0, 0) == 0);
    assert(crate::matrices::det2_formula(0, z, 0, s) == 0);
    assert(crate::matrices::det2_formula(0, y, 0, s) == 0);
    assert(crate::matrices::det2_formula(0, y, 0, z) == 0);
    assert(crate::matrices::det2_formula(0, 0, 0, 0) == 0);
    assert(crate::matrices::det2_formula(0, 0, 0, s) == 0);
    assert(crate::matrices::det2_formula(s, 0, 0, 0) == 0);
    assert(crate::matrices::det2_formula(0, y, s, z) == fneg(y));
    assert(crate::matrices::det2_formula(s, y, 0, z) == z);
    // the sixteen three by three minors
    assert(crate::matrices::submatrix_spec(m, 0, 0) =~~= seq![
        seq![s, 0int, y], seq![0int, s, z], seq![0int, 0int, s],
    ]);
    crate::matrices::lemma_det3(s, 0, y, 0, s, z, 0, 0, s);
    assert(crate::matrices::cof_spec(m, 0, 0) == s);
    assert(crate::matrices::submatrix_spec(m, 0, 1) =~~= seq![
        seq![0int, 0int, y], seq![0int, s, z], seq![0int, 0int, s],
    ]);
    crate::matrices::lemma_det3(0, 0, y, 0, s, z, 0, 0, s);
    assert(crate::matrices::cof_spec(m, 0, 1) == 0);
    assert(crate::matrices::submatrix_spec(m, 0, 2) =~~= seq![
        seq![0int, s, y], seq![0int, 0int, z], seq![0int, 0int, s],
    ]);
    crate::matrices::lemma_det3(0, s, y, 0, 0, z, 0, 0, s);
    assert(crate::matrices::cof_spec(m, 0, 2) == 0);
    assert(crate::matrices::submatrix_spec(m, 0, 3) =~~= seq![
        seq![0int, s, 0int], seq![0int, 0int, s], seq![0int, 0int, 0int],
    ]);
    crate::matrices::lemma_det3(0, s, 0, 0, 0, s, 0, 0, 0);
    assert(crate::matrices::cof_spec(m, 0, 3) == 0);
    assert(crate::matrices::submatrix_spec(m, 1, 0) =~~= seq![
        seq![0int, 0int, x], seq![0int, s, z], seq![0int, 0int, s],
    ]);
    crate::matrices::lemma_det3(0, 0, x, 0, s, z, 0, 0, s);
    assert(crate::matrices::cof_spec(m, 1, 0) == 0);
    assert(crate::matrices::submatrix_spec(m, 1, 1) =~~= seq![
        seq![s, 0int, x], seq![0int, s, z], seq![0int, 0int, s],
    ]);
    crate::matrices::lemma_det3(s, 0, x, 0, s, z, 0, 0, s);
    assert(crate::matrices::cof_spec(m, 1, 1) == s);
    assert(crate::matrices::submatrix_spec(m, 1, 2) =~~= seq![
        seq![s, 0int, x], seq![0int, 0int, z], seq![0int, 0int, s],
    ]);
    crate::matrices::lemma_det3(s, 0, x, 0, 0, z, 0, 0, s);
    assert(crate::matrices::cof_spec(m, 1, 2) == 0);
    assert(crate::matrices::submatrix_spec(m, 1, 3) =~~= seq![
        seq![s, 0int, 0int], seq![0int, 0int, s], seq![0int, 0int, 0int],
    ]);
    crate::matrices::lemma_det3(s, 0, 0, 0, 0, s, 0, 0, 0);
    assert(crate::matrices::cof_spec(m, 1, 3) == 0);
    assert(crate::matrices::submatrix_spec(m, 2, 0) =~~= seq![
        seq![0int, 0int, x], seq![s, 0int, y], seq![0int, 0int, s],
    ]);
    crate::matrices::lemma_det3(0, 0, x, s, 0, y, 0, 0, s);
    assert(crate::matrices::cof_spec(m, 2, 0) == 0);
    assert(crate::matrices::submatrix_spec(m, 2, 1) =~~= seq![
        seq![s, 0int, x], seq![0int, 0int, y], seq![0int, 0int, s],
    ]);
    crate::matrices::lemma_det3(s, 0, x, 0, 0, y, 0, 0, s);
    assert(crate::matrices::cof_spec(m, 2, 1) == 0);
    assert(crate::matrices::submatrix_spec(m, 2, 2) =~~= seq![
        seq![s, 0int, x], seq![0int, s, y], seq![0int, 0int, s],
    ]);
    crate::matrices::lemma_det3(s, 0, x, 0, s, y, 0, 0, s);
    assert(crate::matrices::cof_spec(m, 2, 2) == s);
    assert(crate::matrices::submatrix_spec(m, 2, 3) =~~= seq![
        seq![s, 0int, 0int], seq![0int, s, 0int], seq![0int, 0int, 0int],
    ]);
    crate::matrices::lemma_det3(s, 0, 0, 0, s, 0, 0, 0, 0);
    assert(crate::matrices::cof_spec(m, 2, 3) == 0);
    assert(crate::matrices::submatrix_spec(m, 3, 0) =~~= seq![
        seq![0int, 0int, x], seq![s, 0int, y], seq![0int, s, z],
    ]);
    crate::matrices::lemma_det3(0, 0, x, s, 0, y, 0, s, z);
    assert(crate::matrices::cof_spec(m, 3, 0) == fneg(x));
    assert(crate::matrices::submatrix_spec(m, 3, 1) =~~= seq![
        seq![s, 0int, x], seq![0int, 0int, y], seq![0int, s, z],
    ]);
    crate::matrices::lemma_det3(s, 0, x, 0, 0, y, 0, s, z);
    assert(crate::matrices::cof_spec(m, 3, 1) == fneg(y));
    assert(crate::matrices::submatrix_spec(m, 3, 2) =~~= seq![
        seq![s, 0int, x], seq![0int, s, y], seq![0int, 0int, z],
    ]);
    crate::matrices::lemma_det3(s, 0, x, 0, s, y, 0, 0, z);
    assert(crate::matrices::cof_spec(m, 3, 2) == fneg(z));
    assert(crate::matrices::submatrix_spec(m, 3, 3) =~~= seq![
        seq![s, 0int, 0int], seq![0int, s, 0int], seq![0int, 0int, s],
    ]);
    crate::matrices::lemma_det3(s, 0, 0, 0, s, 0, 0, 0, s);
    assert(crate::matrices::cof_spec(m, 3, 3) == s);
}

/// A translation inverts exactly: its determinant is one, and its
/// inverse is the translation by the negated offsets.
pub proof fn lemma_translation_inverse(x: int, y: int, z: int)
    requires
        -(i64::MAX as int) <= x <= i64::MAX as int,
        -(i64::MAX as int) <= y <= i64::MAX as int,
        -(i64::MAX as int) <= z <= i64::MAX as int,
    ensures
        det_spec(translation_spec(x, y, z)) == SCALE as int,
        crate::matrices::inverse_spec(translation_spec(x, y, z)) == translation_spec(
            fneg(x),
            fneg(y),
            fneg(z),
        ),
{
    let s = SCALE as int;
    let m = translation_spec(x, y, z);
    lemma_translation_cofactors(x, y, z);
    crate::scalar::lemma_fmul_one(s);
    crate::scalar::lemma_fmul_zero(0);
    crate::scalar::lemma_fmul_zero(x);
    assert(crate::matrices::det_acc(m, 0) == 0);
    assert(crate::matrices::det_acc(m, 1) == fadd(0, fmul(s, s)));
    assert(crate::matrices::det_acc(m, 2) == fadd(s, fmul(0, crate::matrices::cof_spec(m, 0, 1))));
    assert(crate::matrices::det_acc(m, 3) == fadd(s, fmul(0, crate::matrices::cof_spec(m, 0, 2))));
    assert(crate::matrices::det_acc(m, 4) == fadd(s, fmul(x, 0)));
    assert(det_spec(m) == s);
    crate::scalar::lemma_fdiv_one(s);
    crate::scalar::lemma_fdiv_one(fneg(x));
    crate::scalar::lemma_fdiv_one(fneg(y));
    crate::scalar::lemma_fdiv_one(fneg(z));
    crate::scalar::lemma_fdiv_zero(s);
    assert(crate::matrices::inverse_spec(m) =~~= translation_spec(fneg(x), fneg(y), fneg(z)));
}

/// A translation times its inverse is the identity: the round trip of
/// the two opposite translations is exact.
#[verifier::rlimit(100)]
pub proof fn lemma_translation_roundtrip(x: int, y: int, z: int)
    requires
        -(i64::MAX as int) <= x <= i64::MAX as int,
        -(i64::MAX as int) <= y <= i64::MAX as int,
        -(i64::MAX as int) <= z <= i64::MAX as int,
    ensures
        mul_spec(
            translation_spec(x, y, z),
            crate::matrices::inverse_spec(translation_spec(x, y, z)),
        ) == crate::matrices::identity_spec(4),
{
    let s = SCALE as int;
    let a = translation_spec(x, y, z);
    let b = translation_spec(fneg(x), fneg(y), fneg(z));
    lemma_translation_inverse(x, y, z);
    crate::scalar::lemma_fmul_one(s);
    crate::scalar::lemma_fmul_one(fneg(x));
    crate::scalar::lemma_fmul_one(fneg(y));
    crate::scalar::lemma_fmul_one(fneg(z));
    crate::scalar::lemma_fmul_one(x);
    crate::scalar::lemma_fmul_one(y);
    crate::scalar::lemma_fmul_one(z);
    crate::scalar::lemma_fmul_zero(0);
    crate::scalar::lemma_fmul_zero(s);
    crate::scalar::lemma_fmul_zero(x);
    crate::scalar::lemma_fmul_zero(y);
    crate::scalar::lemma_fmul_zero(z);
    crate::scalar::lemma_fmul_zero(fneg(x));
    crate::scalar::lemma_fmul_zero(fneg(y));
    crate::scalar::lemma_fmul_zero(fneg(z));
    assert forall|i: int, j: int| 0 <= i < 4 && 0 <= j < 4 implies crate::matrices::mul_acc(
        a,
        b,
        i,
        j,
        4,
    ) == (if i == j {
        s
    } else {
        0int
    }) by {
        assert(crate::matrices::mul_acc(a, b, i, j, 0) == 0);
        assert(crate::matrices::mul_acc(a, b, i, j, 1) == fadd(0, fmul(a[i][0], b[0][j])));
        assert(crate::matrices::mul_acc(a, b, i, j, 2) == fadd(
            crate::matrices::mul_acc(a, b, i, j, 1),
            fmul(a[i][1], b[1][j]),
        ));
        assert(crate::matrices::mul_acc(a, b, i, j, 3) == fadd(
            crate::matrices::mul_acc(a, b, i, j, 2),
            fmul(a[i][2], b[2][j]),
        ));
        assert(crate::matrices::mul_acc(a, b, i, j, 4) == fadd(
            crate::matrices::mul_acc(a, b, i, j, 3),
            fmul(a[i][3], b[3][j]),
        ));
    }
    assert(mul_spec(a, b) =~~= crate::matrices::identity_spec(4));
}

/// Taking a translation twice through the inverse gives it back.
pub proof fn lemma_translation_inverse_involution(x: int, y: int, z: int)
    requires
        -(i64::MAX as int) <= x <= i64::MAX as int,
        -(i64::MAX as int) <= y <= i64::MAX as int,
        -(i64::MAX as int) <= z <= i64::MAX as int,
    ensures
        crate::matrices::inverse_spec(
            crate::matrices::inverse_spec(translation_spec(x, y, z)),
        ) == translation_spec(x, y, z),
{
    lemma_translation_inverse(x, y, z);
    lemma_translation_inverse(fneg(x), fneg(y), fneg(z));
    assert(fneg(fneg(x)) == x);
    assert(fneg(fneg(y)) == y);
    assert(fneg(fneg(z)) == z);
}

/// The translation by `(x, y, z)`.
pub fn translation(x: Scalar, y: Scalar, z: Scalar) -> (r: Matrix)
    ensures
        r.wf(),
        r@.len() == 4,
        r@ == translation_spec(x@, y@, z@),
{
    let one = Scalar::one();
    let zero = Scalar::zero();
    let r = Matrix::from(
        vec![
            vec![one, zero, zero, x],
            vec![zero, one, zero, y],
            vec![zero, zero, one, z],
            vec![zero, zero, zero, one],
        ],
    );
    proof {
        assert(r@ =~~= translation_spec(x@, y@, z@));
    }
    r
}

/// The scaling by `(x, y, z)`.
pub fn scaling(x: Scalar, y: Scalar, z: Scalar) -> (r: Matrix)
    ensures
        r.wf(),
        r@.len() == 4,
        r@ == scaling_spec(x@, y@, z@),
{
    let one = Scalar::one();
    let zero = Scalar::zero();
    let r = Matrix::from(
        vec![
            vec![x, zero, zero, zero],
            vec![zero, y, zero, zero],
            vec![zero, zero, z, zero],
            vec![zero, zero, zero, one],
        ],
    );
    proof {
        assert(r@ =~~= scaling_spec(x@, y@, z@));
    }
    r
}

/// Rotation about the x axis, given the angle's sine and cosine.
pub fn rotation_x(sin_r: Scalar, cos_r: Scalar) -> (r: Matrix)
    ensures
        r.wf(),
        r@.len() == 4,
        r@ == rotation_x_spec(sin_r@, cos_r@),
{
    let one = Scalar::one();
    let zero = Scalar::zero();
    let r = Matrix::from(
        vec![
            vec![one, zero, zero, zero],
            vec![zero, cos_r, sin_r.neg(), zero],
            vec![zero, sin_r, cos_r, zero],
            vec![zero, zero, zero, one],
        ],
    );
    proof {
        assert(r@ =~~= rotation_x_spec(sin_r@, cos_r@));
    }
    r
}

/// Rotation about the y axis, given the angle's sine and cosine.
pub fn rotation_y(sin_r: Scalar, cos_r: Scalar) -> (r: Matrix)
    ensures
        r.wf(),
        r@.len() == 4,
        r@ == rotation_y_spec(sin_r@, cos_r@),
{
    let one = Scalar::one();
    let zero = Scalar::zero();
    let r = Matrix::from(
        vec![
            vec![cos_r, zero, sin_r, zero],
            vec![zero, one, zero, zero],
            vec![sin_r.neg(), zero, cos_r, zero],
            vec![zero, zero, zero, one],
        ],
    );
    proof {
        assert(r@ =~~= rotation_y_spec(sin_r@, cos_r@));
    }
    r
}

/// Rotation about the z axis, given the angle's sine and cosine.
pub fn rotation_z(sin_r: Scalar, cos_r: Scalar) -> (r: Matrix)
    ensures
        r.wf(),
        r@.len() == 4,
        r@ == rotation_z_spec(sin_r@, cos_r@),
{
    let one = Scalar::one();
    let zero = Scalar::zero();
    let r = Matrix::from(
        vec![
            vec![cos_r, sin_r.neg(), zero, zero],
            vec![sin_r, cos_r, zero, zero],
            vec![zero, zero, one, zero],
            vec![zero, zero, zero, one],
        ],
    );
    proof {
        assert(r@ =~~= rotation_z_spec(sin_r@, cos_r@));
    }
    r
}

/// The shearing with the six coupling coefficients.
pub fn shearing(xy: Scalar, xz: Scalar, yx: Scalar, yz: Scalar, zx: Scalar, zy: Scalar) -> (r:
    Matrix)
    ensures
        r.wf(),
        r@.len() == 4,
        r@ == shearing_spec(xy@, xz@, yx@, yz@, zx@, zy@),
{
    let one = Scalar::one();
    let zero = Scalar::zero();
    let r = Matrix::from(
        vec![
            vec![one, xy, xz, zero],
            vec![yx, one, yz, zero],
            vec![zx, zy, one, zero],
            vec![zero, zero, zero, one],
        ],
    );
    proof {
        assert(r@ =~~= shearing_spec(xy@, xz@, yx@, yz@, zx@, zy@));
    }
    r
}

/// The camera's world transform, built from the eye point, the point
/// looked at, and the up hint.
pub fn view_transform(from: Tuple4, to: Tuple4, up: Tuple4) -> (r: Matrix)
    requires
        from.w@ == SCALE,
        to.w@ == SCALE,
        up.w@ == 0,
        g_mag(g_sub(g4(from), g4(to))) != 0,
        g_mag(g4(up)) != 0,
    ensures
        r.wf(),
        r@.len() == 4,
        r@ == view_transform_spec(from, to, up),
{
    let forward = from.sub(to).normalize();
    let upn = up.normalize();
    proof {
        lemma_fdiv_zero(g_mag(g_sub(g4(from), g4(to))));
        lemma_fdiv_zero(g_mag(g4(up)));
    }
    let left = upn.cross(forward);
    let true_up = forward.cross(left);
    let zero = Scalar::zero();
    let one = Scalar::one();
    let orientation = Matrix::from(
        vec![
            vec![left.x, left.y, left.z, zero],
            vec![true_up.x, true_up.y, true_up.z, zero],
            vec![forward.x, forward.y, forward.z, zero],
            vec![zero, zero, zero, one],
        ],
    );
    proof {
        assert(orientation@ =~~= orientation_spec(from, to, up));
    }
    let shift = translation(from.x.neg(), from.y.neg(), from.z.neg());
    orientation.multiply_matrix(&shift)
}

} // verus!
