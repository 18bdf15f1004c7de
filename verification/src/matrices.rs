//! Square matrices of fixed-point scalars, with multiplication,
//! transposition, and inverse by cofactor expansion.

use vstd::prelude::*;
use crate::scalar::{Scalar, SCALE, fadd, fneg, fmul, fdiv, lemma_fmul_zero, lemma_fmul_one};
use crate::tuples::Tuple4;

verus! {

/// A square matrix; `data` holds the rows.
#[derive(Debug, Clone, PartialEq, Eq)]
pub struct Matrix {
    pub data: Vec<Vec<Scalar>>,
}

impl View for Matrix {
    type V = Seq<Seq<int>>;

    open spec fn view(&self) -> Seq<Seq<int>> {
        Seq::new(
            self.data@.len(),
            |i: int| Seq::new(self.data@[i]@.len(), |j: int| self.data@[i]@[j]@),
        )
    }
}

/// A well-formed matrix model: at least one row, and as many entries in
/// every row as there are rows.
pub open spec fn mat_wf(m: Seq<Seq<int>>) -> bool {
    &&& m.len() >= 1
    &&& forall|i: int| 0 <= i < m.len() ==> (#[trigger] m[i]).len() == m.len()
}

/// The identity: one on the diagonal, zero elsewhere.
pub open spec fn identity_spec(n: nat) -> Seq<Seq<int>> {
    Seq::new(n, |i: int| Seq::new(n, |j: int| if i == j { SCALE as int } else { 0 }))
}

/// Rows and columns exchanged.
pub open spec fn transpose_spec(m: Seq<Seq<int>>) -> Seq<Seq<int>> {
    Seq::new(m.len(), |i: int| Seq::new(m.len(), |j: int| m[j][i]))
}

/// The first `k` terms of the product entry at row `i`, column `j`:
/// truncating products summed left to right.
pub open spec fn mul_acc(a: Seq<Seq<int>>, b: Seq<Seq<int>>, i: int, j: int, k: nat) -> int
    decreases k,
{
    if k == 0 {
        0
    } else {
        fadd(mul_acc(a, b, i, j, (k - 1) as nat), fmul(a[i][k - 1], b[k - 1][j]))
    }
}

/// The matrix product, entry by entry.
pub open spec fn mul_spec(a: Seq<Seq<int>>, b: Seq<Seq<int>>) -> Seq<Seq<int>> {
    Seq::new(a.len(), |i: int| Seq::new(a.len(), |j: int| mul_acc(a, b, i, j, a.len())))
}

/// Index into what remains after dropping index `d`.
pub open spec fn skip_index(i: int, d: int) -> int {
    if i < d {
        i
    } else {
        i + 1
    }
}

/// The matrix with row `dr` and column `dc` removed.
pub open spec fn submatrix_spec(m: Seq<Seq<int>>, dr: int, dc: int) -> Seq<Seq<int>> {
    Seq::new(
        (m.len() - 1) as nat,
        |i: int| Seq::new((m.len() - 1) as nat, |j: int| m[skip_index(i, dr)][skip_index(j, dc)]),
    )
}

/// Determinant of the minor: the submatrix without row `r` and column `c`.
pub open spec fn minor_spec(m: Seq<Seq<int>>, r: int, c: int) -> int
    decreases m.len(), 0nat, 0nat,
{
    if m.len() == 0 {
        0
    } else {
        det_spec(submatrix_spec(m, r, c))
    }
}

/// The signed minor.
pub open spec fn cof_spec(m: Seq<Seq<int>>, r: int, c: int) -> int
    decreases m.len(), 1nat, 0nat,
{
    if (r + c) % 2 == 0 {
        minor_spec(m, r, c)
    } else {
        fneg(minor_spec(m, r, c))
    }
}

/// The first `j` terms of the cofactor expansion along row zero.
pub open spec fn det_acc(m: Seq<Seq<int>>, j: nat) -> int
    decreases m.len(), 2nat, j,
{
    if j == 0 {
        0
    } else {
        fadd(det_acc(m, (j - 1) as nat), fmul(m[0][j - 1], cof_spec(m, 0, (j - 1) as int)))
    }
}

/// Determinant by cofactor expansion along row zero.
pub open spec fn det_spec(m: Seq<Seq<int>>) -> int
    decreases m.len(), 3nat, 0nat,
{
    if m.len() <= 1 {
        m[0][0]
    } else {
        det_acc(m, m.len())
    }
}

/// The inverse: the transposed cofactors, each divided by the determinant.
pub open spec fn inverse_spec(m: Seq<Seq<int>>) -> Seq<Seq<int>> {
    Seq::new(
        m.len(),
        |i: int| Seq::new(m.len(), |j: int| fdiv(cof_spec(m, j, i), det_spec(m))),
    )
}

impl Matrix {
    /// Whether the underlying storage is square and nonempty.
    pub open spec fn wf(&self) -> bool {
        mat_wf(self@)
    }

    /// A matrix from its rows, which must form a nonempty square.
    pub fn from(data: Vec<Vec<Scalar>>) -> (r: Matrix)
        requires
            data@.len() >= 1,
            forall|i: int| 0 <= i < data@.len() ==> (#[trigger] data@[i])@.len() == data@.len(),
        ensures
            r.wf(),
            r@.len() == data@.len(),
            forall|i: int, j: int|
                0 <= i < data@.len() && 0 <= j < data@.len() ==> #[trigger] r@[i][j] == data@[i]@[j]@,
    {
        Matrix { data }
    }

    /// The number of rows.
    pub fn size(&self) -> (n: usize)
        ensures
            n == self@.len(),
    {
        self.data.len()
    }

    /// The entry at row `i`, column `j`.
    pub fn get(&self, i: usize, j: usize) -> (r: Scalar)
        requires
            self.wf(),
            i < self@.len(),
            j < self@.len(),
        ensures
            r@ == self@[i as int][j as int],
    {
        proof {
            assert(self.data@.len() == self@.len());
            assert(self@[i as int].len() == self.data@[i as int]@.len());
        }
        self.data[i][j]
    }

    /// The `n` by `n` identity matrix.
    pub fn identity(n: usize) -> (r: Matrix)
        requires
            n >= 1,
        ensures
            r.wf(),
            r@ == identity_spec(n as nat),
    {
        let mut data: Vec<Vec<Scalar>> = Vec::new();
        let mut i: usize = 0;
        while i < n
            invariant
                i <= n,
                data@.len() == i,
                forall|p: int| 0 <= p < i ==> (#[trigger] data@[p])@.len() == n,
                forall|p: int, q: int|
                    0 <= p < i && 0 <= q < n ==>
                        #[trigger] data@[p]@[q]@ == (if p == q { SCALE as int } else { 0int }),
            decreases n - i,
        {
            let mut row: Vec<Scalar> = Vec::new();
            let mut j: usize = 0;
            while j < n
                invariant
                    j <= n,
                    row@.len() == j,
                    forall|q: int| 0 <= q < j ==>
                        #[trigger] row@[q]@ == (if i == q { SCALE as int } else { 0int }),
                decreases n - j,
            {
                if i == j {
                    row.push(Scalar::one());
                } else {
                    row.push(Scalar::zero());
                }
                j = j + 1;
            }
            data.push(row);
            i = i + 1;
        }
        let r = Matrix { data };
        proof {
            assert(r@ =~~= identity_spec(n as nat));
        }
        r
    }

    /// Rows and columns exchanged.
    pub fn transpose(&self) -> (r: Matrix)
        requires
            self.wf(),
        ensures
            r.wf(),
            r@ == transpose_spec(self@),
    {
        let n = self.data.len();
        let mut data: Vec<Vec<Scalar>> = Vec::new();
        let mut i: usize = 0;
        while i < n
            invariant
                self.wf(),
                n == self@.len(),
                i <= n,
                data@.len() == i,
                forall|p: int| 0 <= p < i ==> (#[trigger] data@[p])@.len() == n,
                forall|p: int, q: int|
                    0 <= p < i && 0 <= q < n ==>
                        #[trigger] data@[p]@[q]@ == self@[q][p],
            decreases n - i,
        {
            let mut row: Vec<Scalar> = Vec::new();
            let mut j: usize = 0;
            while j < n
                invariant
                    self.wf(),
                    n == self@.len(),
                    i < n,
                    j <= n,
                    row@.len() == j,
                    forall|q: int| 0 <= q < j ==> #[trigger] row@[q]@ == self@[q][i as int],
                decreases n - j,
            {
                proof {
                    assert(self.data@.len() == self@.len());
                    assert(self@[j as int].len() == self.data@[j as int]@.len());
                }
                row.push(self.data[j][i]);
                j = j + 1;
            }
            data.push(row);
            i = i + 1;
        }
        let r = Matrix { data };
        proof {
            assert(r@ =~~= transpose_spec(self@));
        }
        r
    }
}

/// The first `k` terms of the dot product of two rows.
pub open spec fn vec_dot_acc(a: Seq<int>, b: Seq<int>, k: nat) -> int
    decreases k,
{
    if k == 0 {
        0
    } else {
        fadd(vec_dot_acc(a, b, (k - 1) as nat), fmul(a[k - 1], b[k - 1]))
    }
}

/// Dot product of two equally long rows of scalars.
pub fn dot_product(a: &Vec<Scalar>, b: &Vec<Scalar>) -> (r: Scalar)
    requires
        a@.len() == b@.len(),
    ensures
        r@ == vec_dot_acc(a@.map_values(|s: Scalar| s@), b@.map_values(|s: Scalar| s@), a@.len()),
{
    let ghost av = a@.map_values(|s: Scalar| s@);
    let ghost bv = b@.map_values(|s: Scalar| s@);
    let mut acc = Scalar::zero();
    let mut k: usize = 0;
    while k < a.len()
        invariant
            a@.len() == b@.len(),
            av == a@.map_values(|s: Scalar| s@),
            bv == b@.map_values(|s: Scalar| s@),
            k <= a@.len(),
            acc@ == vec_dot_acc(av, bv, k as nat),
        decreases a@.len() - k,
    {
        acc = acc.add(a[k].mul(b[k]));
        k = k + 1;
    }
    acc
}

/// The product of a row with a homogeneous tuple: four truncating
/// products summed left to right.
pub open spec fn row_tuple_dot(row: Seq<int>, t: Tuple4) -> int {
    fadd(
        fadd(fadd(fmul(row[0], t.x@), fmul(row[1], t.y@)), fmul(row[2], t.z@)),
        fmul(row[3], t.w@),
    )
}

impl Matrix {
    /// The matrix product; both factors must be square of the same size.
    pub fn multiply_matrix(&self, other: &Matrix) -> (r: Matrix)
        requires
            self.wf(),
            other.wf(),
            self@.len() == other@.len(),
        ensures
            r.wf(),
            r@ == mul_spec(self@, other@),
    {
        let n = self.data.len();
        let mut data: Vec<Vec<Scalar>> = Vec::new();
        let mut i: usize = 0;
        while i < n
            invariant
                self.wf(),
                other.wf(),
                n == self@.len(),
                n == other@.len(),
                i <= n,
                data@.len() == i,
                forall|p: int| 0 <= p < i ==> (#[trigger] data@[p])@.len() == n,
                forall|p: int, q: int|
                    0 <= p < i && 0 <= q < n ==>
                        #[trigger] data@[p]@[q]@ == mul_acc(self@, other@, p, q, n as nat),
            decreases n - i,
        {
            let mut row: Vec<Scalar> = Vec::new();
            let mut j: usize = 0;
            while j < n
                invariant
                    self.wf(),
                    other.wf(),
                    n == self@.len(),
                    n == other@.len(),
                    i < n,
                    j <= n,
                    row@.len() == j,
                    forall|q: int| 0 <= q < j ==>
                        #[trigger] row@[q]@ == mul_acc(self@, other@, i as int, q, n as nat),
                decreases n - j,
            {
                let mut acc = Scalar::zero();
                let mut k: usize = 0;
                while k < n
                    invariant
                        self.wf(),
                        other.wf(),
                        n == self@.len(),
                        n == other@.len(),
                        i < n,
                        j < n,
                        k <= n,
                        acc@ == mul_acc(self@, other@, i as int, j as int, k as nat),
                    decreases n - k,
                {
                    acc = acc.add(self.get(i, k).mul(other.get(k, j)));
                    k = k + 1;
                }
                row.push(acc);
                j = j + 1;
            }
            data.push(row);
            i = i + 1;
        }
        let r = Matrix { data };
        proof {
            assert(r@ =~~= mul_spec(self@, other@));
        }
        r
    }

    /// The product of a four by four matrix with a homogeneous tuple.
    pub fn multiply_tuple(&self, t: &Tuple4) -> (r: Tuple4)
        requires
            self.wf(),
            self@.len() == 4,
        ensures
            r.x@ == row_tuple_dot(self@[0], *t),
            r.y@ == row_tuple_dot(self@[1], *t),
            r.z@ == row_tuple_dot(self@[2], *t),
            r.w@ == row_tuple_dot(self@[3], *t),
    {
        let x = self.get(0, 0).mul(t.x).add(self.get(0, 1).mul(t.y)).add(
            self.get(0, 2).mul(t.z),
        ).add(self.get(0, 3).mul(t.w));
        let y = self.get(1, 0).mul(t.x).add(self.get(1, 1).mul(t.y)).add(
            self.get(1, 2).mul(t.z),
        ).add(self.get(1, 3).mul(t.w));
        let z = self.get(2, 0).mul(t.x).add(self.get(2, 1).mul(t.y)).add(
            self.get(2, 2).mul(t.z),
        ).add(self.get(2, 3).mul(t.w));
        let w = self.get(3, 0).mul(t.x).add(self.get(3, 1).mul(t.y)).add(
            self.get(3, 2).mul(t.z),
        ).add(self.get(3, 3).mul(t.w));
        Tuple4 { x, y, z, w }
    }

    /// The same product with a homogeneous tuple, under the name the
    /// row-by-row form carried.
    pub fn multiply_tuple_dot(&self, t: &Tuple4) -> (r: Tuple4)
        requires
            self.wf(),
            self@.len() == 4,
        ensures
            r.x@ == row_tuple_dot(self@[0], *t),
            r.y@ == row_tuple_dot(self@[1], *t),
            r.z@ == row_tuple_dot(self@[2], *t),
            r.w@ == row_tuple_dot(self@[3], *t),
    {
        self.multiply_tuple(t)
    }

    /// The matrix without row `drop_row` and column `drop_col`.
    pub fn submatrix(&self, drop_row: usize, drop_col: usize) -> (r: Matrix)
        requires
            self.wf(),
            self@.len() >= 2,
            drop_row < self@.len(),
            drop_col < self@.len(),
        ensures
            r.wf(),
            r@ == submatrix_spec(self@, drop_row as int, drop_col as int),
    {
        let n = self.data.len();
        let mut data: Vec<Vec<Scalar>> = Vec::new();
        let mut i: usize = 0;
        while i < n
            invariant
                self.wf(),
                n == self@.len(),
                n >= 2,
                drop_row < n,
                drop_col < n,
                i <= n,
                data@.len() == (if i <= drop_row { i as int } else { i - 1 }),
                forall|p: int| 0 <= p < data@.len() ==> (#[trigger] data@[p])@.len() == n - 1,
                forall|p: int, q: int|
                    0 <= p < data@.len() && 0 <= q < n - 1 ==>
                        #[trigger] data@[p]@[q]@
                            == self@[skip_index(p, drop_row as int)][skip_index(q, drop_col as int)],
            decreases n - i,
        {
            if i != drop_row {
                let mut row: Vec<Scalar> = Vec::new();
                let mut j: usize = 0;
                while j < n
                    invariant
                        self.wf(),
                        n == self@.len(),
                        i < n,
                        drop_col < n,
                        j <= n,
                        row@.len() == (if j <= drop_col { j as int } else { j - 1 }),
                        forall|q: int| 0 <= q < row@.len() ==>
                            #[trigger] row@[q]@ == self@[i as int][skip_index(q, drop_col as int)],
                    decreases n - j,
                {
                    if j != drop_col {
                        row.push(self.get(i, j));
                    }
                    j = j + 1;
                }
                data.push(row);
            }
            i = i + 1;
        }
        let r = Matrix { data };
        proof {
            assert(r@ =~~= submatrix_spec(self@, drop_row as int, drop_col as int));
        }
        r
    }

    /// Determinant of the minor at `row`, `col`.
    pub fn minor(&self, row: usize, col: usize) -> (r: Scalar)
        requires
            self.wf(),
            self@.len() >= 2,
            row < self@.len(),
            col < self@.len(),
        ensures
            r@ == minor_spec(self@, row as int, col as int),
        decreases self@.len(), 1nat, 0nat,
    {
        let sub = self.submatrix(row, col);
        sub.determinant()
    }

    /// The signed minor at `row`, `col`.
    pub fn cofactor(&self, row: usize, col: usize) -> (r: Scalar)
        requires
            self.wf(),
            self@.len() >= 2,
            row < self@.len(),
            col < self@.len(),
        ensures
            r@ == cof_spec(self@, row as int, col as int),
        decreases self@.len(), 2nat, 0nat,
    {
        let m = self.minor(row, col);
        proof {
            assert((row % 2 == col % 2) == ((row + col) % 2 == 0)) by (nonlinear_arith);
        }
        if row % 2 == col % 2 {
            m
        } else {
            m.neg()
        }
    }

    /// Determinant by cofactor expansion along row zero.
    pub fn determinant(&self) -> (r: Scalar)
        requires
            self.wf(),
        ensures
            r@ == det_spec(self@),
        decreases self@.len(), 3nat, 0nat,
    {
        let n = self.data.len();
        if n == 1 {
            self.get(0, 0)
        } else {
            let mut det = Scalar::zero();
            let mut j: usize = 0;
            while j < n
                invariant
                    self.wf(),
                    n == self@.len(),
                    n >= 2,
                    j <= n,
                    det@ == det_acc(self@, j as nat),
                decreases n - j,
            {
                det = det.add(self.get(0, j).mul(self.cofactor(0, j)));
                j = j + 1;
            }
            det
        }
    }

    /// Whether the determinant is nonzero, so that the matrix has an
    /// inverse.
    pub fn is_invertible(&self) -> (r: bool)
        requires
            self.wf(),
        ensures
            r == (det_spec(self@) != 0),
    {
        let det = self.determinant();
        !det.is_zero()
    }

    /// The inverse: transposed cofactors divided by the determinant,
    /// which must not vanish.
    pub fn inverse(&self) -> (r: Matrix)
        requires
            self.wf(),
            self@.len() >= 2,
            det_spec(self@) != 0,
        ensures
            r.wf(),
            r@ == inverse_spec(self@),
    {
        let n = self.data.len();
        let det = self.determinant();
        let mut data: Vec<Vec<Scalar>> = Vec::new();
        let mut i: usize = 0;
        while i < n
            invariant
                self.wf(),
                n == self@.len(),
                n >= 2,
                det@ == det_spec(self@),
                det@ != 0,
                i <= n,
                data@.len() == i,
                forall|p: int| 0 <= p < i ==> (#[trigger] data@[p])@.len() == n,
                forall|p: int, q: int|
                    0 <= p < i && 0 <= q < n ==>
                        #[trigger] data@[p]@[q]@ == fdiv(cof_spec(self@, q, p), det_spec(self@)),
            decreases n - i,
        {
            let mut row: Vec<Scalar> = Vec::new();
            let mut j: usize = 0;
            while j < n
                invariant
                    self.wf(),
                    n == self@.len(),
                    n >= 2,
                    det@ == det_spec(self@),
                    det@ != 0,
                    i < n,
                    j <= n,
                    row@.len() == j,
                    forall|q: int| 0 <= q < j ==>
                        #[trigger] row@[q]@ == fdiv(cof_spec(self@, q, i as int), det_spec(self@)),
                decreases n - j,
            {
                let c = self.cofactor(j, i);
                row.push(c.div(det));
                j = j + 1;
            }
            data.push(row);
            i = i + 1;
        }
        let r = Matrix { data };
        proof {
            assert(r@ =~~= inverse_spec(self@));
        }
        r
    }
}

/// The determinant of the four by four identity is one.
pub proof fn lemma_identity_det()
    ensures
        det_spec(identity_spec(4)) == SCALE as int,
{
    let s = SCALE as int;
    lemma_fmul_one(s);
    lemma_fmul_zero(s);
    let m1 = identity_spec(1);
    assert(det_spec(m1) == s);
    let m2 = identity_spec(2);
    assert(submatrix_spec(m2, 0, 0) =~~= m1);
    assert(cof_spec(m2, 0, 0) == s);
    lemma_fmul_zero(cof_spec(m2, 0, 1));
    assert(det_acc(m2, 0) == 0);
    assert(det_acc(m2, 1) == fadd(0, fmul(s, s)));
    assert(det_acc(m2, 2) == fadd(s, fmul(0, cof_spec(m2, 0, 1))));
    assert(det_spec(m2) == s);
    let m3 = identity_spec(3);
    assert(submatrix_spec(m3, 0, 0) =~~= m2);
    assert(cof_spec(m3, 0, 0) == s);
    lemma_fmul_zero(cof_spec(m3, 0, 1));
    lemma_fmul_zero(cof_spec(m3, 0, 2));
    assert(det_acc(m3, 0) == 0);
    assert(det_acc(m3, 1) == fadd(0, fmul(s, s)));
    assert(det_acc(m3, 2) == fadd(s, fmul(0, cof_spec(m3, 0, 1))));
    assert(det_acc(m3, 3) == fadd(s, fmul(0, cof_spec(m3, 0, 2))));
    assert(det_spec(m3) == s);
    let m4 = identity_spec(4);
    assert(submatrix_spec(m4, 0, 0) =~~= m3);
    assert(cof_spec(m4, 0, 0) == s);
    lemma_fmul_zero(cof_spec(m4, 0, 1));
    lemma_fmul_zero(cof_spec(m4, 0, 2));
    lemma_fmul_zero(cof_spec(m4, 0, 3));
    assert(det_acc(m4, 0) == 0);
    assert(det_acc(m4, 1) == fadd(0, fmul(s, s)));
    assert(det_acc(m4, 2) == fadd(s, fmul(0, cof_spec(m4, 0, 1))));
    assert(det_acc(m4, 3) == fadd(s, fmul(0, cof_spec(m4, 0, 2))));
    assert(det_acc(m4, 4) == fadd(s, fmul(0, cof_spec(m4, 0, 3))));
    assert(det_spec(m4) == s);
}

/// The determinant of a two by two, as a formula of its entries.
pub open spec fn det2_formula(a: int, b: int, c: int, d: int) -> int {
    fadd(fmul(a, d), fmul(b, fneg(c)))
}

/// The determinant of a two by two, written out.
pub proof fn lemma_det2(a: int, b: int, c: int, d: int)
    ensures
        det_spec(seq![seq![a, b], seq![c, d]]) == fadd(fmul(a, d), fmul(b, fneg(c))),
{
    let m = seq![seq![a, b], seq![c, d]];
    assert(submatrix_spec(m, 0, 0) =~~= seq![seq![d]]);
    assert(submatrix_spec(m, 0, 1) =~~= seq![seq![c]]);
    assert(minor_spec(m, 0, 0) == d);
    assert(cof_spec(m, 0, 0) == d);
    assert(minor_spec(m, 0, 1) == c);
    assert(cof_spec(m, 0, 1) == fneg(c));
    assert(det_acc(m, 0) == 0);
    assert(det_acc(m, 1) == fadd(0, fmul(a, d)));
    assert(det_acc(m, 2) == fadd(fmul(a, d), fmul(b, fneg(c))));
    assert(det_spec(m) == fadd(fmul(a, d), fmul(b, fneg(c))));
}

/// The determinant of a three by three: the cofactor expansion along
/// its first row, with the minors written out.
pub proof fn lemma_det3(a: int, b: int, c: int, d: int, e: int, f: int, g: int, h: int, i: int)
    ensures
        det_spec(seq![seq![a, b, c], seq![d, e, f], seq![g, h, i]]) == fadd(
            fadd(
                fmul(a, det2_formula(e, f, h, i)),
                fmul(b, fneg(det2_formula(d, f, g, i))),
            ),
            fmul(c, det2_formula(d, e, g, h)),
        ),
{
    let m = seq![seq![a, b, c], seq![d, e, f], seq![g, h, i]];
    assert(submatrix_spec(m, 0, 0) =~~= seq![seq![e, f], seq![h, i]]);
    assert(submatrix_spec(m, 0, 1) =~~= seq![seq![d, f], seq![g, i]]);
    assert(submatrix_spec(m, 0, 2) =~~= seq![seq![d, e], seq![g, h]]);
    lemma_det2(e, f, h, i);
    lemma_det2(d, f, g, i);
    lemma_det2(d, e, g, h);
    assert(cof_spec(m, 0, 0) == det2_formula(e, f, h, i));
    assert(cof_spec(m, 0, 1) == fneg(det2_formula(d, f, g, i)));
    assert(cof_spec(m, 0, 2) == det2_formula(d, e, g, h));
    assert(det_acc(m, 0) == 0);
    assert(det_acc(m, 1) == fadd(0, fmul(a, det2_formula(e, f, h, i))));
    assert(det_acc(m, 2) == fadd(
        fmul(a, det2_formula(e, f, h, i)),
        fmul(b, fneg(det2_formula(d, f, g, i))),
    ));
    assert(det_acc(m, 3) == fadd(
        fadd(
            fmul(a, det2_formula(e, f, h, i)),
            fmul(b, fneg(det2_formula(d, f, g, i))),
        ),
        fmul(c, det2_formula(d, e, g, h)),
    ));
}

/// Whether every entry lies in the symmetric numerator range.
pub open spec fn mat_in_range(m: Seq<Seq<int>>) -> bool {
    forall|i: int, j: int|
        0 <= i < m.len() && 0 <= j < m[i].len() ==> -(i64::MAX as int) <= #[trigger] m[i][j]
            <= i64::MAX as int
}

/// A partial product against the identity on the right keeps the
/// entry, once the sum has passed its column.
proof fn lemma_mul_acc_identity_right(m: Seq<Seq<int>>, i: int, j: int, k: nat)
    requires
        mat_wf(m),
        mat_in_range(m),
        0 <= i < m.len(),
        0 <= j < m.len(),
        k <= m.len(),
    ensures
        mul_acc(m, identity_spec(m.len()), i, j, k) == if k > j {
            m[i][j]
        } else {
            0
        },
    decreases k,
{
    let n = m.len();
    if k > 0 {
        lemma_mul_acc_identity_right(m, i, j, (k - 1) as nat);
        if k - 1 == j {
            lemma_fmul_one(m[i][j]);
        } else {
            lemma_fmul_zero(m[i][k - 1]);
        }
    }
}

/// A partial product against the identity on the left keeps the
/// entry, once the sum has passed its row.
proof fn lemma_mul_acc_identity_left(m: Seq<Seq<int>>, i: int, j: int, k: nat)
    requires
        mat_wf(m),
        mat_in_range(m),
        0 <= i < m.len(),
        0 <= j < m.len(),
        k <= m.len(),
    ensures
        mul_acc(identity_spec(m.len()), m, i, j, k) == if k > i {
            m[i][j]
        } else {
            0
        },
    decreases k,
{
    let n = m.len();
    if k > 0 {
        lemma_mul_acc_identity_left(m, i, j, (k - 1) as nat);
        if k - 1 == i {
            lemma_fmul_one(m[i][j]);
        } else {
            lemma_fmul_zero(m[k - 1][j]);
        }
    }
}

/// Multiplying by the identity, on either side, changes nothing: the
/// identity is neutral for every matrix whose entries fit the grid.
pub proof fn lemma_identity_neutral(m: Seq<Seq<int>>)
    requires
        mat_wf(m),
        mat_in_range(m),
    ensures
        mul_spec(m, identity_spec(m.len())) == m,
        mul_spec(identity_spec(m.len()), m) == m,
{
    let n = m.len();
    assert forall|i: int, j: int| 0 <= i < n && 0 <= j < n implies mul_acc(
        m,
        identity_spec(n),
        i,
        j,
        n,
    ) == m[i][j] && mul_acc(identity_spec(n), m, i, j, n) == m[i][j] by {
        lemma_mul_acc_identity_right(m, i, j, n);
        lemma_mul_acc_identity_left(m, i, j, n);
    }
    assert(mul_spec(m, identity_spec(n)) =~~= m);
    assert(mul_spec(identity_spec(n), m) =~~= m);
}

/// Transposing twice gives the matrix back.
pub proof fn lemma_transpose_involution(m: Seq<Seq<int>>)
    requires
        mat_wf(m),
    ensures
        transpose_spec(transpose_spec(m)) == m,
{
    assert(transpose_spec(transpose_spec(m)) =~~= m);
}

/// The identity is its own transpose.
pub proof fn lemma_identity_transpose(n: nat)
    ensures
        transpose_spec(identity_spec(n)) == identity_spec(n),
{
    assert(transpose_spec(identity_spec(n)) =~~= identity_spec(n));
}

} // verus!
