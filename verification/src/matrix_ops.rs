//! Arithmetic on matrices: the matrix product, the products with a scalar
//! and with a vector, and the elementwise operators, each in an explicit
//! form that writes into a matrix of the caller and in an operator form that
//! returns a fresh one.

use crate::cofactor::{inverse_of, inverse_ok};
use crate::matrix::{column, is_grid, Matrix};
use crate::scalar::{apply, op_ok, op_spec, BinOp, Scalar};
use crate::vector::{with_cell, zero_seq, Vector};
use crate::vector_ops::{dot_ok, dot_spec, lemma_dot_ok_prefix};
use vstd::prelude::*;

verus! {

/// Whether `out` is `start` with the cells of `target` written over the
/// first `cols` columns of the rows before `i`, and of row `i` before
/// column `j`.
pub open spec fn written_up_to<T>(
    out: Seq<Seq<T>>,
    start: Seq<Seq<T>>,
    target: Seq<Seq<T>>,
    cols: int,
    i: int,
    j: int,
) -> bool {
    &&& out.len() == start.len()
    &&& forall|r: int| 0 <= r < start.len() ==> (#[trigger] out[r]).len() == start[r].len()
    &&& forall|r: int, c: int|
        0 <= r < start.len() && 0 <= c < start[r].len() ==> #[trigger] out[r][c] == (if c < cols
            && (r < i || (r == i && c < j)) {
            target[r][c]
        } else {
            start[r][c]
        })
}

/// `out` with `out[i][j] + a[i][0] * b[0][j] + a[i][1] * b[1][j] + ...`
/// in each cell that the product of `a` and `b` has.
pub open spec fn product_into<T: Scalar>(
    out: Seq<Seq<T>>,
    a: Seq<Seq<T>>,
    b: Seq<Seq<T>>,
) -> Seq<Seq<T>> {
    Seq::new(
        out.len(),
        |i: int|
            Seq::new(
                out[i].len(),
                |j: int|
                    if i < a.len() && j < b[0].len() {
                        dot_spec(out[i][j], a[i], column(b, j), b.len())
                    } else {
                        out[i][j]
                    },
            ),
    )
}

/// Whether every operation that computes `product_into(out, a, b)` is
/// defined.
pub open spec fn product_into_ok<T: Scalar>(
    out: Seq<Seq<T>>,
    a: Seq<Seq<T>>,
    b: Seq<Seq<T>>,
) -> bool {
    forall|i: int, j: int|
        0 <= i < a.len() && 0 <= j < b[0].len() ==> #[trigger] dot_ok(
            out[i][j],
            a[i],
            column(b, j),
            b.len(),
        )
}

/// The matrix product of `a` and `b`: cell `(i, j)` is the dot product of
/// row `i` of `a` and column `j` of `b`, accumulated from zero.
pub open spec fn product<T: Scalar>(a: Seq<Seq<T>>, b: Seq<Seq<T>>) -> Seq<Seq<T>> {
    Seq::new(
        a.len(),
        |i: int|
            Seq::new(
                b[0].len(),
                |j: int| dot_spec(T::zero_spec(), a[i], column(b, j), b.len()),
            ),
    )
}

/// Whether every operation that computes `product(a, b)` is defined.
pub open spec fn product_ok<T: Scalar>(a: Seq<Seq<T>>, b: Seq<Seq<T>>) -> bool {
    forall|i: int, j: int|
        0 <= i < a.len() && 0 <= j < b[0].len() ==> #[trigger] dot_ok(
            T::zero_spec(),
            a[i],
            column(b, j),
            b.len(),
        )
}

/// `out` with `out[i][j] + m[i][j] * s` in each cell that `m` has.
pub open spec fn scaled_into<T: Scalar>(out: Seq<Seq<T>>, m: Seq<Seq<T>>, s: T) -> Seq<Seq<T>> {
    Seq::new(
        out.len(),
        |i: int|
            Seq::new(
                out[i].len(),
                |j: int|
                    if i < m.len() && j < m[0].len() {
                        out[i][j].add_spec(m[i][j].mul_spec(s))
                    } else {
                        out[i][j]
                    },
            ),
    )
}

/// Whether every operation that computes `scaled_into(out, m, s)` is
/// defined.
pub open spec fn scaled_into_ok<T: Scalar>(out: Seq<Seq<T>>, m: Seq<Seq<T>>, s: T) -> bool {
    forall|i: int, j: int|
        0 <= i < m.len() && 0 <= j < m[0].len() ==> (#[trigger] m[i][j]).mul_ok(s)
            && out[i][j].add_ok(m[i][j].mul_spec(s))
}

/// The product of `m` and the scalar `s`, each cell accumulated from zero.
pub open spec fn scaled<T: Scalar>(m: Seq<Seq<T>>, s: T) -> Seq<Seq<T>> {
    Seq::new(
        m.len(),
        |i: int| Seq::new(m[0].len(), |j: int| T::zero_spec().add_spec(m[i][j].mul_spec(s))),
    )
}

/// Whether every operation that computes `scaled(m, s)` is defined.
pub open spec fn scaled_ok<T: Scalar>(m: Seq<Seq<T>>, s: T) -> bool {
    forall|i: int, j: int|
        0 <= i < m.len() && 0 <= j < m[0].len() ==> (#[trigger] m[i][j]).mul_ok(s)
            && T::zero_spec().add_ok(m[i][j].mul_spec(s))
}

/// `out` with `a[i][j] <op> b[i][j]` in each cell that `a` has.
pub open spec fn zip_into<T: Scalar>(
    op: BinOp,
    out: Seq<Seq<T>>,
    a: Seq<Seq<T>>,
    b: Seq<Seq<T>>,
) -> Seq<Seq<T>> {
    Seq::new(
        out.len(),
        |i: int|
            Seq::new(
                out[i].len(),
                |j: int|
                    if i < a.len() && j < a[0].len() {
                        op_spec(op, a[i][j], b[i][j])
                    } else {
                        out[i][j]
                    },
            ),
    )
}

/// The elementwise `a[i][j] <op> b[i][j]`, in the shape of `a`.
pub open spec fn zip_spec<T: Scalar>(op: BinOp, a: Seq<Seq<T>>, b: Seq<Seq<T>>) -> Seq<Seq<T>> {
    Seq::new(a.len(), |i: int| Seq::new(a[0].len(), |j: int| op_spec(op, a[i][j], b[i][j])))
}

/// Whether every `a[i][j] <op> b[i][j]` is defined.
pub open spec fn zip_ok<T: Scalar>(op: BinOp, a: Seq<Seq<T>>, b: Seq<Seq<T>>) -> bool {
    forall|i: int, j: int|
        0 <= i < a.len() && 0 <= j < a[0].len() ==> #[trigger] op_ok(op, a[i][j], b[i][j])
}

/// `out` with `m[i][j] <op> s` in each cell that `m` has.
pub open spec fn scale_into<T: Scalar>(
    op: BinOp,
    out: Seq<Seq<T>>,
    m: Seq<Seq<T>>,
    s: T,
) -> Seq<Seq<T>> {
    Seq::new(
        out.len(),
        |i: int|
            Seq::new(
                out[i].len(),
                |j: int|
                    if i < m.len() && j < m[0].len() {
                        op_spec(op, m[i][j], s)
                    } else {
                        out[i][j]
                    },
            ),
    )
}

/// The elementwise `m[i][j] <op> s`, in the shape of `m`.
pub open spec fn scale_spec<T: Scalar>(op: BinOp, m: Seq<Seq<T>>, s: T) -> Seq<Seq<T>> {
    Seq::new(m.len(), |i: int| Seq::new(m[0].len(), |j: int| op_spec(op, m[i][j], s)))
}

/// Whether every `m[i][j] <op> s` is defined.
pub open spec fn scale_ok<T: Scalar>(op: BinOp, m: Seq<Seq<T>>, s: T) -> bool {
    forall|i: int, j: int|
        0 <= i < m.len() && 0 <= j < m[0].len() ==> #[trigger] op_ok(op, m[i][j], s)
}

/// `out` with `out[i] + m[i][0] * v[0] + m[i][1] * v[1] + ...` at each
/// index `i` that `m` has a row for.
pub open spec fn times_column<T: Scalar>(out: Seq<T>, m: Seq<Seq<T>>, v: Seq<T>) -> Seq<T> {
    Seq::new(
        out.len(),
        |i: int|
            if i < m.len() {
                dot_spec(out[i], m[i], v, v.len())
            } else {
                out[i]
            },
    )
}

/// Whether every operation that computes `times_column(out, m, v)` is
/// defined.
pub open spec fn times_column_ok<T: Scalar>(out: Seq<T>, m: Seq<Seq<T>>, v: Seq<T>) -> bool {
    forall|i: int| 0 <= i < m.len() ==> #[trigger] dot_ok(out[i], m[i], v, v.len())
}

impl<T: Scalar> Matrix<T> {
    /// The matrix product, accumulated into `out`: each cell `(i, j)` of
    /// the product gains `a[i][k] * b[k][j]` for every `k`, in order. The
    /// columns of `a` must match the rows of `b`.
    pub fn mul<'o>(out: &'o mut Matrix<T>, a: &Matrix<T>, b: &Matrix<T>) -> (r: &'o mut Matrix<T>)
        requires
            a@[0].len() == b@.len(),
            a@.len() <= old(out)@.len(),
            b@[0].len() <= old(out)@[0].len(),
            product_into_ok(old(out)@, a@, b@),
        ensures
            r@ == product_into(old(out)@, a@, b@),
            *final(out) == *final(r),
    {
        let a_rows: usize = a.rows();
        let a_cols: usize = a.cols();
        let b_cols: usize = b.cols();
        let out_cols: usize = out.cols();
        let ghost start = out@;
        let ghost target = product_into(start, a@, b@);
        let mut i: usize = 0;
        while i < a_rows
            invariant
                i <= a_rows,
                a_rows <= start.len(),
                b_cols <= out_cols,
                is_grid(a@, a_rows as nat, a_cols as nat),
                is_grid(b@, a_cols as nat, b_cols as nat),
                is_grid(start, start.len(), out_cols as nat),
                product_into_ok(start, a@, b@),
                target == product_into(start, a@, b@),
                written_up_to(out@, start, target, b_cols as int, i as int, 0),
            decreases a_rows - i,
        {
            let mut j: usize = 0;
            while j < b_cols
                invariant
                    i < a_rows,
                    j <= b_cols,
                    a_rows <= start.len(),
                    b_cols <= out_cols,
                    is_grid(a@, a_rows as nat, a_cols as nat),
                    is_grid(b@, a_cols as nat, b_cols as nat),
                    is_grid(start, start.len(), out_cols as nat),
                    product_into_ok(start, a@, b@),
                    target == product_into(start, a@, b@),
                    written_up_to(out@, start, target, b_cols as int, i as int, j as int),
                decreases b_cols - j,
            {
                let ghost col = column(b@, j as int);
                assert(dot_ok(start[i as int][j as int], a@[i as int], col, a_cols as nat));
                let mut k: usize = 0;
                while k < a_cols
                    invariant
                        i < a_rows,
                        j < b_cols,
                        k <= a_cols,
                        a_rows <= start.len(),
                        b_cols <= out_cols,
                        is_grid(a@, a_rows as nat, a_cols as nat),
                        is_grid(b@, a_cols as nat, b_cols as nat),
                        is_grid(start, start.len(), out_cols as nat),
                        col == column(b@, j as int),
                        dot_ok(start[i as int][j as int], a@[i as int], col, a_cols as nat),
                        target == product_into(start, a@, b@),
                        written_up_to(
                            out@,
                            start,
                            with_cell(
                                target,
                                i as int,
                                j as int,
                                dot_spec(start[i as int][j as int], a@[i as int], col, k as nat),
                            ),
                            b_cols as int,
                            i as int,
                            j + 1,
                        ),
                    decreases a_cols - k,
                {
                    proof {
                        lemma_dot_ok_prefix(
                            start[i as int][j as int],
                            a@[i as int],
                            col,
                            a_cols as nat,
                            (k + 1) as nat,
                        );
                    }
                    let t = a.get(i, k).mul(b.get(k, j));
                    let x = out.get(i, j).add(&t);
                    *out.get_mut(i, j) = x;
                    k = k + 1;
                }
                j = j + 1;
            }
            i = i + 1;
        }
        assert(out@ =~~= target);
        out
    }

    /// The product with a scalar, accumulated into `out`: each cell that
    /// `m` has gains `m[i][j] * s`.
    pub fn smul<'o>(out: &'o mut Matrix<T>, m: &Matrix<T>, s: &T) -> (r: &'o mut Matrix<T>)
        requires
            m@.len() <= old(out)@.len(),
            m@[0].len() <= old(out)@[0].len(),
            scaled_into_ok(old(out)@, m@, *s),
        ensures
            r@ == scaled_into(old(out)@, m@, *s),
            *final(out) == *final(r),
    {
        let rows: usize = m.rows();
        let cols: usize = m.cols();
        let out_cols: usize = out.cols();
        let ghost start = out@;
        let ghost target = scaled_into(start, m@, *s);
        let mut i: usize = 0;
        while i < rows
            invariant
                i <= rows,
                rows <= start.len(),
                cols <= out_cols,
                is_grid(m@, rows as nat, cols as nat),
                is_grid(start, start.len(), out_cols as nat),
                scaled_into_ok(start, m@, *s),
                target == scaled_into(start, m@, *s),
                written_up_to(out@, start, target, cols as int, i as int, 0),
            decreases rows - i,
        {
            let mut j: usize = 0;
            while j < cols
                invariant
                    i < rows,
                    j <= cols,
                    rows <= start.len(),
                    cols <= out_cols,
                    is_grid(m@, rows as nat, cols as nat),
                    is_grid(start, start.len(), out_cols as nat),
                    scaled_into_ok(start, m@, *s),
                    target == scaled_into(start, m@, *s),
                    written_up_to(out@, start, target, cols as int, i as int, j as int),
                decreases cols - j,
            {
                assert(m@[i as int][j as int].mul_ok(*s));
                let t = m.get(i, j).mul(s);
                let x = out.get(i, j).add(&t);
                *out.get_mut(i, j) = x;
                j = j + 1;
            }
            i = i + 1;
        }
        assert(out@ =~~= target);
        out
    }

    /// Writes `a[i][j] <op> b[i][j]` to each cell of `out` that `a` has, and
    /// leaves the rest of `out` alone. `a` and `b` have the same shape.
    pub fn zip<'o>(op: BinOp, out: &'o mut Matrix<T>, a: &Matrix<T>, b: &Matrix<T>) -> (r:
        &'o mut Matrix<T>)
        requires
            a@.len() == b@.len(),
            a@[0].len() == b@[0].len(),
            a@.len() <= old(out)@.len(),
            a@[0].len() <= old(out)@[0].len(),
            zip_ok(op, a@, b@),
        ensures
            r@ == zip_into(op, old(out)@, a@, b@),
            *final(out) == *final(r),
    {
        let rows: usize = a.rows();
        let cols: usize = a.cols();
        let b_cols: usize = b.cols();
        let out_cols: usize = out.cols();
        let ghost start = out@;
        let ghost target = zip_into(op, start, a@, b@);
        let mut i: usize = 0;
        while i < rows
            invariant
                i <= rows,
                cols == b_cols,
                rows <= start.len(),
                cols <= out_cols,
                is_grid(a@, rows as nat, cols as nat),
                is_grid(b@, rows as nat, cols as nat),
                is_grid(start, start.len(), out_cols as nat),
                zip_ok(op, a@, b@),
                target == zip_into(op, start, a@, b@),
                written_up_to(out@, start, target, cols as int, i as int, 0),
            decreases rows - i,
        {
            let mut j: usize = 0;
            while j < cols
                invariant
                    i < rows,
                    j <= cols,
                    rows <= start.len(),
                    cols <= out_cols,
                    is_grid(a@, rows as nat, cols as nat),
                    is_grid(b@, rows as nat, cols as nat),
                    is_grid(start, start.len(), out_cols as nat),
                    zip_ok(op, a@, b@),
                    target == zip_into(op, start, a@, b@),
                    written_up_to(out@, start, target, cols as int, i as int, j as int),
                decreases cols - j,
            {
                assert(op_ok(op, a@[i as int][j as int], b@[i as int][j as int]));
                let x = apply(op, a.get(i, j), b.get(i, j));
                *out.get_mut(i, j) = x;
                j = j + 1;
            }
            i = i + 1;
        }
        assert(out@ =~~= target);
        out
    }

    /// Writes `m[i][j] <op> s` to each cell of `out` that `m` has, and
    /// leaves the rest of `out` alone.
    pub fn scale<'o>(op: BinOp, out: &'o mut Matrix<T>, m: &Matrix<T>, s: &T) -> (r:
        &'o mut Matrix<T>)
        requires
            m@.len() <= old(out)@.len(),
            m@[0].len() <= old(out)@[0].len(),
            scale_ok(op, m@, *s),
        ensures
            r@ == scale_into(op, old(out)@, m@, *s),
            *final(out) == *final(r),
    {
        let rows: usize = m.rows();
        let cols: usize = m.cols();
        let out_cols: usize = out.cols();
        let ghost start = out@;
        let ghost target = scale_into(op, start, m@, *s);
        let mut i: usize = 0;
        while i < rows
            invariant
                i <= rows,
                rows <= start.len(),
                cols <= out_cols,
                is_grid(m@, rows as nat, cols as nat),
                is_grid(start, start.len(), out_cols as nat),
                scale_ok(op, m@, *s),
                target == scale_into(op, start, m@, *s),
                written_up_to(out@, start, target, cols as int, i as int, 0),
            decreases rows - i,
        {
            let mut j: usize = 0;
            while j < cols
                invariant
                    i < rows,
                    j <= cols,
                    rows <= start.len(),
                    cols <= out_cols,
                    is_grid(m@, rows as nat, cols as nat),
                    is_grid(start, start.len(), out_cols as nat),
                    scale_ok(op, m@, *s),
                    target == scale_into(op, start, m@, *s),
                    written_up_to(out@, start, target, cols as int, i as int, j as int),
                decreases cols - j,
            {
                assert(op_ok(op, m@[i as int][j as int], *s));
                let x = apply(op, m.get(i, j), s);
                *out.get_mut(i, j) = x;
                j = j + 1;
            }
            i = i + 1;
        }
        assert(out@ =~~= target);
        out
    }
}

impl<T: Scalar> Matrix<T> {
    /// The elementwise sum: `out[i][j] = a[i][j] + b[i][j]`. `a` and `b`
    /// have the same shape.
    pub fn add<'o>(out: &'o mut Matrix<T>, a: &Matrix<T>, b: &Matrix<T>) -> (r: &'o mut Matrix<T>)
        requires
            a@.len() == b@.len(),
            a@[0].len() == b@[0].len(),
            a@.len() <= old(out)@.len(),
            a@[0].len() <= old(out)@[0].len(),
            zip_ok(BinOp::Add, a@, b@),
        ensures
            r@ == zip_into(BinOp::Add, old(out)@, a@, b@),
            *final(out) == *final(r),
    {
        Matrix::zip(BinOp::Add, out, a, b)
    }

    /// The sum with a scalar: `out[i][j] = m[i][j] + s`.
    pub fn sadd<'o>(out: &'o mut Matrix<T>, m: &Matrix<T>, s: &T) -> (r: &'o mut Matrix<T>)
        requires
            m@.len() <= old(out)@.len(),
            m@[0].len() <= old(out)@[0].len(),
            scale_ok(BinOp::Add, m@, *s),
        ensures
            r@ == scale_into(BinOp::Add, old(out)@, m@, *s),
            *final(out) == *final(r),
    {
        Matrix::scale(BinOp::Add, out, m, s)
    }

    /// The elementwise difference: `out[i][j] = a[i][j] - b[i][j]`. `a` and `b`
    /// have the same shape.
    pub fn sub<'o>(out: &'o mut Matrix<T>, a: &Matrix<T>, b: &Matrix<T>) -> (r: &'o mut Matrix<T>)
        requires
            a@.len() == b@.len(),
            a@[0].len() == b@[0].len(),
            a@.len() <= old(out)@.len(),
            a@[0].len() <= old(out)@[0].len(),
            zip_ok(BinOp::Sub, a@, b@),
        ensures
            r@ == zip_into(BinOp::Sub, old(out)@, a@, b@),
            *final(out) == *final(r),
    {
        Matrix::zip(BinOp::Sub, out, a, b)
    }

    /// The difference with a scalar: `out[i][j] = m[i][j] - s`.
    pub fn ssub<'o>(out: &'o mut Matrix<T>, m: &Matrix<T>, s: &T) -> (r: &'o mut Matrix<T>)
        requires
            m@.len() <= old(out)@.len(),
            m@[0].len() <= old(out)@[0].len(),
            scale_ok(BinOp::Sub, m@, *s),
        ensures
            r@ == scale_into(BinOp::Sub, old(out)@, m@, *s),
            *final(out) == *final(r),
    {
        Matrix::scale(BinOp::Sub, out, m, s)
    }

    /// The elementwise quotient: `out[i][j] = a[i][j] / b[i][j]`. `a` and
    /// `b` have the same shape.
    pub fn div<'o>(out: &'o mut Matrix<T>, a: &Matrix<T>, b: &Matrix<T>) -> (r: &'o mut Matrix<T>)
        requires
            a@.len() == b@.len(),
            a@[0].len() == b@[0].len(),
            a@.len() <= old(out)@.len(),
            a@[0].len() <= old(out)@[0].len(),
            zip_ok(BinOp::Div, a@, b@),
        ensures
            r@ == zip_into(BinOp::Div, old(out)@, a@, b@),
            *final(out) == *final(r),
    {
        Matrix::zip(BinOp::Div, out, a, b)
    }

    /// The quotient with a scalar: `out[i][j] = m[i][j] / s`.
    pub fn sdiv<'o>(out: &'o mut Matrix<T>, m: &Matrix<T>, s: &T) -> (r: &'o mut Matrix<T>)
        requires
            m@.len() <= old(out)@.len(),
            m@[0].len() <= old(out)@[0].len(),
            scale_ok(BinOp::Div, m@, *s),
        ensures
            r@ == scale_into(BinOp::Div, old(out)@, m@, *s),
            *final(out) == *final(r),
    {
        Matrix::scale(BinOp::Div, out, m, s)
    }

    /// The elementwise remainder: `out[i][j] = a[i][j] % b[i][j]`. `a` and
    /// `b` have the same shape.
    pub fn rem<'o>(out: &'o mut Matrix<T>, a: &Matrix<T>, b: &Matrix<T>) -> (r: &'o mut Matrix<T>)
        requires
            a@.len() == b@.len(),
            a@[0].len() == b@[0].len(),
            a@.len() <= old(out)@.len(),
            a@[0].len() <= old(out)@[0].len(),
            zip_ok(BinOp::Rem, a@, b@),
        ensures
            r@ == zip_into(BinOp::Rem, old(out)@, a@, b@),
            *final(out) == *final(r),
    {
        Matrix::zip(BinOp::Rem, out, a, b)
    }

    /// The remainder with a scalar: `out[i][j] = m[i][j] % s`.
    pub fn srem<'o>(out: &'o mut Matrix<T>, m: &Matrix<T>, s: &T) -> (r: &'o mut Matrix<T>)
        requires
            m@.len() <= old(out)@.len(),
            m@[0].len() <= old(out)@[0].len(),
            scale_ok(BinOp::Rem, m@, *s),
        ensures
            r@ == scale_into(BinOp::Rem, old(out)@, m@, *s),
            *final(out) == *final(r),
    {
        Matrix::scale(BinOp::Rem, out, m, s)
    }

    /// The product of the matrix `m` and the column vector `v`, accumulated
    /// into `out`: `out[i]` gains `m[i][j] * v[j]` for every `j`, in order.
    /// The columns of `m` must match the length of `v`.
    pub fn vmul<'o>(out: &'o mut Vector<T>, m: &Matrix<T>, v: &Vector<T>) -> (r: &'o mut Vector<T>)
        requires
            m@[0].len() == v@.len(),
            m@.len() <= old(out)@.len(),
            times_column_ok(old(out)@, m@, v@),
        ensures
            r@ == times_column(old(out)@, m@, v@),
            *final(out) == *final(r),
    {
        let rows: usize = m.rows();
        let cols: usize = m.cols();
        let ghost start = out@;
        let mut i: usize = 0;
        while i < rows
            invariant
                i <= rows,
                cols == v@.len(),
                rows <= start.len(),
                out@.len() == start.len(),
                is_grid(m@, rows as nat, cols as nat),
                times_column_ok(start, m@, v@),
                forall|c: int|
                    0 <= c < start.len() ==> #[trigger] out@[c] == (if c < i {
                        dot_spec(start[c], m@[c], v@, cols as nat)
                    } else {
                        start[c]
                    }),
            decreases rows - i,
        {
            let mut j: usize = 0;
            while j < cols
                invariant
                    i < rows,
                    j <= cols,
                    cols == v@.len(),
                    rows <= start.len(),
                    out@.len() == start.len(),
                    is_grid(m@, rows as nat, cols as nat),
                    times_column_ok(start, m@, v@),
                    forall|c: int|
                        0 <= c < start.len() ==> #[trigger] out@[c] == (if c == i {
                            dot_spec(start[c], m@[c], v@, j as nat)
                        } else if c < i {
                            dot_spec(start[c], m@[c], v@, cols as nat)
                        } else {
                            start[c]
                        }),
                decreases cols - j,
            {
                proof {
                    assert(dot_ok(start[i as int], m@[i as int], v@, cols as nat));
                    lemma_dot_ok_prefix(
                        start[i as int],
                        m@[i as int],
                        v@,
                        cols as nat,
                        (j + 1) as nat,
                    );
                }
                let t = m.get(i, j).mul(v.get(j));
                let x = out.get(i).add(&t);
                *out.get_mut(i) = x;
                j = j + 1;
            }
            i = i + 1;
        }
        assert(out@ =~= times_column(start, m@, v@));
        out
    }
}

/// `&a * &b`: the matrix product in a fresh matrix.
impl<'a, 'b, T: Scalar> core::ops::Mul<&'b Matrix<T>> for &'a Matrix<T> {
    type Output = Matrix<T>;

    fn mul(self, other: &'b Matrix<T>) -> (r: Matrix<T>)
        ensures
            r@ == product(self@, other@),
    {
        let mut out = Matrix::zeroed(self.rows(), other.cols());
        Matrix::<T>::mul(&mut out, self, other);
        assert(out@ =~~= product(self@, other@));
        out
    }
}

/// The operands that this operator form accepts. The result is stated by
/// the operator itself.
impl<'a, 'b, T: Scalar> vstd::std_specs::ops::MulSpecImpl<&'b Matrix<T>> for &'a Matrix<T> {
    open spec fn obeys_mul_spec() -> bool {
        false
    }

    open spec fn mul_req(self, other: &'b Matrix<T>) -> bool {
        self@[0].len() == other@.len() && product_ok(self@, other@)
    }

    open spec fn mul_spec(self, other: &'b Matrix<T>) -> Matrix<T> {
        arbitrary()
    }
}

/// `&m * &s`: the product with a scalar in a fresh matrix.
impl<'a, 'b, T: Scalar> core::ops::Mul<&'b T> for &'a Matrix<T> {
    type Output = Matrix<T>;

    fn mul(self, s: &'b T) -> (r: Matrix<T>)
        ensures
            r@ == scaled(self@, *s),
    {
        let mut out = Matrix::zeroed(self.rows(), self.cols());
        Matrix::<T>::smul(&mut out, self, s);
        assert(out@ =~~= scaled(self@, *s));
        out
    }
}

/// The operands that this operator form accepts. The result is stated by
/// the operator itself.
impl<'a, 'b, T: Scalar> vstd::std_specs::ops::MulSpecImpl<&'b T> for &'a Matrix<T> {
    open spec fn obeys_mul_spec() -> bool {
        false
    }

    open spec fn mul_req(self, s: &'b T) -> bool {
        scaled_ok(self@, *s)
    }

    open spec fn mul_spec(self, s: &'b T) -> Matrix<T> {
        arbitrary()
    }
}

/// `&m * &v`: the product of a matrix and a column vector in a fresh vector.
impl<'a, 'b, T: Scalar> core::ops::Mul<&'b Vector<T>> for &'a Matrix<T> {
    type Output = Vector<T>;

    fn mul(self, v: &'b Vector<T>) -> (r: Vector<T>)
        ensures
            r@ == times_column(zero_seq::<T>(self@.len()), self@, v@),
    {
        let mut out = Vector::zeroed(self.rows());
        Matrix::<T>::vmul(&mut out, self, v);
        out
    }
}

/// The operands that this operator form accepts. The result is stated by
/// the operator itself.
impl<'a, 'b, T: Scalar> vstd::std_specs::ops::MulSpecImpl<&'b Vector<T>> for &'a Matrix<T> {
    open spec fn obeys_mul_spec() -> bool {
        false
    }

    open spec fn mul_req(self, v: &'b Vector<T>) -> bool {
        &&& self@[0].len() == v@.len()
        &&& times_column_ok(zero_seq::<T>(self@.len()), self@, v@)
    }

    open spec fn mul_spec(self, v: &'b Vector<T>) -> Vector<T> {
        arbitrary()
    }
}

/// `&a + &b`: the elementwise sum in a fresh matrix.
impl<'a, 'b, T: Scalar> core::ops::Add<&'b Matrix<T>> for &'a Matrix<T> {
    type Output = Matrix<T>;

    fn add(self, other: &'b Matrix<T>) -> (r: Matrix<T>)
        ensures
            r@ == zip_spec(BinOp::Add, self@, other@),
    {
        let mut out = Matrix::zeroed(self.rows(), other.cols());
        Matrix::<T>::add(&mut out, self, other);
        assert(out@ =~~= zip_spec(BinOp::Add, self@, other@));
        out
    }
}

/// The operands that this operator form accepts. The result is stated by
/// the operator itself.
impl<'a, 'b, T: Scalar> vstd::std_specs::ops::AddSpecImpl<&'b Matrix<T>> for &'a Matrix<T> {
    open spec fn obeys_add_spec() -> bool {
        false
    }

    open spec fn add_req(self, other: &'b Matrix<T>) -> bool {
        &&& self@.len() == other@.len()
        &&& self@[0].len() == other@[0].len()
        &&& zip_ok(BinOp::Add, self@, other@)
    }

    open spec fn add_spec(self, other: &'b Matrix<T>) -> Matrix<T> {
        arbitrary()
    }
}

/// `&m + &s`: the sum with a scalar in a fresh matrix.
impl<'a, 'b, T: Scalar> core::ops::Add<&'b T> for &'a Matrix<T> {
    type Output = Matrix<T>;

    fn add(self, s: &'b T) -> (r: Matrix<T>)
        ensures
            r@ == scale_spec(BinOp::Add, self@, *s),
    {
        let mut out = Matrix::zeroed(self.rows(), self.cols());
        Matrix::<T>::sadd(&mut out, self, s);
        assert(out@ =~~= scale_spec(BinOp::Add, self@, *s));
        out
    }
}

/// The operands that this operator form accepts. The result is stated by
/// the operator itself.
impl<'a, 'b, T: Scalar> vstd::std_specs::ops::AddSpecImpl<&'b T> for &'a Matrix<T> {
    open spec fn obeys_add_spec() -> bool {
        false
    }

    open spec fn add_req(self, s: &'b T) -> bool {
        scale_ok(BinOp::Add, self@, *s)
    }

    open spec fn add_spec(self, s: &'b T) -> Matrix<T> {
        arbitrary()
    }
}

/// `&a - &b`: the elementwise difference in a fresh matrix.
impl<'a, 'b, T: Scalar> core::ops::Sub<&'b Matrix<T>> for &'a Matrix<T> {
    type Output = Matrix<T>;

    fn sub(self, other: &'b Matrix<T>) -> (r: Matrix<T>)
        ensures
            r@ == zip_spec(BinOp::Sub, self@, other@),
    {
        let mut out = Matrix::zeroed(self.rows(), other.cols());
        Matrix::<T>::sub(&mut out, self, other);
        assert(out@ =~~= zip_spec(BinOp::Sub, self@, other@));
        out
    }
}

/// The operands that this operator form accepts. The result is stated by
/// the operator itself.
impl<'a, 'b, T: Scalar> vstd::std_specs::ops::SubSpecImpl<&'b Matrix<T>> for &'a Matrix<T> {
    open spec fn obeys_sub_spec() -> bool {
        false
    }

    open spec fn sub_req(self, other: &'b Matrix<T>) -> bool {
        &&& self@.len() == other@.len()
        &&& self@[0].len() == other@[0].len()
        &&& zip_ok(BinOp::Sub, self@, other@)
    }

    open spec fn sub_spec(self, other: &'b Matrix<T>) -> Matrix<T> {
        arbitrary()
    }
}

/// `&m - &s`: the difference with a scalar in a fresh matrix.
impl<'a, 'b, T: Scalar> core::ops::Sub<&'b T> for &'a Matrix<T> {
    type Output = Matrix<T>;

    fn sub(self, s: &'b T) -> (r: Matrix<T>)
        ensures
            r@ == scale_spec(BinOp::Sub, self@, *s),
    {
        let mut out = Matrix::zeroed(self.rows(), self.cols());
        Matrix::<T>::ssub(&mut out, self, s);
        assert(out@ =~~= scale_spec(BinOp::Sub, self@, *s));
        out
    }
}

/// The operands that this operator form accepts. The result is stated by
/// the operator itself.
impl<'a, 'b, T: Scalar> vstd::std_specs::ops::SubSpecImpl<&'b T> for &'a Matrix<T> {
    open spec fn obeys_sub_spec() -> bool {
        false
    }

    open spec fn sub_req(self, s: &'b T) -> bool {
        scale_ok(BinOp::Sub, self@, *s)
    }

    open spec fn sub_spec(self, s: &'b T) -> Matrix<T> {
        arbitrary()
    }
}

/// `&a / &b`: the elementwise quotient in a fresh matrix.
impl<'a, 'b, T: Scalar> core::ops::Div<&'b Matrix<T>> for &'a Matrix<T> {
    type Output = Matrix<T>;

    fn div(self, other: &'b Matrix<T>) -> (r: Matrix<T>)
        ensures
            r@ == zip_spec(BinOp::Div, self@, other@),
    {
        let mut out = Matrix::zeroed(self.rows(), other.cols());
        Matrix::<T>::div(&mut out, self, other);
        assert(out@ =~~= zip_spec(BinOp::Div, self@, other@));
        out
    }
}

/// The operands that this operator form accepts. The result is stated by
/// the operator itself.
impl<'a, 'b, T: Scalar> vstd::std_specs::ops::DivSpecImpl<&'b Matrix<T>> for &'a Matrix<T> {
    open spec fn obeys_div_spec() -> bool {
        false
    }

    open spec fn div_req(self, other: &'b Matrix<T>) -> bool {
        &&& self@.len() == other@.len()
        &&& self@[0].len() == other@[0].len()
        &&& zip_ok(BinOp::Div, self@, other@)
    }

    open spec fn div_spec(self, other: &'b Matrix<T>) -> Matrix<T> {
        arbitrary()
    }
}

/// `&m / &s`: the quotient with a scalar in a fresh matrix.
impl<'a, 'b, T: Scalar> core::ops::Div<&'b T> for &'a Matrix<T> {
    type Output = Matrix<T>;

    fn div(self, s: &'b T) -> (r: Matrix<T>)
        ensures
            r@ == scale_spec(BinOp::Div, self@, *s),
    {
        let mut out = Matrix::zeroed(self.rows(), self.cols());
        Matrix::<T>::sdiv(&mut out, self, s);
        assert(out@ =~~= scale_spec(BinOp::Div, self@, *s));
        out
    }
}

/// The operands that this operator form accepts. The result is stated by
/// the operator itself.
impl<'a, 'b, T: Scalar> vstd::std_specs::ops::DivSpecImpl<&'b T> for &'a Matrix<T> {
    open spec fn obeys_div_spec() -> bool {
        false
    }

    open spec fn div_req(self, s: &'b T) -> bool {
        scale_ok(BinOp::Div, self@, *s)
    }

    open spec fn div_spec(self, s: &'b T) -> Matrix<T> {
        arbitrary()
    }
}

/// `&a % &b`: the elementwise remainder in a fresh matrix.
impl<'a, 'b, T: Scalar> core::ops::Rem<&'b Matrix<T>> for &'a Matrix<T> {
    type Output = Matrix<T>;

    fn rem(self, other: &'b Matrix<T>) -> (r: Matrix<T>)
        ensures
            r@ == zip_spec(BinOp::Rem, self@, other@),
    {
        let mut out = Matrix::zeroed(self.rows(), other.cols());
        Matrix::<T>::rem(&mut out, self, other);
        assert(out@ =~~= zip_spec(BinOp::Rem, self@, other@));
        out
    }
}

/// The operands that this operator form accepts. The result is stated by
/// the operator itself.
impl<'a, 'b, T: Scalar> vstd::std_specs::ops::RemSpecImpl<&'b Matrix<T>> for &'a Matrix<T> {
    open spec fn obeys_rem_spec() -> bool {
        false
    }

    open spec fn rem_req(self, other: &'b Matrix<T>) -> bool {
        &&& self@.len() == other@.len()
        &&& self@[0].len() == other@[0].len()
        &&& zip_ok(BinOp::Rem, self@, other@)
    }

    open spec fn rem_spec(self, other: &'b Matrix<T>) -> Matrix<T> {
        arbitrary()
    }
}

/// `&m % &s`: the remainder with a scalar in a fresh matrix.
impl<'a, 'b, T: Scalar> core::ops::Rem<&'b T> for &'a Matrix<T> {
    type Output = Matrix<T>;

    fn rem(self, s: &'b T) -> (r: Matrix<T>)
        ensures
            r@ == scale_spec(BinOp::Rem, self@, *s),
    {
        let mut out = Matrix::zeroed(self.rows(), self.cols());
        Matrix::<T>::srem(&mut out, self, s);
        assert(out@ =~~= scale_spec(BinOp::Rem, self@, *s));
        out
    }
}

/// The operands that this operator form accepts. The result is stated by
/// the operator itself.
impl<'a, 'b, T: Scalar> vstd::std_specs::ops::RemSpecImpl<&'b T> for &'a Matrix<T> {
    open spec fn obeys_rem_spec() -> bool {
        false
    }

    open spec fn rem_req(self, s: &'b T) -> bool {
        scale_ok(BinOp::Rem, self@, *s)
    }

    open spec fn rem_spec(self, s: &'b T) -> Matrix<T> {
        arbitrary()
    }
}

/// `-&m`: the inverse of the matrix. For a matrix the unary minus stands
/// for inversion, not for elementwise negation as it does for a vector.
impl<'a, T: Scalar> core::ops::Neg for &'a Matrix<T> {
    type Output = Matrix<T>;

    fn neg(self) -> (r: Matrix<T>)
        ensures
            r@ == inverse_of(self@),
    {
        self.inverse()
    }
}

/// The operands that this operator form accepts. The result is stated by
/// the operator itself.
impl<'a, T: Scalar> vstd::std_specs::ops::NegSpecImpl for &'a Matrix<T> {
    open spec fn obeys_neg_spec() -> bool {
        false
    }

    open spec fn neg_req(self) -> bool {
        self@.len() == self@[0].len() && inverse_ok(self@)
    }

    open spec fn neg_spec(self) -> Matrix<T> {
        arbitrary()
    }
}

} // verus!
