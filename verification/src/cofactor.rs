//! Determinant, adjugate and inverse by cofactor expansion along the first
//! row, on a square corner of a vector of vectors.
//!
//! The functions take a `size` and work on the top-left `size` x `size`
//! corner of their arguments, so that one scratch buffer can hold the
//! minors of every size.

use crate::matrix::zeros;
use crate::matrix_ops::written_up_to;
use crate::scalar::Scalar;
use crate::vector::{grid, Vector};
use vstd::prelude::*;

verus! {

/// Whether `m` has at least `n` rows of at least `n` elements each.
pub open spec fn has_corner<T>(m: Seq<Seq<T>>, n: nat) -> bool {
    &&& n <= m.len()
    &&& forall|i: int| 0 <= i < n ==> n <= (#[trigger] m[i]).len()
}

/// The top-left `n` x `n` corner of `m`.
pub open spec fn corner<T>(m: Seq<Seq<T>>, n: nat) -> Seq<Seq<T>> {
    Seq::new(n, |i: int| Seq::new(n, |j: int| m[i][j]))
}

/// `out` with the square grid `c` written over its top-left corner.
pub open spec fn with_corner<T>(out: Seq<Seq<T>>, c: Seq<Seq<T>>) -> Seq<Seq<T>> {
    Seq::new(
        out.len(),
        |i: int|
            Seq::new(
                out[i].len(),
                |j: int|
                    if i < c.len() && j < c.len() {
                        c[i][j]
                    } else {
                        out[i][j]
                    },
            ),
    )
}

/// The index in the full grid of index `i` of a minor that lacks index `p`.
pub open spec fn skip_index(i: int, p: int) -> int {
    if i < p {
        i
    } else {
        i + 1
    }
}

/// How many of the indices `0..i` a minor that lacks index `p` keeps.
pub open spec fn kept(i: int, p: int) -> int {
    if i <= p {
        i
    } else {
        i - 1
    }
}

/// The square grid `m` without row `p` and column `q`.
pub open spec fn minor<T>(m: Seq<Seq<T>>, p: int, q: int) -> Seq<Seq<T>> {
    Seq::new(
        (m.len() - 1) as nat,
        |i: int|
            Seq::new((m.len() - 1) as nat, |j: int| m[skip_index(i, p)][skip_index(j, q)]),
    )
}

/// `x` for even `k`, its negation for odd `k`.
pub open spec fn signed<T: Scalar>(x: T, k: int) -> T {
    if k % 2 == 0 {
        x
    } else {
        x.neg_spec()
    }
}

/// The determinant of the square grid `m`: its only element if it has one
/// row, else the cofactor expansion along row 0.
pub open spec fn det<T: Scalar>(m: Seq<Seq<T>>) -> T
    decreases m.len(), 1nat, 0nat,
{
    if m.len() <= 1 {
        m[0][0]
    } else {
        expansion(m, m.len())
    }
}

/// The term of column `f` in the expansion along row 0: the element, negated
/// for odd `f`, times the determinant of its minor.
pub open spec fn term<T: Scalar>(m: Seq<Seq<T>>, f: int) -> T
    recommends
        0 <= f < m.len(),
    decreases m.len(), 0nat, 0nat,
    when m.len() >= 1
{
    signed(m[0][f], f).mul_spec(det(minor(m, 0, f)))
}

/// Zero plus the terms of columns `0..k`, added in column order.
pub open spec fn expansion<T: Scalar>(m: Seq<Seq<T>>, k: nat) -> T
    decreases m.len(), 0nat, k + 1,
{
    if k == 0 || m.len() < 1 {
        T::zero_spec()
    } else {
        expansion(m, (k - 1) as nat).add_spec(term(m, k - 1))
    }
}

/// Whether every operation that computes `det(m)` is defined.
pub open spec fn det_ok<T: Scalar>(m: Seq<Seq<T>>) -> bool
    decreases m.len(), 1nat, 0nat,
{
    m.len() <= 1 || expansion_ok(m, m.len())
}

/// Whether every operation that computes `term(m, f)` is defined.
pub open spec fn term_ok<T: Scalar>(m: Seq<Seq<T>>, f: int) -> bool
    recommends
        0 <= f < m.len(),
    decreases m.len(), 0nat, 0nat,
    when m.len() >= 1
{
    &&& f % 2 != 0 ==> m[0][f].neg_ok()
    &&& det_ok(minor(m, 0, f))
    &&& signed(m[0][f], f).mul_ok(det(minor(m, 0, f)))
}

/// Whether every operation that computes `expansion(m, k)` is defined.
pub open spec fn expansion_ok<T: Scalar>(m: Seq<Seq<T>>, k: nat) -> bool
    decreases m.len(), 0nat, k + 1,
{
    k == 0 || m.len() < 1 || {
        &&& expansion_ok(m, (k - 1) as nat)
        &&& term_ok(m, k - 1)
        &&& expansion(m, (k - 1) as nat).add_ok(term(m, k - 1))
    }
}

/// An expansion that is defined up to `n` is defined up to every `k <= n`.
pub proof fn lemma_expansion_ok_prefix<T: Scalar>(m: Seq<Seq<T>>, n: nat, k: nat)
    requires
        expansion_ok(m, n),
        k <= n,
    ensures
        expansion_ok(m, k),
    decreases n,
{
    if k < n && m.len() >= 1 {
        lemma_expansion_ok_prefix(m, (n - 1) as nat, k);
    }
}

/// Writes the minor of the `size` x `size` corner of `m` that lacks row `p`
/// and column `q` over the top-left corner of `out`.
pub fn get_cofactor<T: Scalar>(
    out: &mut Vector<Vector<T>>,
    m: &Vector<Vector<T>>,
    p: usize,
    q: usize,
    size: usize,
)
    requires
        p < size,
        q < size,
        has_corner(grid(m@), size as nat),
        has_corner(grid(old(out)@), (size - 1) as nat),
    ensures
        grid(final(out)@) == with_corner(
            grid(old(out)@),
            minor(corner(grid(m@), size as nat), p as int, q as int),
        ),
{
    let ghost start = grid(old(out)@);
    let ghost target = with_corner(
        start,
        minor(corner(grid(m@), size as nat), p as int, q as int),
    );
    let mut i: usize = 0;
    let mut j: usize = 0;
    let mut row: usize = 0;
    while row < size
        invariant
            row <= size,
            p < size,
            q < size,
            has_corner(grid(m@), size as nat),
            has_corner(start, (size - 1) as nat),
            target == with_corner(
                start,
                minor(corner(grid(m@), size as nat), p as int, q as int),
            ),
            i == kept(row as int, p as int),
            j == 0,
            written_up_to(grid(out@), start, target, size - 1, i as int, 0),
        decreases size - row,
    {
        let mut col: usize = 0;
        while col < size
            invariant
                row < size,
                col <= size,
                p < size,
                q < size,
                has_corner(grid(m@), size as nat),
                has_corner(start, (size - 1) as nat),
                target == with_corner(
                    start,
                    minor(corner(grid(m@), size as nat), p as int, q as int),
                ),
                row == p ==> i == kept(row as int, p as int) && j == 0,
                row != p && kept(col as int, q as int) < size - 1 ==> i == kept(
                    row as int,
                    p as int,
                ) && j == kept(col as int, q as int),
                row != p && kept(col as int, q as int) == size - 1 ==> i == kept(
                    row as int,
                    p as int,
                ) + 1 && j == 0,
                written_up_to(grid(out@), start, target, size - 1, i as int, j as int),
            decreases size - col,
        {
            if row != p && col != q {
                let x = m.cell(row, col).copy();
                *out.cell_mut(i, j) = x;
                j = j + 1;
                if j == size - 1 {
                    j = 0;
                    i = i + 1;
                }
            }
            col = col + 1;
        }
        row = row + 1;
    }
    assert(grid(out@) =~~= target);
}

/// The determinant of the `size` x `size` corner of `m`, by cofactor
/// expansion along row 0.
pub fn determinant<T: Scalar>(m: &Vector<Vector<T>>, size: usize) -> (d: T)
    requires
        size > 0,
        has_corner(grid(m@), size as nat),
        det_ok(corner(grid(m@), size as nat)),
    ensures
        d == det(corner(grid(m@), size as nat)),
    decreases size,
{
    let ghost sq = corner(grid(m@), size as nat);
    if size == 1 {
        m.cell(0, 0).copy()
    } else {
        let mut tmp: Vector<Vector<T>> = Vector::of_vectors(size, size);
        let mut d = T::zero();
        let mut sign: i8 = 1;
        let mut f: usize = 0;
        while f < size
            invariant
                f <= size,
                size > 1,
                sq == corner(grid(m@), size as nat),
                has_corner(grid(m@), size as nat),
                has_corner(grid(tmp@), size as nat),
                expansion_ok(sq, size as nat),
                sign == (if f % 2 == 0 {
                    1int
                } else {
                    -1int
                }),
                d == expansion(sq, f as nat),
            decreases size - f,
        {
            proof {
                lemma_expansion_ok_prefix(sq, size as nat, (f + 1) as nat);
                assert(term_ok(sq, f as int));
                assert(expansion(sq, f as nat).add_ok(term(sq, f as int)));
            }
            get_cofactor::<T>(&mut tmp, m, 0, f, size);
            assert(corner(grid(tmp@), (size - 1) as nat) =~~= minor(sq, 0, f as int));
            let sub = determinant::<T>(&tmp, size - 1);
            if sign == -1 {
                let t = m.cell(0, f).neg().mul(&sub);
                d = d.add(&t);
            } else {
                let t = m.cell(0, f).mul(&sub);
                d = d.add(&t);
            }
            sign = -sign;
            f = f + 1;
        }
        d
    }
}

/// The cofactor of row `i` and column `j`: the determinant of the minor,
/// negated for odd `i + j`. The cofactor of a grid of one row is one.
pub open spec fn cofactor<T: Scalar>(m: Seq<Seq<T>>, i: int, j: int) -> T {
    if m.len() <= 1 {
        T::one_spec()
    } else {
        signed(det(minor(m, i, j)), i + j)
    }
}

/// Whether every operation that computes `cofactor(m, i, j)` is defined.
pub open spec fn cofactor_ok<T: Scalar>(m: Seq<Seq<T>>, i: int, j: int) -> bool {
    m.len() <= 1 || {
        &&& det_ok(minor(m, i, j))
        &&& (i + j) % 2 != 0 ==> det(minor(m, i, j)).neg_ok()
    }
}

/// The adjugate of the square grid `m`: the transpose of its cofactors.
pub open spec fn adjugate<T: Scalar>(m: Seq<Seq<T>>) -> Seq<Seq<T>> {
    Seq::new(m.len(), |a: int| Seq::new(m.len(), |b: int| cofactor(m, b, a)))
}

/// Whether every operation that computes `adjugate(m)` is defined.
pub open spec fn adjugate_ok<T: Scalar>(m: Seq<Seq<T>>) -> bool {
    forall|i: int, j: int|
        0 <= i < m.len() && 0 <= j < m.len() ==> #[trigger] cofactor_ok(m, i, j)
}

/// The inverse of the square grid `m`: each element of the adjugate divided
/// by the determinant.
pub open spec fn inverse_of<T: Scalar>(m: Seq<Seq<T>>) -> Seq<Seq<T>> {
    Seq::new(m.len(), |i: int| Seq::new(m.len(), |j: int| cofactor(m, j, i).div_spec(det(m))))
}

/// Whether `m` has an inverse that can be computed: the determinant is
/// defined and is not zero, and so are the adjugate and each division.
pub open spec fn inverse_ok<T: Scalar>(m: Seq<Seq<T>>) -> bool {
    &&& det_ok(m)
    &&& det(m) != T::zero_spec()
    &&& adjugate_ok(m)
    &&& forall|i: int, j: int|
        0 <= i < m.len() && 0 <= j < m.len() ==> (#[trigger] cofactor(m, j, i)).div_ok(det(m))
}

/// Whether `out` is `start` with the cells of `target` written over the
/// first `rows` rows of the columns before `j`, and of column `j` before
/// row `i`.
pub open spec fn written_by_columns<T>(
    out: Seq<Seq<T>>,
    start: Seq<Seq<T>>,
    target: Seq<Seq<T>>,
    rows: int,
    j: int,
    i: int,
) -> bool {
    &&& out.len() == start.len()
    &&& forall|r: int| 0 <= r < start.len() ==> (#[trigger] out[r]).len() == start[r].len()
    &&& forall|r: int, c: int|
        0 <= r < start.len() && 0 <= c < start[r].len() ==> #[trigger] out[r][c] == (if r < rows
            && (c < j || (c == j && r < i)) {
            target[r][c]
        } else {
            start[r][c]
        })
}

/// Writes the adjugate of the `size` x `size` corner of `m` over the
/// top-left corner of `out`.
pub fn adjoint<T: Scalar>(out: &mut Vector<Vector<T>>, m: &Vector<Vector<T>>, size: usize)
    requires
        size > 0,
        has_corner(grid(m@), size as nat),
        has_corner(grid(old(out)@), size as nat),
        adjugate_ok(corner(grid(m@), size as nat)),
    ensures
        grid(final(out)@) == with_corner(
            grid(old(out)@),
            adjugate(corner(grid(m@), size as nat)),
        ),
{
    let ghost sq = corner(grid(m@), size as nat);
    let ghost start = grid(old(out)@);
    let ghost target = with_corner(start, adjugate(sq));
    if size == 1 {
        *out.cell_mut(0, 0) = T::one();
    } else {
        let mut tmp: Vector<Vector<T>> = Vector::of_vectors(size, size);
        let mut i: usize = 0;
        while i < size
            invariant
                i <= size,
                size > 1,
                sq == corner(grid(m@), size as nat),
                has_corner(grid(m@), size as nat),
                has_corner(grid(tmp@), size as nat),
                has_corner(start, size as nat),
                adjugate_ok(sq),
                target == with_corner(start, adjugate(sq)),
                written_by_columns(grid(out@), start, target, size as int, i as int, 0),
            decreases size - i,
        {
            let mut j: usize = 0;
            while j < size
                invariant
                    i < size,
                    j <= size,
                    size > 1,
                    sq == corner(grid(m@), size as nat),
                    has_corner(grid(m@), size as nat),
                    has_corner(grid(tmp@), size as nat),
                    has_corner(start, size as nat),
                    adjugate_ok(sq),
                    target == with_corner(start, adjugate(sq)),
                    written_by_columns(
                        grid(out@),
                        start,
                        target,
                        size as int,
                        i as int,
                        j as int,
                    ),
                decreases size - j,
            {
                get_cofactor::<T>(&mut tmp, m, i, j, size);
                assert(corner(grid(tmp@), (size - 1) as nat) =~~= minor(sq, i as int, j as int));
                assert(cofactor_ok(sq, i as int, j as int));
                let sub = determinant::<T>(&tmp, size - 1);
                if (i % 2 + j % 2) % 2 == 0 {
                    *out.cell_mut(j, i) = sub;
                } else {
                    *out.cell_mut(j, i) = sub.neg();
                }
                j = j + 1;
            }
            i = i + 1;
        }
    }
    assert(grid(out@) =~~= target);
}

/// Writes the inverse of the `size` x `size` corner of `m` over the
/// top-left corner of `out`: the adjugate divided by the determinant,
/// which must not be zero.
pub fn inverse<T: Scalar>(out: &mut Vector<Vector<T>>, m: &Vector<Vector<T>>, size: usize)
    requires
        size > 0,
        has_corner(grid(m@), size as nat),
        has_corner(grid(old(out)@), size as nat),
        inverse_ok(corner(grid(m@), size as nat)),
    ensures
        grid(final(out)@) == with_corner(
            grid(old(out)@),
            inverse_of(corner(grid(m@), size as nat)),
        ),
{
    let ghost sq = corner(grid(m@), size as nat);
    let ghost start = grid(old(out)@);
    let ghost target = with_corner(start, inverse_of(sq));
    let d = determinant::<T>(m, size);
    let mut adj: Vector<Vector<T>> = Vector::of_vectors(size, size);
    adjoint::<T>(&mut adj, m, size);
    let mut i: usize = 0;
    while i < size
        invariant
            i <= size,
            has_corner(start, size as nat),
            sq == corner(grid(m@), size as nat),
            grid(adj@) == with_corner(zeros::<T>(size as nat, size as nat), adjugate(sq)),
            inverse_ok(sq),
            d == det(sq),
            target == with_corner(start, inverse_of(sq)),
            written_up_to(grid(out@), start, target, size as int, i as int, 0),
        decreases size - i,
    {
        let mut j: usize = 0;
        while j < size
            invariant
                i < size,
                j <= size,
                has_corner(start, size as nat),
                sq == corner(grid(m@), size as nat),
                grid(adj@) == with_corner(zeros::<T>(size as nat, size as nat), adjugate(sq)),
                inverse_ok(sq),
                d == det(sq),
                target == with_corner(start, inverse_of(sq)),
                written_up_to(grid(out@), start, target, size as int, i as int, j as int),
            decreases size - j,
        {
            assert(grid(adj@)[i as int][j as int] == cofactor(sq, j as int, i as int));
            assert(cofactor(sq, j as int, i as int).div_ok(d));
            let x = adj.cell(i, j).div(&d);
            *out.cell_mut(i, j) = x;
            j = j + 1;
        }
        i = i + 1;
    }
    assert(grid(out@) =~~= target);
}

} // verus!
