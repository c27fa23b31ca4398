//! When the arithmetic on `isize` elements is defined: bounds on the
//! elements under which no step of a dot product, a determinant or an
//! inverse overflows.

use crate::cofactor::{
    adjugate_ok, cofactor, cofactor_ok, det, det_ok, expansion, expansion_ok, inverse_ok, minor,
    signed, term, term_ok,
};
use crate::matrix::{column, identity, is_grid};
use crate::matrix_ops::product_ok;
use crate::scalar::Scalar;
use crate::vector_ops::{dot_ok, dot_spec};
use vstd::prelude::*;

verus! {

/// Whether `x` is at most `b` in absolute value.
pub open spec fn within(x: int, b: int) -> bool {
    -b <= x <= b
}

/// Whether the first `n` elements of `v` are at most `b` in absolute value.
pub open spec fn seq_within(v: Seq<isize>, n: nat, b: int) -> bool {
    forall|i: int| 0 <= i < n ==> within(#[trigger] v[i] as int, b)
}

/// Whether every element of the grid `m` is at most `b` in absolute value.
pub open spec fn grid_within(m: Seq<Seq<isize>>, b: int) -> bool {
    forall|i: int, j: int|
        0 <= i < m.len() && 0 <= j < m[i].len() ==> within(#[trigger] m[i][j] as int, b)
}

/// A bound on the determinant of a grid of `n` rows whose elements are at
/// most `b` in absolute value: `n! * b^n`.
pub open spec fn det_bound(n: nat, b: int) -> int
    decreases n,
{
    if n <= 1 {
        b
    } else {
        n * (b * det_bound((n - 1) as nat, b))
    }
}

/// A product of two bounded factors is bounded by the product of the
/// bounds.
pub proof fn lemma_product_within(x: int, y: int, a: int, b: int)
    requires
        within(x, a),
        within(y, b),
    ensures
        within(x * y, a * b),
{
    assert(within(x * y, a * b)) by (nonlinear_arith)
        requires
            -a <= x <= a,
            -b <= y <= b,
    ;
}

/// The bound on the determinant is at least the bound on the elements, and
/// grows with the size.
pub proof fn lemma_det_bound_grows(n: nat, b: int)
    requires
        n >= 1,
        b >= 0,
    ensures
        b <= det_bound(n, b),
        b == 0 ==> det_bound(n, b) == 0,
        0 <= b * det_bound(n, b),
        det_bound(n, b) <= det_bound(n + 1, b),
    decreases n,
{
    let d = det_bound(n, b);
    if n > 1 {
        let e = det_bound((n - 1) as nat, b);
        lemma_det_bound_grows((n - 1) as nat, b);
        assert(b <= n * (b * e) && (b == 0 ==> n * (b * e) == 0)) by (nonlinear_arith)
            requires
                0 <= b <= e,
                n > 1,
        ;
    }
    assert(0 <= b * d && d <= (n + 1) * (b * d)) by (nonlinear_arith)
        requires
            0 <= b <= d,
            b == 0 ==> d == 0,
            n >= 1,
    ;
}

/// A dot product of bounded sequences is defined and bounded if the bound
/// fits: no product and no partial sum overflows.
pub proof fn lemma_dot_within(
    acc: isize,
    a: Seq<isize>,
    b: Seq<isize>,
    n: nat,
    c: int,
    x: int,
    y: int,
)
    requires
        within(acc as int, c),
        seq_within(a, n, x),
        seq_within(b, n, y),
        0 <= x * y,
        c + n * (x * y) <= isize::MAX,
    ensures
        dot_ok(acc, a, b, n),
        within(dot_spec(acc, a, b, n) as int, c + n * (x * y)),
    decreases n,
{
    if n > 0 {
        let k = (n - 1) as nat;
        assert(c + k * (x * y) <= c + n * (x * y) && c + k * (x * y) + x * y == c + n * (x * y))
            by (nonlinear_arith)
            requires
                0 <= x * y,
                k == n - 1,
        ;
        lemma_dot_within(acc, a, b, k, c, x, y);
        lemma_product_within(a[n - 1] as int, b[n - 1] as int, x, y);
    }
}

/// The expansion of a square grid of bounded elements is defined and
/// bounded, given that the determinants of its minors are.
proof fn lemma_expansion_within(m: Seq<Seq<isize>>, n: nat, b: int, k: nat)
    requires
        is_grid(m, n, n),
        n >= 2,
        k <= n,
        b >= 0,
        grid_within(m, b),
        det_bound(n, b) <= isize::MAX,
        forall|f: int|
            0 <= f < n ==> det_ok(#[trigger] minor(m, 0, f)) && within(
                det(minor(m, 0, f)) as int,
                det_bound((n - 1) as nat, b),
            ),
    ensures
        expansion_ok(m, k),
        within(expansion(m, k) as int, k * (b * det_bound((n - 1) as nat, b))),
    decreases k,
{
    let d = det_bound((n - 1) as nat, b);
    lemma_det_bound_grows((n - 1) as nat, b);
    if k > 0 {
        let f = k - 1;
        lemma_expansion_within(m, n, b, (k - 1) as nat);
        assert(n * (b * d) <= isize::MAX);
        assert(f * (b * d) + b * d == k * (b * d) && k * (b * d) <= n * (b * d) && b * d <= n * (b
            * d)) by (nonlinear_arith)
            requires
                0 <= b * d,
                f == k - 1,
                1 <= k <= n,
        ;
        assert(within(m[0][f] as int, b));
        assert(b <= isize::MAX);
        let s = signed(m[0][f], f);
        assert(within(s as int, b));
        assert(det_ok(minor(m, 0, f)));
        lemma_product_within(s as int, det(minor(m, 0, f)) as int, b, d);
        assert(term_ok(m, f));
        assert(within(term(m, f) as int, b * d));
    }
}

/// The determinant of a square grid of `n` rows whose elements are at most
/// `b` in absolute value is defined and at most `det_bound(n, b)` in
/// absolute value, if that bound fits.
pub proof fn lemma_det_within(m: Seq<Seq<isize>>, n: nat, b: int)
    requires
        is_grid(m, n, n),
        n >= 1,
        b >= 0,
        grid_within(m, b),
        det_bound(n, b) <= isize::MAX,
    ensures
        det_ok(m),
        within(det(m) as int, det_bound(n, b)),
    decreases n,
{
    if n >= 2 {
        lemma_det_bound_grows((n - 1) as nat, b);
        assert forall|f: int| 0 <= f < n implies det_ok(#[trigger] minor(m, 0, f)) && within(
            det(minor(m, 0, f)) as int,
            det_bound((n - 1) as nat, b),
        ) by {
            lemma_det_within(minor(m, 0, f), (n - 1) as nat, b);
        }
        lemma_expansion_within(m, n, b, n);
    }
}

/// A square grid of bounded elements whose determinant is not zero has an
/// inverse that can be computed, if the bound on the determinant fits.
pub proof fn lemma_inverse_within(m: Seq<Seq<isize>>, n: nat, b: int)
    requires
        is_grid(m, n, n),
        n >= 1,
        b >= 0,
        grid_within(m, b),
        det_bound(n, b) <= isize::MAX,
        det(m) != 0,
    ensures
        inverse_ok(m),
{
    lemma_det_within(m, n, b);
    if n >= 2 {
        lemma_det_bound_grows((n - 1) as nat, b);
        assert forall|i: int, j: int| 0 <= i < n && 0 <= j < n implies #[trigger] cofactor_ok(
            m,
            i,
            j,
        ) && within(cofactor(m, i, j) as int, det_bound((n - 1) as nat, b)) by {
            lemma_det_within(minor(m, i, j), (n - 1) as nat, b);
        }
        assert(adjugate_ok(m));
        assert forall|i: int, j: int| 0 <= i < n && 0 <= j < n implies (#[trigger] cofactor(
            m,
            j,
            i,
        )).div_ok(det(m)) by {
            assert(cofactor_ok(m, j, i));
        }
    }
}

/// A dot product with a sequence that is one at one index and zero at the
/// others is defined on either side, whatever the other sequence holds, and
/// its partial sums are zero before that index and the element at that
/// index from there on.
pub proof fn lemma_dot_unit_defined(a: Seq<isize>, e: Seq<isize>, p: int, k: nat)
    requires
        k <= a.len(),
        k <= e.len(),
        forall|i: int|
            0 <= i < k ==> #[trigger] e[i] == (if i == p {
                1isize
            } else {
                0isize
            }),
    ensures
        dot_ok(0isize, a, e, k),
        dot_ok(0isize, e, a, k),
        dot_spec(0isize, a, e, k) == (if 0 <= p < k {
            a[p]
        } else {
            0isize
        }),
        dot_spec(0isize, e, a, k) == dot_spec(0isize, a, e, k),
    decreases k,
{
    if k > 0 {
        lemma_dot_unit_defined(a, e, p, (k - 1) as nat);
        let x = a[k - 1];
        assert(x * e[k - 1] == e[k - 1] * x && x * e[k - 1] == (if k - 1 == p {
            x as int
        } else {
            0int
        })) by (nonlinear_arith)
            requires
                e[k - 1] == 0 || e[k - 1] == 1,
                (e[k - 1] == 1) == (k - 1 == p),
        ;
    }
}

/// The product of a matrix and an identity matrix is defined, on either
/// side, whatever the matrix holds.
pub proof fn lemma_product_identity_defined(a: Seq<Seq<isize>>, rows: nat, cols: nat)
    requires
        is_grid(a, rows, cols),
        rows > 0,
        cols > 0,
    ensures
        product_ok(a, identity::<isize>(cols, cols)),
        product_ok(identity::<isize>(rows, rows), a),
{
    let right = identity::<isize>(cols, cols);
    let left = identity::<isize>(rows, rows);
    assert forall|i: int, j: int| 0 <= i < rows && 0 <= j < cols implies #[trigger] dot_ok(
        0isize,
        a[i],
        column(right, j),
        cols,
    ) by {
        lemma_dot_unit_defined(a[i], column(right, j), j, cols);
    }
    assert forall|i: int, j: int| 0 <= i < rows && 0 <= j < cols implies #[trigger] dot_ok(
        0isize,
        left[i],
        column(a, j),
        rows,
    ) by {
        lemma_dot_unit_defined(column(a, j), left[i], i, rows);
    }
}

} // verus!
