//! Laws of the matrix operations over a ring: the identity matrix, scalar
//! products and the transpose.

use crate::algebra::{
    lemma_mul_zero, lemma_one_mul, lemma_signed_zero, lemma_sum_single, lemma_sum_zero,
    lemma_zero_add, sum,
};
use crate::cofactor::{cofactor, det, expansion, inverse_of, minor, signed, term};
use crate::matrix::{column, identity, is_grid, transposed};
use crate::matrix_ops::{product, scaled};
use crate::scalar::{Ring, Scalar};
use crate::vector_ops::dot_spec;
use vstd::prelude::*;

verus! {

/// Transposing twice gives the matrix back.
pub proof fn lemma_transpose_transpose<T>(m: Seq<Seq<T>>, rows: nat, cols: nat)
    requires
        is_grid(m, rows, cols),
        rows > 0,
        cols > 0,
    ensures
        is_grid(transposed(m), cols, rows),
        transposed(transposed(m)) == m,
{
    assert(transposed(transposed(m)) =~~= m);
}

/// Each cell of the product with a scalar is the cell times the scalar.
pub proof fn lemma_scaled_cell<T: Ring>(m: Seq<Seq<T>>, s: T, i: int, j: int)
    requires
        0 <= i < m.len(),
        0 <= j < m[0].len(),
    ensures
        scaled(m, s)[i][j] == m[i][j].mul_spec(s),
{
    lemma_zero_add(m[i][j].mul_spec(s));
}

/// The dot product with a sequence that is one at `p` and zero elsewhere
/// picks the element at `p`, on either side.
pub proof fn lemma_dot_unit<T: Ring>(a: Seq<T>, e: Seq<T>, p: int, k: nat)
    requires
        0 <= p < k,
        k <= a.len(),
        k <= e.len(),
        e[p] == T::one_spec(),
        forall|i: int| 0 <= i < k && i != p ==> #[trigger] e[i] == T::zero_spec(),
    ensures
        dot_spec(T::zero_spec(), a, e, k) == a[p],
        dot_spec(T::zero_spec(), e, a, k) == a[p],
{
    lemma_dot_is_sum(a, e, k);
    lemma_dot_is_sum(e, a, k);
    let right = |i: int| a[i].mul_spec(e[i]);
    let left = |i: int| e[i].mul_spec(a[i]);
    assert forall|i: int| 0 <= i < k && i != p implies #[trigger] right(i) == T::zero_spec() by {
        lemma_mul_zero(a[i]);
    }
    assert forall|i: int| 0 <= i < k && i != p implies #[trigger] left(i) == T::zero_spec() by {
        lemma_mul_zero(a[i]);
    }
    lemma_sum_single(right, k, p);
    lemma_sum_single(left, k, p);
    T::mul_one(a[p]);
    lemma_one_mul(a[p]);
}

/// A dot product accumulated from zero is the sum of the products.
pub proof fn lemma_dot_is_sum<T: Scalar>(a: Seq<T>, b: Seq<T>, k: nat)
    ensures
        dot_spec(T::zero_spec(), a, b, k) == sum(|i: int| a[i].mul_spec(b[i]), k),
    decreases k,
{
    if k > 0 {
        lemma_dot_is_sum(a, b, (k - 1) as nat);
    }
}

/// The identity matrix on the right leaves a matrix as it is.
pub proof fn lemma_product_identity_right<T: Ring>(a: Seq<Seq<T>>, rows: nat, cols: nat)
    requires
        is_grid(a, rows, cols),
        rows > 0,
        cols > 0,
    ensures
        product(a, identity::<T>(cols, cols)) == a,
{
    let id = identity::<T>(cols, cols);
    assert forall|i: int, j: int| 0 <= i < rows && 0 <= j < cols implies dot_spec(
        T::zero_spec(),
        a[i],
        column(id, j),
        cols,
    ) == a[i][j] by {
        lemma_dot_unit(a[i], column(id, j), j, cols);
    }
    assert(product(a, id) =~~= a);
}

/// The identity matrix on the left leaves a matrix as it is.
pub proof fn lemma_product_identity_left<T: Ring>(a: Seq<Seq<T>>, rows: nat, cols: nat)
    requires
        is_grid(a, rows, cols),
        rows > 0,
        cols > 0,
    ensures
        product(identity::<T>(rows, rows), a) == a,
{
    let id = identity::<T>(rows, rows);
    assert forall|i: int, j: int| 0 <= i < rows && 0 <= j < cols implies dot_spec(
        T::zero_spec(),
        id[i],
        column(a, j),
        rows,
    ) == a[i][j] by {
        lemma_dot_unit(column(a, j), id[i], i, rows);
    }
    assert(product(id, a) =~~= a);
}

/// The identity matrix times itself is the identity matrix.
pub proof fn lemma_product_identity_identity<T: Ring>(n: nat)
    requires
        n > 0,
    ensures
        product(identity::<T>(n, n), identity::<T>(n, n)) == identity::<T>(n, n),
{
    lemma_product_identity_right(identity::<T>(n, n), n, n);
}

/// The expansion along row 0 is the sum of its terms.
pub proof fn lemma_expansion_is_sum<T: Scalar>(m: Seq<Seq<T>>, k: nat)
    requires
        m.len() >= 1,
    ensures
        expansion(m, k) == sum(|f: int| term(m, f), k),
    decreases k,
{
    if k > 0 {
        lemma_expansion_is_sum(m, (k - 1) as nat);
    }
}

/// A square matrix with a row of zeros has determinant zero.
pub proof fn lemma_det_zero_row<T: Ring>(m: Seq<Seq<T>>, n: nat, r: int)
    requires
        is_grid(m, n, n),
        0 <= r < n,
        forall|j: int| 0 <= j < n ==> #[trigger] m[r][j] == T::zero_spec(),
    ensures
        det(m) == T::zero_spec(),
    decreases n,
{
    if n > 1 {
        lemma_expansion_is_sum(m, n);
        assert forall|f: int| 0 <= f < n implies #[trigger] term(m, f) == T::zero_spec() by {
            if r == 0 {
                lemma_signed_zero::<T>(f);
                lemma_mul_zero(det(minor(m, 0, f)));
            } else {
                lemma_det_zero_row(minor(m, 0, f), (n - 1) as nat, r - 1);
                lemma_mul_zero(signed(m[0][f], f));
            }
        }
        lemma_sum_zero(|f: int| term(m, f), n);
    }
}

/// The determinant of the identity matrix is one.
pub proof fn lemma_det_identity<T: Ring>(n: nat)
    requires
        n > 0,
    ensures
        det(identity::<T>(n, n)) == T::one_spec(),
    decreases n,
{
    let id = identity::<T>(n, n);
    if n > 1 {
        lemma_expansion_is_sum(id, n);
        assert(minor(id, 0, 0) =~~= identity::<T>((n - 1) as nat, (n - 1) as nat));
        lemma_det_identity::<T>((n - 1) as nat);
        lemma_one_mul(T::one_spec());
        assert(term(id, 0) == T::one_spec());
        assert forall|f: int| 0 <= f < n && f != 0 implies #[trigger] term(id, f)
            == T::zero_spec() by {
            lemma_signed_zero::<T>(f);
            lemma_mul_zero(det(minor(id, 0, f)));
        }
        lemma_sum_single(|f: int| term(id, f), n, 0);
    }
}

/// The cofactors of the identity matrix are those of the identity matrix:
/// one on the diagonal and zero off it.
pub proof fn lemma_cofactor_identity<T: Ring>(n: nat, i: int, j: int)
    requires
        0 <= i < n,
        0 <= j < n,
    ensures
        cofactor(identity::<T>(n, n), i, j) == identity::<T>(n, n)[i][j],
{
    let id = identity::<T>(n, n);
    if n > 1 {
        let sub = minor(id, i, j);
        if i == j {
            assert(sub =~~= identity::<T>((n - 1) as nat, (n - 1) as nat));
            lemma_det_identity::<T>((n - 1) as nat);
        } else {
            // Row `j` of the identity has its one in column `j`, which the
            // minor lacks: what is left of that row is zero.
            let r = if j < i {
                j
            } else {
                j - 1
            };
            lemma_det_zero_row(sub, (n - 1) as nat, r);
            lemma_signed_zero::<T>(i + j);
        }
    }
}

/// The inverse of the identity matrix is the identity matrix.
pub proof fn lemma_inverse_identity<T: Ring>(n: nat)
    requires
        n > 0,
    ensures
        inverse_of(identity::<T>(n, n)) == identity::<T>(n, n),
{
    let id = identity::<T>(n, n);
    lemma_det_identity::<T>(n);
    assert forall|i: int, j: int| 0 <= i < n && 0 <= j < n implies cofactor(id, j, i).div_spec(
        det(id),
    ) == id[i][j] by {
        lemma_cofactor_identity::<T>(n, j, i);
        T::div_one(cofactor(id, j, i));
    }
    assert(inverse_of(id) =~~= id);
}

} // verus!
