//! The determinant alternates: swapping two rows negates it.
//!
//! Rows below the first are swapped inside every minor of the expansion, so
//! that case is an induction on the size. For the first two rows the
//! determinant is expanded along both: it is a sum over pairs of distinct
//! columns, and swapping the rows swaps the roles of the two columns of
//! each pair, which changes the sign of its term. Any other swap with the
//! first row is three swaps of those two kinds.

use crate::algebra::{
    lemma_neg_neg, lemma_neg_zero, lemma_signed_mul, lemma_signed_parity, lemma_signed_signed,
    lemma_signed_succ, lemma_sum_congruence, lemma_sum_exchange, lemma_sum_neg, lemma_sum_scale,
    lemma_sum_single, lemma_sum_skip, sum,
};
use crate::cofactor::{det, kept, minor, signed, skip_index, term};
use crate::laws::lemma_expansion_is_sum;
use crate::matrix::is_grid;
use crate::scalar::{Ring, Scalar};
use vstd::prelude::*;

verus! {

/// `m` with rows `i` and `j` exchanged.
pub open spec fn swap_rows<T>(m: Seq<Seq<T>>, i: int, j: int) -> Seq<Seq<T>> {
    m.update(i, m[j]).update(j, m[i])
}

/// The index in the full grid of index `j` of a grid that lacks the two
/// distinct indices `f` and `h`.
pub open spec fn skip_two(j: int, f: int, h: int) -> int {
    if f < h {
        skip_index(skip_index(j, f), h)
    } else {
        skip_index(skip_index(j, h), f)
    }
}

/// The square grid `m` without rows 0 and 1 and without columns `f` and
/// `h`.
pub open spec fn minor_two<T>(m: Seq<Seq<T>>, f: int, h: int) -> Seq<Seq<T>> {
    Seq::new(
        (m.len() - 2) as nat,
        |i: int| Seq::new((m.len() - 2) as nat, |j: int| m[i + 2][skip_two(j, f, h)]),
    )
}

/// The determinant of `minor_two(m, f, h)`, and one where that grid is
/// empty.
pub open spec fn det_two<T: Scalar>(m: Seq<Seq<T>>, f: int, h: int) -> T {
    if m.len() <= 2 {
        T::one_spec()
    } else {
        det(minor_two(m, f, h))
    }
}

/// The term of the pair of columns `f` and `h` in the expansion along rows
/// 0 and 1: the element of row 0 in column `f`, the element of row 1 in
/// column `h`, the determinant of what is left, and the two signs of the
/// two expansions. A column cannot be taken twice.
pub open spec fn pair_term<T: Scalar>(m: Seq<Seq<T>>, f: int, h: int) -> T {
    if f == h {
        T::zero_spec()
    } else {
        signed(m[0][f], f).mul_spec(signed(m[1][h], kept(h, f)).mul_spec(det_two(m, f, h)))
    }
}

/// A term of the expansion along row 0 is the sum of the pair terms of its
/// column.
pub proof fn lemma_term_is_sum_of_pairs<T: Ring>(m: Seq<Seq<T>>, n: nat, f: int)
    requires
        is_grid(m, n, n),
        n >= 2,
        0 <= f < n,
    ensures
        term(m, f) == sum(|h: int| pair_term(m, f, h), n),
{
    let sub = minor(m, 0, f);
    let c = signed(m[0][f], f);
    let pairs = |h: int| pair_term(m, f, h);
    if n == 2 {
        let h0 = skip_index(0, f);
        T::mul_one(m[1][h0]);
        assert(pairs(h0) == term(m, f));
        assert forall|h: int| 0 <= h < n && h != h0 implies #[trigger] pairs(h)
            == T::zero_spec() by {}
        lemma_sum_single(pairs, n, h0);
    } else {
        let k = (n - 1) as nat;
        lemma_expansion_is_sum(sub, k);
        let inner = |g: int| term(sub, g);
        let scaled = |g: int| c.mul_spec(term(sub, g));
        lemma_sum_scale(c, inner, scaled, k);
        assert(term(m, f) == sum(scaled, k));
        let kept_pairs = |g: int| pair_term(m, f, skip_index(g, f));
        assert forall|g: int| 0 <= g < k implies #[trigger] scaled(g) == kept_pairs(g) by {
            let h = skip_index(g, f);
            assert(minor(sub, 0, g) =~~= minor_two(m, f, h));
            assert(sub[0][g] == m[1][h]);
            assert(kept(h, f) == g);
        }
        lemma_sum_congruence(scaled, kept_pairs, k);
        lemma_sum_skip(pairs, kept_pairs, n, f);
    }
}

/// The determinant is the sum of the pair terms over all pairs of columns.
pub proof fn lemma_det_is_sum_of_pairs<T: Ring>(m: Seq<Seq<T>>, n: nat)
    requires
        is_grid(m, n, n),
        n >= 2,
    ensures
        det(m) == sum(|f: int| sum(|h: int| pair_term(m, f, h), n), n),
{
    lemma_expansion_is_sum(m, n);
    let terms = |f: int| term(m, f);
    let rows = |f: int| sum(|h: int| pair_term(m, f, h), n);
    assert forall|f: int| 0 <= f < n implies #[trigger] terms(f) == rows(f) by {
        lemma_term_is_sum_of_pairs(m, n, f);
    }
    lemma_sum_congruence(terms, rows, n);
}

/// With rows 0 and 1 swapped, the term of a pair of columns is the
/// negation of the term of the opposite pair.
pub proof fn lemma_pair_term_swapped<T: Ring>(m: Seq<Seq<T>>, n: nat, f: int, h: int)
    requires
        is_grid(m, n, n),
        n >= 2,
        0 <= f < n,
        0 <= h < n,
    ensures
        pair_term(swap_rows(m, 0, 1), f, h) == pair_term(m, h, f).neg_spec(),
{
    let s = swap_rows(m, 0, 1);
    if f == h {
        lemma_neg_zero::<T>();
    } else {
        let a = m[0][h];
        let b = m[1][f];
        let d = det_two(m, h, f);
        assert(minor_two(s, f, h) =~~= minor_two(m, h, f));
        assert(det_two(s, f, h) == d);
        let p = kept(h, f);
        let q = kept(f, h);
        // The swapped term is b * (a * d) with the sign of f + p.
        lemma_signed_mul(a, d, p);
        lemma_signed_mul(b, a.mul_spec(d), p);
        lemma_signed_mul(b, signed(a.mul_spec(d), p), f);
        lemma_signed_signed(b.mul_spec(a.mul_spec(d)), p, f);
        assert(pair_term(s, f, h) == signed(b.mul_spec(a.mul_spec(d)), p + f));
        // The opposite term is a * (b * d) with the sign of h + q.
        lemma_signed_mul(b, d, q);
        lemma_signed_mul(a, b.mul_spec(d), q);
        lemma_signed_mul(a, signed(b.mul_spec(d), q), h);
        lemma_signed_signed(a.mul_spec(b.mul_spec(d)), q, h);
        assert(pair_term(m, h, f) == signed(a.mul_spec(b.mul_spec(d)), q + h));
        // The two products are equal, and the two signs are opposite.
        T::mul_associative(b, a, d);
        T::mul_commutative(b, a);
        T::mul_associative(a, b, d);
        lemma_signed_succ(a.mul_spec(b.mul_spec(d)), q + h);
        lemma_signed_parity(a.mul_spec(b.mul_spec(d)), p + f, q + h + 1);
    }
}

/// Swapping rows 0 and 1 negates the determinant.
pub proof fn lemma_det_swap_first_two<T: Ring>(m: Seq<Seq<T>>, n: nat)
    requires
        is_grid(m, n, n),
        n >= 2,
    ensures
        det(swap_rows(m, 0, 1)) == det(m).neg_spec(),
{
    let s = swap_rows(m, 0, 1);
    let pairs = |f: int, h: int| pair_term(m, f, h);
    let rows = |f: int| sum(|h: int| pairs(f, h), n);
    let cols = |h: int| sum(|f: int| pairs(f, h), n);
    let rows_swapped = |f: int| sum(|h: int| pair_term(s, f, h), n);
    lemma_det_is_sum_of_pairs(m, n);
    lemma_det_is_sum_of_pairs(s, n);
    assert forall|f: int| 0 <= f < n implies #[trigger] rows(f) == sum(
        |h: int| pair_term(m, f, h),
        n,
    ) by {
        lemma_sum_congruence(|h: int| pairs(f, h), |h: int| pair_term(m, f, h), n);
    }
    lemma_sum_congruence(rows, |f: int| sum(|h: int| pair_term(m, f, h), n), n);
    assert(det(m) == sum(rows, n));
    lemma_sum_exchange(pairs, rows, cols, n, n);
    assert forall|f: int| 0 <= f < n implies #[trigger] rows_swapped(f) == cols(f).neg_spec() by {
        let opposite = |h: int| pairs(h, f);
        let swapped = |h: int| pair_term(s, f, h);
        assert forall|h: int| 0 <= h < n implies #[trigger] swapped(h) == opposite(
            h,
        ).neg_spec() by {
            lemma_pair_term_swapped(m, n, f, h);
        }
        lemma_sum_neg(opposite, swapped, n);
        lemma_sum_congruence(opposite, |g: int| pairs(g, f), n);
    }
    lemma_sum_neg(cols, rows_swapped, n);
}

/// Swapping an upper row with a lower one negates the determinant.
pub proof fn lemma_det_swap_ordered<T: Ring>(m: Seq<Seq<T>>, n: nat, i: int, j: int)
    requires
        is_grid(m, n, n),
        0 <= i < j < n,
    ensures
        det(swap_rows(m, i, j)) == det(m).neg_spec(),
    decreases n, (if i == 0 {
        1nat
    } else {
        0nat
    }),
{
    let s = swap_rows(m, i, j);
    if i >= 1 {
        lemma_expansion_is_sum(m, n);
        lemma_expansion_is_sum(s, n);
        let before = |f: int| term(m, f);
        let after = |f: int| term(s, f);
        assert forall|f: int| 0 <= f < n implies #[trigger] after(f) == before(f).neg_spec() by {
            assert(minor(s, 0, f) =~~= swap_rows(minor(m, 0, f), i - 1, j - 1));
            lemma_det_swap_ordered(minor(m, 0, f), (n - 1) as nat, i - 1, j - 1);
            lemma_signed_mul(signed(m[0][f], f), det(minor(m, 0, f)), 1);
        }
        lemma_sum_neg(before, after, n);
    } else if j == 1 {
        lemma_det_swap_first_two(m, n);
    } else {
        let a = swap_rows(m, 1, j);
        let b = swap_rows(a, 0, 1);
        let c = swap_rows(b, 1, j);
        assert(c =~= s);
        lemma_det_swap_ordered(m, n, 1, j);
        lemma_det_swap_first_two(a, n);
        lemma_det_swap_ordered(b, n, 1, j);
        lemma_neg_neg(det(m));
    }
}

/// Swapping two rows of a square matrix negates its determinant.
pub proof fn lemma_det_swap_rows<T: Ring>(m: Seq<Seq<T>>, n: nat, i: int, j: int)
    requires
        is_grid(m, n, n),
        0 <= i < n,
        0 <= j < n,
        i != j,
    ensures
        det(swap_rows(m, i, j)) == det(m).neg_spec(),
{
    if i < j {
        lemma_det_swap_ordered(m, n, i, j);
    } else {
        assert(swap_rows(m, i, j) =~= swap_rows(m, j, i));
        lemma_det_swap_ordered(m, n, j, i);
    }
}

} // verus!
