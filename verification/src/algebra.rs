//! Consequences of the ring laws, and finite sums in a ring.

use crate::cofactor::{signed, skip_index};
use crate::scalar::{Ring, Scalar};
use vstd::prelude::*;

verus! {

/// Zero is a left identity of addition.
pub proof fn lemma_zero_add<T: Ring>(a: T)
    ensures
        T::zero_spec().add_spec(a) == a,
{
    T::add_commutative(T::zero_spec(), a);
    T::add_zero(a);
}

/// One is a left identity of multiplication.
pub proof fn lemma_one_mul<T: Ring>(a: T)
    ensures
        T::one_spec().mul_spec(a) == a,
{
    T::mul_commutative(T::one_spec(), a);
    T::mul_one(a);
}

/// The negation is an inverse on the left too.
pub proof fn lemma_neg_add_self<T: Ring>(a: T)
    ensures
        a.neg_spec().add_spec(a) == T::zero_spec(),
{
    T::add_commutative(a.neg_spec(), a);
    T::add_neg(a);
}

/// Addition cancels on the left.
pub proof fn lemma_add_cancel<T: Ring>(a: T, b: T, c: T)
    requires
        a.add_spec(b) == a.add_spec(c),
    ensures
        b == c,
{
    let n = a.neg_spec();
    lemma_neg_add_self(a);
    T::add_associative(n, a, b);
    T::add_associative(n, a, c);
    lemma_zero_add(b);
    lemma_zero_add(c);
}

/// Whatever adds to zero with `a` is the negation of `a`.
pub proof fn lemma_neg_unique<T: Ring>(a: T, b: T)
    requires
        a.add_spec(b) == T::zero_spec(),
    ensures
        b == a.neg_spec(),
{
    T::add_neg(a);
    lemma_add_cancel(a, b, a.neg_spec());
}

/// The negation of zero is zero.
pub proof fn lemma_neg_zero<T: Ring>()
    ensures
        T::zero_spec().neg_spec() == T::zero_spec(),
{
    T::add_zero(T::zero_spec());
    lemma_neg_unique(T::zero_spec(), T::zero_spec());
}

/// Negating twice gives the value back.
pub proof fn lemma_neg_neg<T: Ring>(a: T)
    ensures
        a.neg_spec().neg_spec() == a,
{
    lemma_neg_add_self(a);
    lemma_neg_unique(a.neg_spec(), a);
}

/// Zero annihilates, on either side.
pub proof fn lemma_mul_zero<T: Ring>(a: T)
    ensures
        a.mul_spec(T::zero_spec()) == T::zero_spec(),
        T::zero_spec().mul_spec(a) == T::zero_spec(),
{
    let z = T::zero_spec();
    T::add_zero(z);
    T::distributive(a, z, z);
    T::add_zero(a.mul_spec(z));
    lemma_add_cancel(a.mul_spec(z), a.mul_spec(z), z);
    T::mul_commutative(z, a);
}

/// A negation moves out of a product, from either factor.
pub proof fn lemma_mul_neg<T: Ring>(a: T, b: T)
    ensures
        a.mul_spec(b.neg_spec()) == a.mul_spec(b).neg_spec(),
        a.neg_spec().mul_spec(b) == a.mul_spec(b).neg_spec(),
{
    T::distributive(a, b, b.neg_spec());
    T::add_neg(b);
    lemma_mul_zero(a);
    lemma_neg_unique(a.mul_spec(b), a.mul_spec(b.neg_spec()));
    T::mul_commutative(a.neg_spec(), b);
    T::mul_commutative(a, b);
    T::distributive(b, a, a.neg_spec());
    T::add_neg(a);
    lemma_mul_zero(b);
    lemma_neg_unique(b.mul_spec(a), b.mul_spec(a.neg_spec()));
}

/// The negation of a sum is the sum of the negations.
pub proof fn lemma_neg_add<T: Ring>(a: T, b: T)
    ensures
        a.add_spec(b).neg_spec() == a.neg_spec().add_spec(b.neg_spec()),
{
    let na = a.neg_spec();
    let nb = b.neg_spec();
    // (a + b) + (na + nb) == a + (b + (na + nb)) == a + ((b + nb) + na) == a + na == 0
    T::add_associative(a, b, na.add_spec(nb));
    T::add_commutative(na, nb);
    T::add_associative(b, nb, na);
    T::add_neg(b);
    lemma_zero_add(na);
    T::add_neg(a);
    lemma_neg_unique(a.add_spec(b), na.add_spec(nb));
}

/// Two sums of two terms, added: the first terms and the second terms can
/// be added first.
pub proof fn lemma_add_interchange<T: Ring>(a: T, b: T, c: T, d: T)
    ensures
        a.add_spec(b).add_spec(c.add_spec(d)) == a.add_spec(c).add_spec(b.add_spec(d)),
{
    // (a + b) + (c + d) == a + (b + (c + d)) == a + ((b + c) + d)
    //   == a + ((c + b) + d) == a + (c + (b + d)) == (a + c) + (b + d)
    T::add_associative(a, b, c.add_spec(d));
    T::add_associative(b, c, d);
    T::add_commutative(b, c);
    T::add_associative(c, b, d);
    T::add_associative(a, c, b.add_spec(d));
}

/// `signed` depends on the parity of its index only.
pub proof fn lemma_signed_parity<T: Scalar>(x: T, j: int, k: int)
    requires
        (j - k) % 2 == 0,
    ensures
        signed(x, j) == signed(x, k),
{
}

/// Two signs in a row are the sign of the sum of their indices.
pub proof fn lemma_signed_signed<T: Ring>(x: T, j: int, k: int)
    ensures
        signed(signed(x, j), k) == signed(x, j + k),
{
    lemma_neg_neg(x);
}

/// One more in the index is one more negation.
pub proof fn lemma_signed_succ<T: Ring>(x: T, k: int)
    ensures
        signed(x, k + 1) == signed(x, k).neg_spec(),
{
    lemma_neg_neg(x);
}

/// A sign moves out of a product, from either factor.
pub proof fn lemma_signed_mul<T: Ring>(a: T, b: T, k: int)
    ensures
        signed(a, k).mul_spec(b) == signed(a.mul_spec(b), k),
        a.mul_spec(signed(b, k)) == signed(a.mul_spec(b), k),
{
    lemma_mul_neg(a, b);
}

/// A sign of zero is zero.
pub proof fn lemma_signed_zero<T: Ring>(k: int)
    ensures
        signed(T::zero_spec(), k) == T::zero_spec(),
{
    lemma_neg_zero::<T>();
}

/// Zero plus `f(0)`, ..., `f(n - 1)`, added in index order.
pub open spec fn sum<T: Scalar>(f: spec_fn(int) -> T, n: nat) -> T
    decreases n,
{
    if n == 0 {
        T::zero_spec()
    } else {
        sum(f, (n - 1) as nat).add_spec(f(n - 1))
    }
}

/// Sums of termwise equal functions are equal.
pub proof fn lemma_sum_congruence<T: Scalar>(f: spec_fn(int) -> T, g: spec_fn(int) -> T, n: nat)
    requires
        forall|i: int| 0 <= i < n ==> #[trigger] f(i) == g(i),
    ensures
        sum(f, n) == sum(g, n),
    decreases n,
{
    if n > 0 {
        lemma_sum_congruence(f, g, (n - 1) as nat);
    }
}

/// A sum of zeros is zero.
pub proof fn lemma_sum_zero<T: Ring>(f: spec_fn(int) -> T, n: nat)
    requires
        forall|i: int| 0 <= i < n ==> #[trigger] f(i) == T::zero_spec(),
    ensures
        sum(f, n) == T::zero_spec(),
    decreases n,
{
    if n > 0 {
        lemma_sum_zero(f, (n - 1) as nat);
        T::add_zero(T::zero_spec());
    }
}

/// A sum with one term that is not zero is that term.
pub proof fn lemma_sum_single<T: Ring>(f: spec_fn(int) -> T, n: nat, p: int)
    requires
        0 <= p < n,
        forall|i: int| 0 <= i < n && i != p ==> #[trigger] f(i) == T::zero_spec(),
    ensures
        sum(f, n) == f(p),
    decreases n,
{
    if p == n - 1 {
        lemma_sum_zero(f, (n - 1) as nat);
        lemma_zero_add(f(p));
    } else {
        lemma_sum_single(f, (n - 1) as nat, p);
        T::add_zero(f(p));
    }
}

/// The sum of the negations is the negation of the sum.
pub proof fn lemma_sum_neg<T: Ring>(f: spec_fn(int) -> T, g: spec_fn(int) -> T, n: nat)
    requires
        forall|i: int| 0 <= i < n ==> #[trigger] g(i) == f(i).neg_spec(),
    ensures
        sum(g, n) == sum(f, n).neg_spec(),
    decreases n,
{
    if n == 0 {
        lemma_neg_zero::<T>();
    } else {
        lemma_sum_neg(f, g, (n - 1) as nat);
        lemma_neg_add(sum(f, (n - 1) as nat), f(n - 1));
    }
}

/// The sum of the termwise sums is the sum of the sums.
pub proof fn lemma_sum_add<T: Ring>(
    f: spec_fn(int) -> T,
    g: spec_fn(int) -> T,
    h: spec_fn(int) -> T,
    n: nat,
)
    requires
        forall|i: int| 0 <= i < n ==> #[trigger] h(i) == f(i).add_spec(g(i)),
    ensures
        sum(h, n) == sum(f, n).add_spec(sum(g, n)),
    decreases n,
{
    if n == 0 {
        T::add_zero(T::zero_spec());
    } else {
        lemma_sum_add(f, g, h, (n - 1) as nat);
        lemma_add_interchange(sum(f, (n - 1) as nat), f(n - 1), sum(g, (n - 1) as nat), g(n - 1));
    }
}

/// A common left factor moves out of a sum.
pub proof fn lemma_sum_scale<T: Ring>(c: T, f: spec_fn(int) -> T, g: spec_fn(int) -> T, n: nat)
    requires
        forall|i: int| 0 <= i < n ==> #[trigger] g(i) == c.mul_spec(f(i)),
    ensures
        sum(g, n) == c.mul_spec(sum(f, n)),
    decreases n,
{
    if n == 0 {
        lemma_mul_zero(c);
    } else {
        lemma_sum_scale(c, f, g, (n - 1) as nat);
        T::distributive(c, sum(f, (n - 1) as nat), f(n - 1));
    }
}

/// A term that is zero can be left out of a sum.
pub proof fn lemma_sum_skip<T: Ring>(f: spec_fn(int) -> T, g: spec_fn(int) -> T, n: nat, p: int)
    requires
        0 <= p < n,
        f(p) == T::zero_spec(),
        forall|i: int| 0 <= i < n - 1 ==> #[trigger] g(i) == f(skip_index(i, p)),
    ensures
        sum(f, n) == sum(g, (n - 1) as nat),
    decreases n,
{
    if p == n - 1 {
        lemma_sum_congruence(f, g, (n - 1) as nat);
        T::add_zero(sum(f, (n - 1) as nat));
    } else {
        lemma_sum_skip(f, g, (n - 1) as nat, p);
    }
}

/// A double sum can be taken in either order.
pub proof fn lemma_sum_exchange<T: Ring>(
    f: spec_fn(int, int) -> T,
    rows: spec_fn(int) -> T,
    cols: spec_fn(int) -> T,
    n: nat,
    m: nat,
)
    requires
        forall|i: int| 0 <= i < n ==> #[trigger] rows(i) == sum(|j: int| f(i, j), m),
        forall|j: int| 0 <= j < m ==> #[trigger] cols(j) == sum(|i: int| f(i, j), n),
    ensures
        sum(rows, n) == sum(cols, m),
    decreases n,
{
    if n == 0 {
        lemma_sum_zero(cols, m);
    } else {
        let k = (n - 1) as nat;
        let cols_before = |j: int| sum(|i: int| f(i, j), k);
        let last = |j: int| f(n - 1, j);
        lemma_sum_exchange(f, rows, cols_before, k, m);
        lemma_sum_add(cols_before, last, cols, m);
    }
}

} // verus!
