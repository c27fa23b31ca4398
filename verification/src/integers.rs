//! Machine integers as elements: two's-complement arithmetic as the
//! mathematical model, the native operators as the executable operations.

use crate::scalar::{Ring, Scalar};
use vstd::arithmetic::div_mod::{
    lemma_fundamental_div_mod, lemma_mod_bound, lemma_mod_multiples_vanish, lemma_small_mod,
};
use vstd::prelude::*;

verus! {

/// The representative of `x` in `lo..=hi` modulo the size of that range.
pub open spec fn wrap(x: int, lo: int, hi: int) -> int {
    if lo <= x <= hi {
        x
    } else {
        lo + (x - lo) % (hi - lo + 1)
    }
}

/// Division that rounds towards zero.
pub open spec fn trunc_div(a: int, b: int) -> int {
    if a >= 0 {
        a / b
    } else {
        -((-a) / b)
    }
}

/// The remainder of the division that rounds towards zero.
pub open spec fn trunc_rem(a: int, b: int) -> int {
    if a >= 0 {
        a % b
    } else {
        -((-a) % b)
    }
}

/// `wrap` is the remainder form on every input, and lands in the range.
pub proof fn lemma_wrap_range(x: int, lo: int, hi: int)
    requires
        lo <= hi,
    ensures
        wrap(x, lo, hi) == lo + (x - lo) % (hi - lo + 1),
        lo <= wrap(x, lo, hi) <= hi,
{
    let m = hi - lo + 1;
    lemma_mod_bound(x - lo, m);
    if lo <= x <= hi {
        lemma_small_mod((x - lo) as nat, m as nat);
    }
}

/// Adding a multiple of the range's size does not change the representative.
pub proof fn lemma_wrap_shift(x: int, k: int, lo: int, hi: int)
    requires
        lo <= hi,
    ensures
        wrap(x + (hi - lo + 1) * k, lo, hi) == wrap(x, lo, hi),
{
    let m = hi - lo + 1;
    lemma_wrap_range(x, lo, hi);
    lemma_wrap_range(x + m * k, lo, hi);
    lemma_mod_multiples_vanish(k, x - lo, m);
    assert(x + m * k - lo == m * k + (x - lo));
}

/// `wrap(x)` differs from `x` by a multiple of the range's size.
pub proof fn lemma_wrap_offset(x: int, lo: int, hi: int) -> (k: int)
    requires
        lo <= hi,
    ensures
        wrap(x, lo, hi) == x + (hi - lo + 1) * k,
{
    let m = hi - lo + 1;
    lemma_wrap_range(x, lo, hi);
    lemma_fundamental_div_mod(x - lo, m);
    let k = -((x - lo) / m);
    assert(m * k == -(m * ((x - lo) / m))) by (nonlinear_arith)
        requires
            k == -((x - lo) / m),
    ;
    k
}

/// Wrapping one summand first does not change the wrapped sum.
pub proof fn lemma_wrap_add(x: int, y: int, lo: int, hi: int)
    requires
        lo <= hi,
    ensures
        wrap(wrap(x, lo, hi) + y, lo, hi) == wrap(x + y, lo, hi),
{
    let k = lemma_wrap_offset(x, lo, hi);
    lemma_wrap_shift(x + y, k, lo, hi);
}

/// Wrapping one factor first does not change the wrapped product.
pub proof fn lemma_wrap_mul(x: int, y: int, lo: int, hi: int)
    requires
        lo <= hi,
    ensures
        wrap(wrap(x, lo, hi) * y, lo, hi) == wrap(x * y, lo, hi),
        wrap(y * wrap(x, lo, hi), lo, hi) == wrap(y * x, lo, hi),
{
    let m = hi - lo + 1;
    let k = lemma_wrap_offset(x, lo, hi);
    lemma_wrap_shift(x * y, k * y, lo, hi);
    assert((x + m * k) * y == x * y + m * (k * y)) by (nonlinear_arith);
    assert(y * (x + m * k) == (x + m * k) * y) by (nonlinear_arith);
    assert(y * x == x * y) by (nonlinear_arith);
}

/// Associativity of the wrapped sum.
pub proof fn lemma_wrap_add_associative(a: int, b: int, c: int, lo: int, hi: int)
    requires
        lo <= hi,
    ensures
        wrap(wrap(a + b, lo, hi) + c, lo, hi) == wrap(a + wrap(b + c, lo, hi), lo, hi),
{
    lemma_wrap_add(a + b, c, lo, hi);
    lemma_wrap_add(b + c, a, lo, hi);
}

/// The wrapped negation is the additive inverse.
pub proof fn lemma_wrap_add_neg(a: int, lo: int, hi: int)
    requires
        lo <= 0 <= hi,
    ensures
        wrap(a + wrap(-a, lo, hi), lo, hi) == 0,
{
    lemma_wrap_add(-a, a, lo, hi);
}

/// Associativity of the wrapped product.
pub proof fn lemma_wrap_mul_associative(a: int, b: int, c: int, lo: int, hi: int)
    requires
        lo <= hi,
    ensures
        wrap(wrap(a * b, lo, hi) * c, lo, hi) == wrap(a * wrap(b * c, lo, hi), lo, hi),
{
    lemma_wrap_mul(a * b, c, lo, hi);
    lemma_wrap_mul(b * c, a, lo, hi);
    assert((a * b) * c == a * (b * c)) by (nonlinear_arith);
}

/// The wrapped product distributes over the wrapped sum.
pub proof fn lemma_wrap_distributive(a: int, b: int, c: int, lo: int, hi: int)
    requires
        lo <= hi,
    ensures
        wrap(a * wrap(b + c, lo, hi), lo, hi) == wrap(
            wrap(a * b, lo, hi) + wrap(a * c, lo, hi),
            lo,
            hi,
        ),
{
    lemma_wrap_mul(b + c, a, lo, hi);
    lemma_wrap_add(a * b, wrap(a * c, lo, hi), lo, hi);
    lemma_wrap_add(a * c, a * b, lo, hi);
    assert(a * (b + c) == a * b + a * c) by (nonlinear_arith);
}

/// The truncated quotient of two values of an unsigned or a two's-complement
/// range stays in the range, except for the least value divided by minus one.
pub proof fn lemma_trunc_div_range(a: int, b: int, lo: int, hi: int)
    requires
        lo <= a <= hi,
        lo <= b <= hi,
        b != 0,
        lo == 0 || lo == -hi - 1,
        !(a == lo && b == -1),
    ensures
        lo <= trunc_div(a, b) <= hi,
{
    assert(lo <= trunc_div(a, b) <= hi) by (nonlinear_arith)
        requires
            lo <= a <= hi,
            lo <= b <= hi,
            b != 0,
            lo == 0 || lo == -hi - 1,
            !(a == lo && b == -1),
    ;
}

/// The truncated remainder of two values of an unsigned or a
/// two's-complement range stays in the range.
pub proof fn lemma_trunc_rem_range(a: int, b: int, lo: int, hi: int)
    requires
        lo <= a <= hi,
        lo <= b <= hi,
        b != 0,
        lo == 0 || lo == -hi - 1,
    ensures
        lo <= trunc_rem(a, b) <= hi,
{
    assert(lo <= trunc_rem(a, b) <= hi) by (nonlinear_arith)
        requires
            lo <= a <= hi,
            lo <= b <= hi,
            b != 0,
            lo == 0 || lo == -hi - 1,
    ;
}

impl Scalar for isize {
    open spec fn zero_spec() -> Self {
        0
    }

    open spec fn one_spec() -> Self {
        1
    }

    open spec fn neg_spec(self) -> Self {
        wrap(-self, isize::MIN as int, isize::MAX as int) as isize
    }

    open spec fn add_spec(self, rhs: Self) -> Self {
        wrap(self + rhs, isize::MIN as int, isize::MAX as int) as isize
    }

    open spec fn sub_spec(self, rhs: Self) -> Self {
        wrap(self - rhs, isize::MIN as int, isize::MAX as int) as isize
    }

    open spec fn mul_spec(self, rhs: Self) -> Self {
        wrap(self * rhs, isize::MIN as int, isize::MAX as int) as isize
    }

    open spec fn div_spec(self, rhs: Self) -> Self {
        wrap(trunc_div(self as int, rhs as int), isize::MIN as int, isize::MAX as int) as isize
    }

    open spec fn rem_spec(self, rhs: Self) -> Self {
        wrap(trunc_rem(self as int, rhs as int), isize::MIN as int, isize::MAX as int) as isize
    }

    open spec fn neg_ok(self) -> bool {
        self != isize::MIN
    }

    open spec fn add_ok(self, rhs: Self) -> bool {
        isize::MIN <= self + rhs <= isize::MAX
    }

    open spec fn sub_ok(self, rhs: Self) -> bool {
        isize::MIN <= self - rhs <= isize::MAX
    }

    open spec fn mul_ok(self, rhs: Self) -> bool {
        isize::MIN <= self * rhs <= isize::MAX
    }

    open spec fn div_ok(self, rhs: Self) -> bool {
        rhs != 0 && !(self == isize::MIN && rhs == -1)
    }

    open spec fn rem_ok(self, rhs: Self) -> bool {
        rhs != 0 && !(self == isize::MIN && rhs == -1)
    }

    fn zero() -> (r: Self) {
        0
    }

    fn one() -> (r: Self) {
        1
    }

    fn copy(&self) -> (r: Self) {
        *self
    }

    fn equals(&self, rhs: &Self) -> (r: bool) {
        *self == *rhs
    }

    fn neg(&self) -> (r: Self) {
        -*self
    }

    fn add(&self, rhs: &Self) -> (r: Self) {
        *self + *rhs
    }

    fn sub(&self, rhs: &Self) -> (r: Self) {
        *self - *rhs
    }

    fn mul(&self, rhs: &Self) -> (r: Self) {
        *self * *rhs
    }

    fn div(&self, rhs: &Self) -> (r: Self) {
        proof {
            lemma_trunc_div_range(
                *self as int,
                *rhs as int,
                isize::MIN as int,
                isize::MAX as int,
            );
        }
        *self / *rhs
    }

    fn rem(&self, rhs: &Self) -> (r: Self) {
        proof {
            lemma_trunc_rem_range(
                *self as int,
                *rhs as int,
                isize::MIN as int,
                isize::MAX as int,
            );
        }
        *self % *rhs
    }
}

impl Ring for isize {
    proof fn add_commutative(a: Self, b: Self) {
    }

    proof fn add_associative(a: Self, b: Self, c: Self) {
        let (lo, hi) = (isize::MIN as int, isize::MAX as int);
        lemma_wrap_range(a + b, lo, hi);
        lemma_wrap_range(b + c, lo, hi);
        lemma_wrap_add_associative(a as int, b as int, c as int, lo, hi);
    }

    proof fn add_zero(a: Self) {
    }

    proof fn add_neg(a: Self) {
        let (lo, hi) = (isize::MIN as int, isize::MAX as int);
        lemma_wrap_range(-a, lo, hi);
        lemma_wrap_add_neg(a as int, lo, hi);
    }

    proof fn mul_commutative(a: Self, b: Self) {
        assert(a * b == b * a) by (nonlinear_arith);
    }

    proof fn mul_associative(a: Self, b: Self, c: Self) {
        let (lo, hi) = (isize::MIN as int, isize::MAX as int);
        lemma_wrap_range(a * b, lo, hi);
        lemma_wrap_range(b * c, lo, hi);
        lemma_wrap_mul_associative(a as int, b as int, c as int, lo, hi);
    }

    proof fn mul_one(a: Self) {
    }

    proof fn distributive(a: Self, b: Self, c: Self) {
        let (lo, hi) = (isize::MIN as int, isize::MAX as int);
        lemma_wrap_range(b + c, lo, hi);
        lemma_wrap_range(a * b, lo, hi);
        lemma_wrap_range(a * c, lo, hi);
        lemma_wrap_distributive(a as int, b as int, c as int, lo, hi);
    }

    proof fn div_one(a: Self) {
    }
}

impl Scalar for usize {
    open spec fn zero_spec() -> Self {
        0
    }

    open spec fn one_spec() -> Self {
        1
    }

    open spec fn neg_spec(self) -> Self {
        wrap(-self, 0, usize::MAX as int) as usize
    }

    open spec fn add_spec(self, rhs: Self) -> Self {
        wrap(self + rhs, 0, usize::MAX as int) as usize
    }

    open spec fn sub_spec(self, rhs: Self) -> Self {
        wrap(self - rhs, 0, usize::MAX as int) as usize
    }

    open spec fn mul_spec(self, rhs: Self) -> Self {
        wrap(self * rhs, 0, usize::MAX as int) as usize
    }

    open spec fn div_spec(self, rhs: Self) -> Self {
        wrap(trunc_div(self as int, rhs as int), 0, usize::MAX as int) as usize
    }

    open spec fn rem_spec(self, rhs: Self) -> Self {
        wrap(trunc_rem(self as int, rhs as int), 0, usize::MAX as int) as usize
    }

    open spec fn neg_ok(self) -> bool {
        self == 0
    }

    open spec fn add_ok(self, rhs: Self) -> bool {
        self + rhs <= usize::MAX
    }

    open spec fn sub_ok(self, rhs: Self) -> bool {
        rhs <= self
    }

    open spec fn mul_ok(self, rhs: Self) -> bool {
        self * rhs <= usize::MAX
    }

    open spec fn div_ok(self, rhs: Self) -> bool {
        rhs != 0
    }

    open spec fn rem_ok(self, rhs: Self) -> bool {
        rhs != 0
    }

    fn zero() -> (r: Self) {
        0
    }

    fn one() -> (r: Self) {
        1
    }

    fn copy(&self) -> (r: Self) {
        *self
    }

    fn equals(&self, rhs: &Self) -> (r: bool) {
        *self == *rhs
    }

    fn neg(&self) -> (r: Self) {
        0 - *self
    }

    fn add(&self, rhs: &Self) -> (r: Self) {
        *self + *rhs
    }

    fn sub(&self, rhs: &Self) -> (r: Self) {
        *self - *rhs
    }

    fn mul(&self, rhs: &Self) -> (r: Self) {
        *self * *rhs
    }

    fn div(&self, rhs: &Self) -> (r: Self) {
        proof {
            lemma_trunc_div_range(*self as int, *rhs as int, 0, usize::MAX as int);
        }
        *self / *rhs
    }

    fn rem(&self, rhs: &Self) -> (r: Self) {
        proof {
            lemma_trunc_rem_range(*self as int, *rhs as int, 0, usize::MAX as int);
        }
        *self % *rhs
    }
}

impl Ring for usize {
    proof fn add_commutative(a: Self, b: Self) {
    }

    proof fn add_associative(a: Self, b: Self, c: Self) {
        let (lo, hi) = (0, usize::MAX as int);
        lemma_wrap_range(a + b, lo, hi);
        lemma_wrap_range(b + c, lo, hi);
        lemma_wrap_add_associative(a as int, b as int, c as int, lo, hi);
    }

    proof fn add_zero(a: Self) {
    }

    proof fn add_neg(a: Self) {
        let (lo, hi) = (0, usize::MAX as int);
        lemma_wrap_range(-a, lo, hi);
        lemma_wrap_add_neg(a as int, lo, hi);
    }

    proof fn mul_commutative(a: Self, b: Self) {
        assert(a * b == b * a) by (nonlinear_arith);
    }

    proof fn mul_associative(a: Self, b: Self, c: Self) {
        let (lo, hi) = (0, usize::MAX as int);
        lemma_wrap_range(a * b, lo, hi);
        lemma_wrap_range(b * c, lo, hi);
        lemma_wrap_mul_associative(a as int, b as int, c as int, lo, hi);
    }

    proof fn mul_one(a: Self) {
    }

    proof fn distributive(a: Self, b: Self, c: Self) {
        let (lo, hi) = (0, usize::MAX as int);
        lemma_wrap_range(b + c, lo, hi);
        lemma_wrap_range(a * b, lo, hi);
        lemma_wrap_range(a * c, lo, hi);
        lemma_wrap_distributive(a as int, b as int, c as int, lo, hi);
    }

    proof fn div_one(a: Self) {
    }
}

} // verus!
