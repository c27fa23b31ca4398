//! The element interface: what a type must offer to be stored in a `Vector`
//! or a `Matrix`, and the algebraic laws the theorems of this crate rest on.

use vstd::prelude::*;

verus! {

/// An element type.
///
/// Every operation comes in three parts: a total mathematical function
/// (`add_spec`), the set of operands on which the executable operation is
/// defined (`add_ok`), and the executable operation itself (`add`), which
/// agrees with the mathematical function wherever it is defined. For a
/// machine integer the mathematical function is two's-complement arithmetic
/// and the executable operation is defined where the exact result fits.
pub trait Scalar: Sized {
    /// The additive identity.
    spec fn zero_spec() -> Self;

    /// The multiplicative identity.
    spec fn one_spec() -> Self;

    /// The additive inverse.
    spec fn neg_spec(self) -> Self;

    /// The sum.
    spec fn add_spec(self, rhs: Self) -> Self;

    /// The difference.
    spec fn sub_spec(self, rhs: Self) -> Self;

    /// The product.
    spec fn mul_spec(self, rhs: Self) -> Self;

    /// The quotient.
    spec fn div_spec(self, rhs: Self) -> Self;

    /// The remainder.
    spec fn rem_spec(self, rhs: Self) -> Self;

    /// Whether `neg` is defined on `self`.
    spec fn neg_ok(self) -> bool;

    /// Whether `add` is defined on the two operands.
    spec fn add_ok(self, rhs: Self) -> bool;

    /// Whether `sub` is defined on the two operands.
    spec fn sub_ok(self, rhs: Self) -> bool;

    /// Whether `mul` is defined on the two operands.
    spec fn mul_ok(self, rhs: Self) -> bool;

    /// Whether `div` is defined on the two operands.
    spec fn div_ok(self, rhs: Self) -> bool;

    /// Whether `rem` is defined on the two operands.
    spec fn rem_ok(self, rhs: Self) -> bool;

    /// The additive identity.
    fn zero() -> (r: Self)
        ensures
            r == Self::zero_spec(),
    ;

    /// The multiplicative identity.
    fn one() -> (r: Self)
        ensures
            r == Self::one_spec(),
    ;

    /// An exact duplicate of `self`.
    fn copy(&self) -> (r: Self)
        ensures
            r == *self,
    ;

    /// Exact equality: no tolerance.
    fn equals(&self, rhs: &Self) -> (r: bool)
        ensures
            r == (*self == *rhs),
    ;

    /// `-self`, where it is defined.
    fn neg(&self) -> (r: Self)
        requires
            self.neg_ok(),
        ensures
            r == self.neg_spec(),
    ;

    /// `self + rhs`, where it is defined.
    fn add(&self, rhs: &Self) -> (r: Self)
        requires
            self.add_ok(*rhs),
        ensures
            r == self.add_spec(*rhs),
    ;

    /// `self - rhs`, where it is defined.
    fn sub(&self, rhs: &Self) -> (r: Self)
        requires
            self.sub_ok(*rhs),
        ensures
            r == self.sub_spec(*rhs),
    ;

    /// `self * rhs`, where it is defined.
    fn mul(&self, rhs: &Self) -> (r: Self)
        requires
            self.mul_ok(*rhs),
        ensures
            r == self.mul_spec(*rhs),
    ;

    /// `self / rhs`, where it is defined.
    fn div(&self, rhs: &Self) -> (r: Self)
        requires
            self.div_ok(*rhs),
        ensures
            r == self.div_spec(*rhs),
    ;

    /// `self % rhs`, where it is defined.
    fn rem(&self, rhs: &Self) -> (r: Self)
        requires
            self.rem_ok(*rhs),
        ensures
            r == self.rem_spec(*rhs),
    ;
}

/// An element type whose mathematical operations form a commutative ring
/// with identity in which division by one is exact.
pub trait Ring: Scalar {
    /// `a + b == b + a`.
    proof fn add_commutative(a: Self, b: Self)
        ensures
            a.add_spec(b) == b.add_spec(a),
    ;

    /// `(a + b) + c == a + (b + c)`.
    proof fn add_associative(a: Self, b: Self, c: Self)
        ensures
            a.add_spec(b).add_spec(c) == a.add_spec(b.add_spec(c)),
    ;

    /// `a + 0 == a`.
    proof fn add_zero(a: Self)
        ensures
            a.add_spec(Self::zero_spec()) == a,
    ;

    /// `a + (-a) == 0`.
    proof fn add_neg(a: Self)
        ensures
            a.add_spec(a.neg_spec()) == Self::zero_spec(),
    ;

    /// `a * b == b * a`.
    proof fn mul_commutative(a: Self, b: Self)
        ensures
            a.mul_spec(b) == b.mul_spec(a),
    ;

    /// `(a * b) * c == a * (b * c)`.
    proof fn mul_associative(a: Self, b: Self, c: Self)
        ensures
            a.mul_spec(b).mul_spec(c) == a.mul_spec(b.mul_spec(c)),
    ;

    /// `a * 1 == a`.
    proof fn mul_one(a: Self)
        ensures
            a.mul_spec(Self::one_spec()) == a,
    ;

    /// `a * (b + c) == a * b + a * c`.
    proof fn distributive(a: Self, b: Self, c: Self)
        ensures
            a.mul_spec(b.add_spec(c)) == a.mul_spec(b).add_spec(a.mul_spec(c)),
    ;

    /// `a / 1 == a`.
    proof fn div_one(a: Self)
        ensures
            a.div_spec(Self::one_spec()) == a,
    ;
}

/// The five elementwise binary operators.
#[derive(Clone, Copy, Debug)]
pub enum BinOp {
    Add,
    Sub,
    Mul,
    Div,
    Rem,
}

/// The mathematical value of `a <op> b`.
pub open spec fn op_spec<T: Scalar>(op: BinOp, a: T, b: T) -> T {
    match op {
        BinOp::Add => a.add_spec(b),
        BinOp::Sub => a.sub_spec(b),
        BinOp::Mul => a.mul_spec(b),
        BinOp::Div => a.div_spec(b),
        BinOp::Rem => a.rem_spec(b),
    }
}

/// Whether the executable `a <op> b` is defined.
pub open spec fn op_ok<T: Scalar>(op: BinOp, a: T, b: T) -> bool {
    match op {
        BinOp::Add => a.add_ok(b),
        BinOp::Sub => a.sub_ok(b),
        BinOp::Mul => a.mul_ok(b),
        BinOp::Div => a.div_ok(b),
        BinOp::Rem => a.rem_ok(b),
    }
}

/// Computes `a <op> b`.
pub fn apply<T: Scalar>(op: BinOp, a: &T, b: &T) -> (r: T)
    requires
        op_ok(op, *a, *b),
    ensures
        r == op_spec(op, *a, *b),
{
    match op {
        BinOp::Add => a.add(b),
        BinOp::Sub => a.sub(b),
        BinOp::Mul => a.mul(b),
        BinOp::Div => a.div(b),
        BinOp::Rem => a.rem(b),
    }
}

} // verus!
