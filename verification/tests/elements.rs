use linalg::scalar::apply;
use linalg::{BinOp, Scalar};

#[test]
fn signed_identities() {
    assert_eq!(<isize as Scalar>::zero(), 0);
    assert_eq!(<isize as Scalar>::one(), 1);
}

#[test]
fn unsigned_identities() {
    assert_eq!(<usize as Scalar>::zero(), 0);
    assert_eq!(<usize as Scalar>::one(), 1);
}

#[test]
fn signed_arithmetic() {
    let a: isize = -7;
    let b: isize = 2;
    assert_eq!(Scalar::add(&a, &b), -5);
    assert_eq!(Scalar::sub(&a, &b), -9);
    assert_eq!(Scalar::mul(&a, &b), -14);
    assert_eq!(Scalar::div(&a, &b), -3);
    assert_eq!(Scalar::rem(&a, &b), -1);
    assert_eq!(Scalar::neg(&a), 7);
    assert_eq!(Scalar::div(&7isize, &-2isize), -3);
    assert_eq!(Scalar::rem(&7isize, &-2isize), 1);
    assert_eq!(Scalar::copy(&a), -7);
    assert!(a.equals(&-7));
    assert!(!a.equals(&7));
}

#[test]
fn unsigned_arithmetic() {
    let a: usize = 7;
    let b: usize = 2;
    assert_eq!(Scalar::add(&a, &b), 9);
    assert_eq!(Scalar::sub(&a, &b), 5);
    assert_eq!(Scalar::mul(&a, &b), 14);
    assert_eq!(Scalar::div(&a, &b), 3);
    assert_eq!(Scalar::rem(&a, &b), 1);
    assert_eq!(Scalar::neg(&0usize), 0);
    assert_eq!(Scalar::copy(&a), 7);
    assert!(a.equals(&7));
    assert!(!a.equals(&8));
}

#[test]
fn arithmetic_at_the_limits() {
    assert_eq!(Scalar::add(&isize::MAX, &0), isize::MAX);
    assert_eq!(Scalar::add(&(isize::MAX - 1), &1), isize::MAX);
    assert_eq!(Scalar::sub(&isize::MIN, &0), isize::MIN);
    assert_eq!(Scalar::neg(&isize::MAX), isize::MIN + 1);
    assert_eq!(Scalar::div(&isize::MIN, &1), isize::MIN);
    assert_eq!(Scalar::mul(&isize::MIN, &1), isize::MIN);
    assert_eq!(Scalar::rem(&isize::MIN, &2), 0);
    assert_eq!(Scalar::add(&(usize::MAX - 1), &1), usize::MAX);
    assert_eq!(Scalar::sub(&usize::MAX, &usize::MAX), 0);
    assert_eq!(Scalar::div(&usize::MAX, &usize::MAX), 1);
}

#[test]
fn apply_dispatches_on_the_operator() {
    let a: isize = 17;
    let b: isize = 5;
    assert_eq!(apply(BinOp::Add, &a, &b), 22);
    assert_eq!(apply(BinOp::Sub, &a, &b), 12);
    assert_eq!(apply(BinOp::Mul, &a, &b), 85);
    assert_eq!(apply(BinOp::Div, &a, &b), 3);
    assert_eq!(apply(BinOp::Rem, &a, &b), 2);
}
