use linalg::{Matrix, Scalar};

/// A single-precision element, compared exactly.
#[derive(Clone, Copy, Debug, PartialEq)]
struct Real(f32);

impl Scalar for Real {
    fn zero_spec() -> Self {
        Real(0.0)
    }

    fn one_spec() -> Self {
        Real(1.0)
    }

    fn neg_spec(self) -> Self {
        Real(-self.0)
    }

    fn add_spec(self, rhs: Self) -> Self {
        Real(self.0 + rhs.0)
    }

    fn sub_spec(self, rhs: Self) -> Self {
        Real(self.0 - rhs.0)
    }

    fn mul_spec(self, rhs: Self) -> Self {
        Real(self.0 * rhs.0)
    }

    fn div_spec(self, rhs: Self) -> Self {
        Real(self.0 / rhs.0)
    }

    fn rem_spec(self, rhs: Self) -> Self {
        Real(self.0 % rhs.0)
    }

    fn neg_ok(self) -> bool {
        true
    }

    fn add_ok(self, _rhs: Self) -> bool {
        true
    }

    fn sub_ok(self, _rhs: Self) -> bool {
        true
    }

    fn mul_ok(self, _rhs: Self) -> bool {
        true
    }

    fn div_ok(self, _rhs: Self) -> bool {
        true
    }

    fn rem_ok(self, _rhs: Self) -> bool {
        true
    }

    fn zero() -> Self {
        Real(0.0)
    }

    fn one() -> Self {
        Real(1.0)
    }

    fn copy(&self) -> Self {
        *self
    }

    fn equals(&self, rhs: &Self) -> bool {
        self.0 == rhs.0
    }

    fn neg(&self) -> Self {
        Real(-self.0)
    }

    fn add(&self, rhs: &Self) -> Self {
        Real(self.0 + rhs.0)
    }

    fn sub(&self, rhs: &Self) -> Self {
        Real(self.0 - rhs.0)
    }

    fn mul(&self, rhs: &Self) -> Self {
        Real(self.0 * rhs.0)
    }

    fn div(&self, rhs: &Self) -> Self {
        Real(self.0 / rhs.0)
    }

    fn rem(&self, rhs: &Self) -> Self {
        Real(self.0 % rhs.0)
    }
}

#[test]
fn matrix_test_mul_matrix_matrix() {
    let a: Matrix<usize> = Matrix::identity(3, 3);
    let b: Matrix<usize> = Matrix::identity(3, 3);
    let c: Matrix<usize> = Matrix::identity(3, 3);
    let d: Matrix<usize> = &a * &b;

    assert_eq!(d, c);
}

#[test]
fn matrix_test_mul_matrix_scalar() {
    let a: Matrix<usize> = Matrix::identity(3, 3);
    let s: usize = 3;
    let mut c: Matrix<usize> = Matrix::identity(3, 3);
    *c.get_mut(0, 0) = 3;
    *c.get_mut(1, 1) = 3;
    *c.get_mut(2, 2) = 3;
    let d: Matrix<usize> = &a * &s;

    assert_eq!(d, c);
}

#[test]
fn test_det_matrix_matrix() {
    let a: Matrix<isize> = Matrix::identity(2, 2);
    assert_eq!(a.determinant(), 1);

    let b: Matrix<isize> = Matrix::identity(3, 3);
    assert_eq!(b.determinant(), 1);
}

#[test]
fn test_inverse_matrix() {
    let a: Matrix<isize> = Matrix::identity(2, 2);
    let b = a.inverse();

    assert_eq!(b[0][0], 1);
    assert_eq!(b[1][1], 1);

    let a: Matrix<Real> = Matrix::identity(2, 2);
    let b = (&a * &Real(2f32)).inverse();

    assert_eq!(b[0][0], Real(0.5));
    assert_eq!(b[1][1], Real(0.5));
}

#[test]
fn singularity_is_tested_without_tolerance() {
    let mut a: Matrix<Real> = Matrix::zeroed(2, 2);
    *a.get_mut(0, 0) = Real(1.0);
    *a.get_mut(0, 1) = Real(2.0);
    *a.get_mut(1, 0) = Real(2.0);
    *a.get_mut(1, 1) = Real(4.0);
    assert_eq!(a.determinant(), Real(0.0));
    assert!(a.try_inverse().is_none());

    // A determinant that is tiny but not zero still counts as regular.
    *a.get_mut(1, 1) = Real(4.000001);
    assert_ne!(a.determinant(), Real(0.0));
    assert!(a.try_inverse().is_some());
}

#[test]
fn inverse_of_a_real_matrix() {
    let mut a: Matrix<Real> = Matrix::zeroed(2, 2);
    *a.get_mut(0, 0) = Real(4.0);
    *a.get_mut(0, 1) = Real(7.0);
    *a.get_mut(1, 0) = Real(2.0);
    *a.get_mut(1, 1) = Real(6.0);
    let b = a.inverse();
    assert_eq!(b[0][0], Real(6.0 / 10.0));
    assert_eq!(b[0][1], Real(-7.0 / 10.0));
    assert_eq!(b[1][0], Real(-2.0 / 10.0));
    assert_eq!(b[1][1], Real(4.0 / 10.0));
}
