use linalg::{Matrix, Scalar, Vector};

fn vec_zeros<T: Default + Scalar>(count: usize) -> Vector<T> {
    let mut v = Vector::new(count);
    for i in 0..count {
        *v.get_mut(i) = T::zero();
    }
    v
}

fn vec_ones<T: Default + Scalar>(count: usize) -> Vector<T> {
    let mut v = Vector::new(count);
    for i in 0..count {
        *v.get_mut(i) = T::one();
    }
    v
}

#[test]
fn vector_test_mul_vector_vector() {
    let a: Vector<usize> = vec_ones(3);
    let b: Vector<usize> = vec_ones(3);
    let c: Vector<usize> = vec_ones(3);
    let d: Vector<usize> = &a * &b;
    assert_eq!(d, c);
}

#[test]
fn vector_test_mul_vector_matrix() {
    let a: Vector<usize> = vec_zeros(3);
    let b: Matrix<usize> = Matrix::identity(3, 3);
    let c: Vector<usize> = Vector::new(3);
    let d: Vector<usize> = &a * &b;
    assert_eq!(d, c);
}

#[test]
fn vector_test_mul_vector_scalar() {
    let a: Vector<usize> = vec_ones(3);
    let s: usize = 3;
    let mut c: Vector<usize> = Vector::new(3);
    *c.get_mut(0) = 3;
    *c.get_mut(1) = 3;
    *c.get_mut(2) = 3;
    let d: Vector<usize> = &a * &s;
    assert_eq!(d, c);
}

#[test]
fn vector_test_dot_vectors() {
    let a: Vector<usize> = vec_ones(3);
    let b: Vector<usize> = vec_ones(3);
    let c = a.dot(&b);
    assert_eq!(c, 3);
}

#[test]
fn vector_test_add_vectors() {
    let a: Vector<usize> = vec_ones(3);
    let b: Vector<usize> = vec_ones(3);
    let c = &a + &b;
    assert_eq!(c[0], 2);
    assert_eq!(c[1], 2);
    assert_eq!(c[2], 2);
}

#[test]
fn vector_test_add_vector_scale() {
    let a: Vector<usize> = vec_ones(3);
    let c = &a + &1;
    assert_eq!(c[0], 2);
    assert_eq!(c[1], 2);
    assert_eq!(c[2], 2);
}

#[test]
fn vector_test_sub_vectors() {
    let a: Vector<usize> = vec_ones(3);
    let b: Vector<usize> = vec_ones(3);
    let c = &a - &b;
    assert_eq!(c[0], 0);
    assert_eq!(c[1], 0);
    assert_eq!(c[2], 0);
}

#[test]
fn vector_test_sub_vector_scale() {
    let a: Vector<usize> = vec_ones(3);
    let c = &a - &1;
    assert_eq!(c[0], 0);
    assert_eq!(c[1], 0);
    assert_eq!(c[2], 0);
}

#[test]
fn test_neg_vector() {
    let a: Vector<isize> = vec_ones(3);
    let b = -&a;
    assert_eq!(b[0], -1);
    assert_eq!(b[1], -1);
    assert_eq!(b[2], -1);
}
