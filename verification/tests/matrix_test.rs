use linalg::{Matrix, Vector};

#[test]
fn test_matrix_mul() {
    let a = Matrix::<usize>::identity(2, 2);
    let b = Matrix::<usize>::identity(2, 2);
    let r = Matrix::<usize>::identity(2, 2);
    assert_eq!(&(&a * &b), &r);
}

#[test]
fn test_matrix_vec_mul() {
    let a = Matrix::<usize>::identity(2, 2);
    let mut b = Vector::<usize>::new(2);
    *b.get_mut(0) = 0;
    *b.get_mut(1) = 0;
    let mut r = Vector::<usize>::new(2);
    *r.get_mut(0) = 0;
    *r.get_mut(1) = 0;
    assert_eq!(&(&a * &b), &r);
}

#[test]
fn test_vec_matrix_mul() {
    let mut a = Vector::<usize>::new(2);
    *a.get_mut(0) = 0;
    *a.get_mut(1) = 0;
    let b = Matrix::<usize>::identity(2, 2);
    let mut r = Vector::<usize>::new(2);
    *r.get_mut(0) = 0;
    *r.get_mut(1) = 0;
    assert_eq!(&(&a * &b), &r);
}
