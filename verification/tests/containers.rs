use linalg::{BinOp, Matrix, Vector};

fn matrix(rows: &[&[isize]]) -> Matrix<isize> {
    let mut out = Matrix::<isize>::zeroed(rows.len(), rows[0].len());
    for i in 0..rows.len() {
        for j in 0..rows[i].len() {
            *out.get_mut(i, j) = rows[i][j];
        }
    }
    out
}

fn vector(xs: &[isize]) -> Vector<isize> {
    Vector::from_vec(xs.to_vec())
}

#[test]
fn new_vector_holds_defaults() {
    let v = Vector::<usize>::new(4);
    assert_eq!(v.len(), 4);
    assert_eq!(v, Vector::from_vec(vec![0, 0, 0, 0]));
    let w = Vector::<Option<u8>>::new(2);
    assert_eq!(w[0], None);
    assert_eq!(w[1], None);
}

#[test]
fn zeroed_vector_holds_zeros() {
    let v = Vector::<isize>::zeroed(3);
    assert_eq!(v.len(), 3);
    assert_eq!(v, vector(&[0, 0, 0]));
    assert_eq!(Vector::<isize>::zeroed(1).len(), 1);
}

#[test]
fn of_vectors_is_a_grid_of_zeros() {
    let g = Vector::<isize>::of_vectors(2, 3);
    assert_eq!(g.len(), 2);
    assert_eq!(g[0].len(), 3);
    assert_eq!(g[1], vector(&[0, 0, 0]));
    assert_eq!(*g.cell(1, 2), 0);
}

#[test]
fn vector_get_and_get_mut() {
    let mut v = vector(&[5, 6, 7]);
    assert_eq!(*v.get(0), 5);
    assert_eq!(*v.get(2), 7);
    *v.get_mut(1) = -6;
    assert_eq!(v, vector(&[5, -6, 7]));
    assert_eq!(v[1], -6);
}

#[test]
fn vector_borrows_as_a_slice() {
    let v = vector(&[5, 6, 7]);
    let s: &[isize] = &v;
    assert_eq!(s, &[5, 6, 7]);
    assert_eq!(v.iter().sum::<isize>(), 18);
}

#[test]
fn vector_clone_and_equality() {
    let v = vector(&[1, 2, 3]);
    let w = v.clone();
    assert_eq!(v, w);
    assert_ne!(v, vector(&[1, 2, 4]));
    assert_ne!(v, vector(&[1, 2]));
    assert_ne!(v, vector(&[1, 2, 3, 0]));
}

#[test]
fn cell_mut_changes_one_cell() {
    let mut g = Vector::<isize>::of_vectors(2, 2);
    *g.cell_mut(0, 1) = 4;
    assert_eq!(g[0], vector(&[0, 4]));
    assert_eq!(g[1], vector(&[0, 0]));
}

#[test]
fn new_matrix_holds_defaults() {
    let m = Matrix::<isize>::new(2, 3);
    assert_eq!(m.rows(), 2);
    assert_eq!(m.cols(), 3);
    assert_eq!(m, matrix(&[&[0, 0, 0], &[0, 0, 0]]));
}

#[test]
fn zeroed_matrix_holds_zeros() {
    let m = Matrix::<isize>::zeroed(3, 1);
    assert_eq!(m.rows(), 3);
    assert_eq!(m.cols(), 1);
    assert_eq!(m, matrix(&[&[0], &[0], &[0]]));
}

#[test]
fn identity_has_ones_on_the_diagonal() {
    assert_eq!(Matrix::<isize>::identity(1, 1), matrix(&[&[1]]));
    assert_eq!(Matrix::<isize>::identity(3, 3), matrix(&[&[1, 0, 0], &[0, 1, 0], &[0, 0, 1]]));
    assert_eq!(Matrix::<isize>::identity(2, 4), matrix(&[&[1, 0, 0, 0], &[0, 1, 0, 0]]));
}

#[test]
fn matrix_get_and_get_mut() {
    let mut m = matrix(&[&[1, 2], &[3, 4], &[5, 6]]);
    assert_eq!(*m.get(0, 1), 2);
    assert_eq!(*m.get(2, 0), 5);
    *m.get_mut(1, 1) = 40;
    assert_eq!(m, matrix(&[&[1, 2], &[3, 40], &[5, 6]]));
    assert_eq!(m[1], vector(&[3, 40]));
    assert_eq!(m[2][1], 6);
}

#[test]
fn matrix_borrows_as_the_slice_of_its_rows() {
    let m = matrix(&[&[1, 2], &[3, 4], &[5, 6]]);
    assert_eq!(m.len(), 3);
    assert_eq!(m.iter().map(|row| row[1]).sum::<isize>(), 12);
}

#[test]
fn matrix_clone_and_equality() {
    let m = matrix(&[&[1, 2], &[3, 4]]);
    assert_eq!(m.clone(), m);
    assert_ne!(m, matrix(&[&[1, 2], &[3, 5]]));
    assert_ne!(matrix(&[&[0, 0]]), matrix(&[&[0], &[0]]));
    assert_ne!(matrix(&[&[0, 0]]), matrix(&[&[0, 0], &[0, 0]]));
}

#[test]
fn elementwise_forms_write_the_front_of_out() {
    let a = vector(&[7, 8]);
    let b = vector(&[2, 3]);
    let mut out = vector(&[9, 9, 9]);
    Vector::add(&mut out, &a, &b);
    assert_eq!(out, vector(&[9, 11, 9]));
    Vector::sub(&mut out, &a, &b);
    assert_eq!(out, vector(&[5, 5, 9]));
    Vector::mul(&mut out, &a, &b);
    assert_eq!(out, vector(&[14, 24, 9]));
    Vector::div(&mut out, &a, &b);
    assert_eq!(out, vector(&[3, 2, 9]));
    Vector::rem(&mut out, &a, &b);
    assert_eq!(out, vector(&[1, 2, 9]));
}

#[test]
fn scalar_forms_write_the_front_of_out() {
    let v = vector(&[7, -8]);
    let mut out = vector(&[9, 9, 9]);
    Vector::sadd(&mut out, &v, &3);
    assert_eq!(out, vector(&[10, -5, 9]));
    Vector::ssub(&mut out, &v, &3);
    assert_eq!(out, vector(&[4, -11, 9]));
    Vector::smul(&mut out, &v, &3);
    assert_eq!(out, vector(&[21, -24, 9]));
    Vector::sdiv(&mut out, &v, &3);
    assert_eq!(out, vector(&[2, -2, 9]));
    Vector::srem(&mut out, &v, &3);
    assert_eq!(out, vector(&[1, -2, 9]));
}

#[test]
fn explicit_forms_hand_back_out() {
    let a = vector(&[1, 2]);
    let mut out = vector(&[0, 0]);
    let r = Vector::add(&mut out, &a, &a);
    *r.get_mut(0) = 50;
    assert_eq!(out, vector(&[50, 4]));
}

#[test]
fn zip_and_scale_take_the_operator() {
    let a = vector(&[7, 8]);
    let b = vector(&[2, 3]);
    let mut out = vector(&[0, 0]);
    Vector::zip(BinOp::Rem, &mut out, &a, &b);
    assert_eq!(out, vector(&[1, 2]));
    Vector::scale(BinOp::Mul, &mut out, &a, &-1);
    assert_eq!(out, vector(&[-7, -8]));
}

#[test]
fn vector_operators_with_a_scalar() {
    let v = vector(&[7, -8]);
    assert_eq!(&v + &1, vector(&[8, -7]));
    assert_eq!(&v - &1, vector(&[6, -9]));
    assert_eq!(&v * &2, vector(&[14, -16]));
    assert_eq!(&v / &2, vector(&[3, -4]));
    assert_eq!(&v % &3, vector(&[1, -2]));
    assert_eq!(-&v, vector(&[-7, 8]));
}

#[test]
fn dot_product_sums_the_products() {
    assert_eq!(vector(&[1, 2, 3]).dot(&vector(&[10, 20, 30])), 140);
    assert_eq!(vector(&[-4]).dot(&vector(&[5])), -20);
}

#[test]
fn matrix_product_of_rectangles() {
    let p = matrix(&[&[1, 2, 3], &[4, 5, 6]]);
    let q = matrix(&[&[7, 8], &[9, 10], &[11, 12]]);
    assert_eq!(&p * &q, matrix(&[&[58, 64], &[139, 154]]));
    assert_eq!(&q * &p, matrix(&[&[39, 54, 69], &[49, 68, 87], &[59, 82, 105]]));
}

#[test]
fn matrix_product_accumulates_into_out() {
    let p = matrix(&[&[1, 2, 3], &[4, 5, 6]]);
    let q = matrix(&[&[7, 8], &[9, 10], &[11, 12]]);
    let mut out = matrix(&[&[1, 1, 5], &[1, 1, 5], &[5, 5, 5]]);
    Matrix::mul(&mut out, &p, &q);
    assert_eq!(out, matrix(&[&[59, 65, 5], &[140, 155, 5], &[5, 5, 5]]));
}

#[test]
fn scalar_product_accumulates_into_out() {
    let m = matrix(&[&[1, 2], &[3, 4]]);
    let mut out = matrix(&[&[10, 10, 7], &[10, 10, 7]]);
    Matrix::smul(&mut out, &m, &3);
    assert_eq!(out, matrix(&[&[13, 16, 7], &[19, 22, 7]]));
}

#[test]
fn matrix_sum_and_difference() {
    let a = matrix(&[&[1, 2], &[3, 4]]);
    let b = matrix(&[&[10, 20], &[30, 40]]);
    assert_eq!(&a + &b, matrix(&[&[11, 22], &[33, 44]]));
    assert_eq!(&b - &a, matrix(&[&[9, 18], &[27, 36]]));
    assert_eq!(&a + &5, matrix(&[&[6, 7], &[8, 9]]));
    assert_eq!(&a - &5, matrix(&[&[-4, -3], &[-2, -1]]));
    let mut out = matrix(&[&[9, 9, 9], &[9, 9, 9], &[9, 9, 9]]);
    Matrix::add(&mut out, &a, &b);
    assert_eq!(out, matrix(&[&[11, 22, 9], &[33, 44, 9], &[9, 9, 9]]));
    Matrix::ssub(&mut out, &a, &1);
    assert_eq!(out, matrix(&[&[0, 1, 9], &[2, 3, 9], &[9, 9, 9]]));
    Matrix::sub(&mut out, &a, &a);
    assert_eq!(out, matrix(&[&[0, 0, 9], &[0, 0, 9], &[9, 9, 9]]));
    Matrix::sadd(&mut out, &a, &1);
    assert_eq!(out, matrix(&[&[2, 3, 9], &[4, 5, 9], &[9, 9, 9]]));
}

#[test]
fn matrix_quotient_and_remainder() {
    let a = matrix(&[&[7, -8], &[9, 10]]);
    let b = matrix(&[&[2, 3], &[4, 5]]);
    assert_eq!(&a / &b, matrix(&[&[3, -2], &[2, 2]]));
    assert_eq!(&a % &b, matrix(&[&[1, -2], &[1, 0]]));
    assert_eq!(&a / &2, matrix(&[&[3, -4], &[4, 5]]));
    assert_eq!(&a % &4, matrix(&[&[3, 0], &[1, 2]]));
    let mut out = matrix(&[&[9, 9, 9], &[9, 9, 9]]);
    Matrix::div(&mut out, &a, &b);
    assert_eq!(out, matrix(&[&[3, -2, 9], &[2, 2, 9]]));
    Matrix::rem(&mut out, &a, &b);
    assert_eq!(out, matrix(&[&[1, -2, 9], &[1, 0, 9]]));
    Matrix::sdiv(&mut out, &a, &-2);
    assert_eq!(out, matrix(&[&[-3, 4, 9], &[-4, -5, 9]]));
    Matrix::srem(&mut out, &a, &-4);
    assert_eq!(out, matrix(&[&[3, 0, 9], &[1, 2, 9]]));
}

#[test]
fn matrix_zip_and_scale_take_the_operator() {
    let a = matrix(&[&[7, 8], &[9, 10]]);
    let b = matrix(&[&[2, 3], &[4, 5]]);
    let mut out = Matrix::<isize>::zeroed(2, 2);
    Matrix::zip(BinOp::Div, &mut out, &a, &b);
    assert_eq!(out, matrix(&[&[3, 2], &[2, 2]]));
    Matrix::scale(BinOp::Rem, &mut out, &a, &4);
    assert_eq!(out, matrix(&[&[3, 0], &[1, 2]]));
}

#[test]
fn row_vector_times_matrix() {
    let v = vector(&[1, 2, 3]);
    let q = matrix(&[&[7, 8], &[9, 10], &[11, 12]]);
    assert_eq!(&v * &q, vector(&[58, 64]));
    let mut out = vector(&[1, 1, 5]);
    Vector::mmul(&mut out, &v, &q);
    assert_eq!(out, vector(&[59, 65, 5]));
}

#[test]
fn matrix_times_column_vector() {
    let p = matrix(&[&[1, 2, 3], &[4, 5, 6]]);
    let v = vector(&[1, 2, 3]);
    assert_eq!(&p * &v, vector(&[14, 32]));
    let mut out = vector(&[1, 1, 5]);
    Matrix::vmul(&mut out, &p, &v);
    assert_eq!(out, vector(&[15, 33, 5]));
}
