use linalg::{Matrix, Vector};

fn matrix(rows: &[&[isize]]) -> Matrix<isize> {
    let mut out = Matrix::<isize>::zeroed(rows.len(), rows[0].len());
    for i in 0..rows.len() {
        for j in 0..rows[i].len() {
            *out.get_mut(i, j) = rows[i][j];
        }
    }
    out
}

fn swapped(m: &Matrix<isize>, i: usize, j: usize) -> Matrix<isize> {
    let mut out = m.clone();
    for c in 0..m.cols() {
        *out.get_mut(i, c) = *m.get(j, c);
        *out.get_mut(j, c) = *m.get(i, c);
    }
    out
}

fn sample() -> Matrix<isize> {
    matrix(&[&[2, -1, 0, 3], &[1, 4, -2, 0], &[0, 5, 1, -1], &[3, 0, 2, 1]])
}

#[test]
fn identity_times_identity_is_identity() {
    for n in 1..5 {
        let i = Matrix::<isize>::identity(n, n);
        assert_eq!(&i * &i, i);
    }
}

#[test]
fn identity_is_neutral_on_both_sides() {
    let a = sample();
    let i = Matrix::<isize>::identity(4, 4);
    assert_eq!(&a * &i, a);
    assert_eq!(&i * &a, a);
}

#[test]
fn identity_is_neutral_for_a_rectangular_matrix() {
    let a = matrix(&[&[1, 2, 3], &[4, 5, 6]]);
    assert_eq!(&a * &Matrix::<isize>::identity(3, 3), a);
    assert_eq!(&Matrix::<isize>::identity(2, 2) * &a, a);
}

#[test]
fn determinant_of_identity_is_one() {
    for n in 1..6 {
        assert_eq!(Matrix::<isize>::identity(n, n).determinant(), 1);
    }
}

#[test]
fn inverse_of_identity_is_identity() {
    for n in 1..5 {
        let i = Matrix::<isize>::identity(n, n);
        assert_eq!(i.inverse(), i);
    }
}

#[test]
fn scalar_product_scales_each_cell() {
    let a = sample();
    let s: isize = -3;
    let b = &a * &s;
    for i in 0..4 {
        for j in 0..4 {
            assert_eq!(b[i][j], a[i][j] * s);
        }
    }
    assert_eq!(b[0][3], -9);
    assert_eq!(b[1][2], 6);
}

#[test]
fn transpose_twice_is_the_matrix() {
    let a = matrix(&[&[1, 2, 3], &[4, 5, 6]]);
    let t = a.transpose();
    assert_eq!(t, matrix(&[&[1, 4], &[2, 5], &[3, 6]]));
    assert_eq!(t.transpose(), a);
    assert_eq!(sample().transpose().transpose(), sample());
}

#[test]
fn transpose_of_a_row_is_a_column() {
    let a = matrix(&[&[7, 8, 9]]);
    let t = a.transpose();
    assert_eq!(t.rows(), 3);
    assert_eq!(t.cols(), 1);
    assert_eq!(t, matrix(&[&[7], &[8], &[9]]));
}

#[test]
fn swapping_two_rows_negates_the_determinant() {
    let a = sample();
    assert_eq!(a.determinant(), -103);
    for i in 0..4 {
        for j in 0..4 {
            if i != j {
                assert_eq!(swapped(&a, i, j).determinant(), 103);
            }
        }
    }
}

#[test]
fn swapping_the_rows_of_a_two_by_two_negates_the_determinant() {
    let a = matrix(&[&[4, 7], &[2, 6]]);
    assert_eq!(a.determinant(), 10);
    assert_eq!(swapped(&a, 0, 1).determinant(), -10);
}

#[test]
fn elementwise_operators_on_ones() {
    let a = Vector::<isize>::from_vec(vec![1, 1, 1]);
    let b = Vector::<isize>::from_vec(vec![1, 1, 1]);
    assert_eq!(&a + &b, Vector::from_vec(vec![2, 2, 2]));
    assert_eq!(&a - &b, Vector::from_vec(vec![0, 0, 0]));
    assert_eq!(&a * &b, Vector::from_vec(vec![1, 1, 1]));
    assert_eq!(&a / &b, Vector::from_vec(vec![1, 1, 1]));
    assert_eq!(&a % &b, Vector::from_vec(vec![0, 0, 0]));
    assert_eq!(a.dot(&b), 3);
}

#[test]
fn product_needs_matching_inner_dimensions() {
    // A 2 x 3 matrix cannot be multiplied by a 4 x 2 matrix: the columns
    // of the first are not the rows of the second.
    let a = Matrix::<isize>::zeroed(2, 3);
    let b = Matrix::<isize>::zeroed(4, 2);
    assert_ne!(a.cols(), b.rows());
    // The other way round the dimensions match.
    assert_eq!(b.cols(), a.rows());
    let c = &b * &a;
    assert_eq!(c.rows(), 4);
    assert_eq!(c.cols(), 3);
}

#[test]
fn determinant_stays_within_the_factorial_bound() {
    // With elements of absolute value at most b, the determinant of a
    // square matrix of n rows is at most n! * b^n in absolute value.
    let b: isize = 3;
    let a = matrix(&[&[3, -3, 3], &[3, 3, -3], &[-3, 3, 3]]);
    let d = a.determinant();
    assert_eq!(d, 108);
    assert!(d.abs() <= 6 * b * b * b);
    let c = matrix(&[&[3, 3], &[-3, 3]]);
    assert_eq!(c.determinant(), 18);
    assert!(c.determinant().abs() <= 2 * b * b);
}

#[test]
fn dot_product_stays_within_the_bound() {
    // With elements of absolute value at most x and y, a dot product of n
    // terms is at most n * x * y in absolute value.
    let a = Vector::<isize>::from_vec(vec![5, -5, 5, 5]);
    let b = Vector::<isize>::from_vec(vec![7, -7, 7, 7]);
    assert_eq!(a.dot(&b), 4 * 5 * 7);
}
