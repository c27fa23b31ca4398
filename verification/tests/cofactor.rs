use linalg::cofactor::{adjoint, determinant, get_cofactor, inverse};
use linalg::{Matrix, Vector};

fn buffer(rows: &[&[isize]]) -> Vector<Vector<isize>> {
    let mut out = Vector::<isize>::of_vectors(rows.len(), rows[0].len());
    for i in 0..rows.len() {
        for j in 0..rows[i].len() {
            *out.cell_mut(i, j) = rows[i][j];
        }
    }
    out
}

fn filled(rows: usize, cols: usize, x: isize) -> Vector<Vector<isize>> {
    let mut out = Vector::<isize>::of_vectors(rows, cols);
    for i in 0..rows {
        for j in 0..cols {
            *out.cell_mut(i, j) = x;
        }
    }
    out
}

fn matrix(rows: &[&[isize]]) -> Matrix<isize> {
    let mut out = Matrix::<isize>::zeroed(rows.len(), rows[0].len());
    for i in 0..rows.len() {
        for j in 0..rows[i].len() {
            *out.get_mut(i, j) = rows[i][j];
        }
    }
    out
}

fn cells(m: &Vector<Vector<isize>>, rows: usize, cols: usize) -> Vec<Vec<isize>> {
    (0..rows).map(|i| (0..cols).map(|j| *m.cell(i, j)).collect()).collect()
}

fn sample() -> Vector<Vector<isize>> {
    buffer(&[&[2, -1, 0, 3], &[1, 4, -2, 0], &[0, 5, 1, -1], &[3, 0, 2, 1]])
}

#[test]
fn cofactor_deletes_one_row_and_one_column() {
    let m = sample();
    let mut out = filled(4, 4, 9);
    get_cofactor(&mut out, &m, 1, 2, 4);
    assert_eq!(
        cells(&out, 4, 4),
        vec![vec![2, -1, 3, 9], vec![0, 5, -1, 9], vec![3, 0, 1, 9], vec![9, 9, 9, 9]]
    );
}

#[test]
fn cofactor_of_first_and_last_cell() {
    let m = sample();
    let mut out = filled(3, 3, 9);
    get_cofactor(&mut out, &m, 0, 0, 4);
    assert_eq!(cells(&out, 3, 3), vec![vec![4, -2, 0], vec![5, 1, -1], vec![0, 2, 1]]);
    get_cofactor(&mut out, &m, 3, 3, 4);
    assert_eq!(cells(&out, 3, 3), vec![vec![2, -1, 0], vec![1, 4, -2], vec![0, 5, 1]]);
}

#[test]
fn cofactor_of_a_single_cell_writes_nothing() {
    let m = buffer(&[&[7]]);
    let mut out = filled(2, 2, 9);
    get_cofactor(&mut out, &m, 0, 0, 1);
    assert_eq!(cells(&out, 2, 2), vec![vec![9, 9], vec![9, 9]]);
}

#[test]
fn cofactor_reads_the_corner_only() {
    let m = sample();
    let mut out = filled(2, 2, 9);
    get_cofactor(&mut out, &m, 0, 1, 3);
    assert_eq!(cells(&out, 2, 2), vec![vec![1, -2], vec![0, 1]]);
}

#[test]
fn determinant_of_one_cell() {
    assert_eq!(determinant(&buffer(&[&[-7]]), 1), -7);
}

#[test]
fn determinant_of_two_by_two() {
    assert_eq!(determinant(&buffer(&[&[4, 7], &[2, 6]]), 2), 10);
}

#[test]
fn determinant_of_three_by_three() {
    assert_eq!(determinant(&buffer(&[&[1, 2, 3], &[0, 1, 4], &[5, 6, 0]]), 3), 1);
}

#[test]
fn determinant_of_four_by_four() {
    assert_eq!(determinant(&sample(), 4), -103);
}

#[test]
fn determinant_of_a_corner() {
    let m = sample();
    assert_eq!(determinant(&m, 1), 2);
    assert_eq!(determinant(&m, 2), 9);
    assert_eq!(determinant(&m, 3), 2 * (4 + 10) + (1 - 0));
}

#[test]
fn determinant_of_a_singular_matrix_is_zero() {
    assert_eq!(determinant(&buffer(&[&[2, 0, 1], &[1, 3, 2], &[1, 1, 1]]), 3), 0);
    assert_eq!(matrix(&[&[1, 2], &[2, 4]]).determinant(), 0);
}

#[test]
fn adjugate_of_one_cell_is_one() {
    let mut out = filled(1, 1, 9);
    adjoint(&mut out, &buffer(&[&[5]]), 1);
    assert_eq!(cells(&out, 1, 1), vec![vec![1]]);
}

#[test]
fn adjugate_is_the_transposed_cofactor_matrix() {
    let mut out = filled(2, 2, 9);
    adjoint(&mut out, &buffer(&[&[4, 7], &[2, 6]]), 2);
    assert_eq!(cells(&out, 2, 2), vec![vec![6, -7], vec![-2, 4]]);
}

#[test]
fn adjugate_of_four_by_four() {
    let mut out = filled(5, 5, 9);
    adjoint(&mut out, &sample(), 4);
    assert_eq!(
        cells(&out, 5, 5),
        vec![
            vec![22, -27, 26, -40, 9],
            vec![-9, -3, -20, 7, 9],
            vec![-7, 32, -27, -6, 9],
            vec![-52, 17, -24, 29, 9],
            vec![9, 9, 9, 9, 9]
        ]
    );
}

#[test]
fn inverse_of_a_unimodular_matrix() {
    let mut out = filled(3, 3, 9);
    inverse(&mut out, &buffer(&[&[1, 2, 3], &[0, 1, 4], &[5, 6, 0]]), 3);
    assert_eq!(
        cells(&out, 3, 3),
        vec![vec![-24, 18, 5], vec![20, -15, -4], vec![-5, 4, 1]]
    );
}

#[test]
fn inverse_divides_the_adjugate_by_the_determinant() {
    // The adjugate is [[6, -7], [-2, 4]] and the determinant is 10: integer
    // division rounds each quotient towards zero.
    let r = matrix(&[&[4, 7], &[2, 6]]).inverse();
    assert_eq!(r, matrix(&[&[0, 0], &[0, 0]]));
    let r = matrix(&[&[2, 1], &[1, 1]]).inverse();
    assert_eq!(r, matrix(&[&[1, -1], &[-1, 2]]));
}

#[test]
fn inverse_times_matrix_is_identity() {
    let a = matrix(&[&[1, 2, 3], &[0, 1, 4], &[5, 6, 0]]);
    let b = a.inverse();
    assert_eq!(&a * &b, Matrix::<isize>::identity(3, 3));
    assert_eq!(&b * &a, Matrix::<isize>::identity(3, 3));
}

#[test]
fn unary_minus_of_a_matrix_is_its_inverse() {
    let a = matrix(&[&[2, 1], &[1, 1]]);
    assert_eq!(-&a, a.inverse());
    assert_eq!(-&a, matrix(&[&[1, -1], &[-1, 2]]));
}

#[test]
fn inverse_of_a_singular_matrix_is_none() {
    assert!(Matrix::<isize>::zeroed(2, 2).try_inverse().is_none());
    assert!(Matrix::<isize>::zeroed(1, 1).try_inverse().is_none());
    assert!(matrix(&[&[1, 2], &[2, 4]]).try_inverse().is_none());
}

#[test]
fn inverse_of_a_regular_matrix_is_some() {
    let a = matrix(&[&[2, 1], &[1, 1]]);
    assert_eq!(a.try_inverse(), Some(matrix(&[&[1, -1], &[-1, 2]])));
    assert_eq!(matrix(&[&[1]]).try_inverse(), Some(matrix(&[&[1]])));
}
