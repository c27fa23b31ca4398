//! `Matrix<T>`: a `rows` x `cols` grid of elements, stored row by row.

use crate::cofactor::{corner, det, det_ok, inverse_of, inverse_ok};
use crate::scalar::Scalar;
use crate::vector::{grid, with_cell, zero_seq, Vector};
use vstd::prelude::*;
use vstd::std_specs::cmp::PartialEqSpec;

verus! {

/// A grid of elements with at least one row and one column. The view is the
/// sequence of rows, each a sequence of `cols` elements.
#[derive(Debug)]
pub struct Matrix<T> {
    rows: usize,
    cols: usize,
    data: Vector<Vector<T>>,
}

impl<T> View for Matrix<T> {
    type V = Seq<Seq<T>>;

    closed spec fn view(&self) -> Seq<Seq<T>> {
        grid(self.data@)
    }
}

/// Whether `m` has `rows` rows of `cols` elements each.
pub open spec fn is_grid<T>(m: Seq<Seq<T>>, rows: nat, cols: nat) -> bool {
    &&& m.len() == rows
    &&& forall|i: int| 0 <= i < rows ==> (#[trigger] m[i]).len() == cols
}

impl<T> Matrix<T> {
    #[verifier::type_invariant]
    spec fn inv(self) -> bool {
        &&& self.rows > 0
        &&& self.cols > 0
        &&& is_grid(grid(self.data@), self.rows as nat, self.cols as nat)
    }

    /// The number of rows.
    pub fn rows(&self) -> (r: usize)
        ensures
            r > 0,
            r == self@.len(),
    {
        proof {
            use_type_invariant(self);
        }
        self.rows
    }

    /// The number of columns, which is the length of every row.
    pub fn cols(&self) -> (c: usize)
        ensures
            c > 0,
            c == self@[0].len(),
            is_grid(self@, self@.len(), c as nat),
    {
        proof {
            use_type_invariant(self);
        }
        self.cols
    }

    /// The element in row `i` and column `j`.
    pub fn get(&self, i: usize, j: usize) -> (r: &T)
        requires
            i < self@.len(),
            j < self@[i as int].len(),
        ensures
            *r == self@[i as int][j as int],
    {
        self.data.cell(i, j)
    }

    /// The element in row `i` and column `j`, for writing: the matrix ends
    /// up with whatever the caller leaves behind the reference, in that
    /// cell only.
    pub fn get_mut(&mut self, i: usize, j: usize) -> (r: &mut T)
        requires
            i < old(self)@.len(),
            j < old(self)@[i as int].len(),
        ensures
            *r == old(self)@[i as int][j as int],
            final(self)@ == with_cell(old(self)@, i as int, j as int, *final(r)),
    {
        proof {
            use_type_invariant(&*self);
        }
        self.data.cell_mut(i, j)
    }
}

/// Column `j` of `m`, top to bottom.
pub open spec fn column<T>(m: Seq<Seq<T>>, j: int) -> Seq<T> {
    Seq::new(m.len(), |k: int| m[k][j])
}

/// The transpose: the columns of `m` as rows.
pub open spec fn transposed<T>(m: Seq<Seq<T>>) -> Seq<Seq<T>> {
    Seq::new(m[0].len(), |j: int| column(m, j))
}

/// The `rows` x `cols` grid of zeros.
pub open spec fn zeros<T: Scalar>(rows: nat, cols: nat) -> Seq<Seq<T>> {
    Seq::new(rows, |i: int| zero_seq::<T>(cols))
}

/// The `rows` x `cols` grid with ones on the diagonal and zeros elsewhere.
pub open spec fn identity<T: Scalar>(rows: nat, cols: nat) -> Seq<Seq<T>> {
    Seq::new(
        rows,
        |i: int|
            Seq::new(
                cols,
                |j: int|
                    if i == j {
                        T::one_spec()
                    } else {
                        T::zero_spec()
                    },
            ),
    )
}

impl<T: Default> Matrix<T> {
    /// A `rows` x `cols` matrix of default values.
    pub fn new(rows: usize, cols: usize) -> (r: Self)
        requires
            rows > 0,
            cols > 0,
        ensures
            is_grid(r@, rows as nat, cols as nat),
            forall|i: int, j: int|
                0 <= i < rows && 0 <= j < cols ==> call_ensures(
                    T::default,
                    (),
                    #[trigger] r@[i][j],
                ),
    {
        let mut data: Vec<Vector<T>> = Vec::with_capacity(rows);
        let mut i: usize = 0;
        while i < rows
            invariant
                i <= rows,
                cols > 0,
                data@.len() == i,
                forall|k: int| 0 <= k < i ==> (#[trigger] data@[k])@.len() == cols,
                forall|k: int, j: int|
                    0 <= k < i && 0 <= j < cols ==> call_ensures(
                        T::default,
                        (),
                        #[trigger] data@[k]@[j],
                    ),
            decreases rows - i,
        {
            data.push(Vector::new(cols));
            i = i + 1;
        }
        Matrix { rows, cols, data: Vector::from_vec(data) }
    }
}

impl<T: Scalar> Matrix<T> {
    /// The `rows` x `cols` matrix of zeros.
    pub fn zeroed(rows: usize, cols: usize) -> (r: Self)
        requires
            rows > 0,
            cols > 0,
        ensures
            r@ == zeros::<T>(rows as nat, cols as nat),
    {
        let data = Vector::of_vectors(rows, cols);
        Matrix { rows, cols, data }
    }

    /// The `rows` x `cols` matrix with ones on the diagonal and zeros
    /// elsewhere. Every row has its diagonal cell, so `rows <= cols`.
    pub fn identity(rows: usize, cols: usize) -> (r: Self)
        requires
            0 < rows <= cols,
        ensures
            r@ == identity::<T>(rows as nat, cols as nat),
    {
        let mut data = Vector::of_vectors(rows, cols);
        let mut i: usize = 0;
        while i < rows
            invariant
                i <= rows,
                rows <= cols,
                is_grid(grid(data@), rows as nat, cols as nat),
                forall|k: int, j: int|
                    0 <= k < rows && 0 <= j < cols ==> #[trigger] grid(data@)[k][j] == (if k == j
                        && k < i {
                        T::one_spec()
                    } else {
                        T::zero_spec()
                    }),
            decreases rows - i,
        {
            *data.cell_mut(i, i) = T::one();
            i = i + 1;
        }
        assert(grid(data@) =~~= identity::<T>(rows as nat, cols as nat));
        Matrix { rows, cols, data }
    }

    /// The transpose: a fresh `cols` x `rows` matrix whose rows are the
    /// columns of `self`.
    pub fn transpose(&self) -> (r: Self)
        ensures
            r@ == transposed(self@),
    {
        let rows: usize = self.rows();
        let cols: usize = self.cols();
        let mut matrix = Matrix::<T>::zeroed(cols, rows);
        let mut i: usize = 0;
        while i < rows
            invariant
                i <= rows,
                is_grid(self@, rows as nat, cols as nat),
                is_grid(matrix@, cols as nat, rows as nat),
                rows > 0,
                cols > 0,
                forall|c: int, k: int|
                    0 <= c < cols && 0 <= k < i ==> #[trigger] matrix@[c][k] == self@[k][c],
            decreases rows - i,
        {
            let mut j: usize = 0;
            while j < cols
                invariant
                    i < rows,
                    j <= cols,
                    is_grid(self@, rows as nat, cols as nat),
                    is_grid(matrix@, cols as nat, rows as nat),
                    forall|c: int, k: int|
                        0 <= c < cols && 0 <= k < i ==> #[trigger] matrix@[c][k] == self@[k][c],
                    forall|c: int| 0 <= c < j ==> #[trigger] matrix@[c][i as int] == self@[i as int][c],
                decreases cols - j,
            {
                let x = self.get(i, j).copy();
                *matrix.get_mut(j, i) = x;
                j = j + 1;
            }
            i = i + 1;
        }
        assert(matrix@ =~~= transposed(self@));
        matrix
    }
}

impl<T: Scalar> Matrix<T> {
    /// The determinant of a square matrix, by cofactor expansion along the
    /// first row.
    pub fn determinant(&self) -> (d: T)
        requires
            self@.len() == self@[0].len(),
            det_ok(self@),
        ensures
            d == det(self@),
    {
        proof {
            use_type_invariant(self);
            assert(corner(self@, self.rows as nat) =~~= self@);
        }
        crate::cofactor::determinant::<T>(&self.data, self.rows)
    }

    /// The inverse of a square matrix whose determinant is not zero: the
    /// adjugate divided by the determinant.
    pub fn inverse(&self) -> (r: Matrix<T>)
        requires
            self@.len() == self@[0].len(),
            inverse_ok(self@),
        ensures
            r@ == inverse_of(self@),
    {
        proof {
            use_type_invariant(self);
            assert(corner(self@, self.rows as nat) =~~= self@);
        }
        let mut data: Vector<Vector<T>> = Vector::of_vectors(self.rows, self.cols);
        crate::cofactor::inverse::<T>(&mut data, &self.data, self.rows);
        assert(grid(data@) =~~= inverse_of(self@));
        Matrix { rows: self.rows, cols: self.cols, data }
    }
}

impl<T: Scalar> Matrix<T> {
    /// The inverse of a square matrix, or `None` if the matrix is singular:
    /// if its determinant is zero.
    pub fn try_inverse(&self) -> (r: Option<Matrix<T>>)
        requires
            self@.len() == self@[0].len(),
            det_ok(self@),
            det(self@) != T::zero_spec() ==> inverse_ok(self@),
        ensures
            r is None <==> det(self@) == T::zero_spec(),
            r is Some ==> r->0@ == inverse_of(self@),
    {
        let d = self.determinant();
        if d.equals(&T::zero()) {
            None
        } else {
            Some(self.inverse())
        }
    }
}

/// A matrix borrows as the slice of its rows.
impl<T> core::ops::Deref for Matrix<T> {
    type Target = [Vector<T>];

    fn deref(&self) -> (r: &[Vector<T>])
        ensures
            grid(r@) == self@,
    {
        core::ops::Deref::deref(&self.data)
    }
}

/// `m[i]`: row `i`.
impl<T> core::ops::Index<usize> for Matrix<T> {
    type Output = Vector<T>;

    fn index(&self, index: usize) -> (r: &Vector<T>)
        ensures
            r@ == self@[index as int],
    {
        self.data.get(index)
    }
}

/// The indices that `[]` accepts.
impl<T> vstd::std_specs::core::IndexSpecImpl<usize> for Matrix<T> {
    open spec fn index_req(&self, index: &usize) -> bool {
        *index < self@.len()
    }
}

impl<T: Clone> Clone for Matrix<T> {
    /// A matrix of the clones of the elements, in the same shape.
    fn clone(&self) -> (r: Self)
        ensures
            r@.len() == self@.len(),
            forall|i: int| 0 <= i < self@.len() ==> (#[trigger] r@[i]).len() == self@[i].len(),
            forall|i: int, j: int|
                0 <= i < self@.len() && 0 <= j < self@[i].len() ==> cloned::<T>(
                    #[trigger] self@[i][j],
                    r@[i][j],
                ),
    {
        proof {
            use_type_invariant(self);
        }
        let data = self.data.clone();
        proof {
            assert forall|i: int| 0 <= i < self.data@.len() implies (#[trigger] data@[i])@.len()
                == self.data@[i]@.len() && (forall|j: int|
                0 <= j < self.data@[i]@.len() ==> cloned::<T>(
                    #[trigger] self.data@[i]@[j],
                    data@[i]@[j],
                )) by {
                assert(cloned::<Vector<T>>(self.data@[i], data@[i]));
            }
            assert forall|i: int| 0 <= i < self.rows implies (#[trigger] grid(data@)[i]).len()
                == self.cols by {
                assert(grid(self.data@)[i].len() == self.cols);
            }
        }
        Matrix { rows: self.rows, cols: self.cols, data }
    }
}

impl<T: PartialEq> PartialEq for Matrix<T> {
    /// Elementwise equality of two matrices of the same shape.
    fn eq(&self, other: &Self) -> (r: bool) {
        proof {
            use_type_invariant(self);
            use_type_invariant(other);
        }
        let r = self.rows == other.rows && self.cols == other.cols && self.data == other.data;
        proof {
            let cells = forall|i: int, j: int|
                0 <= i < self@.len() && 0 <= j < self@[i].len() ==> (#[trigger] self@[i][j]).eq_spec(
                    &other@[i][j],
                );
            if T::obeys_eq_spec() && self.rows == other.rows && self.cols == other.cols {
                if cells {
                    assert forall|i: int| 0 <= i < self.data@.len() implies (
                    #[trigger] self.data@[i]).eq_spec(&other.data@[i]) by {
                        assert(self@[i].len() == self.cols && other@[i].len() == other.cols);
                        assert forall|j: int| 0 <= j < self.data@[i]@.len() implies (
                        #[trigger] self.data@[i]@[j]).eq_spec(&other.data@[i]@[j]) by {
                            assert(self@[i][j].eq_spec(&other@[i][j]));
                        }
                    }
                }
                if r {
                    assert forall|i: int, j: int|
                        0 <= i < self@.len() && 0 <= j < self@[i].len() implies (
                    #[trigger] self@[i][j]).eq_spec(&other@[i][j]) by {
                        assert(self.data@[i].eq_spec(&other.data@[i]));
                        assert(self.data@[i]@[j].eq_spec(&other.data@[i]@[j]));
                    }
                }
            }
        }
        r
    }
}

/// What `==` means: the same shape, and equal elements by the equality of
/// the element type.
impl<T: PartialEq> vstd::std_specs::cmp::PartialEqSpecImpl for Matrix<T> {
    open spec fn obeys_eq_spec() -> bool {
        T::obeys_eq_spec()
    }

    open spec fn eq_spec(&self, other: &Self) -> bool {
        &&& self@.len() == other@.len()
        &&& self@[0].len() == other@[0].len()
        &&& forall|i: int, j: int|
            0 <= i < self@.len() && 0 <= j < self@[i].len() ==> (#[trigger] self@[i][j]).eq_spec(
                &other@[i][j],
            )
    }
}

} // verus!
