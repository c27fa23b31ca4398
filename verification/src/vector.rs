//! `Vector<T>`: a fixed-length, non-empty sequence of elements.

use crate::scalar::Scalar;
use vstd::prelude::*;
use vstd::std_specs::cmp::PartialEqSpec;

verus! {

/// A sequence of elements whose length is fixed at construction and is
/// never zero.
#[derive(Debug)]
pub struct Vector<T> {
    data: Vec<T>,
}

impl<T> View for Vector<T> {
    type V = Seq<T>;

    closed spec fn view(&self) -> Seq<T> {
        self.data@
    }
}

/// The rows of a vector of vectors, each as a sequence.
pub open spec fn grid<T>(rows: Seq<Vector<T>>) -> Seq<Seq<T>> {
    Seq::new(rows.len(), |i: int| rows[i]@)
}

impl<T> Vector<T> {
    #[verifier::type_invariant]
    spec fn inv(self) -> bool {
        self.data@.len() > 0
    }

    /// The number of elements.
    pub fn len(&self) -> (n: usize)
        ensures
            n == self@.len(),
            n > 0,
    {
        proof {
            use_type_invariant(self);
        }
        self.data.len()
    }

    /// The element at index `i`.
    pub fn get(&self, i: usize) -> (r: &T)
        requires
            i < self@.len(),
        ensures
            *r == self@[i as int],
    {
        &self.data[i]
    }

    /// The element at index `i`, for writing: the vector ends up with
    /// whatever the caller leaves behind the reference, at index `i` only.
    pub fn get_mut(&mut self, i: usize) -> (r: &mut T)
        requires
            i < old(self)@.len(),
        ensures
            *r == old(self)@[i as int],
            final(self)@ == old(self)@.update(i as int, *final(r)),
        no_unwind
    {
        &mut self.data[i]
    }
}

/// `m` with the element in row `i` and column `j` replaced by `x`.
pub open spec fn with_cell<T>(m: Seq<Seq<T>>, i: int, j: int, x: T) -> Seq<Seq<T>> {
    m.update(i, m[i].update(j, x))
}

impl<T> Vector<Vector<T>> {
    /// The element in row `i` and column `j`.
    pub fn cell(&self, i: usize, j: usize) -> (r: &T)
        requires
            i < grid(self@).len(),
            j < grid(self@)[i as int].len(),
        ensures
            *r == grid(self@)[i as int][j as int],
    {
        self.data[i].get(j)
    }

    /// The element in row `i` and column `j`, for writing: that cell ends
    /// up with whatever the caller leaves behind the reference, and nothing
    /// else changes.
    pub fn cell_mut(&mut self, i: usize, j: usize) -> (r: &mut T)
        requires
            i < grid(old(self)@).len(),
            j < grid(old(self)@)[i as int].len(),
        ensures
            *r == grid(old(self)@)[i as int][j as int],
            grid(final(self)@) == with_cell(grid(old(self)@), i as int, j as int, *final(r)),
        no_unwind
    {
        let ghost end = *final(self);
        let r = &mut self.data[i].data[j];
        proof {
            assert(grid(end@) =~= with_cell(
                grid(old(self)@),
                i as int,
                j as int,
                *final(r),
            ));
        }
        r
    }
}

impl<T> Vector<T> {
    /// The vector that holds the elements of `data`, in order.
    pub fn from_vec(data: Vec<T>) -> (r: Self)
        requires
            data@.len() > 0,
        ensures
            r@ == data@,
    {
        Vector { data }
    }
}

impl<T: Default> Vector<T> {
    /// A vector of `len` default values.
    pub fn new(len: usize) -> (r: Self)
        requires
            len > 0,
        ensures
            r@.len() == len,
            forall|i: int| 0 <= i < len ==> call_ensures(T::default, (), #[trigger] r@[i]),
    {
        let mut data: Vec<T> = Vec::with_capacity(len);
        let mut i: usize = 0;
        while i < len
            invariant
                i <= len,
                data@.len() == i,
                forall|k: int| 0 <= k < i ==> call_ensures(T::default, (), #[trigger] data@[k]),
            decreases len - i,
        {
            data.push(T::default());
            i = i + 1;
        }
        Vector { data }
    }
}

impl<T: Scalar> Vector<T> {
    /// A vector of `len` zeros.
    pub fn zeroed(len: usize) -> (r: Self)
        requires
            len > 0,
        ensures
            r@ == zero_seq::<T>(len as nat),
    {
        let mut data: Vec<T> = Vec::with_capacity(len);
        let mut i: usize = 0;
        while i < len
            invariant
                i <= len,
                data@.len() == i,
                forall|k: int| 0 <= k < i ==> data@[k] == T::zero_spec(),
            decreases len - i,
        {
            data.push(T::zero());
            i = i + 1;
        }
        assert(data@ =~= zero_seq::<T>(len as nat));
        Vector { data }
    }

    /// `rows` vectors of `cols` zeros each.
    pub fn of_vectors(rows: usize, cols: usize) -> (r: Vector<Vector<T>>)
        requires
            rows > 0,
            cols > 0,
        ensures
            grid(r@) == Seq::new(rows as nat, |i: int| zero_seq::<T>(cols as nat)),
    {
        let mut data: Vec<Vector<T>> = Vec::with_capacity(rows);
        let mut i: usize = 0;
        while i < rows
            invariant
                i <= rows,
                cols > 0,
                data@.len() == i,
                forall|k: int| 0 <= k < i ==> (#[trigger] data@[k])@ == zero_seq::<T>(cols as nat),
            decreases rows - i,
        {
            data.push(Vector::zeroed(cols));
            i = i + 1;
        }
        let r = Vector { data };
        assert(grid(r@) =~= Seq::new(rows as nat, |i: int| zero_seq::<T>(cols as nat)));
        r
    }
}

/// `n` zeros.
pub open spec fn zero_seq<T: Scalar>(n: nat) -> Seq<T> {
    Seq::new(n, |i: int| T::zero_spec())
}

/// A vector borrows as the slice of its elements.
impl<T> core::ops::Deref for Vector<T> {
    type Target = [T];

    fn deref(&self) -> (r: &[T])
        ensures
            r@ == self@,
    {
        self.data.as_slice()
    }
}

impl<T> core::ops::Index<usize> for Vector<T> {
    type Output = T;

    fn index(&self, index: usize) -> (r: &T)
        ensures
            *r == self@[index as int],
    {
        &self.data[index]
    }
}

/// The indices that `[]` accepts.
impl<T> vstd::std_specs::core::IndexSpecImpl<usize> for Vector<T> {
    open spec fn index_req(&self, index: &usize) -> bool {
        *index < self@.len()
    }
}

impl<T: Clone> Clone for Vector<T> {
    /// A vector of the clones of the elements, in order.
    fn clone(&self) -> (r: Self)
        ensures
            r@.len() == self@.len(),
            forall|i: int| 0 <= i < self@.len() ==> cloned::<T>(#[trigger] self@[i], r@[i]),
    {
        proof {
            use_type_invariant(self);
        }
        Vector { data: self.data.clone() }
    }
}

impl<T: PartialEq> PartialEq for Vector<T> {
    /// Elementwise equality of two vectors of the same length.
    fn eq(&self, other: &Self) -> (r: bool) {
        self.data == other.data
    }
}

/// What `==` means: the same length, and equal elements by the equality of
/// the element type.
impl<T: PartialEq> vstd::std_specs::cmp::PartialEqSpecImpl for Vector<T> {
    open spec fn obeys_eq_spec() -> bool {
        T::obeys_eq_spec()
    }

    open spec fn eq_spec(&self, other: &Self) -> bool {
        &&& self@.len() == other@.len()
        &&& forall|i: int| 0 <= i < self@.len() ==> (#[trigger] self@[i]).eq_spec(&other@[i])
    }
}

} // verus!
