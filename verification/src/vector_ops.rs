//! Arithmetic on vectors: the elementwise operators, the dot product and
//! the product with a matrix, each in an explicit form that writes into a
//! vector of the caller and in an operator form that returns a fresh one.

use crate::matrix::{column, Matrix};
use crate::scalar::{apply, op_ok, op_spec, BinOp, Scalar};
use crate::vector::{zero_seq, Vector};
use vstd::prelude::*;

verus! {

/// `head` written over the front of `out`.
pub open spec fn overwrite<T>(out: Seq<T>, head: Seq<T>) -> Seq<T> {
    head + out.skip(head.len() as int)
}

/// The elementwise `a[i] <op> b[i]`, one for each index of `a`.
pub open spec fn zip_spec<T: Scalar>(op: BinOp, a: Seq<T>, b: Seq<T>) -> Seq<T> {
    Seq::new(a.len(), |i: int| op_spec(op, a[i], b[i]))
}

/// Whether every `a[i] <op> b[i]` is defined.
pub open spec fn zip_ok<T: Scalar>(op: BinOp, a: Seq<T>, b: Seq<T>) -> bool {
    forall|i: int| 0 <= i < a.len() ==> #[trigger] op_ok(op, a[i], b[i])
}

/// The elementwise `v[i] <op> s`.
pub open spec fn scale_spec<T: Scalar>(op: BinOp, v: Seq<T>, s: T) -> Seq<T> {
    Seq::new(v.len(), |i: int| op_spec(op, v[i], s))
}

/// Whether every `v[i] <op> s` is defined.
pub open spec fn scale_ok<T: Scalar>(op: BinOp, v: Seq<T>, s: T) -> bool {
    forall|i: int| 0 <= i < v.len() ==> #[trigger] op_ok(op, v[i], s)
}

/// The elementwise negation.
pub open spec fn negated<T: Scalar>(v: Seq<T>) -> Seq<T> {
    Seq::new(v.len(), |i: int| v[i].neg_spec())
}

/// Whether every element can be negated.
pub open spec fn negated_ok<T: Scalar>(v: Seq<T>) -> bool {
    forall|i: int| 0 <= i < v.len() ==> (#[trigger] v[i]).neg_ok()
}

/// `acc` plus the first `n` products `a[k] * b[k]`, added in index order.
pub open spec fn dot_spec<T: Scalar>(acc: T, a: Seq<T>, b: Seq<T>, n: nat) -> T
    decreases n,
{
    if n == 0 {
        acc
    } else {
        dot_spec(acc, a, b, (n - 1) as nat).add_spec(a[n - 1].mul_spec(b[n - 1]))
    }
}

/// Whether every product and every partial sum of `dot_spec` is defined.
pub open spec fn dot_ok<T: Scalar>(acc: T, a: Seq<T>, b: Seq<T>, n: nat) -> bool
    decreases n,
{
    n == 0 || {
        &&& dot_ok(acc, a, b, (n - 1) as nat)
        &&& a[n - 1].mul_ok(b[n - 1])
        &&& dot_spec(acc, a, b, (n - 1) as nat).add_ok(a[n - 1].mul_spec(b[n - 1]))
    }
}

/// A dot product that is defined up to `n` is defined up to every `k <= n`.
pub proof fn lemma_dot_ok_prefix<T: Scalar>(acc: T, a: Seq<T>, b: Seq<T>, n: nat, k: nat)
    requires
        dot_ok(acc, a, b, n),
        k <= n,
    ensures
        dot_ok(acc, a, b, k),
    decreases n,
{
    if k < n {
        lemma_dot_ok_prefix(acc, a, b, (n - 1) as nat, k);
    }
}

impl<T: Scalar> Vector<T> {
    /// Writes `a[i] <op> b[i]` to `out[i]` for each index of `a`, and
    /// leaves the rest of `out` alone.
    pub fn zip<'o>(op: BinOp, out: &'o mut Vector<T>, a: &Vector<T>, b: &Vector<T>) -> (r:
        &'o mut Vector<T>)
        requires
            a@.len() == b@.len(),
            a@.len() <= old(out)@.len(),
            zip_ok(op, a@, b@),
        ensures
            r@ == overwrite(old(out)@, zip_spec(op, a@, b@)),
            *final(out) == *final(r),
    {
        let n: usize = a.len();
        let mut i: usize = 0;
        while i < n
            invariant
                i <= n,
                n == a@.len(),
                n == b@.len(),
                out@.len() == old(out)@.len(),
                n <= out@.len(),
                zip_ok(op, a@, b@),
                forall|k: int| 0 <= k < i ==> out@[k] == op_spec(op, a@[k], b@[k]),
                forall|k: int| i <= k < out@.len() ==> out@[k] == old(out)@[k],
            decreases n - i,
        {
            assert(op_ok(op, a@[i as int], b@[i as int]));
            let v = apply(op, a.get(i), b.get(i));
            *out.get_mut(i) = v;
            i = i + 1;
        }
        assert(out@ =~= overwrite(old(out)@, zip_spec(op, a@, b@)));
        out
    }

    /// Writes `v[i] <op> s` to `out[i]` for each index of `v`, and leaves
    /// the rest of `out` alone.
    pub fn scale<'o>(op: BinOp, out: &'o mut Vector<T>, v: &Vector<T>, s: &T) -> (r:
        &'o mut Vector<T>)
        requires
            v@.len() <= old(out)@.len(),
            scale_ok(op, v@, *s),
        ensures
            r@ == overwrite(old(out)@, scale_spec(op, v@, *s)),
            *final(out) == *final(r),
    {
        let n: usize = v.len();
        let mut i: usize = 0;
        while i < n
            invariant
                i <= n,
                n == v@.len(),
                out@.len() == old(out)@.len(),
                n <= out@.len(),
                scale_ok(op, v@, *s),
                forall|k: int| 0 <= k < i ==> out@[k] == op_spec(op, v@[k], *s),
                forall|k: int| i <= k < out@.len() ==> out@[k] == old(out)@[k],
            decreases n - i,
        {
            assert(op_ok(op, v@[i as int], *s));
            let x = apply(op, v.get(i), s);
            *out.get_mut(i) = x;
            i = i + 1;
        }
        assert(out@ =~= overwrite(old(out)@, scale_spec(op, v@, *s)));
        out
    }
}

impl<T: Scalar> Vector<T> {
    /// The elementwise sum: `out[i] = a[i] + b[i]`.
    pub fn add<'o>(out: &'o mut Vector<T>, a: &Vector<T>, b: &Vector<T>) -> (r: &'o mut Vector<T>)
        requires
            a@.len() == b@.len(),
            a@.len() <= old(out)@.len(),
            zip_ok(BinOp::Add, a@, b@),
        ensures
            r@ == overwrite(old(out)@, zip_spec(BinOp::Add, a@, b@)),
            *final(out) == *final(r),
    {
        Vector::zip(BinOp::Add, out, a, b)
    }

    /// The sum with a scalar: `out[i] = v[i] + s`.
    pub fn sadd<'o>(out: &'o mut Vector<T>, v: &Vector<T>, s: &T) -> (r: &'o mut Vector<T>)
        requires
            v@.len() <= old(out)@.len(),
            scale_ok(BinOp::Add, v@, *s),
        ensures
            r@ == overwrite(old(out)@, scale_spec(BinOp::Add, v@, *s)),
            *final(out) == *final(r),
    {
        Vector::scale(BinOp::Add, out, v, s)
    }

    /// The elementwise difference: `out[i] = a[i] - b[i]`.
    pub fn sub<'o>(out: &'o mut Vector<T>, a: &Vector<T>, b: &Vector<T>) -> (r: &'o mut Vector<T>)
        requires
            a@.len() == b@.len(),
            a@.len() <= old(out)@.len(),
            zip_ok(BinOp::Sub, a@, b@),
        ensures
            r@ == overwrite(old(out)@, zip_spec(BinOp::Sub, a@, b@)),
            *final(out) == *final(r),
    {
        Vector::zip(BinOp::Sub, out, a, b)
    }

    /// The difference with a scalar: `out[i] = v[i] - s`.
    pub fn ssub<'o>(out: &'o mut Vector<T>, v: &Vector<T>, s: &T) -> (r: &'o mut Vector<T>)
        requires
            v@.len() <= old(out)@.len(),
            scale_ok(BinOp::Sub, v@, *s),
        ensures
            r@ == overwrite(old(out)@, scale_spec(BinOp::Sub, v@, *s)),
            *final(out) == *final(r),
    {
        Vector::scale(BinOp::Sub, out, v, s)
    }

    /// The elementwise product: `out[i] = a[i] * b[i]`.
    pub fn mul<'o>(out: &'o mut Vector<T>, a: &Vector<T>, b: &Vector<T>) -> (r: &'o mut Vector<T>)
        requires
            a@.len() == b@.len(),
            a@.len() <= old(out)@.len(),
            zip_ok(BinOp::Mul, a@, b@),
        ensures
            r@ == overwrite(old(out)@, zip_spec(BinOp::Mul, a@, b@)),
            *final(out) == *final(r),
    {
        Vector::zip(BinOp::Mul, out, a, b)
    }

    /// The product with a scalar: `out[i] = v[i] * s`.
    pub fn smul<'o>(out: &'o mut Vector<T>, v: &Vector<T>, s: &T) -> (r: &'o mut Vector<T>)
        requires
            v@.len() <= old(out)@.len(),
            scale_ok(BinOp::Mul, v@, *s),
        ensures
            r@ == overwrite(old(out)@, scale_spec(BinOp::Mul, v@, *s)),
            *final(out) == *final(r),
    {
        Vector::scale(BinOp::Mul, out, v, s)
    }

    /// The elementwise quotient: `out[i] = a[i] / b[i]`.
    pub fn div<'o>(out: &'o mut Vector<T>, a: &Vector<T>, b: &Vector<T>) -> (r: &'o mut Vector<T>)
        requires
            a@.len() == b@.len(),
            a@.len() <= old(out)@.len(),
            zip_ok(BinOp::Div, a@, b@),
        ensures
            r@ == overwrite(old(out)@, zip_spec(BinOp::Div, a@, b@)),
            *final(out) == *final(r),
    {
        Vector::zip(BinOp::Div, out, a, b)
    }

    /// The quotient with a scalar: `out[i] = v[i] / s`.
    pub fn sdiv<'o>(out: &'o mut Vector<T>, v: &Vector<T>, s: &T) -> (r: &'o mut Vector<T>)
        requires
            v@.len() <= old(out)@.len(),
            scale_ok(BinOp::Div, v@, *s),
        ensures
            r@ == overwrite(old(out)@, scale_spec(BinOp::Div, v@, *s)),
            *final(out) == *final(r),
    {
        Vector::scale(BinOp::Div, out, v, s)
    }

    /// The elementwise remainder: `out[i] = a[i] % b[i]`.
    pub fn rem<'o>(out: &'o mut Vector<T>, a: &Vector<T>, b: &Vector<T>) -> (r: &'o mut Vector<T>)
        requires
            a@.len() == b@.len(),
            a@.len() <= old(out)@.len(),
            zip_ok(BinOp::Rem, a@, b@),
        ensures
            r@ == overwrite(old(out)@, zip_spec(BinOp::Rem, a@, b@)),
            *final(out) == *final(r),
    {
        Vector::zip(BinOp::Rem, out, a, b)
    }

    /// The remainder with a scalar: `out[i] = v[i] % s`.
    pub fn srem<'o>(out: &'o mut Vector<T>, v: &Vector<T>, s: &T) -> (r: &'o mut Vector<T>)
        requires
            v@.len() <= old(out)@.len(),
            scale_ok(BinOp::Rem, v@, *s),
        ensures
            r@ == overwrite(old(out)@, scale_spec(BinOp::Rem, v@, *s)),
            *final(out) == *final(r),
    {
        Vector::scale(BinOp::Rem, out, v, s)
    }

    /// The dot product, accumulated from zero in index order.
    pub fn dot(&self, other: &Vector<T>) -> (r: T)
        requires
            self@.len() == other@.len(),
            dot_ok(T::zero_spec(), self@, other@, self@.len()),
        ensures
            r == dot_spec(T::zero_spec(), self@, other@, self@.len()),
    {
        let n: usize = self.len();
        let mut out = T::zero();
        let mut i: usize = 0;
        while i < n
            invariant
                i <= n,
                n == self@.len(),
                n == other@.len(),
                dot_ok(T::zero_spec(), self@, other@, n as nat),
                out == dot_spec(T::zero_spec(), self@, other@, i as nat),
            decreases n - i,
        {
            proof {
                lemma_dot_ok_prefix(T::zero_spec(), self@, other@, n as nat, (i + 1) as nat);
            }
            let term = self.get(i).mul(other.get(i));
            out = out.add(&term);
            i = i + 1;
        }
        out
    }
}

/// `out` with `out[j] + v[0] * m[0][j] + v[1] * m[1][j] + ...` at each
/// index `j` that the rows of `m` have.
pub open spec fn row_times<T: Scalar>(out: Seq<T>, v: Seq<T>, m: Seq<Seq<T>>) -> Seq<T> {
    Seq::new(
        out.len(),
        |j: int|
            if j < m[0].len() {
                dot_spec(out[j], v, column(m, j), v.len())
            } else {
                out[j]
            },
    )
}

/// Whether every operation that computes `row_times(out, v, m)` is defined.
pub open spec fn row_times_ok<T: Scalar>(out: Seq<T>, v: Seq<T>, m: Seq<Seq<T>>) -> bool {
    forall|j: int|
        0 <= j < m[0].len() ==> #[trigger] dot_ok(out[j], v, column(m, j), v.len())
}

impl<T: Scalar> Vector<T> {
    /// The product of the row vector `v` and the matrix `m`, accumulated
    /// into `out`: `out[j]` gains `v[i] * m[i][j]` for every `i`, in order.
    /// The length of `v` must match the rows of `m`.
    pub fn mmul<'o>(out: &'o mut Vector<T>, v: &Vector<T>, m: &Matrix<T>) -> (r: &'o mut Vector<T>)
        requires
            v@.len() == m@.len(),
            m@[0].len() <= old(out)@.len(),
            row_times_ok(old(out)@, v@, m@),
        ensures
            r@ == row_times(old(out)@, v@, m@),
            *final(out) == *final(r),
    {
        let len: usize = v.len();
        let cols: usize = m.cols();
        let ghost start = out@;
        let mut j: usize = 0;
        while j < cols
            invariant
                j <= cols,
                len == v@.len(),
                len == m@.len(),
                cols <= start.len(),
                out@.len() == start.len(),
                forall|k: int| 0 <= k < len ==> (#[trigger] m@[k]).len() == cols,
                row_times_ok(start, v@, m@),
                forall|c: int|
                    0 <= c < start.len() ==> #[trigger] out@[c] == (if c < j {
                        dot_spec(start[c], v@, column(m@, c), len as nat)
                    } else {
                        start[c]
                    }),
            decreases cols - j,
        {
            let mut i: usize = 0;
            while i < len
                invariant
                    j < cols,
                    i <= len,
                    len == v@.len(),
                    len == m@.len(),
                    cols <= start.len(),
                    out@.len() == start.len(),
                    forall|k: int| 0 <= k < len ==> (#[trigger] m@[k]).len() == cols,
                    row_times_ok(start, v@, m@),
                    forall|c: int|
                        0 <= c < start.len() ==> #[trigger] out@[c] == (if c == j {
                            dot_spec(start[c], v@, column(m@, c), i as nat)
                        } else if c < j {
                            dot_spec(start[c], v@, column(m@, c), len as nat)
                        } else {
                            start[c]
                        }),
                decreases len - i,
            {
                proof {
                    assert(dot_ok(start[j as int], v@, column(m@, j as int), len as nat));
                    lemma_dot_ok_prefix(
                        start[j as int],
                        v@,
                        column(m@, j as int),
                        len as nat,
                        (i + 1) as nat,
                    );
                }
                let t = v.get(i).mul(m.get(i, j));
                let x = out.get(j).add(&t);
                *out.get_mut(j) = x;
                i = i + 1;
            }
            j = j + 1;
        }
        assert(out@ =~= row_times(start, v@, m@));
        out
    }
}

/// `&a + &b`: the elementwise sum in a fresh vector.
impl<'a, 'b, T: Scalar> core::ops::Add<&'b Vector<T>> for &'a Vector<T> {
    type Output = Vector<T>;

    fn add(self, other: &'b Vector<T>) -> (r: Vector<T>)
        ensures
            r@ == zip_spec(BinOp::Add, self@, other@),
    {
        let mut out = Vector::zeroed(self.len());
        Vector::<T>::add(&mut out, self, other);
        assert(out@ =~= zip_spec(BinOp::Add, self@, other@));
        out
    }
}

/// The operands that this operator form accepts. The result is stated by
/// the operator itself.
impl<'a, 'b, T: Scalar> vstd::std_specs::ops::AddSpecImpl<&'b Vector<T>> for &'a Vector<T> {
    open spec fn obeys_add_spec() -> bool {
        false
    }

    open spec fn add_req(self, other: &'b Vector<T>) -> bool {
        self@.len() == other@.len() && zip_ok(BinOp::Add, self@, other@)
    }

    open spec fn add_spec(self, other: &'b Vector<T>) -> Vector<T> {
        arbitrary()
    }
}

/// `&v + &s`: the sum with a scalar in a fresh vector.
impl<'a, 'b, T: Scalar> core::ops::Add<&'b T> for &'a Vector<T> {
    type Output = Vector<T>;

    fn add(self, s: &'b T) -> (r: Vector<T>)
        ensures
            r@ == scale_spec(BinOp::Add, self@, *s),
    {
        let mut out = Vector::zeroed(self.len());
        Vector::<T>::sadd(&mut out, self, s);
        assert(out@ =~= scale_spec(BinOp::Add, self@, *s));
        out
    }
}

/// The operands that this operator form accepts. The result is stated by
/// the operator itself.
impl<'a, 'b, T: Scalar> vstd::std_specs::ops::AddSpecImpl<&'b T> for &'a Vector<T> {
    open spec fn obeys_add_spec() -> bool {
        false
    }

    open spec fn add_req(self, s: &'b T) -> bool {
        scale_ok(BinOp::Add, self@, *s)
    }

    open spec fn add_spec(self, s: &'b T) -> Vector<T> {
        arbitrary()
    }
}

/// `&a - &b`: the elementwise difference in a fresh vector.
impl<'a, 'b, T: Scalar> core::ops::Sub<&'b Vector<T>> for &'a Vector<T> {
    type Output = Vector<T>;

    fn sub(self, other: &'b Vector<T>) -> (r: Vector<T>)
        ensures
            r@ == zip_spec(BinOp::Sub, self@, other@),
    {
        let mut out = Vector::zeroed(self.len());
        Vector::<T>::sub(&mut out, self, other);
        assert(out@ =~= zip_spec(BinOp::Sub, self@, other@));
        out
    }
}

/// The operands that this operator form accepts. The result is stated by
/// the operator itself.
impl<'a, 'b, T: Scalar> vstd::std_specs::ops::SubSpecImpl<&'b Vector<T>> for &'a Vector<T> {
    open spec fn obeys_sub_spec() -> bool {
        false
    }

    open spec fn sub_req(self, other: &'b Vector<T>) -> bool {
        self@.len() == other@.len() && zip_ok(BinOp::Sub, self@, other@)
    }

    open spec fn sub_spec(self, other: &'b Vector<T>) -> Vector<T> {
        arbitrary()
    }
}

/// `&v - &s`: the difference with a scalar in a fresh vector.
impl<'a, 'b, T: Scalar> core::ops::Sub<&'b T> for &'a Vector<T> {
    type Output = Vector<T>;

    fn sub(self, s: &'b T) -> (r: Vector<T>)
        ensures
            r@ == scale_spec(BinOp::Sub, self@, *s),
    {
        let mut out = Vector::zeroed(self.len());
        Vector::<T>::ssub(&mut out, self, s);
        assert(out@ =~= scale_spec(BinOp::Sub, self@, *s));
        out
    }
}

/// The operands that this operator form accepts. The result is stated by
/// the operator itself.
impl<'a, 'b, T: Scalar> vstd::std_specs::ops::SubSpecImpl<&'b T> for &'a Vector<T> {
    open spec fn obeys_sub_spec() -> bool {
        false
    }

    open spec fn sub_req(self, s: &'b T) -> bool {
        scale_ok(BinOp::Sub, self@, *s)
    }

    open spec fn sub_spec(self, s: &'b T) -> Vector<T> {
        arbitrary()
    }
}

/// `&a * &b`: the elementwise product in a fresh vector.
impl<'a, 'b, T: Scalar> core::ops::Mul<&'b Vector<T>> for &'a Vector<T> {
    type Output = Vector<T>;

    fn mul(self, other: &'b Vector<T>) -> (r: Vector<T>)
        ensures
            r@ == zip_spec(BinOp::Mul, self@, other@),
    {
        let mut out = Vector::zeroed(self.len());
        Vector::<T>::mul(&mut out, self, other);
        assert(out@ =~= zip_spec(BinOp::Mul, self@, other@));
        out
    }
}

/// The operands that this operator form accepts. The result is stated by
/// the operator itself.
impl<'a, 'b, T: Scalar> vstd::std_specs::ops::MulSpecImpl<&'b Vector<T>> for &'a Vector<T> {
    open spec fn obeys_mul_spec() -> bool {
        false
    }

    open spec fn mul_req(self, other: &'b Vector<T>) -> bool {
        self@.len() == other@.len() && zip_ok(BinOp::Mul, self@, other@)
    }

    open spec fn mul_spec(self, other: &'b Vector<T>) -> Vector<T> {
        arbitrary()
    }
}

/// `&v * &s`: the product with a scalar in a fresh vector.
impl<'a, 'b, T: Scalar> core::ops::Mul<&'b T> for &'a Vector<T> {
    type Output = Vector<T>;

    fn mul(self, s: &'b T) -> (r: Vector<T>)
        ensures
            r@ == scale_spec(BinOp::Mul, self@, *s),
    {
        let mut out = Vector::zeroed(self.len());
        Vector::<T>::smul(&mut out, self, s);
        assert(out@ =~= scale_spec(BinOp::Mul, self@, *s));
        out
    }
}

/// The operands that this operator form accepts. The result is stated by
/// the operator itself.
impl<'a, 'b, T: Scalar> vstd::std_specs::ops::MulSpecImpl<&'b T> for &'a Vector<T> {
    open spec fn obeys_mul_spec() -> bool {
        false
    }

    open spec fn mul_req(self, s: &'b T) -> bool {
        scale_ok(BinOp::Mul, self@, *s)
    }

    open spec fn mul_spec(self, s: &'b T) -> Vector<T> {
        arbitrary()
    }
}

/// `&a / &b`: the elementwise quotient in a fresh vector.
impl<'a, 'b, T: Scalar> core::ops::Div<&'b Vector<T>> for &'a Vector<T> {
    type Output = Vector<T>;

    fn div(self, other: &'b Vector<T>) -> (r: Vector<T>)
        ensures
            r@ == zip_spec(BinOp::Div, self@, other@),
    {
        let mut out = Vector::zeroed(self.len());
        Vector::<T>::div(&mut out, self, other);
        assert(out@ =~= zip_spec(BinOp::Div, self@, other@));
        out
    }
}

/// The operands that this operator form accepts. The result is stated by
/// the operator itself.
impl<'a, 'b, T: Scalar> vstd::std_specs::ops::DivSpecImpl<&'b Vector<T>> for &'a Vector<T> {
    open spec fn obeys_div_spec() -> bool {
        false
    }

    open spec fn div_req(self, other: &'b Vector<T>) -> bool {
        self@.len() == other@.len() && zip_ok(BinOp::Div, self@, other@)
    }

    open spec fn div_spec(self, other: &'b Vector<T>) -> Vector<T> {
        arbitrary()
    }
}

/// `&v / &s`: the quotient with a scalar in a fresh vector.
impl<'a, 'b, T: Scalar> core::ops::Div<&'b T> for &'a Vector<T> {
    type Output = Vector<T>;

    fn div(self, s: &'b T) -> (r: Vector<T>)
        ensures
            r@ == scale_spec(BinOp::Div, self@, *s),
    {
        let mut out = Vector::zeroed(self.len());
        Vector::<T>::sdiv(&mut out, self, s);
        assert(out@ =~= scale_spec(BinOp::Div, self@, *s));
        out
    }
}

/// The operands that this operator form accepts. The result is stated by
/// the operator itself.
impl<'a, 'b, T: Scalar> vstd::std_specs::ops::DivSpecImpl<&'b T> for &'a Vector<T> {
    open spec fn obeys_div_spec() -> bool {
        false
    }

    open spec fn div_req(self, s: &'b T) -> bool {
        scale_ok(BinOp::Div, self@, *s)
    }

    open spec fn div_spec(self, s: &'b T) -> Vector<T> {
        arbitrary()
    }
}

/// `&a % &b`: the elementwise remainder in a fresh vector.
impl<'a, 'b, T: Scalar> core::ops::Rem<&'b Vector<T>> for &'a Vector<T> {
    type Output = Vector<T>;

    fn rem(self, other: &'b Vector<T>) -> (r: Vector<T>)
        ensures
            r@ == zip_spec(BinOp::Rem, self@, other@),
    {
        let mut out = Vector::zeroed(self.len());
        Vector::<T>::rem(&mut out, self, other);
        assert(out@ =~= zip_spec(BinOp::Rem, self@, other@));
        out
    }
}

/// The operands that this operator form accepts. The result is stated by
/// the operator itself.
impl<'a, 'b, T: Scalar> vstd::std_specs::ops::RemSpecImpl<&'b Vector<T>> for &'a Vector<T> {
    open spec fn obeys_rem_spec() -> bool {
        false
    }

    open spec fn rem_req(self, other: &'b Vector<T>) -> bool {
        self@.len() == other@.len() && zip_ok(BinOp::Rem, self@, other@)
    }

    open spec fn rem_spec(self, other: &'b Vector<T>) -> Vector<T> {
        arbitrary()
    }
}

/// `&v % &s`: the remainder with a scalar in a fresh vector.
impl<'a, 'b, T: Scalar> core::ops::Rem<&'b T> for &'a Vector<T> {
    type Output = Vector<T>;

    fn rem(self, s: &'b T) -> (r: Vector<T>)
        ensures
            r@ == scale_spec(BinOp::Rem, self@, *s),
    {
        let mut out = Vector::zeroed(self.len());
        Vector::<T>::srem(&mut out, self, s);
        assert(out@ =~= scale_spec(BinOp::Rem, self@, *s));
        out
    }
}

/// The operands that this operator form accepts. The result is stated by
/// the operator itself.
impl<'a, 'b, T: Scalar> vstd::std_specs::ops::RemSpecImpl<&'b T> for &'a Vector<T> {
    open spec fn obeys_rem_spec() -> bool {
        false
    }

    open spec fn rem_req(self, s: &'b T) -> bool {
        scale_ok(BinOp::Rem, self@, *s)
    }

    open spec fn rem_spec(self, s: &'b T) -> Vector<T> {
        arbitrary()
    }
}

/// `&v * &m`: the product of a row vector and a matrix in a fresh vector.
impl<'a, 'b, T: Scalar> core::ops::Mul<&'b Matrix<T>> for &'a Vector<T> {
    type Output = Vector<T>;

    fn mul(self, m: &'b Matrix<T>) -> (r: Vector<T>)
        ensures
            r@ == row_times(zero_seq::<T>(m@[0].len()), self@, m@),
    {
        let mut out = Vector::zeroed(m.cols());
        Vector::<T>::mmul(&mut out, self, m);
        out
    }
}

/// The operands that this operator form accepts. The result is stated by
/// the operator itself.
impl<'a, 'b, T: Scalar> vstd::std_specs::ops::MulSpecImpl<&'b Matrix<T>> for &'a Vector<T> {
    open spec fn obeys_mul_spec() -> bool {
        false
    }

    open spec fn mul_req(self, m: &'b Matrix<T>) -> bool {
        &&& self@.len() == m@.len()
        &&& row_times_ok(zero_seq::<T>(m@[0].len()), self@, m@)
    }

    open spec fn mul_spec(self, m: &'b Matrix<T>) -> Vector<T> {
        arbitrary()
    }
}

/// `-&v`: the elementwise negation in a fresh vector.
impl<'a, T: Scalar> core::ops::Neg for &'a Vector<T> {
    type Output = Vector<T>;

    fn neg(self) -> (r: Vector<T>)
        ensures
            r@ == negated(self@),
    {
        let n: usize = self.len();
        let mut out = Vector::zeroed(n);
        let mut i: usize = 0;
        while i < n
            invariant
                i <= n,
                n == self@.len(),
                out@.len() == n,
                negated_ok(self@),
                forall|k: int| 0 <= k < i ==> out@[k] == self@[k].neg_spec(),
            decreases n - i,
        {
            let x = self.get(i).neg();
            *out.get_mut(i) = x;
            i = i + 1;
        }
        assert(out@ =~= negated(self@));
        out
    }
}

/// The operands that this operator form accepts. The result is stated by
/// the operator itself.
impl<'a, T: Scalar> vstd::std_specs::ops::NegSpecImpl for &'a Vector<T> {
    open spec fn obeys_neg_spec() -> bool {
        false
    }

    open spec fn neg_req(self) -> bool {
        negated_ok(self@)
    }

    open spec fn neg_spec(self) -> Vector<T> {
        arbitrary()
    }
}

} // verus!
