use crate::error::MatrixError;
use vstd::prelude::*;
use vstd::std_specs::ops::AddSpec;
use vstd::std_specs::ops::MulSpec;

verus! {

/// `z` is a zero of `T`: a value that `T::default()` returns. For the
/// integer types that is 0 and nothing else.
pub open spec fn is_zero<T: core::default::Default>(z: T) -> bool {
    call_ensures(T::default, (), z)
}

/// `T::default()` returns one value only: `T` has one zero.
pub open spec fn one_zero<T: core::default::Default>() -> bool {
    forall|y: T, z: T| #[trigger] is_zero(y) && #[trigger] is_zero(z) ==> y == z
}

/// `T` is numeric to the verifier: `+` and `*` on `T` compute what
/// `add_spec` and `mul_spec` say, and `T` has one zero.
pub open spec fn numeric<
    T: core::default::Default + core::ops::Add<Output = T> + core::ops::Mul<Output = T>,
>() -> bool {
    &&& T::obeys_add_spec()
    &&& T::obeys_mul_spec()
    &&& one_zero::<T>()
}

/// The dot product of `a` and `b` from the zero `z`: the products
/// `a[k] * b[k]` added to `z` one after the other, in the order of `k`.
/// Meant for sequences of equal length.
pub open spec fn dot<T: core::ops::Add<Output = T> + core::ops::Mul<Output = T>>(
    z: T,
    a: Seq<T>,
    b: Seq<T>,
) -> T
    decreases a.len(),
{
    if a.len() == 0 {
        z
    } else {
        dot(z, a.drop_last(), b.drop_last()).add_spec(a.last().mul_spec(b.last()))
    }
}

/// Every multiplication and every addition that `dot(z, a, b)` makes is one
/// that `T` allows (for the integer types: none of them overflows).
pub open spec fn dot_defined<T: core::ops::Add<Output = T> + core::ops::Mul<Output = T>>(
    z: T,
    a: Seq<T>,
    b: Seq<T>,
) -> bool
    decreases a.len(),
{
    a.len() == 0 || {
        &&& dot_defined(z, a.drop_last(), b.drop_last())
        &&& a.last().mul_req(b.last())
        &&& dot(z, a.drop_last(), b.drop_last()).add_req(a.last().mul_spec(b.last()))
    }
}

/// `v` is the dot product of `a` and `b` from a zero of `T`.
pub open spec fn is_dot<
    T: core::default::Default + core::ops::Add<Output = T> + core::ops::Mul<Output = T>,
>(v: T, a: Seq<T>, b: Seq<T>) -> bool {
    exists|z: T| #[trigger] is_zero(z) && v == dot(z, a, b)
}

/// The machine can compute the dot product of `a` and `b`: `T` is numeric,
/// and the dot product is defined from whatever zero `T::default()` returns.
pub open spec fn dot_computable<
    T: core::default::Default + core::ops::Add<Output = T> + core::ops::Mul<Output = T>,
>(a: Seq<T>, b: Seq<T>) -> bool {
    &&& numeric::<T>()
    &&& forall|z: T| #[trigger] is_zero(z) ==> dot_defined(z, a, b)
}

/// A dot product that is defined is defined on every pair of prefixes.
pub proof fn lemma_dot_defined_prefix<
    T: core::ops::Add<Output = T> + core::ops::Mul<Output = T>,
>(z: T, a: Seq<T>, b: Seq<T>, n: int)
    requires
        a.len() == b.len(),
        dot_defined(z, a, b),
        0 <= n <= a.len(),
    ensures
        dot_defined(z, a.take(n), b.take(n)),
    decreases a.len(),
{
    if n == a.len() {
        assert(a.take(n) =~= a);
        assert(b.take(n) =~= b);
    } else {
        lemma_dot_defined_prefix(z, a.drop_last(), b.drop_last(), n);
        assert(a.drop_last().take(n) =~= a.take(n));
        assert(b.drop_last().take(n) =~= b.take(n));
    }
}

/// An owned sequence of elements: one row or one column of a matrix.
pub struct Vector<T> {
    data: Vec<T>,
}

impl<T> View for Vector<T> {
    type V = Seq<T>;

    closed spec fn view(&self) -> Seq<T> {
        self.data@
    }
}

impl<T> Vector<T> {
    /// Wraps `data`.
    pub fn new(data: Vec<T>) -> (v: Self)
        ensures
            v@ == data@,
    {
        Vector { data }
    }

    /// The number of elements.
    pub fn len(&self) -> (n: usize)
        ensures
            n == self@.len(),
    {
        self.data.len()
    }

    /// The element at `i`.
    pub fn get(&self, i: usize) -> (x: T) where T: Copy
        requires
            i < self@.len(),
        ensures
            x == self@[i as int],
    {
        self.data[i]
    }
}

/// Computes the dot product of two vectors, or says that their lengths differ.
pub fn dot_product<T>(a: Vector<T>, b: Vector<T>) -> (r: Result<T, MatrixError>) where
    T: Copy + core::default::Default + core::ops::Add<Output = T> + core::ops::Mul<Output = T>,

    requires
        a@.len() == b@.len() ==> dot_computable(a@, b@),
    ensures
        a@.len() == b@.len() ==> r is Ok && is_dot(r->Ok_0, a@, b@),
        a@.len() != b@.len() ==> r == Err::<T, MatrixError>(MatrixError::VectorLengthMismatch),
{
    if a.len() != b.len() {
        return Err(MatrixError::VectorLengthMismatch);
    }
    let n = a.len();
    let zero = T::default();
    assert(is_zero(zero));
    let mut sum = zero;
    let mut i: usize = 0;
    while i < n
        invariant
            numeric::<T>(),
            n == a@.len(),
            n == b@.len(),
            dot_defined(zero, a@, b@),
            i <= n,
            sum == dot(zero, a@.take(i as int), b@.take(i as int)),
        decreases n - i,
    {
        proof {
            lemma_dot_defined_prefix(zero, a@, b@, i + 1);
            assert(a@.take(i + 1).drop_last() =~= a@.take(i as int));
            assert(b@.take(i + 1).drop_last() =~= b@.take(i as int));
        }
        sum = sum + a.get(i) * b.get(i);
        i = i + 1;
    }
    proof {
        assert(a@.take(n as int) =~= a@);
        assert(b@.take(n as int) =~= b@);
    }
    Ok(sum)
}

} // verus!
