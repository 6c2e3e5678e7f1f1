//! The arithmetic that the solver needs from a pixel value.
use vstd::prelude::*;

verus! {

/// A number type the solver can compute with.
///
/// Each executable operation is paired with a model function of the same
/// arguments, and promises to return exactly the model's value: an operation
/// must be a function of its arguments alone. The model functions carry no
/// further laws, so contracts in this crate say which operations are applied
/// to which pixels, and nothing about rounding.
///
/// [`crate::fixed::Fixed`] is an implementation whose operations are proved
/// against integer arithmetic. An implementation written outside verified
/// code, such as one over floating-point numbers, gives every model function
/// the body of the operation it stands for.
pub trait Scalar: Copy + Send + Sync {
    /// Model of [`Scalar::zero`].
    spec fn zero_value() -> Self;

    /// Model of [`Scalar::one`].
    spec fn one_value() -> Self;

    /// Model of [`Scalar::add`].
    spec fn sum(self, rhs: Self) -> Self;

    /// Model of [`Scalar::sub`].
    spec fn difference(self, rhs: Self) -> Self;

    /// Model of [`Scalar::mul`].
    spec fn product(self, rhs: Self) -> Self;

    /// Model of [`Scalar::div`].
    spec fn quotient(self, rhs: Self) -> Self;

    /// Model of [`Scalar::neg`].
    spec fn negation(self) -> Self;

    /// Model of [`Scalar::sqrt`].
    spec fn square_root(self) -> Self;

    /// Model of [`Scalar::gt`].
    spec fn exceeds(self, rhs: Self) -> bool;

    /// The additive identity.
    fn zero() -> (r: Self)
        ensures
            r == Self::zero_value(),
    ;

    /// The multiplicative identity.
    fn one() -> (r: Self)
        ensures
            r == Self::one_value(),
    ;

    /// `self + rhs`.
    fn add(self, rhs: Self) -> (r: Self)
        ensures
            r == self.sum(rhs),
    ;

    /// `self - rhs`.
    fn sub(self, rhs: Self) -> (r: Self)
        ensures
            r == self.difference(rhs),
    ;

    /// `self * rhs`.
    fn mul(self, rhs: Self) -> (r: Self)
        ensures
            r == self.product(rhs),
    ;

    /// `self / rhs`, defined for every divisor.
    fn div(self, rhs: Self) -> (r: Self)
        ensures
            r == self.quotient(rhs),
    ;

    /// `-self`.
    fn neg(self) -> (r: Self)
        ensures
            r == self.negation(),
    ;

    /// The square root of `self`, defined for every argument.
    fn sqrt(self) -> (r: Self)
        ensures
            r == self.square_root(),
    ;

    /// Whether `self` is strictly greater than `rhs`.
    fn gt(self, rhs: Self) -> (r: bool)
        ensures
            r == self.exceeds(rhs),
    ;
}

/// The scalar two, as the solver forms it: one plus one.
pub open spec fn two_value<S: Scalar>() -> S {
    S::one_value().sum(S::one_value())
}

/// The scalar one half, as the solver forms it: one divided by two.
pub open spec fn half_value<S: Scalar>() -> S {
    S::one_value().quotient(two_value::<S>())
}

/// Returns two, computed as one plus one.
pub fn two<S: Scalar>() -> (r: S)
    ensures
        r == two_value::<S>(),
{
    S::one().add(S::one())
}

/// Returns one half, computed as one divided by two.
pub fn half<S: Scalar>() -> (r: S)
    ensures
        r == half_value::<S>(),
{
    S::one().div(two::<S>())
}

} // verus!
