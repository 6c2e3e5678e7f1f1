//! Arithmetic without rounding.
//!
//! The laws of the solver that do not survive rounding are stated for every
//! scalar whose model arithmetic is exact. This module says what that means
//! and derives the identities the laws are proved from.
use vstd::prelude::*;
use crate::scalar::two_value;
use crate::scalar::Scalar;

verus! {


/// Whether the scalar's sums, negations and products obey the laws of a
/// commutative ring, and its differences are sums with the negation.
#[verifier::opaque]
pub open spec fn exact_arithmetic<S: Scalar>() -> bool {
    &&& forall|a: S, b: S| #[trigger] a.sum(b) == b.sum(a)
    &&& forall|a: S, b: S, c: S| #[trigger] a.sum(b).sum(c) == a.sum(b.sum(c))
    &&& forall|a: S| #[trigger] a.sum(S::zero_value()) == a
    &&& forall|a: S| #[trigger] a.sum(a.negation()) == S::zero_value()
    &&& forall|a: S, b: S| #[trigger] a.difference(b) == a.sum(b.negation())
    &&& forall|a: S, b: S| #[trigger] a.product(b) == b.product(a)
    &&& forall|a: S, b: S, c: S| #[trigger] a.product(b).product(c) == a.product(b.product(c))
    &&& forall|a: S| #[trigger] a.product(S::one_value()) == a
    &&& forall|a: S, b: S, c: S| #[trigger]
        a.product(b.sum(c)) == a.product(b).sum(a.product(c))
}

/// `a + b == b + a`.
pub proof fn lemma_sum_commutes<S: Scalar>(a: S, b: S)
    requires
        exact_arithmetic::<S>(),
    ensures
        a.sum(b) == b.sum(a),
{
    reveal(exact_arithmetic);
}

/// `(a + b) + c == a + (b + c)`.
pub proof fn lemma_sum_associates<S: Scalar>(a: S, b: S, c: S)
    requires
        exact_arithmetic::<S>(),
    ensures
        a.sum(b).sum(c) == a.sum(b.sum(c)),
{
    reveal(exact_arithmetic);
}

/// `a + 0 == a` and `0 + a == a`.
pub proof fn lemma_sum_zero<S: Scalar>(a: S)
    requires
        exact_arithmetic::<S>(),
    ensures
        a.sum(S::zero_value()) == a,
        S::zero_value().sum(a) == a,
{
    reveal(exact_arithmetic);
}

/// `a + (-a) == 0`.
pub proof fn lemma_sum_negation<S: Scalar>(a: S)
    requires
        exact_arithmetic::<S>(),
    ensures
        a.sum(a.negation()) == S::zero_value(),
{
    reveal(exact_arithmetic);
}

/// `a - b == a + (-b)`.
pub proof fn lemma_difference<S: Scalar>(a: S, b: S)
    requires
        exact_arithmetic::<S>(),
    ensures
        a.difference(b) == a.sum(b.negation()),
{
    reveal(exact_arithmetic);
}

/// `a * b == b * a`.
pub proof fn lemma_product_commutes<S: Scalar>(a: S, b: S)
    requires
        exact_arithmetic::<S>(),
    ensures
        a.product(b) == b.product(a),
{
    reveal(exact_arithmetic);
}

/// `(a * b) * c == a * (b * c)`.
pub proof fn lemma_product_associates<S: Scalar>(a: S, b: S, c: S)
    requires
        exact_arithmetic::<S>(),
    ensures
        a.product(b).product(c) == a.product(b.product(c)),
{
    reveal(exact_arithmetic);
}

/// `a * (b + c) == a * b + a * c` and `(b + c) * a == b * a + c * a`.
pub proof fn lemma_product_distributes<S: Scalar>(a: S, b: S, c: S)
    requires
        exact_arithmetic::<S>(),
    ensures
        a.product(b.sum(c)) == a.product(b).sum(a.product(c)),
        b.sum(c).product(a) == b.product(a).sum(c.product(a)),
{
    reveal(exact_arithmetic);
}

/// `(a + b) + c == (a + c) + b`.
pub proof fn lemma_sum_swap<S: Scalar>(a: S, b: S, c: S)
    requires
        exact_arithmetic::<S>(),
    ensures
        a.sum(b).sum(c) == a.sum(c).sum(b),
{
    lemma_sum_associates(a, b, c);
    lemma_sum_commutes(b, c);
    lemma_sum_associates(a, c, b);
}

/// `(a + b) + (c + d) == (a + c) + (b + d)`.
pub proof fn lemma_sum_interchange<S: Scalar>(a: S, b: S, c: S, d: S)
    requires
        exact_arithmetic::<S>(),
    ensures
        a.sum(b).sum(c.sum(d)) == a.sum(c).sum(b.sum(d)),
{
    lemma_sum_associates(a.sum(b), c, d);
    lemma_sum_swap(a, b, c);
    lemma_sum_associates(a.sum(c), b, d);
}

/// Whatever adds up to zero with `a` is the negation of `a`.
pub proof fn lemma_negation_unique<S: Scalar>(a: S, b: S)
    requires
        exact_arithmetic::<S>(),
        a.sum(b) == S::zero_value(),
    ensures
        b == a.negation(),
{
    let n = a.negation();
    lemma_sum_zero(b);
    lemma_sum_negation(a);
    lemma_sum_associates(b, a, n);
    lemma_sum_commutes(b, a);
    lemma_sum_zero(n);
}

/// `-(a + b) == (-a) + (-b)`.
pub proof fn lemma_negation_of_sum<S: Scalar>(a: S, b: S)
    requires
        exact_arithmetic::<S>(),
    ensures
        a.sum(b).negation() == a.negation().sum(b.negation()),
{
    lemma_sum_interchange(a, b, a.negation(), b.negation());
    lemma_sum_negation(a);
    lemma_sum_negation(b);
    lemma_sum_zero(S::zero_value());
    lemma_negation_unique(a.sum(b), a.negation().sum(b.negation()));
}

/// `-(-a) == a`.
pub proof fn lemma_negation_twice<S: Scalar>(a: S)
    requires
        exact_arithmetic::<S>(),
    ensures
        a.negation().negation() == a,
{
    lemma_sum_negation(a);
    lemma_sum_commutes(a, a.negation());
    lemma_negation_unique(a.negation(), a);
}

/// `a * 0 == 0`.
pub proof fn lemma_product_zero<S: Scalar>(a: S)
    requires
        exact_arithmetic::<S>(),
    ensures
        a.product(S::zero_value()) == S::zero_value(),
{
    let z = S::zero_value();
    let p = a.product(z);
    lemma_sum_zero(z);
    lemma_product_distributes(a, z, z);
    assert(p == p.sum(p));
    lemma_sum_negation(p);
    lemma_sum_associates(p, p, p.negation());
    lemma_sum_zero(p);
}

/// `a * (-b) == -(a * b)` and `(-a) * b == -(a * b)`.
pub proof fn lemma_product_negation<S: Scalar>(a: S, b: S)
    requires
        exact_arithmetic::<S>(),
    ensures
        a.product(b.negation()) == a.product(b).negation(),
        a.negation().product(b) == a.product(b).negation(),
{
    lemma_product_distributes(a, b, b.negation());
    lemma_sum_negation(b);
    lemma_product_zero(a);
    lemma_negation_unique(a.product(b), a.product(b.negation()));
    lemma_product_commutes(a.negation(), b);
    lemma_product_commutes(a, b);
    lemma_product_distributes(b, a, a.negation());
    lemma_sum_negation(a);
    lemma_product_zero(b);
    lemma_negation_unique(b.product(a), b.product(a.negation()));
}

/// `(x - a) * b == x * b + -(a * b)`.
pub proof fn lemma_difference_times<S: Scalar>(x: S, a: S, b: S)
    requires
        exact_arithmetic::<S>(),
    ensures
        x.difference(a).product(b) == x.product(b).sum(a.product(b).negation()),
{
    lemma_difference(x, a);
    lemma_product_distributes(b, x, a.negation());
    lemma_product_negation(a, b);
}

/// `a * -(x - y) == a * y + -(a * x)`.
pub proof fn lemma_times_negated_difference<S: Scalar>(a: S, x: S, y: S)
    requires
        exact_arithmetic::<S>(),
    ensures
        a.product(x.difference(y).negation()) == a.product(y).sum(a.product(x).negation()),
{
    lemma_difference(x, y);
    lemma_negation_of_sum(x, y.negation());
    lemma_negation_twice(y);
    lemma_sum_commutes(x.negation(), y);
    lemma_product_distributes(a, y, x.negation());
    lemma_product_negation(a, x);
}

/// `(h * (c + d)) * q == c * (h * q) + d * (h * q)`.
pub proof fn lemma_scaled_sum_times<S: Scalar>(h: S, c: S, d: S, q: S)
    requires
        exact_arithmetic::<S>(),
    ensures
        h.product(c.sum(d)).product(q) == c.product(h.product(q)).sum(d.product(h.product(q))),
{
    lemma_product_commutes(h, c.sum(d));
    lemma_product_associates(c.sum(d), h, q);
    lemma_product_distributes(h.product(q), c, d);
}

/// `(-h) * (x - y) == -(h * x - h * y)`.
pub proof fn lemma_negated_scale<S: Scalar>(h: S, x: S, y: S)
    requires
        exact_arithmetic::<S>(),
    ensures
        h.negation().product(x.difference(y)) == h.product(x).difference(
            h.product(y),
        ).negation(),
{
    lemma_product_negation(h, x.difference(y));
    lemma_difference(x, y);
    lemma_product_distributes(h, x, y.negation());
    lemma_product_negation(h, y);
    lemma_difference(h.product(x), h.product(y));
}

/// Whether dividing a product by its nonzero second factor gives the first
/// factor back.
#[verifier::opaque]
pub open spec fn exact_division<S: Scalar>() -> bool {
    &&& forall|a: S, b: S| b != S::zero_value() ==> #[trigger] a.product(b).quotient(b) == a
    &&& forall|a: S, b: S| b != S::zero_value() ==> #[trigger] a.quotient(b).product(b) == a
}

/// `(a * b) / b == a` for a nonzero `b`.
pub proof fn lemma_quotient_undoes_product<S: Scalar>(a: S, b: S)
    requires
        exact_division::<S>(),
        b != S::zero_value(),
    ensures
        a.product(b).quotient(b) == a,
        a.quotient(b).product(b) == a,
{
    reveal(exact_division);
}

/// `a * 1 == a` and `1 * a == a`.
pub proof fn lemma_product_one<S: Scalar>(a: S)
    requires
        exact_arithmetic::<S>(),
    ensures
        a.product(S::one_value()) == a,
        S::one_value().product(a) == a,
{
    reveal(exact_arithmetic);
}

/// `-0 == 0`.
pub proof fn lemma_negation_of_zero<S: Scalar>()
    requires
        exact_arithmetic::<S>(),
    ensures
        S::zero_value().negation() == S::zero_value(),
{
    lemma_sum_negation(S::zero_value());
    lemma_sum_zero(S::zero_value().negation());
}

/// `a - 0 == a` and `a - a == 0`.
pub proof fn lemma_difference_basics<S: Scalar>(a: S)
    requires
        exact_arithmetic::<S>(),
    ensures
        a.difference(S::zero_value()) == a,
        a.difference(a) == S::zero_value(),
{
    lemma_difference(a, S::zero_value());
    lemma_negation_of_zero::<S>();
    lemma_sum_zero(a);
    lemma_difference(a, a);
    lemma_sum_negation(a);
}

/// `0 * a == 0`.
pub proof fn lemma_zero_product<S: Scalar>(a: S)
    requires
        exact_arithmetic::<S>(),
    ensures
        S::zero_value().product(a) == S::zero_value(),
{
    lemma_product_zero(a);
    lemma_product_commutes(a, S::zero_value());
}

/// `2 * a - a == a`, with two formed as one plus one.
pub proof fn lemma_twice_less_once<S: Scalar>(a: S)
    requires
        exact_arithmetic::<S>(),
    ensures
        two_value::<S>().product(a).difference(a) == a,
{
    let one = S::one_value();
    lemma_product_distributes(a, one, one);
    lemma_product_one(a);
    lemma_difference(a.sum(a), a);
    lemma_sum_associates(a, a, a.negation());
    lemma_sum_negation(a);
    lemma_sum_zero(a);
}

/// `a + t * a == a * (1 + t)`.
pub proof fn lemma_one_plus<S: Scalar>(a: S, t: S)
    requires
        exact_arithmetic::<S>(),
    ensures
        a.sum(t.product(a)) == a.product(S::one_value().sum(t)),
{
    lemma_product_distributes(a, S::one_value(), t);
    lemma_product_one(a);
    lemma_product_commutes(a, t);
}

/// Whether the scalar's comparison is a strict order under which one is
/// greater than zero, no square is negative, and no sum of two numbers that
/// are not negative is negative.
#[verifier::opaque]
pub open spec fn exact_order<S: Scalar>() -> bool {
    &&& forall|a: S| !(#[trigger] a.exceeds(a))
    &&& forall|a: S, b: S| #[trigger] a.exceeds(b) ==> !b.exceeds(a)
    &&& S::one_value().exceeds(S::zero_value())
    &&& forall|a: S| !S::zero_value().exceeds(#[trigger] a.product(a))
    &&& forall|a: S, b: S|
        !S::zero_value().exceeds(a) && !S::zero_value().exceeds(b) ==> !S::zero_value().exceeds(
            #[trigger] a.sum(b),
        )
}

/// Whether, for every number that is not negative, the square root squared
/// is the number and the square root of the number squared is the number.
#[verifier::opaque]
pub open spec fn exact_square_root<S: Scalar>() -> bool {
    &&& forall|a: S|
        !S::zero_value().exceeds(a) ==> (#[trigger] a.square_root()).product(a.square_root())
            == a
    &&& forall|a: S| !S::zero_value().exceeds(a) ==> (#[trigger] a.product(a)).square_root() == a
}

/// The comparison is irreflexive and asymmetric, and one is greater than zero.
pub proof fn lemma_order<S: Scalar>(a: S, b: S)
    requires
        exact_order::<S>(),
    ensures
        !a.exceeds(a),
        a.exceeds(b) ==> !b.exceeds(a),
        S::one_value().exceeds(S::zero_value()),
{
    reveal(exact_order);
}

/// A sum of two squares is not negative.
pub proof fn lemma_sum_of_squares<S: Scalar>(a: S, b: S)
    requires
        exact_order::<S>(),
    ensures
        !S::zero_value().exceeds(a.product(a)),
        !S::zero_value().exceeds(a.product(a).sum(b.product(b))),
{
    reveal(exact_order);
}

/// A sum of a number that is not negative and a square is not negative.
pub proof fn lemma_sum_with_square<S: Scalar>(a: S, b: S)
    requires
        exact_order::<S>(),
        !S::zero_value().exceeds(a),
    ensures
        !S::zero_value().exceeds(a.sum(b.product(b))),
{
    reveal(exact_order);
}

/// For `a` not negative, `sqrt(a) * sqrt(a) == a` and `sqrt(a * a) == a`.
pub proof fn lemma_square_root<S: Scalar>(a: S)
    requires
        exact_square_root::<S>(),
        !S::zero_value().exceeds(a),
    ensures
        a.square_root().product(a.square_root()) == a,
        a.product(a).square_root() == a,
{
    reveal(exact_square_root);
}

/// `(a * k) * (a * k) == (a * a) * (k * k)`.
pub proof fn lemma_square_of_product<S: Scalar>(a: S, k: S)
    requires
        exact_arithmetic::<S>(),
    ensures
        a.product(k).product(a.product(k)) == a.product(a).product(k.product(k)),
{
    lemma_product_associates(a, k, a.product(k));
    lemma_product_associates(k, a, k);
    lemma_product_commutes(k, a);
    lemma_product_associates(a, k, k);
    lemma_product_associates(a, a, k.product(k));
}

/// `r / r == 1` for a nonzero `r`, and `0 / r == 0`.
pub proof fn lemma_quotient_basics<S: Scalar>(r: S)
    requires
        exact_arithmetic::<S>(),
        exact_division::<S>(),
        r != S::zero_value(),
    ensures
        r.quotient(r) == S::one_value(),
        S::zero_value().quotient(r) == S::zero_value(),
{
    lemma_product_one(r);
    lemma_quotient_undoes_product(S::one_value(), r);
    lemma_zero_product(r);
    lemma_quotient_undoes_product(S::zero_value(), r);
}

} // verus!
