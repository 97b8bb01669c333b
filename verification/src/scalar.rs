//! The numbers of the continuous plane.

use vstd::prelude::*;

verus! {

/// A number of the continuous plane: a coordinate, a distance, an angle in degrees, or a
/// draw from the random source.
///
/// The engine never looks inside a scalar. It combines scalars through the operations
/// below and turns them into whole numbers with [`Scalar::round`] and [`Scalar::trunc`].
/// Nothing is assumed of an implementation: no algebraic law, no range, not even that an
/// operation gives the same result twice. What the engine guarantees, it guarantees for
/// every result that the operations hand back; its contracts name those results with the
/// relations that follow the trait.
pub trait Scalar: Copy {
    /// Converts a whole number to a scalar.
    fn from_usize(n: usize) -> Self;

    /// Adds two scalars.
    fn plus(self, rhs: Self) -> Self;

    /// Subtracts `rhs` from `self`.
    fn minus(self, rhs: Self) -> Self;

    /// Multiplies two scalars.
    fn times(self, rhs: Self) -> Self;

    /// Reduces `self` modulo `modulus` to the least remainder that is not negative.
    fn rem_euclid(self, modulus: Self) -> Self;

    /// Whether `self` is strictly below `rhs`.
    fn less_than(self, rhs: Self) -> bool;

    /// Rounds to the nearest whole number, a tie going away from zero. A scalar beyond
    /// the range of the result is given the nearest bound of that range.
    fn round(self) -> i64;

    /// Cuts the fraction off. A scalar beyond the range of the result is given the
    /// nearest bound of that range.
    fn trunc(self) -> i64;

    /// The cosine of an angle given in degrees.
    fn cos_degrees(self) -> Self;

    /// The sine of an angle given in degrees.
    fn sin_degrees(self) -> Self;
}

/// `r` is what the scalar type makes of the whole number `n`.
pub open spec fn is_whole<S: Scalar>(n: usize, r: S) -> bool {
    call_ensures(S::from_usize, (n,), r)
}

/// `r` is a sum of `a` and `b`.
pub open spec fn is_sum<S: Scalar>(a: S, b: S, r: S) -> bool {
    call_ensures(S::plus, (a, b), r)
}

/// `r` is a difference of `a` and `b`.
pub open spec fn is_difference<S: Scalar>(a: S, b: S, r: S) -> bool {
    call_ensures(S::minus, (a, b), r)
}

/// `r` is a product of `a` and `b`.
pub open spec fn is_product<S: Scalar>(a: S, b: S, r: S) -> bool {
    call_ensures(S::times, (a, b), r)
}

/// `r` is a remainder of `a` modulo `modulus`.
pub open spec fn is_remainder<S: Scalar>(a: S, modulus: S, r: S) -> bool {
    call_ensures(S::rem_euclid, (a, modulus), r)
}

/// `r` is an answer to whether `a` is below `b`.
pub open spec fn is_below<S: Scalar>(a: S, b: S, r: bool) -> bool {
    call_ensures(S::less_than, (a, b), r)
}

/// `r` is a rounding of `a`.
pub open spec fn is_rounded<S: Scalar>(a: S, r: i64) -> bool {
    call_ensures(S::round, (a,), r)
}

/// `r` is a whole part of `a`.
pub open spec fn is_truncated<S: Scalar>(a: S, r: i64) -> bool {
    call_ensures(S::trunc, (a,), r)
}

/// `r` is a cosine of the angle `degrees`.
pub open spec fn is_cosine<S: Scalar>(degrees: S, r: S) -> bool {
    call_ensures(S::cos_degrees, (degrees,), r)
}

/// `r` is a sine of the angle `degrees`.
pub open spec fn is_sine<S: Scalar>(degrees: S, r: S) -> bool {
    call_ensures(S::sin_degrees, (degrees,), r)
}

/// Every entry of `draws` is a draw from `rng`: a result that a call of the random
/// source may give.
pub open spec fn is_drawn<S, R: FnMut() -> S>(rng: R, draws: Seq<S>) -> bool {
    forall|i: int| 0 <= i < draws.len() ==> call_ensures(rng, (), #[trigger] draws[i])
}

/// The operations of the scalar type are functions: given the same arguments, an
/// operation gives the same result. The engine does not assume this; what it proves
/// under this condition says so.
pub open spec fn functional<S: Scalar>() -> bool {
    &&& forall|n: usize, a: S, b: S|
        #![trigger is_whole(n, a), is_whole(n, b)]
        is_whole(n, a) && is_whole(n, b) ==> a == b
    &&& forall|x: S, y: S, a: S, b: S|
        #![trigger is_sum(x, y, a), is_sum(x, y, b)]
        is_sum(x, y, a) && is_sum(x, y, b) ==> a == b
    &&& forall|x: S, y: S, a: S, b: S|
        #![trigger is_difference(x, y, a), is_difference(x, y, b)]
        is_difference(x, y, a) && is_difference(x, y, b) ==> a == b
    &&& forall|x: S, y: S, a: S, b: S|
        #![trigger is_product(x, y, a), is_product(x, y, b)]
        is_product(x, y, a) && is_product(x, y, b) ==> a == b
    &&& forall|x: S, y: S, a: S, b: S|
        #![trigger is_remainder(x, y, a), is_remainder(x, y, b)]
        is_remainder(x, y, a) && is_remainder(x, y, b) ==> a == b
    &&& forall|x: S, y: S, a: bool, b: bool|
        #![trigger is_below(x, y, a), is_below(x, y, b)]
        is_below(x, y, a) && is_below(x, y, b) ==> a == b
    &&& forall|x: S, a: i64, b: i64|
        #![trigger is_rounded(x, a), is_rounded(x, b)]
        is_rounded(x, a) && is_rounded(x, b) ==> a == b
    &&& forall|x: S, a: i64, b: i64|
        #![trigger is_truncated(x, a), is_truncated(x, b)]
        is_truncated(x, a) && is_truncated(x, b) ==> a == b
    &&& forall|x: S, a: S, b: S|
        #![trigger is_cosine(x, a), is_cosine(x, b)]
        is_cosine(x, a) && is_cosine(x, b) ==> a == b
    &&& forall|x: S, a: S, b: S|
        #![trigger is_sine(x, a), is_sine(x, b)]
        is_sine(x, a) && is_sine(x, b) ==> a == b
}

} // verus!
