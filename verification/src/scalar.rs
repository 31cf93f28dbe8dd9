//! The numbers that volumes, temperatures and rates are made of.
//!
//! The simulator computes with `+ - * /`, comparison and a handful of small
//! whole numbers. A scalar type supplies exactly these through the standard
//! operator traits, so the same verified code runs on any of them.
//!
//! What an operation of a scalar type returns is described twice. The
//! predicates `is_sum`, `is_less` and their like say that a value is one
//! the type's own operation may return; they hold of every scalar type,
//! also of one whose arithmetic rounds. The functions `lesser_of` and their
//! like give the value itself, for scalar types that are [`exact`].

use core::cmp::Ordering;
use core::ops::{Add, Div, Mul, Sub};
use vstd::prelude::*;
use vstd::std_specs::cmp::{PartialEqSpec, PartialOrdSpec};
use vstd::std_specs::convert::FromSpec;
use vstd::std_specs::ops::{AddSpec, DivSpec, MulSpec, SubSpec};

verus! {

/// A number type the simulator can compute with.
///
/// Every type with the listed operations is a `Scalar`; there is nothing to
/// implement.
pub trait Scalar: Copy + PartialOrd + Add<Output = Self> + Sub<Output = Self> + Mul<
    Output = Self,
> + Div<Output = Self> + From<u16> {

}

impl<T> Scalar for T where
    T: Copy + PartialOrd + Add<Output = T> + Sub<Output = T> + Mul<Output = T> + Div<
        Output = T,
    > + From<u16>,
 {

}

/// The four operations of `S` accept every pair of operands: none of them
/// overflows or refuses a divisor.
pub open spec fn total<S: Scalar>() -> bool {
    &&& forall|a: S, b: S| #[trigger] call_requires(S::add, (a, b))
    &&& forall|a: S, b: S| #[trigger] call_requires(S::sub, (a, b))
    &&& forall|a: S, b: S| #[trigger] call_requires(S::mul, (a, b))
    &&& forall|a: S, b: S| #[trigger] call_requires(S::div, (a, b))
}

/// `sum` is a value that `a + b` may have.
pub open spec fn is_sum<S: Scalar>(a: S, b: S, sum: S) -> bool {
    call_ensures(S::add, (a, b), sum)
}

/// `difference` is a value that `a - b` may have.
pub open spec fn is_difference<S: Scalar>(a: S, b: S, difference: S) -> bool {
    call_ensures(S::sub, (a, b), difference)
}

/// `product` is a value that `a * b` may have.
pub open spec fn is_product<S: Scalar>(a: S, b: S, product: S) -> bool {
    call_ensures(S::mul, (a, b), product)
}

/// `quotient` is a value that `a / b` may have.
pub open spec fn is_quotient<S: Scalar>(a: S, b: S, quotient: S) -> bool {
    call_ensures(S::div, (a, b), quotient)
}

/// `value` is a scalar that the whole number `n` may convert to.
pub open spec fn is_number<S: Scalar>(n: u16, value: S) -> bool {
    call_ensures(S::from, (n,), value)
}

/// `answer` is what `a == b` may say.
pub open spec fn is_equal<S: Scalar>(a: S, b: S, answer: bool) -> bool {
    call_ensures(S::eq, (&a, &b), answer)
}

/// `answer` is what `a != b` may say.
pub open spec fn is_unequal<S: Scalar>(a: S, b: S, answer: bool) -> bool {
    call_ensures(S::ne, (&a, &b), answer)
}

/// `answer` is what `a < b` may say.
pub open spec fn is_less<S: Scalar>(a: S, b: S, answer: bool) -> bool {
    call_ensures(S::lt, (&a, &b), answer)
}

/// `answer` is what `a > b` may say.
pub open spec fn is_more<S: Scalar>(a: S, b: S, answer: bool) -> bool {
    call_ensures(S::gt, (&a, &b), answer)
}

/// `lesser` is a value that the smaller of `a` and `b` may have: `a` where
/// `a < b`; else `a` again where `b` does not equal itself (is not a
/// number); else `b`.
pub open spec fn is_lesser<S: Scalar>(a: S, b: S, lesser: S) -> bool {
    ||| is_less(a, b, true) && lesser == a
    ||| is_less(a, b, false) && is_unequal(b, b, true) && lesser == a
    ||| is_less(a, b, false) && is_unequal(b, b, false) && lesser == b
}

/// `greater` is a value that the larger of `a` and `b` may have: `a` where
/// `a > b`; else `a` again where `b` does not equal itself; else `b`.
pub open spec fn is_greater<S: Scalar>(a: S, b: S, greater: S) -> bool {
    ||| is_more(a, b, true) && greater == a
    ||| is_more(a, b, false) && is_unequal(b, b, true) && greater == a
    ||| is_more(a, b, false) && is_unequal(b, b, false) && greater == b
}

/// The executable operations of `S` compute what their specifications say:
/// each is a function of its operands, and rounds nothing away.
pub open spec fn exact<S: Scalar>() -> bool {
    &&& S::obeys_add_spec()
    &&& S::obeys_sub_spec()
    &&& S::obeys_mul_spec()
    &&& S::obeys_div_spec()
    &&& S::obeys_eq_spec()
    &&& S::obeys_partial_cmp_spec()
    &&& S::obeys_from_spec()
}

/// The scalar that stands for the whole number `n`.
pub open spec fn number<S: Scalar>(n: u16) -> S {
    S::from_spec(n)
}

/// `a` is strictly below `b` in the order of `S`.
pub open spec fn less<S: Scalar>(a: S, b: S) -> bool {
    a.partial_cmp_spec(&b) == Some(Ordering::Less)
}

/// `a` is strictly above `b` in the order of `S`.
pub open spec fn more<S: Scalar>(a: S, b: S) -> bool {
    a.partial_cmp_spec(&b) == Some(Ordering::Greater)
}

/// `a` and `b` are the same quantity under the equality of `S`.
pub open spec fn same<S: Scalar>(a: S, b: S) -> bool {
    a.eq_spec(&b)
}

/// The smaller of two scalars. An operand that does not equal itself (not a
/// number) is passed over in favour of the other; of two equal operands the
/// second is taken.
pub open spec fn lesser_of<S: Scalar>(a: S, b: S) -> S {
    if less(a, b) || !same(b, b) {
        a
    } else {
        b
    }
}

/// The larger of two scalars, with the same treatment of operands that are
/// not numbers as [`lesser_of`].
pub open spec fn greater_of<S: Scalar>(a: S, b: S) -> S {
    if more(a, b) || !same(b, b) {
        a
    } else {
        b
    }
}

/// Returns the smaller of `a` and `b`.
pub fn lesser<S: Scalar>(a: S, b: S) -> (r: S)
    ensures
        is_lesser(a, b, r),
        exact::<S>() ==> r == lesser_of(a, b),
{
    if a < b || b != b {
        a
    } else {
        b
    }
}

/// Returns the larger of `a` and `b`.
pub fn greater<S: Scalar>(a: S, b: S) -> (r: S)
    ensures
        is_greater(a, b, r),
        exact::<S>() ==> r == greater_of(a, b),
{
    if a > b || b != b {
        a
    } else {
        b
    }
}

/// For an exact scalar type the smaller of two scalars is one value, the
/// one that [`lesser_of`] gives.
pub proof fn lemma_lesser_exact<S: Scalar>(a: S, b: S, lesser: S)
    requires
        exact::<S>(),
        is_lesser(a, b, lesser),
    ensures
        lesser == lesser_of(a, b),
{
}

/// For an exact scalar type the larger of two scalars is one value, the one
/// that [`greater_of`] gives.
pub proof fn lemma_greater_exact<S: Scalar>(a: S, b: S, greater: S)
    requires
        exact::<S>(),
        is_greater(a, b, greater),
    ensures
        greater == greater_of(a, b),
{
}

} // verus!
