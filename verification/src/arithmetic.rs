//! The primitive operations on scalars that the simulator is built from.

use vstd::prelude::*;

verus! {

/// The operations on scalars of type `T` that the simulator needs.
///
/// An implementation for IEEE numbers maps each method to the operator of the
/// same meaning. No method promises anything about its result: the simulator
/// is proved against every implementation, and speaks about the results
/// through a [`Model`].
pub trait Arithmetic<T> {
    /// The scalar zero.
    fn zero(&self) -> T;

    /// `x + y`.
    fn plus(&self, x: T, y: T) -> T;

    /// `x - y`.
    fn minus(&self, x: T, y: T) -> T;

    /// `x * y`.
    fn times(&self, x: T, y: T) -> T;

    /// `x / y`.
    fn over(&self, x: T, y: T) -> T;

    /// `-x`.
    fn negate(&self, x: T) -> T;

    /// The natural exponential of `x`.
    fn exp(&self, x: T) -> T;

    /// `x < y`.
    fn less(&self, x: T, y: T) -> bool;

    /// `x > y`.
    fn greater(&self, x: T, y: T) -> bool;

    /// `x >= y`.
    fn at_least(&self, x: T, y: T) -> bool;
}

/// An arithmetic as mathematics: one function for each operation.
#[verifier::reject_recursive_types(T)]
pub struct Model<T> {
    /// The scalar zero.
    pub zero: T,
    /// `x + y`.
    pub plus: spec_fn(T, T) -> T,
    /// `x - y`.
    pub minus: spec_fn(T, T) -> T,
    /// `x * y`.
    pub times: spec_fn(T, T) -> T,
    /// `x / y`.
    pub over: spec_fn(T, T) -> T,
    /// `-x`.
    pub negate: spec_fn(T) -> T,
    /// The natural exponential of `x`.
    pub exp: spec_fn(T) -> T,
    /// `x < y`.
    pub less: spec_fn(T, T) -> bool,
    /// `x > y`.
    pub greater: spec_fn(T, T) -> bool,
    /// `x >= y`.
    pub at_least: spec_fn(T, T) -> bool,
}

/// `m` describes `a`: whatever an operation of `a` returns is the value of
/// the function of `m` on the same operands.
///
/// An arithmetic has a model when each of its operations returns the same
/// result whenever it is given the same operands.
pub open spec fn models<T, A: Arithmetic<T>>(a: &A, m: Model<T>) -> bool {
    &&& forall|r: T| #[trigger] call_ensures(A::zero, (a,), r) ==> r == m.zero
    &&& forall|x: T, y: T, r: T| #[trigger]
        call_ensures(A::plus, (a, x, y), r) ==> r == (m.plus)(x, y)
    &&& forall|x: T, y: T, r: T| #[trigger]
        call_ensures(A::minus, (a, x, y), r) ==> r == (m.minus)(x, y)
    &&& forall|x: T, y: T, r: T| #[trigger]
        call_ensures(A::times, (a, x, y), r) ==> r == (m.times)(x, y)
    &&& forall|x: T, y: T, r: T| #[trigger]
        call_ensures(A::over, (a, x, y), r) ==> r == (m.over)(x, y)
    &&& forall|x: T, r: T| #[trigger] call_ensures(A::negate, (a, x), r) ==> r == (m.negate)(x)
    &&& forall|x: T, r: T| #[trigger] call_ensures(A::exp, (a, x), r) ==> r == (m.exp)(x)
    &&& forall|x: T, y: T, r: bool| #[trigger]
        call_ensures(A::less, (a, x, y), r) ==> r == (m.less)(x, y)
    &&& forall|x: T, y: T, r: bool| #[trigger]
        call_ensures(A::greater, (a, x, y), r) ==> r == (m.greater)(x, y)
    &&& forall|x: T, y: T, r: bool| #[trigger]
        call_ensures(A::at_least, (a, x, y), r) ==> r == (m.at_least)(x, y)
}

} // verus!
