//! Spike-timing-dependent plasticity: the learning rule and the weight bounds.

use crate::arithmetic::{models, Arithmetic, Model};
use vstd::prelude::*;

verus! {

/// The constants of the learning rule, shared by all synapses of a run.
#[derive(Debug)]
pub struct STDPParams<T> {
    /// Learning rate of potentiation.
    pub a_plus: T,
    /// Learning rate of depression.
    pub a_minus: T,
    /// Decay time constant of potentiation, in milliseconds.
    pub tau_plus: T,
    /// Decay time constant of depression, in milliseconds.
    pub tau_minus: T,
    /// Smallest weight a synapse can take.
    pub w_min: T,
    /// Largest weight a synapse can take.
    pub w_max: T,
}

impl<T: Copy> Clone for STDPParams<T> {
    fn clone(&self) -> (copy: Self)
        ensures
            copy == *self,
    {
        *self
    }
}

impl<T: Copy> Copy for STDPParams<T> {
}

/// `w` saturated to the bounds: `w_min` where `w < w_min`, else `w_max` where
/// `w > w_max`, else `w` itself.
pub open spec fn clamped<T>(m: Model<T>, w: T, w_min: T, w_max: T) -> T {
    if (m.less)(w, w_min) {
        w_min
    } else if (m.greater)(w, w_max) {
        w_max
    } else {
        w
    }
}

/// The weight change for a timing difference `delta_t = t_post - t_pre`.
///
/// A positive difference (the sending neuron fired first) potentiates:
/// `a_plus * exp(-delta_t / tau_plus)`. Any other difference depresses:
/// `-a_minus * exp(delta_t / tau_minus)`. A difference of zero is not positive,
/// so two spikes at the same instant depress the synapse by `a_minus * exp(0)`.
pub open spec fn weight_delta<T>(m: Model<T>, delta_t: T, params: STDPParams<T>) -> T {
    if (m.greater)(delta_t, m.zero) {
        (m.times)(params.a_plus, (m.exp)((m.over)((m.negate)(delta_t), params.tau_plus)))
    } else {
        (m.times)((m.negate)(params.a_minus), (m.exp)((m.over)(delta_t, params.tau_minus)))
    }
}

/// The weight that follows `w` after a pairing with timing difference
/// `delta_t`: `w` plus the weight change, saturated to the bounds.
pub open spec fn adapted<T>(m: Model<T>, w: T, delta_t: T, params: STDPParams<T>) -> T {
    clamped(m, (m.plus)(w, weight_delta(m, delta_t, params)), params.w_min, params.w_max)
}

/// `w` is neither below `w_min` nor above `w_max`.
pub open spec fn within_bounds<T>(m: Model<T>, w: T, w_min: T, w_max: T) -> bool {
    !(m.less)(w, w_min) && !(m.greater)(w, w_max)
}

/// The two bounds lie within the interval that they span: neither is below
/// `w_min` nor above `w_max`. For IEEE numbers this says that `w_min <= w_max`
/// and that neither bound is a NaN.
pub open spec fn bounds_in_order<T>(m: Model<T>, w_min: T, w_max: T) -> bool {
    within_bounds(m, w_min, w_min, w_max) && within_bounds(m, w_max, w_min, w_max)
}

/// Saturates a weight to the bounds.
pub fn clamp_weight<T: Copy, A: Arithmetic<T>>(w: T, w_min: T, w_max: T, arithmetic: &A) -> (r: T)
    ensures
        r == w || r == w_min || r == w_max,
        forall|m: Model<T>| #[trigger]
            models(arithmetic, m) ==> {
                &&& r == clamped(m, w, w_min, w_max)
                &&& bounds_in_order(m, w_min, w_max) ==> within_bounds(m, r, w_min, w_max)
            },
{
    if arithmetic.less(w, w_min) {
        w_min
    } else if arithmetic.greater(w, w_max) {
        w_max
    } else {
        w
    }
}

/// Computes the weight change for a timing difference
/// `delta_t = t_post - t_pre`.
pub fn stdp_update<T: Copy, A: Arithmetic<T>>(
    delta_t: T,
    params: &STDPParams<T>,
    arithmetic: &A,
) -> (dw: T)
    ensures
        forall|m: Model<T>| #[trigger]
            models(arithmetic, m) ==> dw == weight_delta(m, delta_t, *params),
{
    let a = arithmetic;
    if a.greater(delta_t, a.zero()) {
        a.times(params.a_plus, a.exp(a.over(a.negate(delta_t), params.tau_plus)))
    } else {
        a.times(a.negate(params.a_minus), a.exp(a.over(delta_t, params.tau_minus)))
    }
}

/// Applies the learning rule to a weight: adds the weight change for
/// `delta_t = t_post - t_pre` and saturates the sum to the bounds.
pub fn apply_stdp<T: Copy, A: Arithmetic<T>>(
    w: T,
    delta_t: T,
    params: &STDPParams<T>,
    arithmetic: &A,
) -> (r: T)
    ensures
        forall|m: Model<T>| #[trigger]
            models(arithmetic, m) ==> {
                &&& r == adapted(m, w, delta_t, *params)
                &&& bounds_in_order(m, params.w_min, params.w_max) ==> within_bounds(
                    m,
                    r,
                    params.w_min,
                    params.w_max,
                )
            },
{
    let dw = stdp_update(delta_t, params, arithmetic);
    clamp_weight(arithmetic.plus(w, dw), params.w_min, params.w_max, arithmetic)
}

/// Saturating leaves a weight within the bounds, whatever the weight, as long
/// as the bounds are in order.
pub proof fn law_clamped_within_bounds<T>(m: Model<T>, w: T, w_min: T, w_max: T)
    requires
        bounds_in_order(m, w_min, w_max),
    ensures
        within_bounds(m, clamped(m, w, w_min, w_max), w_min, w_max),
{
}

/// Saturating is idempotent: a weight that was saturated is not changed by
/// saturating it again.
pub proof fn law_clamped_idempotent<T>(m: Model<T>, w: T, w_min: T, w_max: T)
    requires
        bounds_in_order(m, w_min, w_max),
    ensures
        clamped(m, clamped(m, w, w_min, w_max), w_min, w_max) == clamped(m, w, w_min, w_max),
{
}

/// Every update of the learning rule yields a weight within the bounds,
/// whatever the weight before and whatever the timing difference. In
/// particular a weight at `w_max` does not rise above `w_max`, and a weight at
/// `w_min` does not sink below `w_min`.
pub proof fn law_adapted_within_bounds<T>(m: Model<T>, w: T, delta_t: T, params: STDPParams<T>)
    requires
        bounds_in_order(m, params.w_min, params.w_max),
    ensures
        within_bounds(m, adapted(m, w, delta_t, params), params.w_min, params.w_max),
        !(m.greater)(adapted(m, w, delta_t, params), params.w_max),
        !(m.less)(adapted(m, w, delta_t, params), params.w_min),
{
}

/// The arithmetic keeps the signs that exact arithmetic on real numbers has:
/// an exponential is greater than zero, the product of two numbers greater
/// than zero is greater than zero, and the product of the negation of such a
/// number with such a number is not.
///
/// IEEE numbers keep these signs as long as no result underflows to zero.
pub open spec fn keeps_signs<T>(m: Model<T>) -> bool {
    &&& forall|x: T| (m.greater)(#[trigger] (m.exp)(x), m.zero)
    &&& forall|x: T, y: T|
        (m.greater)(x, m.zero) && (m.greater)(y, m.zero) ==> (m.greater)(
            #[trigger] (m.times)(x, y),
            m.zero,
        )
    &&& forall|x: T, y: T|
        (m.greater)(x, m.zero) && (m.greater)(y, m.zero) ==> !(m.greater)(
            #[trigger] (m.times)((m.negate)(x), y),
            m.zero,
        )
}

/// With learning rates greater than zero, and under an arithmetic that keeps
/// signs, a timing difference greater than zero gives a weight change greater
/// than zero, and any other timing difference gives a weight change that is
/// not greater than zero.
pub proof fn law_weight_delta_sign<T>(m: Model<T>, delta_t: T, params: STDPParams<T>)
    requires
        keeps_signs(m),
        (m.greater)(params.a_plus, m.zero),
        (m.greater)(params.a_minus, m.zero),
    ensures
        (m.greater)(delta_t, m.zero) ==> (m.greater)(weight_delta(m, delta_t, params), m.zero),
        !(m.greater)(delta_t, m.zero) ==> !(m.greater)(weight_delta(m, delta_t, params), m.zero),
{
}

} // verus!
