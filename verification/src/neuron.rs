//! The leaky integrate-and-fire neuron.

use crate::arithmetic::{models, Arithmetic, Model};
use crate::error::SimulationError;
use vstd::prelude::*;

verus! {

/// The constants of a neuron's dynamics.
///
/// A threshold at or below the resting potential is accepted: such a neuron
/// fires at every step or never, according to the other values.
#[derive(Debug)]
pub struct NeuronParams<T> {
    /// Membrane time constant, in milliseconds.
    pub tau_m: T,
    /// Resting membrane potential.
    pub v_rest: T,
    /// Firing threshold.
    pub v_thresh: T,
    /// Potential after a spike.
    pub v_reset: T,
}

impl<T: Copy> Clone for NeuronParams<T> {
    fn clone(&self) -> (copy: Self)
        ensures
            copy == *self,
    {
        *self
    }
}

impl<T: Copy> Copy for NeuronParams<T> {
}

/// A leaky integrate-and-fire neuron.
#[derive(Debug)]
pub struct Neuron<T> {
    /// Current membrane potential.
    pub v_mem: T,
    /// The constants of this neuron.
    pub params: NeuronParams<T>,
}

impl<T: Copy> Clone for Neuron<T> {
    fn clone(&self) -> (copy: Self)
        ensures
            copy == *self,
    {
        *self
    }
}

impl<T: Copy> Copy for Neuron<T> {
}

/// The membrane potential after one step of leaky integration, before the
/// threshold is looked at: `v + ((-(v - v_rest) + input) / tau_m) * dt`.
pub open spec fn integrated<T>(
    m: Model<T>,
    v: T,
    params: NeuronParams<T>,
    input_current: T,
    dt: T,
) -> T {
    let leak = (m.negate)((m.minus)(v, params.v_rest));
    let dv = (m.over)((m.plus)(leak, input_current), params.tau_m);
    (m.plus)(v, (m.times)(dv, dt))
}

impl<T: Copy> Neuron<T> {
    /// Whether this neuron fires in a step with the given input: whether the
    /// integrated potential is at or above the threshold.
    pub open spec fn fires(self, m: Model<T>, input_current: T, dt: T) -> bool {
        (m.at_least)(
            integrated(m, self.v_mem, self.params, input_current, dt),
            self.params.v_thresh,
        )
    }

    /// The neuron after a step with the given input: at the reset potential
    /// if it fires, at the integrated potential if it does not.
    pub open spec fn after_step(self, m: Model<T>, input_current: T, dt: T) -> Self {
        Neuron {
            v_mem: if self.fires(m, input_current, dt) {
                self.params.v_reset
            } else {
                integrated(m, self.v_mem, self.params, input_current, dt)
            },
            params: self.params,
        }
    }

    /// A neuron at its resting potential.
    ///
    /// A time constant that is not greater than zero is refused: the
    /// integration divides by it.
    pub fn new<A: Arithmetic<T>>(
        params: NeuronParams<T>,
        arithmetic: &A,
    ) -> (built: Result<Self, SimulationError>)
        ensures
            built matches Ok(neuron) ==> neuron.v_mem == params.v_rest && neuron.params == params,
            built matches Err(e) ==> e == SimulationError::InvalidParameter,
            forall|m: Model<T>| #[trigger]
                models(arithmetic, m) ==> (built is Ok <==> (m.greater)(params.tau_m, m.zero)),
    {
        if arithmetic.greater(params.tau_m, arithmetic.zero()) {
            Ok(Self { v_mem: params.v_rest, params })
        } else {
            Err(SimulationError::InvalidParameter)
        }
    }

    /// Advances the neuron by one time step of length `dt` under
    /// `input_current`, and says whether it fired.
    ///
    /// The potential is integrated first. If the new potential is at or above
    /// the threshold, the neuron fires and its potential is set to the reset
    /// value in the same step; otherwise the new potential stays.
    pub fn step<A: Arithmetic<T>>(
        &mut self,
        input_current: T,
        dt: T,
        arithmetic: &A,
    ) -> (fired: bool)
        ensures
            final(self).params == old(self).params,
            fired ==> final(self).v_mem == old(self).params.v_reset,
            forall|m: Model<T>| #[trigger]
                models(arithmetic, m) ==> {
                    &&& fired == old(self).fires(m, input_current, dt)
                    &&& *final(self) == old(self).after_step(m, input_current, dt)
                    &&& !fired ==> final(self).v_mem == integrated(
                        m,
                        old(self).v_mem,
                        old(self).params,
                        input_current,
                        dt,
                    )
                    &&& !fired ==> !(m.at_least)(final(self).v_mem, old(self).params.v_thresh)
                },
    {
        let a = arithmetic;
        let leak = a.negate(a.minus(self.v_mem, self.params.v_rest));
        let dv = a.over(a.plus(leak, input_current), self.params.tau_m);
        self.v_mem = a.plus(self.v_mem, a.times(dv, dt));
        if a.at_least(self.v_mem, self.params.v_thresh) {
            self.v_mem = self.params.v_reset;
            true
        } else {
            false
        }
    }
}

} // verus!
