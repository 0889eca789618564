//! Errors.

use vstd::prelude::*;

verus! {

/// Why a neuron or a simulation could not be built.
#[derive(Debug, Clone, Copy, PartialEq, Eq)]
pub enum SimulationError {
    /// The time constant of the neurons, the time step or the duration is not
    /// greater than zero, or the lower weight bound is greater than the upper
    /// one.
    InvalidParameter,
}

impl SimulationError {
    /// A sentence that names the error.
    pub fn message(&self) -> (text: &'static str)
        ensures
            text@ == "invalid parameter"@,
    {
        "invalid parameter"
    }
}

} // verus!
