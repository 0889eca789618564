//! Spike events.

use vstd::prelude::*;

verus! {

/// A spike emitted by a neuron at a point in time.
#[derive(Debug)]
pub struct Spike<T> {
    /// Index of the neuron that emitted the spike.
    pub neuron_id: usize,
    /// Time of emission, in milliseconds.
    pub time: T,
}

impl<T: Copy> Clone for Spike<T> {
    fn clone(&self) -> (copy: Self)
        ensures
            copy == *self,
    {
        *self
    }
}

impl<T: Copy> Copy for Spike<T> {
}

impl<T> Spike<T> {
    /// Records that neuron `neuron_id` fired at `time`.
    pub fn new(neuron_id: usize, time: T) -> (spike: Self)
        ensures
            spike.neuron_id == neuron_id,
            spike.time == time,
    {
        Self { neuron_id, time }
    }
}

} // verus!
