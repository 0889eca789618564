//! The synapse: a weighted, directed connection that learns from the timing
//! of the spikes at its two ends.

use crate::arithmetic::{models, Arithmetic, Model};
use crate::stdp::{adapted, apply_stdp, bounds_in_order, within_bounds, STDPParams};
use vstd::prelude::*;

verus! {

/// A directed connection from one neuron to another.
///
/// The two neurons are named by their index in the population. A synapse
/// remembers the most recent spike that it has seen at either end; both
/// memories start out empty.
#[derive(Debug)]
pub struct Synapse<T> {
    /// Index of the sending neuron.
    pub pre_neuron: usize,
    /// Index of the receiving neuron.
    pub post_neuron: usize,
    /// Synaptic weight.
    pub weight: T,
    /// Time of the last spike of the sending neuron, in milliseconds.
    pub last_pre_spike: Option<T>,
    /// Time of the last spike of the receiving neuron, in milliseconds.
    pub last_post_spike: Option<T>,
}

impl<T: Copy> Clone for Synapse<T> {
    fn clone(&self) -> (copy: Self)
        ensures
            copy == *self,
    {
        *self
    }
}

impl<T: Copy> Copy for Synapse<T> {
}

impl<T: Copy> Synapse<T> {
    /// The synapse after a spike of its sending neuron at `t_pre`.
    ///
    /// Where a spike of the receiving neuron is remembered, the weight adapts
    /// to the pairing of that spike with the new one; otherwise the weight
    /// stays. In both cases `t_pre` is remembered.
    pub open spec fn after_pre_spike(self, m: Model<T>, t_pre: T, params: STDPParams<T>) -> Self {
        Synapse {
            pre_neuron: self.pre_neuron,
            post_neuron: self.post_neuron,
            weight: match self.last_post_spike {
                Some(t_post) => adapted(m, self.weight, (m.minus)(t_post, t_pre), params),
                None => self.weight,
            },
            last_pre_spike: Some(t_pre),
            last_post_spike: self.last_post_spike,
        }
    }

    /// The synapse after a spike of its receiving neuron at `t_post`.
    ///
    /// Where a spike of the sending neuron is remembered, the weight adapts to
    /// the pairing of that spike with the new one; otherwise the weight stays.
    /// In both cases `t_post` is remembered.
    pub open spec fn after_post_spike(self, m: Model<T>, t_post: T, params: STDPParams<T>) -> Self {
        Synapse {
            pre_neuron: self.pre_neuron,
            post_neuron: self.post_neuron,
            weight: match self.last_pre_spike {
                Some(t_pre) => adapted(m, self.weight, (m.minus)(t_post, t_pre), params),
                None => self.weight,
            },
            last_pre_spike: self.last_pre_spike,
            last_post_spike: Some(t_post),
        }
    }

    /// The synapse after a train of spikes of its sending neuron, at the
    /// given times in turn.
    pub open spec fn after_pre_spikes(
        self,
        m: Model<T>,
        times: Seq<T>,
        params: STDPParams<T>,
    ) -> Self
        decreases times.len(),
    {
        if times.len() == 0 {
            self
        } else {
            self.after_pre_spikes(m, times.drop_last(), params).after_pre_spike(
                m,
                times.last(),
                params,
            )
        }
    }

    /// A synapse with the given weight that has seen no spike yet.
    pub fn new(pre_neuron: usize, post_neuron: usize, weight: T) -> (synapse: Self)
        ensures
            synapse.pre_neuron == pre_neuron,
            synapse.post_neuron == post_neuron,
            synapse.weight == weight,
            synapse.last_pre_spike is None,
            synapse.last_post_spike is None,
    {
        Self { pre_neuron, post_neuron, weight, last_pre_spike: None, last_post_spike: None }
    }

    /// Registers a spike of the sending neuron at `t_pre`, and adapts the
    /// weight where a spike of the receiving neuron is remembered.
    pub fn on_pre_spike<A: Arithmetic<T>>(
        &mut self,
        t_pre: T,
        params: &STDPParams<T>,
        arithmetic: &A,
    )
        ensures
            final(self).pre_neuron == old(self).pre_neuron,
            final(self).post_neuron == old(self).post_neuron,
            final(self).last_pre_spike == Some(t_pre),
            final(self).last_post_spike == old(self).last_post_spike,
            old(self).last_post_spike is None ==> final(self).weight == old(self).weight,
            forall|m: Model<T>| #[trigger]
                models(arithmetic, m) ==> {
                    &&& *final(self) == old(self).after_pre_spike(m, t_pre, *params)
                    &&& old(self).last_post_spike is Some && bounds_in_order(
                        m,
                        params.w_min,
                        params.w_max,
                    ) ==> within_bounds(m, final(self).weight, params.w_min, params.w_max)
                },
    {
        if let Some(t_post) = self.last_post_spike {
            self.weight = apply_stdp(
                self.weight,
                arithmetic.minus(t_post, t_pre),
                params,
                arithmetic,
            );
        }
        self.last_pre_spike = Some(t_pre);
    }

    /// Registers a spike of the receiving neuron at `t_post`, and adapts the
    /// weight where a spike of the sending neuron is remembered.
    pub fn on_post_spike<A: Arithmetic<T>>(
        &mut self,
        t_post: T,
        params: &STDPParams<T>,
        arithmetic: &A,
    )
        ensures
            final(self).pre_neuron == old(self).pre_neuron,
            final(self).post_neuron == old(self).post_neuron,
            final(self).last_pre_spike == old(self).last_pre_spike,
            final(self).last_post_spike == Some(t_post),
            old(self).last_pre_spike is None ==> final(self).weight == old(self).weight,
            forall|m: Model<T>| #[trigger]
                models(arithmetic, m) ==> {
                    &&& *final(self) == old(self).after_post_spike(m, t_post, *params)
                    &&& old(self).last_pre_spike is Some && bounds_in_order(
                        m,
                        params.w_min,
                        params.w_max,
                    ) ==> within_bounds(m, final(self).weight, params.w_min, params.w_max)
                },
    {
        if let Some(t_pre) = self.last_pre_spike {
            self.weight = apply_stdp(
                self.weight,
                arithmetic.minus(t_post, t_pre),
                params,
                arithmetic,
            );
        }
        self.last_post_spike = Some(t_post);
    }
}

/// A synapse that has seen no spike of its receiving neuron keeps its weight
/// through any train of spikes of its sending neuron, and still remembers no
/// spike of the receiving neuron afterwards.
pub proof fn law_pre_spikes_alone_keep_weight<T: Copy>(
    synapse: Synapse<T>,
    m: Model<T>,
    times: Seq<T>,
    params: STDPParams<T>,
)
    requires
        synapse.last_post_spike is None,
    ensures
        synapse.after_pre_spikes(m, times, params).weight == synapse.weight,
        synapse.after_pre_spikes(m, times, params).last_post_spike is None,
    decreases times.len(),
{
    if times.len() > 0 {
        law_pre_spikes_alone_keep_weight(synapse, m, times.drop_last(), params);
    }
}

/// A weight within the bounds stays within the bounds through a spike at
/// either end of the synapse, as long as the bounds are in order.
pub proof fn law_spikes_keep_weight_within_bounds<T: Copy>(
    synapse: Synapse<T>,
    m: Model<T>,
    t: T,
    params: STDPParams<T>,
)
    requires
        bounds_in_order(m, params.w_min, params.w_max),
        within_bounds(m, synapse.weight, params.w_min, params.w_max),
    ensures
        within_bounds(
            m,
            synapse.after_pre_spike(m, t, params).weight,
            params.w_min,
            params.w_max,
        ),
        within_bounds(
            m,
            synapse.after_post_spike(m, t, params).weight,
            params.w_min,
            params.w_max,
        ),
{
}

} // verus!
