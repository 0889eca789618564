//! The simulation engine: a population of neurons, the synapses between
//! them, and the loop that steps them through time.

use crate::arithmetic::{models, Arithmetic, Model};
use crate::error::SimulationError;
use crate::evolution::{
    bounds_kept, elapse, fan_out, follows, lemma_record_spike, lemma_spike_keeps_bounds, notified,
    progress, same_connections, same_network, snapshot, start, sweep, tick, visit, well_recorded,
};
use crate::neuron::{Neuron, NeuronParams};
use crate::spike::Spike;
use crate::stdp::STDPParams;
use crate::synapse::Synapse;
use crate::wiring::{connections, fan, wiring};
use vstd::prelude::*;

verus! {

/// The time grid of a run.
#[derive(Debug)]
pub struct SimulationConfig<T> {
    /// Length of a time step, in milliseconds.
    pub dt: T,
    /// Duration of the simulation, in milliseconds.
    pub t_max: T,
}

impl<T: Copy> Clone for SimulationConfig<T> {
    fn clone(&self) -> (copy: Self)
        ensures
            copy == *self,
    {
        *self
    }
}

impl<T: Copy> Copy for SimulationConfig<T> {
}

/// A network of spiking neurons, each connected to every other, together
/// with its clock.
pub struct Simulation<T> {
    neurons: Vec<Neuron<T>>,
    synapses: Vec<Synapse<T>>,
    stdp_params: STDPParams<T>,
    config: SimulationConfig<T>,
    time: T,
}

/// What a simulation holds, as mathematical values.
pub struct SimulationView<T> {
    /// The neurons, by index.
    pub neurons: Seq<Neuron<T>>,
    /// The synapses, in the order of their declaration.
    pub synapses: Seq<Synapse<T>>,
    /// The constants of the learning rule.
    pub stdp_params: STDPParams<T>,
    /// The time grid.
    pub config: SimulationConfig<T>,
    /// The time that has elapsed, in milliseconds.
    pub time: T,
}

impl<T> View for Simulation<T> {
    type V = SimulationView<T>;

    closed spec fn view(&self) -> SimulationView<T> {
        SimulationView {
            neurons: self.neurons@,
            synapses: self.synapses@,
            stdp_params: self.stdp_params,
            config: self.config,
            time: self.time,
        }
    }
}

/// The parameters that a simulation accepts: the time constant of the
/// neurons, the time step and the duration are greater than zero, and the
/// lower weight bound is not greater than the upper one.
pub open spec fn valid_parameters<T>(
    m: Model<T>,
    neuron_params: NeuronParams<T>,
    config: SimulationConfig<T>,
    stdp_params: STDPParams<T>,
) -> bool {
    &&& (m.greater)(neuron_params.tau_m, m.zero)
    &&& (m.greater)(config.dt, m.zero)
    &&& (m.greater)(config.t_max, m.zero)
    &&& !(m.greater)(stdp_params.w_min, stdp_params.w_max)
}

/// A synapse along the connection `c` that has the given weight and has seen
/// no spike.
pub open spec fn fresh_synapse<T>(c: (int, int), weight: T) -> Synapse<T> {
    Synapse {
        pre_neuron: c.0 as usize,
        post_neuron: c.1 as usize,
        weight,
        last_pre_spike: None,
        last_post_spike: None,
    }
}

/// The neurons of a new population of `n`: all alike, each at its resting
/// potential.
pub open spec fn fresh_neurons<T>(n: nat, params: NeuronParams<T>) -> Seq<Neuron<T>> {
    Seq::new(n, |i: int| Neuron { v_mem: params.v_rest, params })
}

/// The synapses of a new population of `n`: one along each connection, in
/// the order of declaration, all with the same weight.
pub open spec fn fresh_synapses<T>(n: nat, weight: T) -> Seq<Synapse<T>> {
    connections(n).map_values(|c: (int, int)| fresh_synapse(c, weight))
}

/// The synapses are those of a fully connected population: one for every
/// ordered pair of different neurons, in the order of declaration.
pub open spec fn fully_connected<T>(neurons: nat, synapses: Seq<Synapse<T>>) -> bool {
    &&& synapses.len() == connections(neurons).len()
    &&& forall|k: int|
        0 <= k < synapses.len() ==> {
            &&& (#[trigger] synapses[k]).pre_neuron == connections(neurons)[k].0
            &&& synapses[k].post_neuron == connections(neurons)[k].1
        }
}

fn build_neurons<T: Copy>(num_neurons: usize, params: NeuronParams<T>) -> (neurons: Vec<Neuron<T>>)
    ensures
        neurons@ == fresh_neurons(num_neurons as nat, params),
{
    let mut neurons: Vec<Neuron<T>> = Vec::new();
    let mut i: usize = 0;
    while i < num_neurons
        invariant
            i <= num_neurons,
            neurons@ =~= fresh_neurons(i as nat, params),
        decreases num_neurons - i,
    {
        neurons.push(Neuron { v_mem: params.v_rest, params });
        i += 1;
    }
    neurons
}

fn build_synapses<T: Copy>(num_neurons: usize, initial_weight: T) -> (synapses: Vec<Synapse<T>>)
    ensures
        synapses@ == fresh_synapses(num_neurons as nat, initial_weight),
{
    let ghost fresh = |c: (int, int)| fresh_synapse(c, initial_weight);
    let mut synapses: Vec<Synapse<T>> = Vec::new();
    let mut pre: usize = 0;
    while pre < num_neurons
        invariant
            pre <= num_neurons,
            fresh == |c: (int, int)| fresh_synapse(c, initial_weight),
            synapses@ =~= wiring(num_neurons as nat, pre as nat).map_values(fresh),
        decreases num_neurons - pre,
    {
        let ghost done = synapses@;
        let mut post: usize = 0;
        while post < num_neurons
            invariant
                pre < num_neurons,
                post <= num_neurons,
                fresh == |c: (int, int)| fresh_synapse(c, initial_weight),
                done =~= wiring(num_neurons as nat, pre as nat).map_values(fresh),
                synapses@ =~= done + fan(pre as int, post as nat).map_values(fresh),
            decreases num_neurons - post,
        {
            if pre != post {
                synapses.push(Synapse::new(pre, post, initial_weight));
            }
            post += 1;
        }
        pre += 1;
    }
    synapses
}

/// Tells every synapse that `neuron` has fired at time `t`.
fn notify_synapses<T: Copy, A: Arithmetic<T>>(
    synapses: &mut Vec<Synapse<T>>,
    neuron: usize,
    t: T,
    stdp: &STDPParams<T>,
    arithmetic: &A,
)
    ensures
        same_connections(old(synapses)@, final(synapses)@),
        forall|k: int|
            0 <= k < old(synapses)@.len() && old(synapses)@[k].pre_neuron != neuron && old(
                synapses,
            )@[k].post_neuron != neuron ==> #[trigger] final(synapses)@[k] == old(synapses)@[k],
        forall|m: Model<T>| #[trigger]
            models(arithmetic, m) ==> final(synapses)@ == fan_out(
                old(synapses)@,
                m,
                neuron,
                t,
                *stdp,
            ),
{
    let mut k: usize = 0;
    while k < synapses.len()
        invariant
            k <= synapses.len(),
            synapses.len() == old(synapses).len(),
            forall|j: int|
                0 <= j < synapses.len() ==> {
                    &&& (#[trigger] synapses@[j]).pre_neuron == old(synapses)@[j].pre_neuron
                    &&& synapses@[j].post_neuron == old(synapses)@[j].post_neuron
                },
            forall|j: int| k <= j < synapses.len() ==> #[trigger] synapses@[j] == old(synapses)@[j],
            forall|j: int|
                0 <= j < k && old(synapses)@[j].pre_neuron != neuron && old(
                    synapses,
                )@[j].post_neuron != neuron ==> #[trigger] synapses@[j] == old(synapses)@[j],
            forall|m: Model<T>, j: int|
                #![trigger models(arithmetic, m), synapses@[j]]
                models(arithmetic, m) && 0 <= j < k ==> synapses@[j] == notified(
                    old(synapses)@[j],
                    m,
                    neuron,
                    t,
                    *stdp,
                ),
        decreases synapses.len() - k,
    {
        let mut synapse = synapses[k];
        if synapse.pre_neuron == neuron {
            synapse.on_pre_spike(t, stdp, arithmetic);
        }
        if synapse.post_neuron == neuron {
            synapse.on_post_spike(t, stdp, arithmetic);
        }
        synapses.set(k, synapse);
        k += 1;
    }
    proof {
        assert forall|m: Model<T>| #[trigger] models(arithmetic, m) implies synapses@ == fan_out(
            old(synapses)@,
            m,
            neuron,
            t,
            *stdp,
        ) by {
            assert(synapses@ =~= fan_out(old(synapses)@, m, neuron, t, *stdp));
        }
    }
}

/// Appends one record for every synapse to the weight log.
fn record_weights<T: Copy>(
    synapses: &Vec<Synapse<T>>,
    t: T,
    weight_log: &mut Vec<(T, usize, usize, T)>,
)
    ensures
        final(weight_log)@ == old(weight_log)@ + snapshot(synapses@, t),
{
    let mut k: usize = 0;
    while k < synapses.len()
        invariant
            k <= synapses.len(),
            weight_log@ =~= old(weight_log)@ + snapshot(synapses@, t).take(k as int),
        decreases synapses.len() - k,
    {
        let synapse = synapses[k];
        weight_log.push((t, synapse.pre_neuron, synapse.post_neuron, synapse.weight));
        k += 1;
    }
    proof {
        assert(snapshot(synapses@, t).take(synapses.len() as int) =~= snapshot(synapses@, t));
    }
}

impl<T: Copy> Simulation<T> {
    /// Builds a network of `num_neurons` neurons that share `neuron_params`,
    /// each at its resting potential, with one synapse of weight
    /// `initial_weight` from every neuron to every other, and the clock at
    /// zero.
    ///
    /// The parameters are checked before anything is built. With no neuron
    /// or with one, the network has no synapse and is still valid.
    pub fn new<A: Arithmetic<T>>(
        num_neurons: usize,
        neuron_params: NeuronParams<T>,
        config: SimulationConfig<T>,
        stdp_params: STDPParams<T>,
        initial_weight: T,
        arithmetic: &A,
    ) -> (built: Result<Self, SimulationError>)
        ensures
            forall|m: Model<T>| #[trigger]
                models(arithmetic, m) ==> (built is Ok <==> valid_parameters(
                    m,
                    neuron_params,
                    config,
                    stdp_params,
                )),
            built matches Err(e) ==> e == SimulationError::InvalidParameter,
            built matches Ok(simulation) ==> {
                &&& simulation@.neurons == fresh_neurons(num_neurons as nat, neuron_params)
                &&& simulation@.synapses == fresh_synapses(num_neurons as nat, initial_weight)
                &&& fully_connected(num_neurons as nat, simulation@.synapses)
                &&& simulation@.stdp_params == stdp_params
                &&& simulation@.config == config
                &&& call_ensures(A::zero, (arithmetic,), simulation@.time)
                &&& forall|m: Model<T>| #[trigger]
                    models(arithmetic, m) ==> simulation@.time == m.zero
            },
    {
        let zero = arithmetic.zero();
        if !arithmetic.greater(neuron_params.tau_m, zero) {
            return Err(SimulationError::InvalidParameter);
        }
        if !arithmetic.greater(config.dt, zero) {
            return Err(SimulationError::InvalidParameter);
        }
        if !arithmetic.greater(config.t_max, zero) {
            return Err(SimulationError::InvalidParameter);
        }
        if arithmetic.greater(stdp_params.w_min, stdp_params.w_max) {
            return Err(SimulationError::InvalidParameter);
        }
        let neurons = build_neurons(num_neurons, neuron_params);
        let synapses = build_synapses(num_neurons, initial_weight);
        proof {
            lemma_fresh_synapses_fully_connected(num_neurons as nat, initial_weight);
        }
        Ok(Simulation { neurons, synapses, stdp_params, config, time: zero })
    }

    /// The neurons, by index.
    pub fn neurons(&self) -> (neurons: &Vec<Neuron<T>>)
        ensures
            neurons@ == self@.neurons,
    {
        &self.neurons
    }

    /// The synapses, in the order of their declaration.
    pub fn synapses(&self) -> (synapses: &Vec<Synapse<T>>)
        ensures
            synapses@ == self@.synapses,
    {
        &self.synapses
    }

    /// The time that has elapsed, in milliseconds.
    pub fn time(&self) -> (time: T)
        ensures
            time == self@.time,
    {
        self.time
    }

    /// Evaluates neuron `i` at the current time.
    fn visit_neuron<A: Arithmetic<T>, F: Fn(usize, T) -> T>(
        &mut self,
        i: usize,
        input_current_fn: &F,
        arithmetic: &A,
        spikes: &mut Vec<Spike<T>>,
        weight_log: &mut Vec<(T, usize, usize, T)>,
    )
        requires
            i < old(self)@.neurons.len(),
            forall|t: T| call_requires(input_current_fn, (i, t)),
            well_recorded(
                old(spikes)@,
                old(weight_log)@,
                old(self)@.synapses,
                old(self)@.neurons.len(),
            ),
        ensures
            same_network(old(self)@, final(self)@),
            final(self)@.time == old(self)@.time,
            well_recorded(
                final(spikes)@,
                final(weight_log)@,
                old(self)@.synapses,
                old(self)@.neurons.len(),
            ),
            forall|m: Model<T>| #[trigger]
                models(arithmetic, m) ==> bounds_kept(
                    m,
                    old(self)@.stdp_params,
                    old(self)@.synapses,
                    old(weight_log)@,
                    final(self)@.synapses,
                    final(weight_log)@,
                ),
            forall|m: Model<T>, input: spec_fn(usize, T) -> T|
                #![trigger models(arithmetic, m), follows(input_current_fn, input)]
                models(arithmetic, m) && follows(input_current_fn, input) ==> progress(
                    final(self)@,
                    final(spikes)@,
                    final(weight_log)@,
                ) == visit(
                    progress(old(self)@, old(spikes)@, old(weight_log)@),
                    m,
                    input,
                    i as int,
                    old(self)@.config.dt,
                    old(self)@.stdp_params,
                ),
    {
        let time = self.time;
        let stdp = self.stdp_params;
        let current = input_current_fn(i, time);
        let mut neuron = self.neurons[i];
        let fired = neuron.step(current, self.config.dt, arithmetic);
        self.neurons.set(i, neuron);
        if fired {
            let spike = Spike::new(i, time);
            spikes.push(spike);
            notify_synapses(&mut self.synapses, i, time, &stdp, arithmetic);
            record_weights(&self.synapses, time, weight_log);
            proof {
                lemma_record_spike(
                    old(spikes)@,
                    old(weight_log)@,
                    old(self)@.synapses,
                    old(self)@.neurons.len(),
                    spike,
                    self@.synapses,
                );
                assert forall|m: Model<T>| #[trigger] models(arithmetic, m) implies bounds_kept(
                    m,
                    stdp,
                    old(self)@.synapses,
                    old(weight_log)@,
                    self@.synapses,
                    weight_log@,
                ) by {
                    lemma_spike_keeps_bounds(
                        old(self)@.synapses,
                        old(weight_log)@,
                        m,
                        i,
                        time,
                        stdp,
                    );
                }
            }
        }
        proof {
            assert forall|m: Model<T>, input: spec_fn(usize, T) -> T|
                #![trigger models(arithmetic, m), follows(input_current_fn, input)]
                models(arithmetic, m) && follows(input_current_fn, input) implies progress(
                self@,
                spikes@,
                weight_log@,
            ) == visit(
                progress(old(self)@, old(spikes)@, old(weight_log)@),
                m,
                input,
                i as int,
                old(self)@.config.dt,
                old(self)@.stdp_params,
            ) by {
                assert(progress(self@, spikes@, weight_log@) =~= visit(
                    progress(old(self)@, old(spikes)@, old(weight_log)@),
                    m,
                    input,
                    i as int,
                    old(self)@.config.dt,
                    old(self)@.stdp_params,
                ));
            }
        }
    }

    /// Evaluates all neurons at the current time, in ascending order of
    /// their index.
    fn sweep_neurons<A: Arithmetic<T>, F: Fn(usize, T) -> T>(
        &mut self,
        input_current_fn: &F,
        arithmetic: &A,
        spikes: &mut Vec<Spike<T>>,
        weight_log: &mut Vec<(T, usize, usize, T)>,
    )
        requires
            forall|i: usize, t: T|
                i < old(self)@.neurons.len() ==> call_requires(input_current_fn, (i, t)),
            well_recorded(
                old(spikes)@,
                old(weight_log)@,
                old(self)@.synapses,
                old(self)@.neurons.len(),
            ),
        ensures
            same_network(old(self)@, final(self)@),
            final(self)@.time == old(self)@.time,
            well_recorded(
                final(spikes)@,
                final(weight_log)@,
                old(self)@.synapses,
                old(self)@.neurons.len(),
            ),
            forall|m: Model<T>| #[trigger]
                models(arithmetic, m) ==> bounds_kept(
                    m,
                    old(self)@.stdp_params,
                    old(self)@.synapses,
                    old(weight_log)@,
                    final(self)@.synapses,
                    final(weight_log)@,
                ),
            forall|m: Model<T>, input: spec_fn(usize, T) -> T|
                #![trigger models(arithmetic, m), follows(input_current_fn, input)]
                models(arithmetic, m) && follows(input_current_fn, input) ==> progress(
                    final(self)@,
                    final(spikes)@,
                    final(weight_log)@,
                ) == sweep(
                    progress(old(self)@, old(spikes)@, old(weight_log)@),
                    m,
                    input,
                    old(self)@.neurons.len(),
                    old(self)@.config.dt,
                    old(self)@.stdp_params,
                ),
    {
        let n = self.neurons.len();
        let mut i: usize = 0;
        while i < n
            invariant
                i <= n,
                n == old(self)@.neurons.len(),
                forall|i: usize, t: T| i < n ==> call_requires(input_current_fn, (i, t)),
                same_network(old(self)@, self@),
                self@.time == old(self)@.time,
                well_recorded(spikes@, weight_log@, old(self)@.synapses, n as nat),
                forall|m: Model<T>| #[trigger]
                    models(arithmetic, m) ==> bounds_kept(
                        m,
                        old(self)@.stdp_params,
                        old(self)@.synapses,
                        old(weight_log)@,
                        self@.synapses,
                        weight_log@,
                    ),
                forall|m: Model<T>, input: spec_fn(usize, T) -> T|
                    #![trigger models(arithmetic, m), follows(input_current_fn, input)]
                    models(arithmetic, m) && follows(input_current_fn, input) ==> progress(
                        self@,
                        spikes@,
                        weight_log@,
                    ) == sweep(
                        progress(old(self)@, old(spikes)@, old(weight_log)@),
                        m,
                        input,
                        i as nat,
                        old(self)@.config.dt,
                        old(self)@.stdp_params,
                    ),
            decreases n - i,
        {
            proof {
                lemma_same_records(
                    spikes@,
                    weight_log@,
                    old(self)@.synapses,
                    self@.synapses,
                    n as nat,
                );
            }
            let ghost before = self@;
            self.visit_neuron(i, input_current_fn, arithmetic, spikes, weight_log);
            proof {
                lemma_same_records(
                    spikes@,
                    weight_log@,
                    before.synapses,
                    old(self)@.synapses,
                    n as nat,
                );
            }
            i += 1;
        }
    }

    /// Runs the simulation and returns the spikes that were emitted and the
    /// weights that were recorded, both in the order of their recording.
    ///
    /// For as long as the clock is below `t_max`, and for `max_steps` time
    /// steps at most, the neurons are evaluated in ascending order of their
    /// index, each under the current that `input_current_fn` gives for its
    /// index and the time of the step, and then the clock moves on by `dt`.
    /// When a neuron fires, its spike is recorded, every synapse that leaves
    /// or reaches the neuron is notified in the order of declaration, and
    /// then the weight of every synapse of the network is recorded, before
    /// the next neuron is evaluated. A neuron with a lower index so acts on
    /// the weights that are recorded for a neuron with a higher index in the
    /// same step.
    ///
    /// The clock is kept from one call to the next. `max_steps` makes the
    /// call return where adding `dt` no longer moves the clock; a later call
    /// goes on from where this one stopped.
    pub fn run<A: Arithmetic<T>, F: Fn(usize, T) -> T>(
        &mut self,
        input_current_fn: F,
        arithmetic: &A,
        max_steps: usize,
    ) -> (records: (Vec<Spike<T>>, Vec<(T, usize, usize, T)>))
        requires
            forall|i: usize, t: T|
                i < old(self)@.neurons.len() ==> call_requires(input_current_fn, (i, t)),
        ensures
            same_network(old(self)@, final(self)@),
            fully_connected(old(self)@.neurons.len(), old(self)@.synapses) ==> fully_connected(
                final(self)@.neurons.len(),
                final(self)@.synapses,
            ),
            well_recorded(
                records.0@,
                records.1@,
                old(self)@.synapses,
                old(self)@.neurons.len(),
            ),
            forall|m: Model<T>| #[trigger]
                models(arithmetic, m) ==> bounds_kept(
                    m,
                    old(self)@.stdp_params,
                    old(self)@.synapses,
                    Seq::empty(),
                    final(self)@.synapses,
                    records.1@,
                ),
            forall|m: Model<T>, input: spec_fn(usize, T) -> T|
                #![trigger models(arithmetic, m), follows(&input_current_fn, input)]
                models(arithmetic, m) && follows(&input_current_fn, input) ==> progress(
                    final(self)@,
                    records.0@,
                    records.1@,
                ) == elapse(
                    start(old(self)@),
                    m,
                    input,
                    old(self)@.config,
                    old(self)@.stdp_params,
                    max_steps as nat,
                ),
    {
        let ghost origin = self@;
        let mut spikes: Vec<Spike<T>> = Vec::new();
        let mut weight_log: Vec<(T, usize, usize, T)> = Vec::new();
        let mut steps: usize = 0;
        let mut running = steps < max_steps && arithmetic.less(self.time, self.config.t_max);
        assert(0 * origin.synapses.len() == 0) by (nonlinear_arith);
        while running
            invariant
                steps <= max_steps,
                running ==> steps < max_steps,
                origin == old(self)@,
                forall|i: usize, t: T|
                    i < origin.neurons.len() ==> call_requires(input_current_fn, (i, t)),
                same_network(origin, self@),
                well_recorded(spikes@, weight_log@, origin.synapses, origin.neurons.len()),
                forall|m: Model<T>| #[trigger]
                    models(arithmetic, m) ==> bounds_kept(
                        m,
                        origin.stdp_params,
                        origin.synapses,
                        Seq::empty(),
                        self@.synapses,
                        weight_log@,
                    ),
                forall|m: Model<T>| #[trigger]
                    models(arithmetic, m) ==> running == (steps < max_steps && (m.less)(
                        self@.time,
                        origin.config.t_max,
                    )),
                forall|m: Model<T>, input: spec_fn(usize, T) -> T|
                    #![trigger models(arithmetic, m), follows(&input_current_fn, input)]
                    models(arithmetic, m) && follows(&input_current_fn, input) ==> elapse(
                        progress(self@, spikes@, weight_log@),
                        m,
                        input,
                        origin.config,
                        origin.stdp_params,
                        (max_steps - steps) as nat,
                    ) == elapse(
                        start(origin),
                        m,
                        input,
                        origin.config,
                        origin.stdp_params,
                        max_steps as nat,
                    ),
            decreases max_steps - steps,
        {
            let ghost before = progress(self@, spikes@, weight_log@);
            proof {
                lemma_same_records(
                    spikes@,
                    weight_log@,
                    origin.synapses,
                    self@.synapses,
                    origin.neurons.len(),
                );
            }
            self.sweep_neurons(&input_current_fn, arithmetic, &mut spikes, &mut weight_log);
            proof {
                lemma_same_records(
                    spikes@,
                    weight_log@,
                    before.synapses,
                    origin.synapses,
                    origin.neurons.len(),
                );
            }
            self.time = arithmetic.plus(self.time, self.config.dt);
            steps += 1;
            running = steps < max_steps && arithmetic.less(self.time, self.config.t_max);
            proof {
                assert forall|m: Model<T>, input: spec_fn(usize, T) -> T|
                    #![trigger models(arithmetic, m), follows(&input_current_fn, input)]
                    models(arithmetic, m) && follows(&input_current_fn, input) implies elapse(
                    progress(self@, spikes@, weight_log@),
                    m,
                    input,
                    origin.config,
                    origin.stdp_params,
                    (max_steps - steps) as nat,
                ) == elapse(
                    start(origin),
                    m,
                    input,
                    origin.config,
                    origin.stdp_params,
                    max_steps as nat,
                ) by {
                    assert(progress(self@, spikes@, weight_log@) == tick(
                        before,
                        m,
                        input,
                        origin.config.dt,
                        origin.stdp_params,
                    ));
                }
            }
        }
        (spikes, weight_log)
    }
}

/// Records that fit the synapses `before` fit the synapses `after` as well,
/// where both join the same neurons.
proof fn lemma_same_records<T>(
    spikes: Seq<Spike<T>>,
    weight_log: Seq<(T, usize, usize, T)>,
    before: Seq<Synapse<T>>,
    after: Seq<Synapse<T>>,
    neurons: nat,
)
    requires
        well_recorded(spikes, weight_log, before, neurons),
        same_connections(before, after) || same_connections(after, before),
    ensures
        well_recorded(spikes, weight_log, after, neurons),
{
    assert forall|j: int, k: int| 0 <= j < spikes.len() && 0 <= k < after.len() implies {
        &&& 0 <= #[trigger] crate::evolution::slot(j, after.len() as int, k) < weight_log.len()
        &&& weight_log[crate::evolution::slot(j, after.len() as int, k)].0 == spikes[j].time
        &&& weight_log[crate::evolution::slot(j, after.len() as int, k)].1 == after[k].pre_neuron
        &&& weight_log[crate::evolution::slot(j, after.len() as int, k)].2 == after[k].post_neuron
    } by {
        assert(0 <= crate::evolution::slot(j, before.len() as int, k) < weight_log.len());
    }
}

proof fn lemma_fresh_synapses_fully_connected<T>(n: nat, weight: T)
    requires
        n <= usize::MAX,
    ensures
        fully_connected(n, fresh_synapses(n, weight)),
{
    assert forall|k: int| 0 <= k < fresh_synapses(n, weight).len() implies {
        &&& (#[trigger] fresh_synapses(n, weight)[k]).pre_neuron == connections(n)[k].0
        &&& fresh_synapses(n, weight)[k].post_neuron == connections(n)[k].1
    } by {
        crate::wiring::law_connections_join_two_neurons(n, k);
    }
}

} // verus!
