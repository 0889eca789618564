//! How a network evolves through a run, as a mathematical function of where
//! it starts, of the arithmetic and of the input current.

use crate::arithmetic::Model;
use crate::neuron::Neuron;
use crate::simulation::{SimulationConfig, SimulationView};
use crate::spike::Spike;
use crate::stdp::{bounds_in_order, within_bounds, STDPParams};
use crate::synapse::{law_spikes_keep_weight_within_bounds, Synapse};
use vstd::prelude::*;

verus! {

/// `input` describes `f`: whatever `f` returns for a neuron and a time is the
/// value of `input` for that neuron and that time.
///
/// An input current has such a description when it returns the same current
/// whenever it is asked about the same neuron at the same time.
pub open spec fn follows<T, F: Fn(usize, T) -> T>(f: &F, input: spec_fn(usize, T) -> T) -> bool {
    forall|i: usize, t: T, r: T| #[trigger] call_ensures(f, (i, t), r) ==> r == input(i, t)
}

/// A network in the course of a run, with what the run has recorded so far.
pub struct Progress<T> {
    /// The neurons, by index.
    pub neurons: Seq<Neuron<T>>,
    /// The synapses, in the order of their declaration.
    pub synapses: Seq<Synapse<T>>,
    /// The time that has elapsed, in milliseconds.
    pub time: T,
    /// The spikes emitted so far, in the order of their emission.
    pub spikes: Seq<Spike<T>>,
    /// The weights recorded so far, each as time, sending neuron, receiving
    /// neuron and weight.
    pub weight_log: Seq<(T, usize, usize, T)>,
}

/// The run that has brought the network to `view` and has recorded `spikes`
/// and `weight_log`.
pub open spec fn progress<T>(
    view: SimulationView<T>,
    spikes: Seq<Spike<T>>,
    weight_log: Seq<(T, usize, usize, T)>,
) -> Progress<T> {
    Progress { neurons: view.neurons, synapses: view.synapses, time: view.time, spikes, weight_log }
}

/// The run that starts from the network `view`, with nothing recorded yet.
pub open spec fn start<T>(view: SimulationView<T>) -> Progress<T> {
    progress(view, Seq::empty(), Seq::empty())
}

/// `after` is the network `before` at another moment: the same constants,
/// the same neurons with the same parameters, and the same synapses between
/// the same neurons in the same order. Potentials, weights, remembered spikes
/// and the clock may differ.
pub open spec fn same_network<T>(before: SimulationView<T>, after: SimulationView<T>) -> bool {
    &&& after.stdp_params == before.stdp_params
    &&& after.config == before.config
    &&& after.neurons.len() == before.neurons.len()
    &&& forall|i: int|
        0 <= i < before.neurons.len() ==> (#[trigger] after.neurons[i]).params
            == before.neurons[i].params
    &&& same_connections(before.synapses, after.synapses)
}

/// The synapses `after` join the same neurons as the synapses `before`, in
/// the same order.
pub open spec fn same_connections<T>(before: Seq<Synapse<T>>, after: Seq<Synapse<T>>) -> bool {
    &&& after.len() == before.len()
    &&& forall|k: int|
        0 <= k < before.len() ==> {
            &&& (#[trigger] after[k]).pre_neuron == before[k].pre_neuron
            &&& after[k].post_neuron == before[k].post_neuron
        }
}

/// The place in the weight log of the record that spike `j` left of synapse
/// `k`, in a network of `width` synapses.
pub open spec fn slot(j: int, width: int, k: int) -> int {
    j * width + k
}

/// The two records of a run fit together: every spike names a neuron of the
/// network, and the weight log holds, for every spike in turn, one record of
/// every synapse in the order of declaration, stamped with the time of the
/// spike.
pub open spec fn well_recorded<T>(
    spikes: Seq<Spike<T>>,
    weight_log: Seq<(T, usize, usize, T)>,
    synapses: Seq<Synapse<T>>,
    neurons: nat,
) -> bool {
    &&& forall|j: int| 0 <= j < spikes.len() ==> (#[trigger] spikes[j]).neuron_id < neurons
    &&& weight_log.len() == spikes.len() * synapses.len()
    &&& forall|j: int, k: int|
        0 <= j < spikes.len() && 0 <= k < synapses.len() ==> {
            &&& 0 <= #[trigger] slot(j, synapses.len() as int, k) < weight_log.len()
            &&& weight_log[slot(j, synapses.len() as int, k)].0 == spikes[j].time
            &&& weight_log[slot(j, synapses.len() as int, k)].1 == synapses[k].pre_neuron
            &&& weight_log[slot(j, synapses.len() as int, k)].2 == synapses[k].post_neuron
        }
}

/// Every synapse has a weight within the bounds of the learning rule.
pub open spec fn weights_within_bounds<T>(
    m: Model<T>,
    stdp: STDPParams<T>,
    synapses: Seq<Synapse<T>>,
) -> bool {
    forall|k: int|
        0 <= k < synapses.len() ==> within_bounds(
            m,
            (#[trigger] synapses[k]).weight,
            stdp.w_min,
            stdp.w_max,
        )
}

/// Every record of the weight log holds a weight within the bounds of the
/// learning rule.
pub open spec fn records_within_bounds<T>(
    m: Model<T>,
    stdp: STDPParams<T>,
    weight_log: Seq<(T, usize, usize, T)>,
) -> bool {
    forall|j: int|
        0 <= j < weight_log.len() ==> within_bounds(
            m,
            (#[trigger] weight_log[j]).3,
            stdp.w_min,
            stdp.w_max,
        )
}

/// Weights within bounds that are in order stay within them: if the bounds
/// are in order and the weights `before`, in the network and in the log, are
/// within them, then so are the weights `after`.
pub open spec fn bounds_kept<T>(
    m: Model<T>,
    stdp: STDPParams<T>,
    synapses_before: Seq<Synapse<T>>,
    log_before: Seq<(T, usize, usize, T)>,
    synapses_after: Seq<Synapse<T>>,
    log_after: Seq<(T, usize, usize, T)>,
) -> bool {
    bounds_in_order(m, stdp.w_min, stdp.w_max) && weights_within_bounds(m, stdp, synapses_before)
        && records_within_bounds(m, stdp, log_before) ==> weights_within_bounds(
        m,
        stdp,
        synapses_after,
    ) && records_within_bounds(m, stdp, log_after)
}

/// The synapse `s` after neuron `neuron` has fired at time `t`.
///
/// A synapse that leaves the neuron registers a spike of its sending neuron,
/// one that arrives at the neuron a spike of its receiving neuron, in this
/// order; any other synapse stays as it is.
pub open spec fn notified<T: Copy>(
    s: Synapse<T>,
    m: Model<T>,
    neuron: usize,
    t: T,
    stdp: STDPParams<T>,
) -> Synapse<T> {
    let s1 = if s.pre_neuron == neuron {
        s.after_pre_spike(m, t, stdp)
    } else {
        s
    };
    if s1.post_neuron == neuron {
        s1.after_post_spike(m, t, stdp)
    } else {
        s1
    }
}

/// The synapses after neuron `neuron` has fired at time `t`.
pub open spec fn fan_out<T: Copy>(
    synapses: Seq<Synapse<T>>,
    m: Model<T>,
    neuron: usize,
    t: T,
    stdp: STDPParams<T>,
) -> Seq<Synapse<T>> {
    synapses.map_values(|s: Synapse<T>| notified(s, m, neuron, t, stdp))
}

/// One record for every synapse, in the order of declaration: the time, the
/// two neurons and the weight at this instant.
pub open spec fn snapshot<T>(synapses: Seq<Synapse<T>>, t: T) -> Seq<(T, usize, usize, T)> {
    synapses.map_values(|s: Synapse<T>| (t, s.pre_neuron, s.post_neuron, s.weight))
}

/// The run after neuron `i` has been evaluated at the current time.
///
/// The neuron takes its step under the input current for its index and the
/// current time. If it fires, the spike is recorded, then every synapse is
/// notified, then the weights of all synapses are recorded.
pub open spec fn visit<T: Copy>(
    st: Progress<T>,
    m: Model<T>,
    input: spec_fn(usize, T) -> T,
    i: int,
    dt: T,
    stdp: STDPParams<T>,
) -> Progress<T>
    recommends
        0 <= i < st.neurons.len(),
{
    let current = input(i as usize, st.time);
    let neurons = st.neurons.update(i, st.neurons[i].after_step(m, current, dt));
    if st.neurons[i].fires(m, current, dt) {
        let synapses = fan_out(st.synapses, m, i as usize, st.time, stdp);
        Progress {
            neurons,
            synapses,
            time: st.time,
            spikes: st.spikes.push(Spike { neuron_id: i as usize, time: st.time }),
            weight_log: st.weight_log + snapshot(synapses, st.time),
        }
    } else {
        Progress {
            neurons,
            synapses: st.synapses,
            time: st.time,
            spikes: st.spikes,
            weight_log: st.weight_log,
        }
    }
}

/// The run after the neurons below `upto` have been evaluated at the current
/// time, in ascending order of their index.
pub open spec fn sweep<T: Copy>(
    st: Progress<T>,
    m: Model<T>,
    input: spec_fn(usize, T) -> T,
    upto: nat,
    dt: T,
    stdp: STDPParams<T>,
) -> Progress<T>
    decreases upto,
{
    if upto == 0 {
        st
    } else {
        visit(sweep(st, m, input, (upto - 1) as nat, dt, stdp), m, input, upto - 1, dt, stdp)
    }
}

/// The run after one time step: all neurons have been evaluated at the
/// current time, and then the clock has moved on by `dt`.
pub open spec fn tick<T: Copy>(
    st: Progress<T>,
    m: Model<T>,
    input: spec_fn(usize, T) -> T,
    dt: T,
    stdp: STDPParams<T>,
) -> Progress<T> {
    let swept = sweep(st, m, input, st.neurons.len(), dt, stdp);
    Progress {
        neurons: swept.neurons,
        synapses: swept.synapses,
        time: (m.plus)(swept.time, dt),
        spikes: swept.spikes,
        weight_log: swept.weight_log,
    }
}

/// The run after it has gone on for as long as the clock is below `t_max`,
/// and for `steps` time steps at most.
///
/// The clock is looked at before each step: the last step is the one that
/// starts below `t_max`.
pub open spec fn elapse<T: Copy>(
    st: Progress<T>,
    m: Model<T>,
    input: spec_fn(usize, T) -> T,
    config: SimulationConfig<T>,
    stdp: STDPParams<T>,
    steps: nat,
) -> Progress<T>
    decreases steps,
{
    if steps == 0 || !(m.less)(st.time, config.t_max) {
        st
    } else {
        elapse(tick(st, m, input, config.dt, stdp), m, input, config, stdp, (steps - 1) as nat)
    }
}

/// The clock after `k` time steps of length `dt` from `t0`: `dt` added `k`
/// times, one after the other.
pub open spec fn clock_after<T>(m: Model<T>, t0: T, dt: T, k: nat) -> T
    decreases k,
{
    if k == 0 {
        t0
    } else {
        clock_after(m, (m.plus)(t0, dt), dt, (k - 1) as nat)
    }
}

/// The run after exactly `k` time steps.
pub open spec fn ticks<T: Copy>(
    st: Progress<T>,
    m: Model<T>,
    input: spec_fn(usize, T) -> T,
    dt: T,
    stdp: STDPParams<T>,
    k: nat,
) -> Progress<T>
    decreases k,
{
    if k == 0 {
        st
    } else {
        ticks(tick(st, m, input, dt, stdp), m, input, dt, stdp, (k - 1) as nat)
    }
}

/// A synapse between two different neurons is notified at one end at most
/// when a neuron fires: as the synapse of its sending neuron, or as the
/// synapse of its receiving neuron, or not at all.
pub proof fn law_notified_at_one_end<T: Copy>(
    s: Synapse<T>,
    m: Model<T>,
    neuron: usize,
    t: T,
    stdp: STDPParams<T>,
)
    requires
        s.pre_neuron != s.post_neuron,
    ensures
        notified(s, m, neuron, t, stdp) == if s.pre_neuron == neuron {
            s.after_pre_spike(m, t, stdp)
        } else if s.post_neuron == neuron {
            s.after_post_spike(m, t, stdp)
        } else {
            s
        },
{
}

/// Visiting a neuron changes neither the number of neurons nor that of
/// synapses, nor the clock, and leaves what was recorded before in place.
pub proof fn law_visit_keeps_shape<T: Copy>(
    st: Progress<T>,
    m: Model<T>,
    input: spec_fn(usize, T) -> T,
    i: int,
    dt: T,
    stdp: STDPParams<T>,
)
    requires
        0 <= i < st.neurons.len(),
    ensures
        visit(st, m, input, i, dt, stdp).neurons.len() == st.neurons.len(),
        visit(st, m, input, i, dt, stdp).synapses.len() == st.synapses.len(),
        visit(st, m, input, i, dt, stdp).time == st.time,
        st.spikes.is_prefix_of(visit(st, m, input, i, dt, stdp).spikes),
        st.weight_log.is_prefix_of(visit(st, m, input, i, dt, stdp).weight_log),
{
}

/// A sweep changes neither the number of neurons nor that of synapses, nor
/// the clock, and leaves what was recorded before in place.
pub proof fn law_sweep_keeps_shape<T: Copy>(
    st: Progress<T>,
    m: Model<T>,
    input: spec_fn(usize, T) -> T,
    upto: nat,
    dt: T,
    stdp: STDPParams<T>,
)
    requires
        upto <= st.neurons.len(),
    ensures
        sweep(st, m, input, upto, dt, stdp).neurons.len() == st.neurons.len(),
        sweep(st, m, input, upto, dt, stdp).synapses.len() == st.synapses.len(),
        sweep(st, m, input, upto, dt, stdp).time == st.time,
        st.spikes.is_prefix_of(sweep(st, m, input, upto, dt, stdp).spikes),
        st.weight_log.is_prefix_of(sweep(st, m, input, upto, dt, stdp).weight_log),
    decreases upto,
{
    if upto > 0 {
        law_sweep_keeps_shape(st, m, input, (upto - 1) as nat, dt, stdp);
        law_visit_keeps_shape(
            sweep(st, m, input, (upto - 1) as nat, dt, stdp),
            m,
            input,
            upto - 1,
            dt,
            stdp,
        );
    }
}

/// A run changes neither the number of neurons nor that of synapses, and
/// only ever appends to its records: what was recorded before stays in place.
pub proof fn law_run_appends_to_records<T: Copy>(
    st: Progress<T>,
    m: Model<T>,
    input: spec_fn(usize, T) -> T,
    config: SimulationConfig<T>,
    stdp: STDPParams<T>,
    steps: nat,
)
    ensures
        elapse(st, m, input, config, stdp, steps).neurons.len() == st.neurons.len(),
        elapse(st, m, input, config, stdp, steps).synapses.len() == st.synapses.len(),
        st.spikes.is_prefix_of(elapse(st, m, input, config, stdp, steps).spikes),
        st.weight_log.is_prefix_of(elapse(st, m, input, config, stdp, steps).weight_log),
    decreases steps,
{
    if steps == 0 || !(m.less)(st.time, config.t_max) {
    } else {
        law_sweep_keeps_shape(st, m, input, st.neurons.len(), config.dt, stdp);
        law_run_appends_to_records(
            tick(st, m, input, config.dt, stdp),
            m,
            input,
            config,
            stdp,
            (steps - 1) as nat,
        );
    }
}

/// A run is a function of where it starts, of the arithmetic and of the
/// input current: two runs from the same state, under input currents that
/// agree on every neuron of the network and at every time, record the same
/// spikes and the same weights and end in the same state.
pub proof fn law_run_is_deterministic<T: Copy>(
    st: Progress<T>,
    m: Model<T>,
    input1: spec_fn(usize, T) -> T,
    input2: spec_fn(usize, T) -> T,
    config: SimulationConfig<T>,
    stdp: STDPParams<T>,
    steps: nat,
)
    requires
        forall|i: usize, t: T| i < st.neurons.len() ==> #[trigger] input1(i, t) == input2(i, t),
    ensures
        elapse(st, m, input1, config, stdp, steps) == elapse(st, m, input2, config, stdp, steps),
    decreases steps,
{
    if steps == 0 || !(m.less)(st.time, config.t_max) {
    } else {
        lemma_sweep_agrees(st, m, input1, input2, st.neurons.len(), config.dt, stdp);
        let next = tick(st, m, input1, config.dt, stdp);
        law_sweep_keeps_shape(st, m, input1, st.neurons.len(), config.dt, stdp);
        law_run_is_deterministic(next, m, input1, input2, config, stdp, (steps - 1) as nat);
    }
}

proof fn lemma_sweep_agrees<T: Copy>(
    st: Progress<T>,
    m: Model<T>,
    input1: spec_fn(usize, T) -> T,
    input2: spec_fn(usize, T) -> T,
    upto: nat,
    dt: T,
    stdp: STDPParams<T>,
)
    requires
        upto <= st.neurons.len(),
        forall|i: usize, t: T| i < st.neurons.len() ==> #[trigger] input1(i, t) == input2(i, t),
    ensures
        sweep(st, m, input1, upto, dt, stdp) == sweep(st, m, input2, upto, dt, stdp),
    decreases upto,
{
    if upto > 0 {
        lemma_sweep_agrees(st, m, input1, input2, (upto - 1) as nat, dt, stdp);
        let before = sweep(st, m, input1, (upto - 1) as nat, dt, stdp);
        assert(input1((upto - 1) as usize, before.time) == input2(
            (upto - 1) as usize,
            before.time,
        ));
    }
}

/// The records of a run still fit together after one more spike, followed by
/// one record of every synapse.
pub(crate) proof fn lemma_record_spike<T>(
    spikes: Seq<Spike<T>>,
    weight_log: Seq<(T, usize, usize, T)>,
    synapses: Seq<Synapse<T>>,
    neurons: nat,
    spike: Spike<T>,
    now: Seq<Synapse<T>>,
)
    requires
        well_recorded(spikes, weight_log, synapses, neurons),
        spike.neuron_id < neurons,
        same_connections(synapses, now),
    ensures
        well_recorded(
            spikes.push(spike),
            weight_log + snapshot(now, spike.time),
            synapses,
            neurons,
        ),
{
    let width = synapses.len() as int;
    let count = spikes.len() as int;
    let spikes2 = spikes.push(spike);
    let log2 = weight_log + snapshot(now, spike.time);
    assert((count + 1) * width == count * width + width) by (nonlinear_arith);
    assert forall|j: int, k: int| 0 <= j < spikes2.len() && 0 <= k < synapses.len() implies {
        &&& 0 <= #[trigger] slot(j, synapses.len() as int, k) < log2.len()
        &&& log2[slot(j, synapses.len() as int, k)].0 == spikes2[j].time
        &&& log2[slot(j, synapses.len() as int, k)].1 == synapses[k].pre_neuron
        &&& log2[slot(j, synapses.len() as int, k)].2 == synapses[k].post_neuron
    } by {
        if j < count {
            assert(0 <= slot(j, width, k) < weight_log.len());
            assert(log2[slot(j, width, k)] == weight_log[slot(j, width, k)]);
        } else {
            assert(slot(j, width, k) == weight_log.len() + k);
            assert(log2[weight_log.len() + k] == snapshot(now, spike.time)[k]);
        }
    }
}

/// Weights within the bounds stay within the bounds when a neuron fires.
pub proof fn law_fan_out_keeps_weights_within_bounds<T: Copy>(
    synapses: Seq<Synapse<T>>,
    m: Model<T>,
    neuron: usize,
    t: T,
    stdp: STDPParams<T>,
)
    requires
        bounds_in_order(m, stdp.w_min, stdp.w_max),
        weights_within_bounds(m, stdp, synapses),
    ensures
        weights_within_bounds(m, stdp, fan_out(synapses, m, neuron, t, stdp)),
{
    assert forall|k: int| 0 <= k < synapses.len() implies within_bounds(
        m,
        (#[trigger] fan_out(synapses, m, neuron, t, stdp)[k]).weight,
        stdp.w_min,
        stdp.w_max,
    ) by {
        let s = synapses[k];
        law_spikes_keep_weight_within_bounds(s, m, t, stdp);
        law_spikes_keep_weight_within_bounds(s.after_pre_spike(m, t, stdp), m, t, stdp);
    }
}

/// Weights within the bounds stay within the bounds, in the network and in
/// the log, when a neuron fires and the weights are recorded.
pub(crate) proof fn lemma_spike_keeps_bounds<T: Copy>(
    synapses: Seq<Synapse<T>>,
    weight_log: Seq<(T, usize, usize, T)>,
    m: Model<T>,
    neuron: usize,
    t: T,
    stdp: STDPParams<T>,
)
    ensures
        bounds_kept(
            m,
            stdp,
            synapses,
            weight_log,
            fan_out(synapses, m, neuron, t, stdp),
            weight_log + snapshot(fan_out(synapses, m, neuron, t, stdp), t),
        ),
{
    if bounds_in_order(m, stdp.w_min, stdp.w_max) && weights_within_bounds(m, stdp, synapses)
        && records_within_bounds(m, stdp, weight_log) {
        law_fan_out_keeps_weights_within_bounds(synapses, m, neuron, t, stdp);
        let after = fan_out(synapses, m, neuron, t, stdp);
        let log = weight_log + snapshot(after, t);
        assert forall|j: int| 0 <= j < log.len() implies within_bounds(
            m,
            (#[trigger] log[j]).3,
            stdp.w_min,
            stdp.w_max,
        ) by {
            if j >= weight_log.len() {
                assert(log[j].3 == after[j - weight_log.len()].weight);
            }
        }
    }
}

proof fn lemma_visit_keeps_weights_within_bounds<T: Copy>(
    st: Progress<T>,
    m: Model<T>,
    input: spec_fn(usize, T) -> T,
    i: int,
    dt: T,
    stdp: STDPParams<T>,
)
    requires
        bounds_in_order(m, stdp.w_min, stdp.w_max),
        weights_within_bounds(m, stdp, st.synapses),
        records_within_bounds(m, stdp, st.weight_log),
    ensures
        weights_within_bounds(m, stdp, visit(st, m, input, i, dt, stdp).synapses),
        records_within_bounds(m, stdp, visit(st, m, input, i, dt, stdp).weight_log),
{
    lemma_spike_keeps_bounds(st.synapses, st.weight_log, m, i as usize, st.time, stdp);
}

proof fn lemma_sweep_keeps_weights_within_bounds<T: Copy>(
    st: Progress<T>,
    m: Model<T>,
    input: spec_fn(usize, T) -> T,
    upto: nat,
    dt: T,
    stdp: STDPParams<T>,
)
    requires
        bounds_in_order(m, stdp.w_min, stdp.w_max),
        weights_within_bounds(m, stdp, st.synapses),
        records_within_bounds(m, stdp, st.weight_log),
    ensures
        weights_within_bounds(m, stdp, sweep(st, m, input, upto, dt, stdp).synapses),
        records_within_bounds(m, stdp, sweep(st, m, input, upto, dt, stdp).weight_log),
    decreases upto,
{
    if upto > 0 {
        lemma_sweep_keeps_weights_within_bounds(st, m, input, (upto - 1) as nat, dt, stdp);
        lemma_visit_keeps_weights_within_bounds(
            sweep(st, m, input, (upto - 1) as nat, dt, stdp),
            m,
            input,
            upto - 1,
            dt,
            stdp,
        );
    }
}

/// Weights that start within the bounds of the learning rule stay within
/// them for the whole of a run, in the network and in every record of the
/// weight log, as long as the bounds are in order.
pub proof fn law_run_keeps_weights_within_bounds<T: Copy>(
    st: Progress<T>,
    m: Model<T>,
    input: spec_fn(usize, T) -> T,
    config: SimulationConfig<T>,
    stdp: STDPParams<T>,
    steps: nat,
)
    requires
        bounds_in_order(m, stdp.w_min, stdp.w_max),
        weights_within_bounds(m, stdp, st.synapses),
        records_within_bounds(m, stdp, st.weight_log),
    ensures
        weights_within_bounds(m, stdp, elapse(st, m, input, config, stdp, steps).synapses),
        records_within_bounds(m, stdp, elapse(st, m, input, config, stdp, steps).weight_log),
    decreases steps,
{
    if steps == 0 || !(m.less)(st.time, config.t_max) {
    } else {
        lemma_sweep_keeps_weights_within_bounds(st, m, input, st.neurons.len(), config.dt, stdp);
        law_run_keeps_weights_within_bounds(
            tick(st, m, input, config.dt, stdp),
            m,
            input,
            config,
            stdp,
            (steps - 1) as nat,
        );
    }
}

/// A run takes a time step for every clock value below `t_max` that comes
/// before the first one that is not: if the clock is below `t_max` at the
/// start and after each of the first `k - 1` steps, and if it is not below
/// `t_max` after `k` steps or `k` is all that the run may take, then the run
/// takes exactly `k` steps and ends with the clock at its value after `k`
/// steps.
///
/// In exact arithmetic, a duration of `k * dt` so gives `k` steps, and a
/// duration between `k * dt` and `(k + 1) * dt` gives `k + 1` steps, the last
/// of them at a time below the duration. In rounded arithmetic the clock
/// carries the rounding of every addition, and the count follows the clock.
pub proof fn law_steps_follow_the_clock<T: Copy>(
    st: Progress<T>,
    m: Model<T>,
    input: spec_fn(usize, T) -> T,
    config: SimulationConfig<T>,
    stdp: STDPParams<T>,
    steps: nat,
    k: nat,
)
    requires
        k <= steps,
        forall|j: nat|
            j < k ==> (m.less)(#[trigger] clock_after(m, st.time, config.dt, j), config.t_max),
        k == steps || !(m.less)(clock_after(m, st.time, config.dt, k), config.t_max),
    ensures
        elapse(st, m, input, config, stdp, steps) == ticks(st, m, input, config.dt, stdp, k),
        elapse(st, m, input, config, stdp, steps).time == clock_after(
            m,
            st.time,
            config.dt,
            k,
        ),
    decreases k,
{
    if k == 0 {
    } else {
        assert((m.less)(clock_after(m, st.time, config.dt, 0), config.t_max));
        let next = tick(st, m, input, config.dt, stdp);
        law_sweep_keeps_shape(st, m, input, st.neurons.len(), config.dt, stdp);
        assert(next.time == (m.plus)(st.time, config.dt));
        assert forall|j: nat| j < k - 1 implies (m.less)(
            #[trigger] clock_after(m, next.time, config.dt, j),
            config.t_max,
        ) by {
            assert(clock_after(m, st.time, config.dt, j + 1) == clock_after(
                m,
                next.time,
                config.dt,
                j,
            ));
        }
        law_steps_follow_the_clock(
            next,
            m,
            input,
            config,
            stdp,
            (steps - 1) as nat,
            (k - 1) as nat,
        );
    }
}

} // verus!
