use spikenet::arithmetic::Arithmetic;
use spikenet::neuron::NeuronParams;
use spikenet::error::SimulationError;
use spikenet::simulation::{Simulation, SimulationConfig};
use spikenet::spike::Spike;
use spikenet::stdp::STDPParams;
use std::cell::Cell;

/// Arithmetic on IEEE double precision numbers.
struct Ieee;

impl Arithmetic<f64> for Ieee {
    fn zero(&self) -> f64 {
        0.0
    }

    fn plus(&self, x: f64, y: f64) -> f64 {
        x + y
    }

    fn minus(&self, x: f64, y: f64) -> f64 {
        x - y
    }

    fn times(&self, x: f64, y: f64) -> f64 {
        x * y
    }

    fn over(&self, x: f64, y: f64) -> f64 {
        x / y
    }

    fn negate(&self, x: f64) -> f64 {
        -x
    }

    fn exp(&self, x: f64) -> f64 {
        x.exp()
    }

    fn less(&self, x: f64, y: f64) -> bool {
        x < y
    }

    fn greater(&self, x: f64, y: f64) -> bool {
        x > y
    }

    fn at_least(&self, x: f64, y: f64) -> bool {
        x >= y
    }
}

fn neuron_params() -> NeuronParams<f64> {
    NeuronParams { tau_m: 10.0, v_rest: 0.0, v_thresh: 1.0, v_reset: 0.0 }
}

fn stdp_params() -> STDPParams<f64> {
    STDPParams { a_plus: 0.01, a_minus: 0.012, tau_plus: 20.0, tau_minus: 20.0, w_min: 0.0, w_max: 1.0 }
}

fn network(n: usize, dt: f64, t_max: f64) -> Simulation<f64> {
    match Simulation::new(n, neuron_params(), SimulationConfig { dt, t_max }, stdp_params(), 0.5, &Ieee) {
        Ok(sim) => sim,
        Err(_) => panic!("valid parameters were refused"),
    }
}

fn rejected(np: NeuronParams<f64>, config: SimulationConfig<f64>, sp: STDPParams<f64>) -> bool {
    matches!(Simulation::new(2, np, config, sp, 0.5, &Ieee), Err(SimulationError::InvalidParameter))
}

fn same_spikes(a: &[Spike<f64>], b: &[Spike<f64>]) -> bool {
    a.len() == b.len() && a.iter().zip(b.iter()).all(|(x, y)| x.neuron_id == y.neuron_id && x.time == y.time)
}

#[test]
fn new_builds_neurons_at_rest() {
    let np = NeuronParams { tau_m: 10.0, v_rest: -65.0, v_thresh: -50.0, v_reset: -70.0 };
    let sim = match Simulation::new(4, np, SimulationConfig { dt: 0.1, t_max: 1.0 }, stdp_params(), 0.5, &Ieee) {
        Ok(sim) => sim,
        Err(_) => panic!("valid parameters were refused"),
    };
    assert_eq!(sim.neurons().len(), 4);
    for n in sim.neurons() {
        assert_eq!(n.v_mem, -65.0);
        assert_eq!(n.params.v_thresh, -50.0);
    }
    assert_eq!(sim.time(), 0.0);
}

#[test]
fn new_connects_every_ordered_pair_once() {
    let sim = network(3, 0.1, 1.0);
    let pairs: Vec<(usize, usize)> = sim.synapses().iter().map(|s| (s.pre_neuron, s.post_neuron)).collect();
    assert_eq!(pairs, vec![(0, 1), (0, 2), (1, 0), (1, 2), (2, 0), (2, 1)]);
    for s in sim.synapses() {
        assert_eq!(s.weight, 0.5);
        assert_eq!(s.last_pre_spike, None);
        assert_eq!(s.last_post_spike, None);
    }
}

#[test]
fn new_makes_n_times_n_minus_one_synapses() {
    for n in 0..12usize {
        let sim = network(n, 0.1, 1.0);
        assert_eq!(sim.neurons().len(), n);
        assert_eq!(sim.synapses().len(), n * n.saturating_sub(1));
        let mut seen = Vec::new();
        for (k, s) in sim.synapses().iter().enumerate() {
            assert!(s.pre_neuron < n && s.post_neuron < n);
            assert_ne!(s.pre_neuron, s.post_neuron);
            assert!(!seen.contains(&(s.pre_neuron, s.post_neuron)));
            seen.push((s.pre_neuron, s.post_neuron));
            let column = if s.post_neuron < s.pre_neuron { s.post_neuron } else { s.post_neuron - 1 };
            assert_eq!(k, s.pre_neuron * (n - 1) + column);
        }
    }
}

#[test]
fn new_rejects_non_positive_time_constant() {
    let config = SimulationConfig { dt: 0.1, t_max: 1.0 };
    let zero = NeuronParams { tau_m: 0.0, v_rest: 0.0, v_thresh: 1.0, v_reset: 0.0 };
    let negative = NeuronParams { tau_m: -10.0, v_rest: 0.0, v_thresh: 1.0, v_reset: 0.0 };
    assert!(rejected(zero, config, stdp_params()));
    assert!(rejected(negative, config, stdp_params()));
}

#[test]
fn new_rejects_non_positive_time_step() {
    assert!(rejected(neuron_params(), SimulationConfig { dt: 0.0, t_max: 1.0 }, stdp_params()));
    assert!(rejected(neuron_params(), SimulationConfig { dt: -0.1, t_max: 1.0 }, stdp_params()));
}

#[test]
fn new_rejects_non_positive_duration() {
    assert!(rejected(neuron_params(), SimulationConfig { dt: 0.1, t_max: 0.0 }, stdp_params()));
    assert!(rejected(neuron_params(), SimulationConfig { dt: 0.1, t_max: -5.0 }, stdp_params()));
}

#[test]
fn new_rejects_weight_bounds_out_of_order() {
    let sp = STDPParams { a_plus: 0.01, a_minus: 0.012, tau_plus: 20.0, tau_minus: 20.0, w_min: 1.0, w_max: 0.0 };
    assert!(rejected(neuron_params(), SimulationConfig { dt: 0.1, t_max: 1.0 }, sp));
}

#[test]
fn new_accepts_equal_weight_bounds() {
    let sp = STDPParams { a_plus: 0.01, a_minus: 0.012, tau_plus: 20.0, tau_minus: 20.0, w_min: 0.5, w_max: 0.5 };
    assert!(!rejected(neuron_params(), SimulationConfig { dt: 0.1, t_max: 1.0 }, sp));
}

#[test]
fn error_compares_and_prints() {
    let e = SimulationError::InvalidParameter;
    assert_eq!(e, SimulationError::InvalidParameter);
    assert_eq!(format!("{:?}", e), "InvalidParameter");
    assert_eq!(e.message(), "invalid parameter");
}

#[test]
fn two_neurons_with_one_driven_below_threshold_for_five_milliseconds() {
    let mut sim = network(2, 0.1, 5.0);
    let (spikes, weights) = sim.run(|i, _t| if i == 0 { 1.2 } else { 0.0 }, &Ieee, usize::MAX);
    assert!(spikes.iter().all(|s| s.neuron_id != 1));
    assert!(weights.iter().all(|r| r.3 == 0.5));
    assert!(weights.iter().filter(|r| r.1 == 1 && r.2 == 0).all(|r| r.3 == 0.5));
    assert_eq!(weights.len(), spikes.len() * 2);
    assert_eq!(spikes.len(), 0);
    assert!(sim.synapses().iter().all(|s| s.weight == 0.5));
    assert!((sim.neurons()[0].v_mem - 0.4812527922406064).abs() < 1e-12);
    assert_eq!(sim.neurons()[1].v_mem, 0.0);
}

#[test]
fn two_neurons_with_one_driven_for_a_hundred_milliseconds() {
    let mut sim = network(2, 0.1, 100.0);
    let (spikes, weights) = sim.run(|i, _t| if i == 0 { 1.2 } else { 0.0 }, &Ieee, usize::MAX);
    assert_eq!(spikes.len(), 5);
    assert!(spikes.iter().all(|s| s.neuron_id == 0));
    assert!((spikes[0].time - 17.8).abs() < 1e-9);
    assert!((spikes[1].time - 35.7).abs() < 1e-9);
    assert!((spikes[4].time - 89.4).abs() < 1e-9);
    assert_eq!(weights.len(), 10);
    for (j, spike) in spikes.iter().enumerate() {
        assert_eq!(weights[2 * j], (spike.time, 0, 1, 0.5));
        assert_eq!(weights[2 * j + 1], (spike.time, 1, 0, 0.5));
    }
    let outgoing = &sim.synapses()[0];
    assert_eq!(outgoing.weight, 0.5);
    assert_eq!(outgoing.last_pre_spike, Some(spikes[4].time));
    assert_eq!(outgoing.last_post_spike, None);
    let incoming = &sim.synapses()[1];
    assert_eq!(incoming.weight, 0.5);
    assert_eq!(incoming.last_pre_spike, None);
    assert_eq!(incoming.last_post_spike, Some(spikes[4].time));
    assert_eq!(sim.neurons()[1].v_mem, 0.0);
}

#[test]
fn run_twice_from_the_same_start_gives_the_same_records() {
    let input = |i: usize, t: f64| 1.2 + 0.05 * i as f64 + 0.001 * t;
    let mut first = network(3, 0.1, 100.0);
    let mut second = network(3, 0.1, 100.0);
    let (spikes1, weights1) = first.run(input, &Ieee, usize::MAX);
    let (spikes2, weights2) = second.run(input, &Ieee, usize::MAX);
    assert!(!spikes1.is_empty());
    assert!(same_spikes(&spikes1, &spikes2));
    assert_eq!(weights1, weights2);
    assert_eq!(first.time(), second.time());
}

#[test]
fn three_driven_neurons_learn() {
    let mut sim = network(3, 0.1, 100.0);
    let (spikes, weights) = sim.run(|i, _t| 1.2 + 0.05 * i as f64, &Ieee, usize::MAX);
    assert_eq!(spikes.len(), 17);
    assert_eq!(weights.len(), 17 * 6);
    assert_eq!(spikes[0].neuron_id, 2);
    assert_eq!(spikes[1].neuron_id, 1);
    assert_eq!(spikes[2].neuron_id, 0);
    assert!((spikes[0].time - 14.5).abs() < 1e-9);
    let expected = [0.4833465810724641, 0.490878386899138, 0.5030534070907093, 0.4745128454338243, 0.4950944402204197, 0.510112690815938];
    for (s, e) in sim.synapses().iter().zip(expected.iter()) {
        assert!((s.weight - e).abs() < 1e-12);
        assert!(0.0 <= s.weight && s.weight <= 1.0);
    }
    assert!(weights.iter().all(|r| 0.0 <= r.3 && r.3 <= 1.0));
    for pair in spikes.windows(2) {
        assert!(pair[0].time <= pair[1].time);
    }
}

#[test]
fn neurons_of_one_step_are_evaluated_in_index_order() {
    let mut sim = network(2, 0.5, 1.0);
    let (spikes, weights) = sim.run(|_i, _t| 100.0, &Ieee, usize::MAX);
    let fired: Vec<(usize, f64)> = spikes.iter().map(|s| (s.neuron_id, s.time)).collect();
    assert_eq!(fired, vec![(0, 0.0), (1, 0.0), (0, 0.5), (1, 0.5)]);
    assert_eq!(weights.len(), 8);
    assert_eq!(weights[0], (0.0, 0, 1, 0.5));
    assert_eq!(weights[1], (0.0, 1, 0, 0.5));
    assert_eq!(weights[2], (0.0, 0, 1, 0.488));
    assert_eq!(weights[3], (0.0, 1, 0, 0.488));
    let w01 = 0.488 + -0.012 * ((0.0f64 - 0.5) / 20.0).exp();
    let w10 = 0.488 + 0.01 * (-(0.5f64 - 0.0) / 20.0).exp();
    assert_eq!(weights[4], (0.5, 0, 1, w01));
    assert_eq!(weights[5], (0.5, 1, 0, w10));
    assert_eq!(weights[6], (0.5, 0, 1, w01 + -0.012));
    assert_eq!(weights[7], (0.5, 1, 0, w10 + -0.012));
    assert_eq!(sim.synapses()[0].weight, w01 + -0.012);
    assert_eq!(sim.synapses()[1].weight, w10 + -0.012);
}

#[test]
fn every_spike_logs_every_synapse() {
    let mut sim = network(4, 0.25, 60.0);
    let (spikes, weights) = sim.run(|i, _t| 1.1 + 0.2 * i as f64, &Ieee, usize::MAX);
    assert!(spikes.len() > 4);
    assert_eq!(weights.len(), spikes.len() * 12);
    for (j, spike) in spikes.iter().enumerate() {
        assert!(spike.neuron_id < 4);
        for (k, s) in sim.synapses().iter().enumerate() {
            let record = weights[j * 12 + k];
            assert_eq!(record.0, spike.time);
            assert_eq!(record.1, s.pre_neuron);
            assert_eq!(record.2, s.post_neuron);
        }
    }
    let last = &weights[weights.len() - 12..];
    for (record, s) in last.iter().zip(sim.synapses().iter()) {
        assert_eq!(record.3, s.weight);
    }
}

#[test]
fn duration_divisible_by_step_gives_their_ratio_in_steps() {
    let calls = Cell::new(0usize);
    let mut sim = network(1, 0.5, 5.0);
    sim.run(|_i, _t| { calls.set(calls.get() + 1); 0.0 }, &Ieee, usize::MAX);
    assert_eq!(calls.get(), 10);
    assert_eq!(sim.time(), 5.0);
}

#[test]
fn duration_not_divisible_by_step_gives_one_step_more() {
    let calls = Cell::new(0usize);
    let last = Cell::new(-1.0f64);
    let mut sim = network(1, 0.5, 5.2);
    sim.run(|_i, t| { calls.set(calls.get() + 1); last.set(t); 0.0 }, &Ieee, usize::MAX);
    assert_eq!(calls.get(), 11);
    assert_eq!(last.get(), 5.0);
    assert!(last.get() < 5.2);
    assert_eq!(sim.time(), 5.5);
}

#[test]
fn clock_accumulates_rounding_of_the_step() {
    let calls = Cell::new(0usize);
    let mut sim = network(1, 0.1, 1.0);
    sim.run(|_i, _t| { calls.set(calls.get() + 1); 0.0 }, &Ieee, usize::MAX);
    let mut t = 0.0f64;
    let mut expected = 0;
    while t < 1.0 {
        expected += 1;
        t += 0.1;
    }
    assert_eq!(calls.get(), expected);
    assert_eq!(calls.get(), 11);
    assert_eq!(sim.time(), t);
}

#[test]
fn input_is_asked_for_each_neuron_at_the_time_of_the_step() {
    let asked = std::cell::RefCell::new(Vec::new());
    let mut sim = network(2, 0.5, 1.5);
    sim.run(|i, t| { asked.borrow_mut().push((i, t)); 0.0 }, &Ieee, usize::MAX);
    assert_eq!(*asked.borrow(), vec![(0, 0.0), (1, 0.0), (0, 0.5), (1, 0.5), (0, 1.0), (1, 1.0)]);
}

#[test]
fn run_stops_after_max_steps_and_goes_on_later() {
    let mut whole = network(3, 0.1, 100.0);
    let (all_spikes, all_weights) = whole.run(|i, _t| 1.2 + 0.05 * i as f64, &Ieee, usize::MAX);
    let mut parts = network(3, 0.1, 100.0);
    let (mut spikes, mut weights) = parts.run(|i, _t| 1.2 + 0.05 * i as f64, &Ieee, 300);
    assert!(parts.time() < 100.0);
    assert!((parts.time() - 30.0).abs() < 1e-9);
    let (more_spikes, more_weights) = parts.run(|i, _t| 1.2 + 0.05 * i as f64, &Ieee, usize::MAX);
    spikes.extend(more_spikes);
    weights.extend(more_weights);
    assert!(same_spikes(&spikes, &all_spikes));
    assert_eq!(weights, all_weights);
    assert_eq!(parts.time(), whole.time());
}

#[test]
fn run_with_no_step_allowed_changes_nothing() {
    let mut sim = network(2, 0.1, 1.0);
    let (spikes, weights) = sim.run(|_i, _t| 100.0, &Ieee, 0);
    assert!(spikes.is_empty());
    assert!(weights.is_empty());
    assert_eq!(sim.time(), 0.0);
    assert_eq!(sim.neurons()[0].v_mem, 0.0);
}

#[test]
fn finished_run_does_nothing_when_run_again() {
    let mut sim = network(2, 0.5, 1.0);
    let (spikes, _) = sim.run(|_i, _t| 100.0, &Ieee, usize::MAX);
    assert_eq!(spikes.len(), 4);
    let (again, weights) = sim.run(|_i, _t| 100.0, &Ieee, usize::MAX);
    assert!(again.is_empty());
    assert!(weights.is_empty());
    assert_eq!(sim.time(), 1.0);
}

#[test]
fn empty_network_still_runs() {
    let calls = Cell::new(0usize);
    let mut sim = network(0, 0.5, 2.0);
    let (spikes, weights) = sim.run(|_i, _t| { calls.set(calls.get() + 1); 100.0 }, &Ieee, usize::MAX);
    assert!(spikes.is_empty());
    assert!(weights.is_empty());
    assert_eq!(calls.get(), 0);
    assert_eq!(sim.time(), 2.0);
}

#[test]
fn single_neuron_has_no_synapse_and_logs_no_weight() {
    let mut sim = network(1, 0.5, 2.0);
    assert!(sim.synapses().is_empty());
    let (spikes, weights) = sim.run(|_i, _t| 100.0, &Ieee, usize::MAX);
    assert_eq!(spikes.len(), 4);
    assert!(weights.is_empty());
}
