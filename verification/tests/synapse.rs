use spikenet::arithmetic::Arithmetic;
use spikenet::stdp::STDPParams;
use spikenet::synapse::Synapse;

/// Arithmetic on IEEE double precision numbers.
struct Ieee;

impl Arithmetic<f64> for Ieee {
    fn zero(&self) -> f64 {
        0.0
    }

    fn plus(&self, x: f64, y: f64) -> f64 {
        x + y
    }

    fn minus(&self, x: f64, y: f64) -> f64 {
        x - y
    }

    fn times(&self, x: f64, y: f64) -> f64 {
        x * y
    }

    fn over(&self, x: f64, y: f64) -> f64 {
        x / y
    }

    fn negate(&self, x: f64) -> f64 {
        -x
    }

    fn exp(&self, x: f64) -> f64 {
        x.exp()
    }

    fn less(&self, x: f64, y: f64) -> bool {
        x < y
    }

    fn greater(&self, x: f64, y: f64) -> bool {
        x > y
    }

    fn at_least(&self, x: f64, y: f64) -> bool {
        x >= y
    }
}

fn params() -> STDPParams<f64> {
    STDPParams { a_plus: 0.01, a_minus: 0.012, tau_plus: 20.0, tau_minus: 20.0, w_min: 0.0, w_max: 1.0 }
}

#[test]
fn new_synapse_has_seen_no_spike() {
    let s = Synapse::new(2, 5, 0.5);
    assert_eq!(s.pre_neuron, 2);
    assert_eq!(s.post_neuron, 5);
    assert_eq!(s.weight, 0.5);
    assert_eq!(s.last_pre_spike, None);
    assert_eq!(s.last_post_spike, None);
}

#[test]
fn first_pre_spike_only_records_its_time() {
    let mut s = Synapse::new(0, 1, 0.5);
    s.on_pre_spike(3.0, &params(), &Ieee);
    assert_eq!(s.weight, 0.5);
    assert_eq!(s.last_pre_spike, Some(3.0));
    assert_eq!(s.last_post_spike, None);
}

#[test]
fn first_post_spike_only_records_its_time() {
    let mut s = Synapse::new(0, 1, 0.5);
    s.on_post_spike(3.0, &params(), &Ieee);
    assert_eq!(s.weight, 0.5);
    assert_eq!(s.last_pre_spike, None);
    assert_eq!(s.last_post_spike, Some(3.0));
}

#[test]
fn pre_spikes_alone_never_change_the_weight() {
    let mut s = Synapse::new(0, 1, 0.37);
    for k in 0..100 {
        let t = 0.7 * k as f64;
        s.on_pre_spike(t, &params(), &Ieee);
        assert_eq!(s.weight, 0.37);
        assert_eq!(s.last_pre_spike, Some(t));
        assert_eq!(s.last_post_spike, None);
    }
}

#[test]
fn post_spikes_alone_never_change_the_weight() {
    let mut s = Synapse::new(0, 1, 0.37);
    for k in 0..100 {
        s.on_post_spike(0.7 * k as f64, &params(), &Ieee);
        assert_eq!(s.weight, 0.37);
        assert_eq!(s.last_pre_spike, None);
    }
}

#[test]
fn pre_then_post_potentiates() {
    let mut s = Synapse::new(0, 1, 0.5);
    s.on_pre_spike(10.0, &params(), &Ieee);
    s.on_post_spike(15.0, &params(), &Ieee);
    assert_eq!(s.weight, 0.5 + 0.01 * (-(15.0f64 - 10.0) / 20.0).exp());
    assert!(s.weight > 0.5);
    assert_eq!(s.last_pre_spike, Some(10.0));
    assert_eq!(s.last_post_spike, Some(15.0));
}

#[test]
fn post_then_pre_depresses() {
    let mut s = Synapse::new(0, 1, 0.5);
    s.on_post_spike(10.0, &params(), &Ieee);
    s.on_pre_spike(15.0, &params(), &Ieee);
    assert_eq!(s.weight, 0.5 + -0.012 * ((10.0f64 - 15.0) / 20.0).exp());
    assert!(s.weight < 0.5);
    assert_eq!(s.last_pre_spike, Some(15.0));
    assert_eq!(s.last_post_spike, Some(10.0));
}

#[test]
fn spikes_at_the_same_instant_depress() {
    let mut s = Synapse::new(0, 1, 0.5);
    s.on_pre_spike(4.0, &params(), &Ieee);
    s.on_post_spike(4.0, &params(), &Ieee);
    assert_eq!(s.weight, 0.488);
    let mut s = Synapse::new(0, 1, 0.5);
    s.on_post_spike(4.0, &params(), &Ieee);
    s.on_pre_spike(4.0, &params(), &Ieee);
    assert_eq!(s.weight, 0.488);
}

#[test]
fn only_the_last_spike_of_the_other_side_counts() {
    let mut s = Synapse::new(0, 1, 0.5);
    s.on_pre_spike(1.0, &params(), &Ieee);
    s.on_pre_spike(8.0, &params(), &Ieee);
    s.on_post_spike(10.0, &params(), &Ieee);
    assert_eq!(s.weight, 0.5 + 0.01 * (-(10.0f64 - 8.0) / 20.0).exp());
}

#[test]
fn weight_stays_within_bounds_through_any_train() {
    let p = STDPParams { a_plus: 0.3, a_minus: 0.4, tau_plus: 20.0, tau_minus: 20.0, w_min: 0.1, w_max: 0.9 };
    let mut s = Synapse::new(0, 1, 0.5);
    let mut t = 0.0;
    for k in 0..200 {
        t += 0.5;
        if k % 3 == 0 {
            s.on_post_spike(t, &p, &Ieee);
        } else if k % 7 == 0 {
            s.on_pre_spike(t, &p, &Ieee);
            s.on_post_spike(t, &p, &Ieee);
        } else {
            s.on_pre_spike(t, &p, &Ieee);
        }
        assert!(0.1 <= s.weight && s.weight <= 0.9);
    }
}

#[test]
fn weight_saturates_at_both_bounds() {
    let p = STDPParams { a_plus: 0.4, a_minus: 0.4, tau_plus: 20.0, tau_minus: 20.0, w_min: 0.0, w_max: 1.0 };
    let mut s = Synapse::new(0, 1, 0.9);
    s.on_pre_spike(1.0, &p, &Ieee);
    s.on_post_spike(1.5, &p, &Ieee);
    assert_eq!(s.weight, 1.0);
    s.on_pre_spike(2.0, &p, &Ieee);
    s.on_pre_spike(2.5, &p, &Ieee);
    s.on_pre_spike(3.0, &p, &Ieee);
    assert_eq!(s.weight, 0.0);
}
