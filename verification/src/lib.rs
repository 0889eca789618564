//! A discrete-time simulator for small networks of spiking neurons whose
//! synapses adapt through spike-timing-dependent plasticity.
//!
//! The engine is generic over the scalar type `T` that carries potentials,
//! weights and times, and over an [`arithmetic::Arithmetic`] that supplies the
//! primitive operations on `T`. Every rule of the simulator (the leaky
//! integration of a neuron, the learning rule, the clamping of weights, the
//! bookkeeping of a synapse, the wiring of the network and the order in which
//! a time step is evaluated) is written and proved here once, for every scalar
//! type and every arithmetic.
//!
//! Contracts come in two layers. Clauses without a premise hold whatever the
//! arithmetic returns. Clauses under `models(arithmetic, m)` pin the result
//! down exactly, as a mathematical function of the arguments: they hold for
//! every [`arithmetic::Model`] `m` that describes the arithmetic, and an
//! arithmetic has a model when its operations return the same result on the
//! same operands.

pub mod arithmetic;
pub mod error;
pub mod evolution;
pub mod neuron;
pub mod simulation;
pub mod spike;
pub mod stdp;
pub mod synapse;
pub mod wiring;
