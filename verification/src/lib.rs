//! Neuroevolution of snake-playing agents: a feedforward inference network
//! over fixed-point signals, a sensory encoder for the simulation state, the
//! snake environment itself, and the genetic operators (selection, crossover,
//! mutation, elitism) that produce each next generation.
//!
//! Signals are fixed-point integers: `SCALE` stands for one unit of signal
//! strength, and `INF_SIGNAL` is the sentinel for an unobstructed direction
//! (the reciprocal of a zero distance), an extreme-magnitude value that flows
//! through inference like any other signal.
use vstd::prelude::*;

pub mod game;
pub mod genetic;
pub mod perceptron;
mod rng;
pub mod snake;
pub mod world;

verus! {

/// Fixed-point representation of one unit of signal strength.
pub const SCALE: i64 = 1000;

/// Sentinel signal for the reciprocal of a zero distance: "nothing in the
/// way in this direction". All encoder features and all neuron outputs are
/// clamped into [-INF_SIGNAL, INF_SIGNAL].
pub const INF_SIGNAL: i64 = 1_000_000_000;

/// Denominator of every drawn chance: a chance is uniform in
/// [0, CHANCE_DENOM), and a rate is a numerator over CHANCE_DENOM.
pub const CHANCE_DENOM: u32 = 1_000_000;

/// Upper bound on the width of a layer and on the length of an input vector,
/// so that a neuron's accumulated sum fits in an i64.
pub const MAX_NODES: usize = 100_000;

/// Upper bound on the playing field's side, so that every encoder feature
/// fits within the signal range.
pub const MAX_DIM: i32 = 10_000;

/// Number of features the sensor encoder produces: 8 wall distances (four
/// axes and four diagonals), 8 nearest-body-segment distances, 9 goal
/// features (four axis distances, four quadrant flags, one combined offset),
/// and the heading's 2 components.
pub const INPUT_LEN: usize = 27;

/// Number of output activations a decision network must produce: one per
/// direction.
pub const OUTPUT_LEN: usize = 4;

} // verus!
