//! Droplet rain simulation: a fixed-capacity slot pool of droplets advanced
//! tick by tick under a stochastic gravity model, with trail emission,
//! budget-limited spawn admission, a broad-phase proximity index, and
//! volume-conserving merges.
//!
//! All world quantities (positions, sizes, velocities) are fixed-point
//! integers in milli-units: 1000 = one world unit. Tick lengths are
//! milliseconds. Randomness comes from an explicit deterministic source
//! ([`rng::Rng`]) threaded through every simulation call; production wiring
//! seeds it from the operating system.

pub mod admission;
pub mod config;
pub mod droplet;
pub mod droplets;
pub mod math;
pub mod merge;
pub mod motion;
pub mod rain;
pub mod render_gl;
pub mod rng;
pub mod spatial;
pub mod trail;
