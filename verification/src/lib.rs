//! Sponge round functions as arithmetic circuits over the Goldilocks field.
//!
//! A permutation of the Poseidon family is evaluated twice: directly on
//! field elements, and inside a constraint system that lays one row of
//! polynomial constraints for every layer. The two results are compared,
//! the finished trace is checked against every constraint, and the
//! decisions of the proving and the verifying side are taken.
//!
//! - `field`: the elements of the field and their arithmetic.
//! - `permutation`: the permutations, evaluated directly.
//! - `geometry`: the columns of a row and the footprints of the gates.
//! - `model`, `configuration`, `assignment`, `trace`: what a constraint
//!   system is, phase by phase, and what is proved of it.
//! - `system`: the constraint system itself.
//! - `round_function`: a permutation laid into a constraint system.
//! - `equivalence`: the circuit compared with the direct evaluation.
//! - `satisfiability`: every constraint evaluated on a trace.
//! - `pipeline`: the states of the prover and the verifier's decision.
//! - `error`: what the operations report when they refuse.

pub mod assignment;
pub mod configuration;
pub mod equivalence;
pub mod error;
pub mod field;
pub mod geometry;
pub mod model;
pub mod permutation;
pub mod pipeline;
pub mod round_function;
pub mod satisfiability;
pub mod system;
pub mod trace;
