//! A molecular-dynamics library: a fixed set of classical point particles
//! interacting through the Lennard-Jones pair potential in a cubic box with
//! periodic boundary conditions, advanced by a velocity-Verlet integrator.
//!
//! Every scalar is carried as the bit pattern of an IEEE 754 binary64 value
//! in a `u64`; the primitive arithmetic is named by uninterpreted spec
//! functions, so every contract states the exact bit-level result of a
//! computation.

pub mod algebra;
pub mod movement;
pub mod parameters;
pub mod periodic_conditions;
pub mod rng;
pub mod sqrt;
pub mod scalar;
pub mod system;

use vstd::prelude::*;

verus! {

/// The fatal and diagnostic conditions of the simulation.
#[derive(Clone, Copy, PartialEq, Eq, Structural, Debug)]
pub enum SimError {
    /// A malformed coordinate line or an unreadable file.
    InputParseError,
    /// Fewer than two particles, a local count out of range, or a
    /// non-finite coordinate.
    ConfigError,
    /// Two particles occupy the same point under some image translation.
    ZeroDistance,
    /// A displacement was divided by a zero scalar.
    DivisionByZero,
    /// The total energy or a momentum stopped being finite after a step.
    NonFinite,
    /// The energy series could not be written out.
    OutputError,
}

} // verus!
