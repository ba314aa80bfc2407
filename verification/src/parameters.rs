//! Fixed constants of the simulation.
//!
//! Every scalar of this library is the bit pattern of an IEEE 754 binary64
//! value carried in a `u64`, so each constant below is the bit pattern of
//! the value named in its comment.

use vstd::prelude::*;

verus! {

/// Characteristic length of the pair potential: 3.0
pub const R_STAR: u64 = 0x4008000000000000;

/// Energy scale of the pair potential: 0.2
pub const EPSILON_STAR: u64 = 0x3FC999999999999A;

/// Twice the energy scale: 0.4, the prefactor of the reported energy.
/// Doubling a binary64 value only increments its exponent, so this is the
/// exact product of 2.0 with `EPSILON_STAR`.
pub const TWO_EPSILON_STAR: u64 = 0x3FD999999999999A;

/// Cutoff radius of the pair interaction: 10.0
pub const R_CUT: u64 = 0x4024000000000000;

/// A distance larger than any intra-box distance: 99999999.0
pub const FAR_AWAY: u64 = 0x4197D783FC000000;

/// Side of the cubic simulation box: 42.0
pub const BOX_SIDE: u64 = 0x4045000000000000;

/// Boltzmann-like constant of the unit system: 0.00199
pub const R_CONSTANT: u64 = 0x3F604D551D68C693;

/// Target temperature of the thermal initializer: 300.0
pub const T_0: u64 = 0x4072C00000000000;

/// Integration time step: 0.1
pub const DELTA_TIME: u64 = 0x3FB999999999999A;

/// Common mass of every particle: 18.0
pub const PARTICLE_MASS: u64 = 0x4032000000000000;

/// Factor applied to forces in the momentum update: one ninth, the
/// reciprocal of the squared characteristic length, which aligns the
/// tabulated force expression with the gradient of the reported energy.
pub const CONVERSION_FORCE: u64 = 0x3FBC71C71C71C71C;

/// Positive zero: 0.0
pub const SC_ZERO: u64 = 0x0;

/// 1.0
pub const SC_ONE: u64 = 0x3FF0000000000000;

/// -1.0
pub const SC_NEG_ONE: u64 = 0xBFF0000000000000;

/// 2.0
pub const SC_TWO: u64 = 0x4000000000000000;

/// 0.5
pub const SC_HALF: u64 = 0x3FE0000000000000;

/// -48.0, the coefficient of the force expression.
pub const SC_MINUS_48: u64 = 0xC048000000000000;

/// 2 to the 63rd power, the divisor that maps a raw 64-bit draw into [0, 2).
pub const SC_TWO_POW_63: u64 = 0x43E0000000000000;

} // verus!
