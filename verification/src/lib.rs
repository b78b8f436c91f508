//! A classical molecular-dynamics simulation kernel.
//!
//! The library evaluates interatomic forces and energies for a set of
//! particles in a periodic simulation cell, advances the motion with a
//! velocity-Verlet integrator, and can couple the motion to a thermostat.
//! All physical scalars are fixed-point values: an `i64` holding the
//! quantity multiplied by [`SCALE`].  Arithmetic on them is defined by the
//! spec functions in [`fixed`], so every numeric result is pinned exactly.
//!
//! The periodic geometry covers orthorhombic cells; a triclinic cell is
//! outside this kernel's capability and is rejected at construction.

use vstd::prelude::*;

pub mod cell;
pub mod distributions;
pub mod elements;
pub mod fixed;
pub mod integrators;
pub mod potential;
pub mod property;
pub mod simulation;
pub mod species;
pub mod system;
pub mod thermostats;
pub mod vector;

verus! {

/// Number of raw steps per physical unit: a scalar `x` is stored as the
/// integer `x * SCALE`, rounded toward zero.
pub const SCALE: i64 = 1_000_000_000;

/// Boltzmann constant in kcal/(mol*K), as a fixed-point raw value
/// (0.001985875 * SCALE).
pub const BOLTZMANN: i64 = 1_985_875;

/// Coulomb energy constant 4*pi*epsilon0 in the internal unit system,
/// as a fixed-point raw value (7.19759 * SCALE).
pub const FOUR_PI_EPSILON_0: i64 = 7_197_590_000;

/// A right angle, in degrees, as a fixed-point raw value (90 * SCALE).
pub const RIGHT_ANGLE: i64 = 90_000_000_000;

/// Largest magnitude, in raw steps, that a stored physical scalar
/// (coordinate, velocity component, mass, charge, cell edge, potential
/// parameter) may take: 2^41 raw steps, about 2199 physical units.
/// Keeping stored scalars inside this bound keeps every intermediate
/// product of the evaluators inside `i128`.
pub const COORD_LIMIT: i64 = 2_199_023_255_552;

/// Largest particle count a system may hold (2^20).
pub const SIZE_LIMIT: usize = 1_048_576;

/// Largest number of registered entries a potential registry may hold,
/// for each family.
pub const ENTRY_LIMIT: usize = 1024;

/// A numeric fault: an evaluation left the domain of the fixed-point
/// arithmetic (degenerate geometry, or a value out of range).  Faults
/// propagate to the caller and are never clamped or repaired.
#[derive(Clone, Copy, Debug, PartialEq, Eq, Structural)]
pub struct NumericFault;

} // verus!
