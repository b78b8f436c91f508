//! Chemical elements and their physical attributes.

use vstd::prelude::*;

verus! {

/// A chemical element; the immutable type table of the kernel.  Each
/// variant carries a fixed atomic number, mass and charge, shared by all
/// particles of that element.
#[derive(Clone, Copy, Debug, PartialEq, Eq, Structural)]
pub enum Element {
    /// Hydrogen
    H,
    /// Helium
    He,
    /// Nitrogen
    N,
    /// Oxygen
    O,
    /// Fluorine
    F,
    /// Argon
    Ar,
}

impl Element {
    /// Atomic mass in amu, as a fixed-point raw value.
    pub open spec fn mass_spec(self) -> int {
        match self {
            Element::H => 1_008_000_000int,
            Element::He => 4_002_602_000int,
            Element::N => 14_007_000_000int,
            Element::O => 15_999_000_000int,
            Element::F => 18_998_403_000int,
            Element::Ar => 39_948_000_000int,
        }
    }

    /// Atomic mass in amu, as a fixed-point raw value.
    pub fn mass(&self) -> (m: i64)
        ensures
            m == self.mass_spec(),
            0 < m <= crate::COORD_LIMIT,
    {
        match self {
            Element::H => 1_008_000_000,
            Element::He => 4_002_602_000,
            Element::N => 14_007_000_000,
            Element::O => 15_999_000_000,
            Element::F => 18_998_403_000,
            Element::Ar => 39_948_000_000,
        }
    }

    /// Electronic charge of the neutral atom, as a fixed-point raw value.
    pub fn charge(&self) -> (c: i64)
        ensures
            c == 0,
    {
        0
    }

    /// Atomic number.
    pub fn number(&self) -> (n: u8)
        ensures
            n == self.number_spec(),
    {
        match self {
            Element::H => 1,
            Element::He => 2,
            Element::N => 7,
            Element::O => 8,
            Element::F => 9,
            Element::Ar => 18,
        }
    }

    /// Atomic number.
    pub open spec fn number_spec(self) -> int {
        match self {
            Element::H => 1int,
            Element::He => 2int,
            Element::N => 7int,
            Element::O => 8int,
            Element::F => 9int,
            Element::Ar => 18int,
        }
    }
}

} // verus!
