//! Particle species: shared immutable records of mass and charge.

use vstd::prelude::*;

use crate::elements::Element;

verus! {

/// A particle species: a unique identity together with a mass and a
/// charge (fixed-point raw values).  Two species are the same exactly
/// when their identities agree; mass and charge play no part in equality,
/// so type-pair matching is by identity, not by structure.
#[derive(Clone, Copy, Debug)]
pub struct Specie {
    id: u128,
    mass: i64,
    charge: i64,
}

/// Relies on `uuid::Uuid::new_v4` for a freshly drawn random identifier.
/// Its result is random, so nothing relates two calls; the version bits
/// that `new_v4` always sets make the value nonzero.
#[verifier::external_body]
fn fresh_id() -> (r: u128)
    ensures
        r != 0,
{
    uuid::Uuid::new_v4().as_u128()
}

impl Specie {
    /// The species' identity, for use in specifications.
    pub closed spec fn id_spec(self) -> u128 {
        self.id
    }

    /// The species' mass, for use in specifications.
    pub closed spec fn mass_spec(self) -> i64 {
        self.mass
    }

    /// The species' charge, for use in specifications.
    pub closed spec fn charge_spec(self) -> i64 {
        self.charge
    }

    /// Builds a species with a freshly drawn unique identity.
    pub fn new(mass: i64, charge: i64) -> (s: Specie)
        ensures
            s.mass_spec() == mass,
            s.charge_spec() == charge,
            s.id_spec() != 0,
    {
        Specie { id: fresh_id(), mass, charge }
    }

    /// Builds the species of a chemical element; its identity is the
    /// atomic number, so two calls with the same element agree.
    pub fn from_element(element: Element) -> (s: Specie)
        ensures
            s.id_spec() == element.number_spec(),
            s.mass_spec() == element.mass_spec(),
            s.charge_spec() == 0,
    {
        Specie { id: element.number() as u128, mass: element.mass(), charge: element.charge() }
    }

    /// The species' identity.
    pub fn id(&self) -> (r: u128)
        ensures
            r == self.id_spec(),
    {
        self.id
    }

    /// The species' mass (fixed-point raw value).
    pub fn mass(&self) -> (r: i64)
        ensures
            r == self.mass_spec(),
    {
        self.mass
    }

    /// The species' charge (fixed-point raw value).
    pub fn charge(&self) -> (r: i64)
        ensures
            r == self.charge_spec(),
    {
        self.charge
    }
}

impl PartialEq for Specie {
    fn eq(&self, other: &Self) -> bool {
        self.id == other.id
    }
}

impl vstd::std_specs::cmp::PartialEqSpecImpl for Specie {
    open spec fn obeys_eq_spec() -> bool {
        true
    }

    open spec fn eq_spec(&self, other: &Specie) -> bool {
        self.id_spec() == other.id_spec()
    }
}

} // verus!
