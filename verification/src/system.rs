//! The mutable simulation state: per-particle arrays inside a periodic
//! cell, and a builder that validates them at construction.

use vstd::prelude::*;

use crate::COORD_LIMIT;
use crate::SIZE_LIMIT;
use crate::cell::Cell;
use crate::elements::Element;
use crate::vector::Vector3;

verus! {

/// Collection of atomic properties and structural information.  The
/// per-particle arrays are index-aligned and all hold exactly `size`
/// entries for a well-formed system.
#[derive(Clone, Debug)]
pub struct System {
    /// Number of atoms in the system.
    pub size: usize,
    /// Simulation cell with periodic boundary conditions.
    pub cell: Cell,
    /// Element type for each atom in the system.
    pub elements: Vec<Element>,
    /// Molecule id for each atom in the system; used only for
    /// intra/inter-molecular restriction checks.
    pub molecules: Vec<usize>,
    /// Position of each atom in the system.
    pub positions: Vec<Vector3>,
    /// Velocity of each atom in the system.
    pub velocities: Vec<Vector3>,
    /// Electronic charge of each atom in the system.
    pub charges: Vec<i64>,
    /// Mass of each atom in the system, taken from its element.
    pub masses: Vec<i64>,
    /// Collection of bond indices grouped by bond type (data only; not
    /// interpreted by this kernel).
    pub bonds: Vec<Vec<(usize, usize)>>,
    /// Collection of angle triplet indices grouped by angle type (data
    /// only).
    pub angles: Vec<Vec<(usize, usize, usize)>>,
    /// Collection of dihedral quadruplet indices grouped by dihedral
    /// type (data only).
    pub dihedrals: Vec<Vec<(usize, usize, usize, usize)>>,
}

impl System {
    /// Every per-particle array holds `size` bounded entries, the cell
    /// is valid, and masses are positive.
    pub open spec fn wf(self) -> bool {
        &&& self.size <= SIZE_LIMIT
        &&& self.cell.wf()
        &&& self.elements.len() == self.size
        &&& self.molecules.len() == self.size
        &&& self.positions.len() == self.size
        &&& self.velocities.len() == self.size
        &&& self.charges.len() == self.size
        &&& self.masses.len() == self.size
        &&& forall|i: int|
            0 <= i < self.size ==> (#[trigger] self.positions@[i]).in_bounds(COORD_LIMIT as int)
        &&& forall|i: int|
            0 <= i < self.size ==> (#[trigger] self.velocities@[i]).in_bounds(COORD_LIMIT as int)
        &&& forall|i: int| 0 <= i < self.size ==> 0 < #[trigger] self.masses@[i] <= COORD_LIMIT
        &&& forall|i: int|
            0 <= i < self.size ==> -COORD_LIMIT <= #[trigger] self.charges@[i] <= COORD_LIMIT
    }

    /// Returns the number of atoms in the system.
    pub fn size(&self) -> (n: usize)
        ensures
            n == self.size,
    {
        self.size
    }
}

/// Fills a vector with `n` zero entries.
fn zero_usize_vec(n: usize) -> (v: Vec<usize>)
    ensures
        v@ =~= Seq::new(n as nat, |i: int| 0usize),
{
    let mut v: Vec<usize> = Vec::new();
    let mut k: usize = 0;
    while k < n
        invariant
            k <= n,
            v@ =~= Seq::new(k as nat, |i: int| 0usize),
        decreases n - k,
    {
        v.push(0);
        k = k + 1;
    }
    v
}

/// Fills a vector with `n` zero entries.
fn zero_i64_vec(n: usize) -> (v: Vec<i64>)
    ensures
        v@ =~= Seq::new(n as nat, |i: int| 0i64),
{
    let mut v: Vec<i64> = Vec::new();
    let mut k: usize = 0;
    while k < n
        invariant
            k <= n,
            v@ =~= Seq::new(k as nat, |i: int| 0i64),
        decreases n - k,
    {
        v.push(0);
        k = k + 1;
    }
    v
}

/// Fills a vector with `n` zero vectors.
pub(crate) fn zero_vector_vec(n: usize) -> (v: Vec<Vector3>)
    ensures
        v@ =~= Seq::new(n as nat, |i: int| Vector3 { x: 0i64, y: 0i64, z: 0i64 }),
{
    let mut v: Vec<Vector3> = Vec::new();
    let mut k: usize = 0;
    while k < n
        invariant
            k <= n,
            v@ =~= Seq::new(k as nat, |i: int| Vector3 { x: 0i64, y: 0i64, z: 0i64 }),
        decreases n - k,
    {
        v.push(Vector3 { x: 0, y: 0, z: 0 });
        k = k + 1;
    }
    v
}

/// Step-by-step constructor for [`System`]: mandatory attributes must be
/// supplied before [`SystemBuilder::finish`]; the rest default to zeros
/// or to empty lists.
#[derive(Clone, Debug)]
pub struct SystemBuilder {
    pub size: usize,
    pub cell: Option<Cell>,
    pub elements: Option<Vec<Element>>,
    pub molecules: Option<Vec<usize>>,
    pub positions: Option<Vec<Vector3>>,
    pub velocities: Option<Vec<Vector3>>,
    pub charges: Option<Vec<i64>>,
    pub bonds: Option<Vec<Vec<(usize, usize)>>>,
    pub angles: Option<Vec<Vec<(usize, usize, usize)>>>,
    pub dihedrals: Option<Vec<Vec<(usize, usize, usize, usize)>>>,
}

impl SystemBuilder {
    /// Starts a builder for a system of `size` atoms.
    pub fn new(size: usize) -> (b: SystemBuilder)
        requires
            size <= SIZE_LIMIT,
        ensures
            b.size == size,
            b.cell is None && b.elements is None && b.molecules is None && b.positions is None
                && b.velocities is None && b.charges is None && b.bonds is None && b.angles is None
                && b.dihedrals is None,
    {
        SystemBuilder {
            size,
            cell: None,
            elements: None,
            molecules: None,
            positions: None,
            velocities: None,
            charges: None,
            bonds: None,
            angles: None,
            dihedrals: None,
        }
    }

    /// Sets the simulation cell.
    pub fn with_cell(self, cell: Cell) -> (b: SystemBuilder)
        requires
            cell.wf(),
        ensures
            b == (SystemBuilder { cell: Some(cell), ..self }),
    {
        SystemBuilder { cell: Some(cell), ..self }
    }

    /// Sets the element of each atom.
    pub fn with_elements(self, elements: Vec<Element>) -> (b: SystemBuilder)
        requires
            elements.len() == self.size,
        ensures
            b == (SystemBuilder { elements: Some(elements), ..self }),
    {
        SystemBuilder { elements: Some(elements), ..self }
    }

    /// Sets the molecule id of each atom.
    pub fn with_molecules(self, molecules: Vec<usize>) -> (b: SystemBuilder)
        requires
            molecules.len() == self.size,
        ensures
            b == (SystemBuilder { molecules: Some(molecules), ..self }),
    {
        SystemBuilder { molecules: Some(molecules), ..self }
    }

    /// Sets the position of each atom.
    pub fn with_positions(self, positions: Vec<Vector3>) -> (b: SystemBuilder)
        requires
            positions.len() == self.size,
            forall|i: int|
                0 <= i < positions.len() ==> (#[trigger] positions@[i]).in_bounds(
                    COORD_LIMIT as int,
                ),
        ensures
            b == (SystemBuilder { positions: Some(positions), ..self }),
    {
        SystemBuilder { positions: Some(positions), ..self }
    }

    /// Sets the velocity of each atom.
    pub fn with_velocities(self, velocities: Vec<Vector3>) -> (b: SystemBuilder)
        requires
            velocities.len() == self.size,
            forall|i: int|
                0 <= i < velocities.len() ==> (#[trigger] velocities@[i]).in_bounds(
                    COORD_LIMIT as int,
                ),
        ensures
            b == (SystemBuilder { velocities: Some(velocities), ..self }),
    {
        SystemBuilder { velocities: Some(velocities), ..self }
    }

    /// Sets the charge of each atom.
    pub fn with_charges(self, charges: Vec<i64>) -> (b: SystemBuilder)
        requires
            charges.len() == self.size,
            forall|i: int| 0 <= i < charges.len() ==> -COORD_LIMIT <= #[trigger] charges@[i]
                <= COORD_LIMIT,
        ensures
            b == (SystemBuilder { charges: Some(charges), ..self }),
    {
        SystemBuilder { charges: Some(charges), ..self }
    }

    /// Sets the bonded-topology bond list.
    pub fn with_bonds(self, bonds: Vec<Vec<(usize, usize)>>) -> (b: SystemBuilder)
        ensures
            b == (SystemBuilder { bonds: Some(bonds), ..self }),
    {
        SystemBuilder { bonds: Some(bonds), ..self }
    }

    /// Sets the bonded-topology angle list.
    pub fn with_angles(self, angles: Vec<Vec<(usize, usize, usize)>>) -> (b: SystemBuilder)
        ensures
            b == (SystemBuilder { angles: Some(angles), ..self }),
    {
        SystemBuilder { angles: Some(angles), ..self }
    }

    /// Sets the bonded-topology dihedral list.
    pub fn with_dihedrals(self, dihedrals: Vec<Vec<(usize, usize, usize, usize)>>) -> (
        b: SystemBuilder)
        ensures
            b == (SystemBuilder { dihedrals: Some(dihedrals), ..self }),
    {
        SystemBuilder { dihedrals: Some(dihedrals), ..self }
    }

    /// Builds the system.  The cell, elements and positions are required
    /// attributes; missing optional attributes default to zeros or empty
    /// lists, and masses are taken from the elements.
    pub fn finish(self) -> (s: System)
        requires
            self.size <= SIZE_LIMIT,
            self.cell is Some && self.cell->0.wf(),
            self.elements is Some && self.elements->0.len() == self.size,
            self.positions is Some && self.positions->0.len() == self.size,
            forall|i: int|
                0 <= i < self.size ==> (#[trigger] self.positions->0@[i]).in_bounds(
                    COORD_LIMIT as int,
                ),
            self.molecules is Some ==> self.molecules->0.len() == self.size,
            self.velocities is Some ==> self.velocities->0.len() == self.size,
            self.velocities is Some ==> forall|i: int|
                0 <= i < self.size ==> (#[trigger] self.velocities->0@[i]).in_bounds(
                    COORD_LIMIT as int,
                ),
            self.charges is Some ==> self.charges->0.len() == self.size,
            self.charges is Some ==> forall|i: int|
                0 <= i < self.size ==> -COORD_LIMIT <= #[trigger] self.charges->0@[i]
                    <= COORD_LIMIT,
        ensures
            s.wf(),
            s.size == self.size,
            s.cell == self.cell->0,
            s.elements == self.elements->0,
            s.positions == self.positions->0,
            s.molecules@ == if self.molecules is Some {
                self.molecules->0@
            } else {
                Seq::new(self.size as nat, |i: int| 0usize)
            },
            s.velocities@ == if self.velocities is Some {
                self.velocities->0@
            } else {
                Seq::new(self.size as nat, |i: int| Vector3 { x: 0i64, y: 0i64, z: 0i64 })
            },
            s.charges@ == if self.charges is Some {
                self.charges->0@
            } else {
                Seq::new(self.size as nat, |i: int| 0i64)
            },
            s.masses@.len() == self.size,
            forall|i: int|
                0 <= i < self.size ==> #[trigger] s.masses@[i] == self.elements->0@[i].mass_spec(),
            s.bonds@ == if self.bonds is Some {
                self.bonds->0@
            } else {
                Seq::<Vec<(usize, usize)>>::empty()
            },
            s.angles@ == if self.angles is Some {
                self.angles->0@
            } else {
                Seq::<Vec<(usize, usize, usize)>>::empty()
            },
            s.dihedrals@ == if self.dihedrals is Some {
                self.dihedrals->0@
            } else {
                Seq::<Vec<(usize, usize, usize, usize)>>::empty()
            },
    {
        let size = self.size;
        let cell = match self.cell {
            Some(c) => c,
            None => unreached(),
        };
        let elements = match self.elements {
            Some(e) => e,
            None => unreached(),
        };
        let positions = match self.positions {
            Some(p) => p,
            None => unreached(),
        };
        let molecules = match self.molecules {
            Some(m) => m,
            None => zero_usize_vec(size),
        };
        let velocities = match self.velocities {
            Some(v) => v,
            None => zero_vector_vec(size),
        };
        let charges = match self.charges {
            Some(c) => c,
            None => zero_i64_vec(size),
        };
        let bonds = match self.bonds {
            Some(b) => b,
            None => Vec::new(),
        };
        let angles = match self.angles {
            Some(a) => a,
            None => Vec::new(),
        };
        let dihedrals = match self.dihedrals {
            Some(d) => d,
            None => Vec::new(),
        };
        let mut masses: Vec<i64> = Vec::new();
        let mut k: usize = 0;
        while k < elements.len()
            invariant
                k <= elements.len(),
                masses@.len() == k,
                forall|i: int| 0 <= i < k ==> #[trigger] masses@[i] == elements@[i].mass_spec(),
                forall|i: int| 0 <= i < k ==> 0 < #[trigger] masses@[i] <= COORD_LIMIT,
            decreases elements.len() - k,
        {
            let m = elements[k].mass();
            masses.push(m);
            k = k + 1;
        }
        System {
            size,
            cell,
            elements,
            molecules,
            positions,
            velocities,
            charges,
            masses,
            bonds,
            angles,
            dihedrals,
        }
    }
}

} // verus!
