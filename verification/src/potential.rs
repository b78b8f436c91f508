//! Interatomic potentials, their metadata, and the registry that pairs
//! them with pre-computed atom-pair selections.

use vstd::prelude::*;

use crate::COORD_LIMIT;
use crate::FOUR_PI_EPSILON_0;
use crate::SCALE;
use crate::ENTRY_LIMIT;
use crate::elements::Element;
use crate::system::System;
use crate::fixed::abs_int;
use crate::fixed::fdiv;
use crate::fixed::fdiv_i128;
use crate::fixed::fmul;
use crate::fixed::fmul_i128;
use crate::fixed::fmul_i64;
use crate::fixed::lemma_abs_div_le;
use crate::fixed::lemma_abs_mul_le;
use crate::fixed::tdiv;
use crate::fixed::tdiv_i128;

verus! {

/// Restriction mode of a potential: whether it applies to every eligible
/// pair, only across molecules, or only within one molecule.
#[derive(Clone, Copy, Debug, PartialEq, Eq, Structural)]
pub enum Restriction {
    /// The potential applies to every type-matched pair.
    Unrestricted,
    /// The potential applies only to atoms of different molecules.
    Intermolecular,
    /// The potential applies only to atoms of the same molecule.
    Intramolecular,
}

/// A pairwise potential: a pure function of the interatomic distance.
/// All parameters are fixed-point raw values.
#[derive(Clone, Copy, Debug, PartialEq, Eq, Structural)]
pub enum PairPotential {
    /// Harmonic well `0.5 * k * (r - r0)^2` with spring constant `k` and
    /// equilibrium distance `r0`.
    Harmonic { k: i64, r0: i64 },
    /// Lennard-Jones potential `4*eps*((sigma/r)^12 - (sigma/r)^6)`.
    LennardJones { epsilon: i64, sigma: i64 },
}

impl PairPotential {
    /// Parameters are nonnegative and bounded.
    pub open spec fn wf(self) -> bool {
        match self {
            PairPotential::Harmonic { k, r0 } => 0 <= k <= COORD_LIMIT && 0 <= r0 <= COORD_LIMIT,
            PairPotential::LennardJones { epsilon, sigma } => 0 <= epsilon <= COORD_LIMIT && 0
                < sigma <= COORD_LIMIT,
        }
    }

    /// Builds a harmonic potential.
    pub fn harmonic(k: i64, r0: i64) -> (p: PairPotential)
        requires
            0 <= k <= COORD_LIMIT,
            0 <= r0 <= COORD_LIMIT,
        ensures
            p == (PairPotential::Harmonic { k, r0 }),
            p.wf(),
    {
        PairPotential::Harmonic { k, r0 }
    }

    /// Builds a Lennard-Jones potential.
    pub fn lennard_jones(epsilon: i64, sigma: i64) -> (p: PairPotential)
        requires
            0 <= epsilon <= COORD_LIMIT,
            0 < sigma <= COORD_LIMIT,
        ensures
            p == (PairPotential::LennardJones { epsilon, sigma }),
            p.wf(),
    {
        PairPotential::LennardJones { epsilon, sigma }
    }

    /// Energy at distance `r`, in exact fixed-point arithmetic.
    pub open spec fn energy_spec(self, r: int) -> int {
        match self {
            PairPotential::Harmonic { k, r0 } => tdiv(fmul(fmul(k as int, r - r0), r - r0), 2),
            PairPotential::LennardJones { epsilon, sigma } => {
                let x = fdiv(sigma as int, r);
                let x2 = fmul(x, x);
                let x4 = fmul(x2, x2);
                let x6 = fmul(x4, x2);
                let x12 = fmul(x6, x6);
                fmul(4 * epsilon, x12 - x6)
            },
        }
    }

    /// Magnitude of the force along the line of centers at distance `r`.
    pub open spec fn force_spec(self, r: int) -> int {
        match self {
            PairPotential::Harmonic { k, r0 } => fmul(k as int, r - r0),
            PairPotential::LennardJones { epsilon, sigma } => {
                let x = fdiv(sigma as int, r);
                let x2 = fmul(x, x);
                let x4 = fmul(x2, x2);
                let x6 = fmul(x4, x2);
                let x12 = fmul(x6, x6);
                fdiv(fmul(24 * epsilon, 2 * x12 - x6), r)
            },
        }
    }

    /// Whether the energy at `r` is defined: the distance lies in the
    /// potential's domain and the value fits the narrow range.  Outside
    /// this set an evaluation is a numeric fault.
    pub open spec fn energy_ok(self, r: int) -> bool {
        &&& (self is LennardJones ==> r > 0 && self->sigma <= 10 * r)
        &&& -i64::MAX <= self.energy_spec(r) <= i64::MAX
    }

    /// Whether the force at `r` is defined, as [`Self::energy_ok`].
    pub open spec fn force_ok(self, r: int) -> bool {
        &&& (self is LennardJones ==> r > 0 && self->sigma <= 10 * r)
        &&& -i64::MAX <= self.force_spec(r) <= i64::MAX
    }

    /// Energy at distance `r`; `None` signals a numeric fault (a
    /// distance outside the potential's domain, or a value out of
    /// range).
    pub fn energy(&self, r: i64) -> (res: Option<i64>)
        requires
            self.wf(),
            0 <= r <= COORD_LIMIT,
        ensures
            match res {
                Some(e) => self.energy_ok(r as int) && e == self.energy_spec(r as int),
                None => !self.energy_ok(r as int),
            },
    {
        match *self {
            PairPotential::Harmonic { k, r0 } => {
                let d: i64 = r - r0;
                let t1: i128 = fmul_i64(k, d);
                proof {
                    lemma_abs_mul_le(k as int, d as int, COORD_LIMIT as int, 2 * COORD_LIMIT);
                    lemma_abs_div_le(
                        (k as int) * (d as int),
                        SCALE as int,
                        10_000_000_000_000_000_000_000_000,
                    );
                    lemma_abs_mul_le(
                        t1 as int,
                        d as int,
                        10_000_000_000_000_000,
                        2 * COORD_LIMIT,
                    );
                }
                let t2: i128 = fmul_i128(t1, d as i128);
                let e: i128 = tdiv_i128(t2, 2);
                if -i64::MAX as i128 <= e && e <= i64::MAX as i128 {
                    Some(e as i64)
                } else {
                    None
                }
            },
            PairPotential::LennardJones { epsilon, sigma } => {
                if r <= 0 || sigma > 10 * r {
                    return None;
                }
                let (x6, x12) = lj_powers(sigma, r);
                proof {
                    lemma_abs_mul_le(
                        4 * epsilon as int,
                        x12 - x6,
                        4 * COORD_LIMIT as int,
                        2 * LJ_X12_BOUND as int,
                    );
                }
                let e: i128 = fmul_i128(4 * (epsilon as i128), x12 - x6);
                if -i64::MAX as i128 <= e && e <= i64::MAX as i128 {
                    Some(e as i64)
                } else {
                    None
                }
            },
        }
    }

    /// Force magnitude at distance `r`; `None` signals a numeric fault.
    pub fn force(&self, r: i64) -> (res: Option<i64>)
        requires
            self.wf(),
            0 <= r <= COORD_LIMIT,
        ensures
            match res {
                Some(f) => self.force_ok(r as int) && f == self.force_spec(r as int),
                None => !self.force_ok(r as int),
            },
    {
        match *self {
            PairPotential::Harmonic { k, r0 } => {
                let d: i64 = r - r0;
                let f: i128 = fmul_i64(k, d);
                proof {
                    lemma_abs_mul_le(k as int, d as int, COORD_LIMIT as int, 2 * COORD_LIMIT);
                }
                if -i64::MAX as i128 <= f && f <= i64::MAX as i128 {
                    Some(f as i64)
                } else {
                    None
                }
            },
            PairPotential::LennardJones { epsilon, sigma } => {
                if r <= 0 || sigma > 10 * r {
                    return None;
                }
                let (x6, x12) = lj_powers(sigma, r);
                proof {
                    lemma_abs_mul_le(
                        24 * epsilon as int,
                        2 * x12 - x6,
                        24 * COORD_LIMIT as int,
                        3 * LJ_X12_BOUND as int,
                    );
                    lemma_abs_div_le(
                        (24 * epsilon as int) * (2 * x12 - x6),
                        SCALE as int,
                        200_000_000_000_000_000_000_000_000_000_000_000,
                    );
                }
                let t: i128 = fmul_i128(24 * (epsilon as i128), 2 * x12 - x6);
                proof {
                    lemma_abs_mul_le(
                        t as int,
                        SCALE as int,
                        200_000_000_000_000_000_000_000_000,
                        SCALE as int,
                    );
                }
                let f: i128 = fdiv_i128(t, r as i128);
                if -i64::MAX as i128 <= f && f <= i64::MAX as i128 {
                    Some(f as i64)
                } else {
                    None
                }
            },
        }
    }
}

/// Magnitude bound on the scaled twelfth power of the Lennard-Jones
/// ratio, which the domain restriction `sigma <= 10 * r` keeps at
/// `10^12` physical units.
pub const LJ_X12_BOUND: i128 = 1_000_000_000_000_000_000_000;

/// Computes the sixth and twelfth powers of the Lennard-Jones ratio
/// `sigma / r` in fixed-point arithmetic.
fn lj_powers(sigma: i64, r: i64) -> (p: (i128, i128))
    requires
        0 < sigma <= COORD_LIMIT,
        0 < r <= COORD_LIMIT,
        sigma <= 10 * r,
    ensures
        ({
            let x = fdiv(sigma as int, r as int);
            let x2 = fmul(x, x);
            let x4 = fmul(x2, x2);
            let x6 = fmul(x4, x2);
            let x12 = fmul(x6, x6);
            p.0 == x6 && p.1 == x12 && abs_int(p.0 as int) <= LJ_X12_BOUND && abs_int(p.1 as int)
                <= LJ_X12_BOUND as int
        }),
{
    let s = SCALE as i128;
    proof {
        lemma_abs_mul_le(sigma as int, SCALE as int, 10 * (r as int), SCALE as int);
        lemma_abs_div_le(
            (sigma as int) * (SCALE as int),
            r as int,
            (10 * (r as int)) * (SCALE as int),
        );
        assert((10 * (r as int)) * (SCALE as int) / (r as int) <= 10 * SCALE)
            by (nonlinear_arith)
            requires
                r > 0,
                SCALE > 0,
        ;
    }
    let x: i128 = fdiv_i128(sigma as i128, r as i128);
    proof {
        lemma_abs_mul_le(x as int, x as int, 10 * SCALE, 10 * SCALE);
    }
    let x2: i128 = fmul_i128(x, x);
    proof {
        lemma_abs_mul_le(x2 as int, x2 as int, 100 * SCALE, 100 * SCALE);
    }
    let x4: i128 = fmul_i128(x2, x2);
    proof {
        lemma_abs_mul_le(x4 as int, x2 as int, 10000 * SCALE, 100 * SCALE);
    }
    let x6: i128 = fmul_i128(x4, x2);
    proof {
        lemma_abs_mul_le(x6 as int, x6 as int, 1000000 * SCALE, 1000000 * SCALE);
    }
    let x12: i128 = fmul_i128(x6, x6);
    (x6, x12)
}

/// A coulombic potential: a pure function of the two charges and the
/// distance.
#[derive(Clone, Copy, Debug, PartialEq, Eq, Structural)]
pub enum CoulombPotential {
    /// Plain Coulomb interaction `q1*q2 / (4*pi*eps0 * r)`.
    Standard,
}

impl CoulombPotential {
    /// Energy of the charge pair at distance `r`.
    pub open spec fn energy_spec(self, q1: int, q2: int, r: int) -> int {
        fdiv(fdiv(fmul(q1, q2), FOUR_PI_EPSILON_0 as int), r)
    }

    /// Magnitude of the force along the line of centers.
    pub open spec fn force_spec(self, q1: int, q2: int, r: int) -> int {
        fdiv(self.energy_spec(q1, q2, r), r)
    }

    /// Whether the energy is defined: positive distance and a value in
    /// the narrow range.
    pub open spec fn energy_ok(self, q1: int, q2: int, r: int) -> bool {
        r > 0 && -i64::MAX <= self.energy_spec(q1, q2, r) <= i64::MAX
    }

    /// Whether the force is defined, as [`Self::energy_ok`].
    pub open spec fn force_ok(self, q1: int, q2: int, r: int) -> bool {
        r > 0 && -i64::MAX <= self.force_spec(q1, q2, r) <= i64::MAX
    }

    /// Energy of the charge pair at distance `r`; `None` signals a
    /// numeric fault.
    pub fn energy(&self, q1: i64, q2: i64, r: i64) -> (res: Option<i64>)
        requires
            -COORD_LIMIT <= q1 <= COORD_LIMIT,
            -COORD_LIMIT <= q2 <= COORD_LIMIT,
            0 <= r <= COORD_LIMIT,
        ensures
            match res {
                Some(e) => self.energy_ok(q1 as int, q2 as int, r as int) && e == self.energy_spec(
                    q1 as int,
                    q2 as int,
                    r as int,
                ),
                None => !self.energy_ok(q1 as int, q2 as int, r as int),
            },
    {
        if r <= 0 {
            return None;
        }
        let e: i128 = coulomb_energy_raw(q1, q2, r);
        if -i64::MAX as i128 <= e && e <= i64::MAX as i128 {
            Some(e as i64)
        } else {
            None
        }
    }

    /// Force magnitude of the charge pair at distance `r`; `None`
    /// signals a numeric fault.
    pub fn force(&self, q1: i64, q2: i64, r: i64) -> (res: Option<i64>)
        requires
            -COORD_LIMIT <= q1 <= COORD_LIMIT,
            -COORD_LIMIT <= q2 <= COORD_LIMIT,
            0 <= r <= COORD_LIMIT,
        ensures
            match res {
                Some(f) => self.force_ok(q1 as int, q2 as int, r as int) && f == self.force_spec(
                    q1 as int,
                    q2 as int,
                    r as int,
                ),
                None => !self.force_ok(q1 as int, q2 as int, r as int),
            },
    {
        if r <= 0 {
            return None;
        }
        let e: i128 = coulomb_energy_raw(q1, q2, r);
        proof {
            lemma_abs_mul_le(e as int, SCALE as int, COULOMB_E_BOUND as int, SCALE as int);
        }
        let f: i128 = fdiv_i128(e, r as i128);
        if -i64::MAX as i128 <= f && f <= i64::MAX as i128 {
            Some(f as i64)
        } else {
            None
        }
    }
}

/// Magnitude bound on the raw coulomb energy of bounded charges at unit
/// raw distance.
pub const COULOMB_E_BOUND: i128 = 1_000_000_000_000_000_000_000_000;

/// Computes the coulomb energy in wide fixed-point arithmetic.
fn coulomb_energy_raw(q1: i64, q2: i64, r: i64) -> (e: i128)
    requires
        -COORD_LIMIT <= q1 <= COORD_LIMIT,
        -COORD_LIMIT <= q2 <= COORD_LIMIT,
        0 < r <= COORD_LIMIT,
    ensures
        e == fdiv(fdiv(fmul(q1 as int, q2 as int), FOUR_PI_EPSILON_0 as int), r as int),
        abs_int(e as int) <= COULOMB_E_BOUND as int,
{
    let t: i128 = fmul_i64(q1, q2);
    proof {
        lemma_abs_mul_le(q1 as int, q2 as int, COORD_LIMIT as int, COORD_LIMIT as int);
        lemma_abs_div_le(
            (q1 as int) * (q2 as int),
            SCALE as int,
            5_000_000_000_000_000_000_000_000,
        );
        lemma_abs_mul_le(t as int, SCALE as int, 5_000_000_000_000_000, SCALE as int);
        lemma_abs_div_le(
            (t as int) * (SCALE as int),
            FOUR_PI_EPSILON_0 as int,
            5_000_000_000_000_000_000_000_000,
        );
    }
    let u: i128 = fdiv_i128(t, FOUR_PI_EPSILON_0 as i128);
    proof {
        lemma_abs_mul_le(u as int, SCALE as int, 700_000_000_000_000, SCALE as int);
    }
    let e: i128 = fdiv_i128(u, r as i128);
    proof {
        lemma_abs_div_le((u as int) * (SCALE as int), r as int, 700_000_000_000_000_000_000_000);
    }
    e
}

/// Metadata attached to a pairwise potential: the unordered pair of
/// element types it applies to, its cutoff radius, and its restriction
/// mode.
#[derive(Clone, Copy, Debug)]
pub struct PairPotentialMeta {
    pub elements: (Element, Element),
    pub cutoff: i64,
    pub restriction: Restriction,
}

impl PairPotentialMeta {
    /// The cutoff is nonnegative and bounded.
    pub open spec fn wf(self) -> bool {
        0 <= self.cutoff <= COORD_LIMIT
    }

    /// Builds pairwise metadata.
    pub fn new(elements: (Element, Element), cutoff: i64, restriction: Restriction) -> (
        m: PairPotentialMeta)
        requires
            0 <= cutoff <= COORD_LIMIT,
        ensures
            m == (PairPotentialMeta { elements, cutoff, restriction }),
            m.wf(),
    {
        PairPotentialMeta { elements, cutoff, restriction }
    }
}

/// Metadata attached to a coulombic potential: its cutoff radius and its
/// restriction mode.  Coulombic interactions apply to every charge pair,
/// so no type pair is named.
#[derive(Clone, Copy, Debug, PartialEq, Eq, Structural)]
pub struct CoulombPotentialMeta {
    pub cutoff: i64,
    pub restriction: Restriction,
}

impl CoulombPotentialMeta {
    /// The cutoff is nonnegative and bounded.
    pub open spec fn wf(self) -> bool {
        0 <= self.cutoff <= COORD_LIMIT
    }

    /// Builds coulombic metadata.
    pub fn new(cutoff: i64, restriction: Restriction) -> (m: CoulombPotentialMeta)
        requires
            0 <= cutoff <= COORD_LIMIT,
        ensures
            m == (CoulombPotentialMeta { cutoff, restriction }),
            m.wf(),
    {
        CoulombPotentialMeta { cutoff, restriction }
    }
}

/// Whether the restriction mode admits the particle pair `(i, j)`.
pub open spec fn restriction_ok(sys: System, restr: Restriction, i: int, j: int) -> bool {
    match restr {
        Restriction::Unrestricted => true,
        Restriction::Intermolecular => sys.molecules@[i] != sys.molecules@[j],
        Restriction::Intramolecular => sys.molecules@[i] == sys.molecules@[j],
    }
}

/// Whether the particles' element types match the metadata's type pair,
/// in either order.
pub open spec fn pair_type_match(sys: System, meta: PairPotentialMeta, i: int, j: int) -> bool {
    ||| (sys.elements@[i] == meta.elements.0 && sys.elements@[j] == meta.elements.1)
    ||| (sys.elements@[i] == meta.elements.1 && sys.elements@[j] == meta.elements.0)
}

/// Whether the ordered pair `(i, j)` is eligible for a pairwise entry:
/// indices in range and increasing, element types matched (unordered),
/// and the restriction satisfied.  The cutoff is checked at evaluation
/// time, not here, because distances change every step.
pub open spec fn pair_eligible(sys: System, meta: PairPotentialMeta, i: int, j: int) -> bool {
    &&& 0 <= i < j < sys.size as int
    &&& pair_type_match(sys, meta, i, j)
    &&& restriction_ok(sys, meta.restriction, i, j)
}

/// Whether the ordered pair `(i, j)` is eligible for a coulombic entry:
/// indices in range and increasing, and the restriction satisfied.
pub open spec fn coulomb_eligible(sys: System, meta: CoulombPotentialMeta, i: int, j: int) -> bool {
    &&& 0 <= i < j < sys.size as int
    &&& restriction_ok(sys, meta.restriction, i, j)
}

/// Strict lexicographic order on index pairs.
pub open spec fn lex_lt(p: (usize, usize), q: (usize, usize)) -> bool {
    p.0 < q.0 || (p.0 == q.0 && p.1 < q.1)
}

/// The selection is exactly the eligible pairs of the system, in
/// lexicographic order, each once.
pub open spec fn pair_selection_exact(
    sel: Seq<(usize, usize)>,
    sys: System,
    meta: PairPotentialMeta,
) -> bool {
    &&& sel.len() <= sys.size * sys.size
    &&& forall|k: int|
        0 <= k < sel.len() ==> pair_eligible(
            sys,
            meta,
            (#[trigger] sel[k]).0 as int,
            sel[k].1 as int,
        )
    &&& forall|i: int, j: int|
        #[trigger] pair_eligible(sys, meta, i, j) ==> sel.contains((i as usize, j as usize))
    &&& forall|k1: int, k2: int|
        0 <= k1 < k2 < sel.len() ==> lex_lt(#[trigger] sel[k1], #[trigger] sel[k2])
}

/// The selection is exactly the eligible pairs of the system, in
/// lexicographic order, each once.
pub open spec fn coulomb_selection_exact(
    sel: Seq<(usize, usize)>,
    sys: System,
    meta: CoulombPotentialMeta,
) -> bool {
    &&& sel.len() <= sys.size * sys.size
    &&& forall|k: int|
        0 <= k < sel.len() ==> coulomb_eligible(
            sys,
            meta,
            (#[trigger] sel[k]).0 as int,
            sel[k].1 as int,
        )
    &&& forall|i: int, j: int|
        #[trigger] coulomb_eligible(sys, meta, i, j) ==> sel.contains((i as usize, j as usize))
    &&& forall|k1: int, k2: int|
        0 <= k1 < k2 < sel.len() ==> lex_lt(#[trigger] sel[k1], #[trigger] sel[k2])
}

/// Runtime check of [`restriction_ok`].
fn restriction_check(sys: &System, restr: Restriction, i: usize, j: usize) -> (ok: bool)
    requires
        sys.wf(),
        i < sys.size,
        j < sys.size,
    ensures
        ok == restriction_ok(*sys, restr, i as int, j as int),
{
    match restr {
        Restriction::Unrestricted => true,
        Restriction::Intermolecular => sys.molecules[i] != sys.molecules[j],
        Restriction::Intramolecular => sys.molecules[i] == sys.molecules[j],
    }
}

/// Builds the eligible-pair selection for a pairwise entry.
fn build_pair_selection(sys: &System, meta: &PairPotentialMeta) -> (sel: Vec<(usize, usize)>)
    requires
        sys.wf(),
    ensures
        pair_selection_exact(sel@, *sys, *meta),
{
    let n = sys.size;
    let mut sel: Vec<(usize, usize)> = Vec::new();
    let mut i: usize = 0;
    while i < n
        invariant
            sys.wf(),
            n == sys.size,
            i <= n,
            sel@.len() <= i * n,
            forall|k: int|
                0 <= k < sel@.len() ==> pair_eligible(
                    *sys,
                    *meta,
                    (#[trigger] sel@[k]).0 as int,
                    sel@[k].1 as int,
                ),
            forall|k: int| 0 <= k < sel@.len() ==> (#[trigger] sel@[k]).0 < i,
            forall|a: int, b: int|
                #[trigger] pair_eligible(*sys, *meta, a, b) && a < i ==> sel@.contains(
                    (a as usize, b as usize),
                ),
            forall|k1: int, k2: int|
                0 <= k1 < k2 < sel@.len() ==> lex_lt(#[trigger] sel@[k1], #[trigger] sel@[k2]),
        decreases n - i,
    {
        let mut j: usize = i + 1;
        while j < n
            invariant
                sys.wf(),
                n == sys.size,
                i < n,
                i < j <= n,
                sel@.len() <= i * n + j,
                forall|k: int|
                    0 <= k < sel@.len() ==> pair_eligible(
                        *sys,
                        *meta,
                        (#[trigger] sel@[k]).0 as int,
                        sel@[k].1 as int,
                    ),
                forall|k: int|
                    0 <= k < sel@.len() ==> (#[trigger] sel@[k]).0 < i || (sel@[k].0 == i
                        && sel@[k].1 < j),
                forall|a: int, b: int|
                    #[trigger] pair_eligible(*sys, *meta, a, b) && (a < i || (a == i && b < j))
                        ==> sel@.contains((a as usize, b as usize)),
                forall|k1: int, k2: int|
                    0 <= k1 < k2 < sel@.len() ==> lex_lt(#[trigger] sel@[k1], #[trigger] sel@[k2]),
            decreases n - j,
        {
            let type_ok = (sys.elements[i] == meta.elements.0 && sys.elements[j]
                == meta.elements.1) || (sys.elements[i] == meta.elements.1 && sys.elements[j]
                == meta.elements.0);
            let restr_ok = restriction_check(sys, meta.restriction, i, j);
            let ghost prev = sel@;
            if type_ok && restr_ok {
                sel.push((i, j));
            }
            proof {
                assert forall|a: int, b: int|
                    #[trigger] pair_eligible(*sys, *meta, a, b) && (a < i || (a == i && b < j + 1))
                        implies sel@.contains((a as usize, b as usize)) by {
                    if a == i && b == j {
                        assert(sel@.last() == (i, j));
                        assert(sel@.contains((a as usize, b as usize)));
                    } else {
                        assert(prev.contains((a as usize, b as usize)));
                        if prev.len() < sel@.len() {
                            let q = choose|k: int|
                                0 <= k < prev.len() && prev[k] == (a as usize, b as usize);
                            assert(sel@[q] == (a as usize, b as usize));
                            assert(sel@.contains((a as usize, b as usize)));
                        }
                    }
                }
            }
            j = j + 1;
        }
        proof {
            assert(sel@.len() <= (i + 1) * n) by (nonlinear_arith)
                requires
                    sel@.len() <= i * n + n,
            ;
        }
        i = i + 1;
    }
    sel
}

/// Builds the eligible-pair selection for a coulombic entry.
fn build_coulomb_selection(sys: &System, meta: &CoulombPotentialMeta) -> (sel: Vec<(usize, usize)>)
    requires
        sys.wf(),
    ensures
        coulomb_selection_exact(sel@, *sys, *meta),
{
    let n = sys.size;
    let mut sel: Vec<(usize, usize)> = Vec::new();
    let mut i: usize = 0;
    while i < n
        invariant
            sys.wf(),
            n == sys.size,
            i <= n,
            sel@.len() <= i * n,
            forall|k: int|
                0 <= k < sel@.len() ==> coulomb_eligible(
                    *sys,
                    *meta,
                    (#[trigger] sel@[k]).0 as int,
                    sel@[k].1 as int,
                ),
            forall|k: int| 0 <= k < sel@.len() ==> (#[trigger] sel@[k]).0 < i,
            forall|a: int, b: int|
                #[trigger] coulomb_eligible(*sys, *meta, a, b) && a < i ==> sel@.contains(
                    (a as usize, b as usize),
                ),
            forall|k1: int, k2: int|
                0 <= k1 < k2 < sel@.len() ==> lex_lt(#[trigger] sel@[k1], #[trigger] sel@[k2]),
        decreases n - i,
    {
        let mut j: usize = i + 1;
        while j < n
            invariant
                sys.wf(),
                n == sys.size,
                i < n,
                i < j <= n,
                sel@.len() <= i * n + j,
                forall|k: int|
                    0 <= k < sel@.len() ==> coulomb_eligible(
                        *sys,
                        *meta,
                        (#[trigger] sel@[k]).0 as int,
                        sel@[k].1 as int,
                    ),
                forall|k: int|
                    0 <= k < sel@.len() ==> (#[trigger] sel@[k]).0 < i || (sel@[k].0 == i
                        && sel@[k].1 < j),
                forall|a: int, b: int|
                    #[trigger] coulomb_eligible(*sys, *meta, a, b) && (a < i || (a == i && b < j))
                        ==> sel@.contains((a as usize, b as usize)),
                forall|k1: int, k2: int|
                    0 <= k1 < k2 < sel@.len() ==> lex_lt(#[trigger] sel@[k1], #[trigger] sel@[k2]),
            decreases n - j,
        {
            let restr_ok = restriction_check(sys, meta.restriction, i, j);
            let ghost prev = sel@;
            if restr_ok {
                sel.push((i, j));
            }
            proof {
                assert forall|a: int, b: int|
                    #[trigger] coulomb_eligible(*sys, *meta, a, b) && (a < i || (a == i && b < j
                        + 1)) implies sel@.contains((a as usize, b as usize)) by {
                    if a == i && b == j {
                        assert(sel@.last() == (i, j));
                        assert(sel@.contains((a as usize, b as usize)));
                    } else {
                        assert(prev.contains((a as usize, b as usize)));
                        if prev.len() < sel@.len() {
                            let q = choose|k: int|
                                0 <= k < prev.len() && prev[k] == (a as usize, b as usize);
                            assert(sel@[q] == (a as usize, b as usize));
                            assert(sel@.contains((a as usize, b as usize)));
                        }
                    }
                }
            }
            j = j + 1;
        }
        proof {
            assert(sel@.len() <= (i + 1) * n) by (nonlinear_arith)
                requires
                    sel@.len() <= i * n + n,
            ;
        }
        i = i + 1;
    }
    sel
}

/// One registered pairwise interaction: the potential, its metadata, and
/// the pre-computed eligible-pair selection.
#[derive(Clone, Debug)]
pub struct PairSlot {
    pub potential: PairPotential,
    pub meta: PairPotentialMeta,
    pub selection: Vec<(usize, usize)>,
}

/// One registered coulombic interaction.
#[derive(Clone, Debug)]
pub struct CoulombSlot {
    pub potential: CoulombPotential,
    pub meta: CoulombPotentialMeta,
    pub selection: Vec<(usize, usize)>,
}

/// The potential registry: ordered collections of pairwise and coulombic
/// entries, each with its eligible-pair selection.
#[derive(Clone, Debug)]
pub struct Potentials {
    pub pair_slots: Vec<PairSlot>,
    pub coulomb_slots: Vec<CoulombSlot>,
}

impl Potentials {
    /// Every registered potential and metadata is well-formed, and the
    /// registry is bounded.
    pub open spec fn wf(self) -> bool {
        &&& self.pair_slots.len() <= ENTRY_LIMIT
        &&& self.coulomb_slots.len() <= ENTRY_LIMIT
        &&& forall|s: int|
            0 <= s < self.pair_slots.len() ==> (#[trigger] self.pair_slots@[s]).potential.wf()
                && self.pair_slots@[s].meta.wf()
        &&& forall|s: int|
            0 <= s < self.coulomb_slots.len() ==> (#[trigger] self.coulomb_slots@[s]).meta.wf()
    }

    /// Every selection of every entry is exactly the eligible pairs of
    /// `sys`: what [`Potentials::setup`] establishes.
    pub open spec fn selections_exact(self, sys: System) -> bool {
        &&& forall|s: int|
            0 <= s < self.pair_slots.len() ==> pair_selection_exact(
                (#[trigger] self.pair_slots@[s]).selection@,
                sys,
                self.pair_slots@[s].meta,
            )
        &&& forall|s: int|
            0 <= s < self.coulomb_slots.len() ==> coulomb_selection_exact(
                (#[trigger] self.coulomb_slots@[s]).selection@,
                sys,
                self.coulomb_slots@[s].meta,
            )
    }

    /// Starts an empty registry.
    pub fn new() -> (p: Potentials)
        ensures
            p.pair_slots@.len() == 0,
            p.coulomb_slots@.len() == 0,
            p.wf(),
    {
        Potentials { pair_slots: Vec::new(), coulomb_slots: Vec::new() }
    }

    /// Registers a pairwise interaction.  Its eligible-pair selection is
    /// empty until [`Potentials::setup`] sees a system.
    pub fn add_pair(&mut self, potential: PairPotential, meta: PairPotentialMeta)
        requires
            old(self).wf(),
            old(self).pair_slots.len() < ENTRY_LIMIT,
            potential.wf(),
            meta.wf(),
        ensures
            final(self).wf(),
            final(self).pair_slots@.len() == old(self).pair_slots@.len() + 1,
            forall|s: int|
                0 <= s < old(self).pair_slots@.len() ==> #[trigger] final(self).pair_slots@[s]
                    == old(self).pair_slots@[s],
            final(self).pair_slots@.last().potential == potential,
            final(self).pair_slots@.last().meta == meta,
            final(self).pair_slots@.last().selection@.len() == 0,
            final(self).coulomb_slots == old(self).coulomb_slots,
    {
        self.pair_slots.push(PairSlot { potential, meta, selection: Vec::new() });
    }

    /// Registers a coulombic interaction.
    pub fn add_coulombic(&mut self, potential: CoulombPotential, meta: CoulombPotentialMeta)
        requires
            old(self).wf(),
            old(self).coulomb_slots.len() < ENTRY_LIMIT,
            meta.wf(),
        ensures
            final(self).wf(),
            final(self).coulomb_slots@.len() == old(self).coulomb_slots@.len() + 1,
            forall|s: int|
                0 <= s < old(self).coulomb_slots@.len() ==> #[trigger] final(self).coulomb_slots@[s]
                    == old(self).coulomb_slots@[s],
            final(self).coulomb_slots@.last().potential == potential,
            final(self).coulomb_slots@.last().meta == meta,
            final(self).coulomb_slots@.last().selection@.len() == 0,
            final(self).pair_slots == old(self).pair_slots,
    {
        self.coulomb_slots.push(CoulombSlot { potential, meta, selection: Vec::new() });
    }

    /// Builds every entry's eligible-pair selection from the current
    /// system state; called once before integration begins.
    pub fn setup(&mut self, sys: &System)
        requires
            old(self).wf(),
            sys.wf(),
        ensures
            final(self).wf(),
            final(self).pair_slots@.len() == old(self).pair_slots@.len(),
            final(self).coulomb_slots@.len() == old(self).coulomb_slots@.len(),
            forall|s: int|
                0 <= s < final(self).pair_slots@.len() ==> (#[trigger] final(self).pair_slots@[s]).potential == old(self).pair_slots@[s].potential && final(self).pair_slots@[s].meta == old(self).pair_slots@[s].meta,
            forall|s: int|
                0 <= s < final(self).coulomb_slots@.len() ==> (#[trigger] final(self).coulomb_slots@[s]).potential == old(self).coulomb_slots@[s].potential && final(self).coulomb_slots@[s].meta == old(self).coulomb_slots@[s].meta,
            final(self).selections_exact(*sys),
    {
        let mut new_pairs: Vec<PairSlot> = Vec::new();
        let mut s: usize = 0;
        while s < self.pair_slots.len()
            invariant
                sys.wf(),
                old(self).wf(),
                self == old(self),
                s <= self.pair_slots.len(),
                new_pairs@.len() == s,
                forall|t: int|
                    0 <= t < s ==> (#[trigger] new_pairs@[t]).potential
                        == self.pair_slots@[t].potential && new_pairs@[t].meta
                        == self.pair_slots@[t].meta,
                forall|t: int|
                    0 <= t < s ==> pair_selection_exact(
                        (#[trigger] new_pairs@[t]).selection@,
                        *sys,
                        self.pair_slots@[t].meta,
                    ),
            decreases self.pair_slots.len() - s,
        {
            let sel = build_pair_selection(sys, &self.pair_slots[s].meta);
            new_pairs.push(
                PairSlot {
                    potential: self.pair_slots[s].potential,
                    meta: self.pair_slots[s].meta,
                    selection: sel,
                },
            );
            s = s + 1;
        }
        let mut new_coulombs: Vec<CoulombSlot> = Vec::new();
        let mut s: usize = 0;
        while s < self.coulomb_slots.len()
            invariant
                sys.wf(),
                old(self).wf(),
                self == old(self),
                s <= self.coulomb_slots.len(),
                new_coulombs@.len() == s,
                forall|t: int|
                    0 <= t < s ==> (#[trigger] new_coulombs@[t]).potential
                        == self.coulomb_slots@[t].potential && new_coulombs@[t].meta
                        == self.coulomb_slots@[t].meta,
                forall|t: int|
                    0 <= t < s ==> coulomb_selection_exact(
                        (#[trigger] new_coulombs@[t]).selection@,
                        *sys,
                        self.coulomb_slots@[t].meta,
                    ),
            decreases self.coulomb_slots.len() - s,
        {
            let sel = build_coulomb_selection(sys, &self.coulomb_slots[s].meta);
            new_coulombs.push(
                CoulombSlot {
                    potential: self.coulomb_slots[s].potential,
                    meta: self.coulomb_slots[s].meta,
                    selection: sel,
                },
            );
            s = s + 1;
        }
        self.pair_slots = new_pairs;
        self.coulomb_slots = new_coulombs;
    }

    /// Refreshes every selection once per integration step, so that a
    /// change of molecular membership is picked up.
    pub fn update(&mut self, sys: &System, step: usize)
        requires
            old(self).wf(),
            sys.wf(),
        ensures
            final(self).wf(),
            final(self).pair_slots@.len() == old(self).pair_slots@.len(),
            final(self).coulomb_slots@.len() == old(self).coulomb_slots@.len(),
            forall|s: int|
                0 <= s < final(self).pair_slots@.len() ==> (#[trigger] final(self).pair_slots@[s]).potential == old(self).pair_slots@[s].potential && final(self).pair_slots@[s].meta == old(self).pair_slots@[s].meta,
            forall|s: int|
                0 <= s < final(self).coulomb_slots@.len() ==> (#[trigger] final(self).coulomb_slots@[s]).potential == old(self).coulomb_slots@[s].potential && final(self).coulomb_slots@[s].meta == old(self).coulomb_slots@[s].meta,
            final(self).selections_exact(*sys),
    {
        let _ = step;
        self.setup(sys);
    }

    /// The registered pairwise entries, in registration order, for
    /// consumers that iterate per entry.
    pub fn pairs(&self) -> (r: &Vec<PairSlot>)
        ensures
            r@ == self.pair_slots@,
    {
        &self.pair_slots
    }

    /// The registered coulombic entries, in registration order.
    pub fn coulombic(&self) -> (r: &Vec<CoulombSlot>)
        ensures
            r@ == self.coulomb_slots@,
    {
        &self.coulomb_slots
    }

    /// Number of registered pairwise entries.
    pub fn pair_count(&self) -> (n: usize)
        ensures
            n == self.pair_slots@.len(),
    {
        self.pair_slots.len()
    }

    /// Number of registered coulombic entries.
    pub fn coulomb_count(&self) -> (n: usize)
        ensures
            n == self.coulomb_slots@.len(),
    {
        self.coulomb_slots.len()
    }
}


/// Eligibility reads only the particle count, the element types and the
/// molecule ids: selections built for one system stay exact for any
/// system with the same topology (positions and velocities may differ).
pub proof fn lemma_selections_exact_same_topology(p: Potentials, s1: System, s2: System)
    requires
        p.selections_exact(s1),
        s2.size == s1.size,
        s2.elements@ == s1.elements@,
        s2.molecules@ == s1.molecules@,
    ensures
        p.selections_exact(s2),
{
    assert forall|s: int| 0 <= s < p.pair_slots.len() implies pair_selection_exact(
        (#[trigger] p.pair_slots@[s]).selection@,
        s2,
        p.pair_slots@[s].meta,
    ) by {
        let sel = p.pair_slots@[s].selection@;
        let meta = p.pair_slots@[s].meta;
        assert forall|i: int, j: int| pair_eligible(s1, meta, i, j) == #[trigger] pair_eligible(
            s2,
            meta,
            i,
            j,
        ) by {}
        assert forall|k: int| 0 <= k < sel.len() implies pair_eligible(
            s2,
            meta,
            (#[trigger] sel[k]).0 as int,
            sel[k].1 as int,
        ) by {
            assert(pair_eligible(s1, meta, sel[k].0 as int, sel[k].1 as int));
        }
        assert forall|i: int, j: int| #[trigger] pair_eligible(s2, meta, i, j) implies sel.contains(
            (i as usize, j as usize),
        ) by {
            assert(pair_eligible(s1, meta, i, j));
        }
    }
    assert forall|s: int| 0 <= s < p.coulomb_slots.len() implies coulomb_selection_exact(
        (#[trigger] p.coulomb_slots@[s]).selection@,
        s2,
        p.coulomb_slots@[s].meta,
    ) by {
        let sel = p.coulomb_slots@[s].selection@;
        let meta = p.coulomb_slots@[s].meta;
        assert forall|i: int, j: int| coulomb_eligible(s1, meta, i, j)
            == #[trigger] coulomb_eligible(s2, meta, i, j) by {}
        assert forall|k: int| 0 <= k < sel.len() implies coulomb_eligible(
            s2,
            meta,
            (#[trigger] sel[k]).0 as int,
            sel[k].1 as int,
        ) by {
            assert(coulomb_eligible(s1, meta, sel[k].0 as int, sel[k].1 as int));
        }
        assert forall|i: int, j: int| #[trigger] coulomb_eligible(s2, meta, i, j) implies
            sel.contains((i as usize, j as usize)) by {
            assert(coulomb_eligible(s1, meta, i, j));
        }
    }
}

} // verus!
