//! Physical properties of the simulated system: forces, energies and
//! temperature, as pure functions of `(system, potentials)`.

use vstd::prelude::*;

use crate::BOLTZMANN;
use crate::COORD_LIMIT;
use crate::ENTRY_LIMIT;
use crate::NumericFault;
use crate::SIZE_LIMIT;
use crate::fixed::abs_int;
use crate::fixed::fmul;
use crate::fixed::fmul_i64;
use crate::fixed::lemma_tdiv_bound;
use crate::fixed::tdiv;
use crate::fixed::tdiv_i128;
use crate::potential::CoulombSlot;
use crate::potential::PairSlot;
use crate::potential::Potentials;
use crate::system::System;
use crate::vector::WideVector3;
use crate::vector::lemma_wide_sum_update;
use crate::vector::wide_sum;

verus! {

/// Index-validity of every stored selection against `sys`: what the
/// evaluators need to walk them safely.
pub open spec fn selections_wf(pots: Potentials, sys: System) -> bool {
    &&& forall|s: int|
        0 <= s < pots.pair_slots.len() ==> (#[trigger] pots.pair_slots@[s]).selection@.len()
            <= sys.size * sys.size && forall|k: int|
            0 <= k < pots.pair_slots@[s].selection@.len() ==> (
            #[trigger] pots.pair_slots@[s].selection@[k]).0
                < pots.pair_slots@[s].selection@[k].1 && pots.pair_slots@[s].selection@[k].1
                < sys.size
    &&& forall|s: int|
        0 <= s < pots.coulomb_slots.len() ==> (#[trigger] pots.coulomb_slots@[s]).selection@.len()
            <= sys.size * sys.size && forall|k: int|
            0 <= k < pots.coulomb_slots@[s].selection@.len() ==> (
            #[trigger] pots.coulomb_slots@[s].selection@[k]).0
                < pots.coulomb_slots@[s].selection@[k].1 && pots.coulomb_slots@[s].selection@[k].1
                < sys.size
}

/// Exact selections imply index-validity.
pub proof fn lemma_exact_implies_wf(pots: Potentials, sys: System)
    requires
        pots.selections_exact(sys),
    ensures
        selections_wf(pots, sys),
{
    assert forall|s: int| 0 <= s < pots.pair_slots.len() implies (
    #[trigger] pots.pair_slots@[s]).selection@.len() <= sys.size * sys.size && forall|k: int|
        0 <= k < pots.pair_slots@[s].selection@.len() ==> (
        #[trigger] pots.pair_slots@[s].selection@[k]).0 < pots.pair_slots@[s].selection@[k].1
            && pots.pair_slots@[s].selection@[k].1 < sys.size by {
        let sel = pots.pair_slots@[s].selection@;
        assert forall|k: int| 0 <= k < sel.len() implies (#[trigger] sel[k]).0 < sel[k].1
            && sel[k].1 < sys.size by {
            assert(crate::potential::pair_eligible(
                sys,
                pots.pair_slots@[s].meta,
                sel[k].0 as int,
                sel[k].1 as int,
            ));
        }
    }
    assert forall|s: int| 0 <= s < pots.coulomb_slots.len() implies (
    #[trigger] pots.coulomb_slots@[s]).selection@.len() <= sys.size * sys.size && forall|k: int|
        0 <= k < pots.coulomb_slots@[s].selection@.len() ==> (
        #[trigger] pots.coulomb_slots@[s].selection@[k]).0 < pots.coulomb_slots@[s].selection@[k].1
            && pots.coulomb_slots@[s].selection@[k].1 < sys.size by {
        let sel = pots.coulomb_slots@[s].selection@;
        assert forall|k: int| 0 <= k < sel.len() implies (#[trigger] sel[k]).0 < sel[k].1
            && sel[k].1 < sys.size by {
            assert(crate::potential::coulomb_eligible(
                sys,
                pots.coulomb_slots@[s].meta,
                sel[k].0 as int,
                sel[k].1 as int,
            ));
        }
    }
}

/// Kinetic energy of one particle: `0.5 * m * |v|^2` in fixed-point
/// arithmetic.
pub open spec fn kinetic_term(sys: System, i: int) -> int {
    let v = sys.velocities@[i];
    let n2 = fmul(v.x as int, v.x as int) + fmul(v.y as int, v.y as int) + fmul(
        v.z as int,
        v.z as int,
    );
    tdiv(fmul(sys.masses@[i] as int, n2), 2)
}

/// Kinetic energy of the first `i` particles.
pub open spec fn kinetic_upto(sys: System, i: int) -> int
    decreases i,
{
    if i <= 0 {
        0
    } else {
        kinetic_upto(sys, i - 1) + kinetic_term(sys, i - 1)
    }
}

/// Kinetic energy of the whole system.
pub open spec fn kinetic_energy_spec(sys: System) -> int {
    kinetic_upto(sys, sys.size as int)
}

/// Magnitude bound on one kinetic term of a well-formed system.
pub const KINETIC_TERM_BOUND: i128 = 40_000_000_000_000_000_000;

/// One kinetic term of a well-formed system is bounded.
proof fn lemma_kinetic_term_bound(sys: System, i: int)
    requires
        sys.wf(),
        0 <= i < sys.size,
    ensures
        abs_int(kinetic_term(sys, i)) <= KINETIC_TERM_BOUND as int,
{
    let v = sys.velocities@[i];
    let m = COORD_LIMIT as int;
    let s = crate::SCALE as int;
    crate::fixed::lemma_abs_mul_le(v.x as int, v.x as int, m, m);
    crate::fixed::lemma_abs_mul_le(v.y as int, v.y as int, m, m);
    crate::fixed::lemma_abs_mul_le(v.z as int, v.z as int, m, m);
    lemma_tdiv_bound(v.x * v.x, s);
    lemma_tdiv_bound(v.y * v.y, s);
    lemma_tdiv_bound(v.z * v.z, s);
    crate::fixed::lemma_abs_div_le(v.x * v.x, s, m * m);
    crate::fixed::lemma_abs_div_le(v.y * v.y, s, m * m);
    crate::fixed::lemma_abs_div_le(v.z * v.z, s, m * m);
    let n2 = fmul(v.x as int, v.x as int) + fmul(v.y as int, v.y as int) + fmul(
        v.z as int,
        v.z as int,
    );
    crate::fixed::lemma_abs_mul_le(sys.masses@[i] as int, n2, m, 3 * ((m * m) / s));
    lemma_tdiv_bound((sys.masses@[i] as int) * n2, s);
    crate::fixed::lemma_abs_div_le((sys.masses@[i] as int) * n2, s, m * (3 * ((m * m) / s)));
    lemma_tdiv_bound(fmul(sys.masses@[i] as int, n2), 2);
}

/// Kinetic energy of the whole system.
#[derive(Clone, Copy, Debug)]
pub struct KineticEnergy;

impl KineticEnergy {
    /// Computes `sum(0.5 * m_i * |v_i|^2)`; no potentials and no pair
    /// loop are needed.
    pub fn calculate(&self, system: &System, potentials: &Potentials) -> (e: i128)
        requires
            system.wf(),
        ensures
            e == kinetic_energy_spec(*system),
            abs_int(e as int) <= (SIZE_LIMIT as int) * (KINETIC_TERM_BOUND as int),
    {
        let _ = potentials;
        self.calculate_intrinsic(system)
    }

    /// Computes the kinetic energy from the system alone.
    pub fn calculate_intrinsic(&self, system: &System) -> (e: i128)
        requires
            system.wf(),
        ensures
            e == kinetic_energy_spec(*system),
            abs_int(e as int) <= (SIZE_LIMIT as int) * (KINETIC_TERM_BOUND as int),
    {
        let n = system.size;
        let mut acc: i128 = 0;
        let mut i: usize = 0;
        while i < n
            invariant
                system.wf(),
                n == system.size,
                i <= n,
                acc == kinetic_upto(*system, i as int),
                abs_int(acc as int) <= (i as int) * (KINETIC_TERM_BOUND as int),
            decreases n - i,
        {
            let v = system.velocities[i];
            let tx: i128 = fmul_i64(v.x, v.x);
            let ty: i128 = fmul_i64(v.y, v.y);
            let tz: i128 = fmul_i64(v.z, v.z);
            proof {
                lemma_kinetic_term_bound(*system, i as int);
                let m = COORD_LIMIT as int;
                let s = crate::SCALE as int;
                crate::fixed::lemma_abs_mul_le(v.x as int, v.x as int, m, m);
                crate::fixed::lemma_abs_mul_le(v.y as int, v.y as int, m, m);
                crate::fixed::lemma_abs_mul_le(v.z as int, v.z as int, m, m);
                crate::fixed::lemma_abs_div_le(v.x * v.x, s, m * m);
                crate::fixed::lemma_abs_div_le(v.y * v.y, s, m * m);
                crate::fixed::lemma_abs_div_le(v.z * v.z, s, m * m);
                crate::fixed::lemma_abs_mul_le(
                    system.masses@[i as int] as int,
                    (tx + ty + tz) as int,
                    m,
                    3 * ((m * m) / s),
                );
            }
            let n2: i128 = tx + ty + tz;
            let tm: i128 = crate::fixed::fmul_i128(system.masses[i] as i128, n2);
            let term: i128 = tdiv_i128(tm, 2);
            proof {
                assert((i as int) * (KINETIC_TERM_BOUND as int) + (KINETIC_TERM_BOUND as int) == (
                i as int + 1) * (KINETIC_TERM_BOUND as int)) by (nonlinear_arith);
                assert((i as int + 1) * (KINETIC_TERM_BOUND as int) <= (SIZE_LIMIT as int) * (
                KINETIC_TERM_BOUND as int)) by (nonlinear_arith)
                    requires
                        0 <= i as int + 1 <= SIZE_LIMIT as int,
                ;
            }
            acc = acc + term;
            i = i + 1;
        }
        acc
    }
}

impl KineticEnergy {
    /// The property's reporting name.
    pub fn name(&self) -> (r: &'static str)
        ensures
            r@ == "kinetic_energy"@,
    {
        "kinetic_energy"
    }
}

/// Kinetic temperature of the system, from the equipartition relation
/// `E_kin = (3/2) * N * k_B * T`; zero for an empty system.
pub open spec fn temperature_spec(sys: System) -> int {
    if sys.size == 0 {
        0
    } else {
        tdiv(2 * kinetic_energy_spec(sys) * crate::SCALE, 3 * (sys.size as int) * BOLTZMANN)
    }
}

/// Kinetic temperature of the system (an intrinsic property: no
/// potentials are consulted).
#[derive(Clone, Copy, Debug)]
pub struct Temperature;

impl Temperature {
    /// Computes the instantaneous temperature.
    pub fn calculate_intrinsic(&self, system: &System) -> (t: i128)
        requires
            system.wf(),
        ensures
            t == temperature_spec(*system),
            abs_int(t as int) <= 100_000_000_000_000_000_000_000_000_000_000_000,
    {
        if system.size == 0 {
            return 0;
        }
        let ke: i128 = KineticEnergy.calculate_intrinsic(system);
        proof {
            assert(abs_int(ke as int) <= 41_943_040_000_000_000_000_000_000int);
        }
        let num: i128 = 2 * ke * (crate::SCALE as i128);
        let den: i128 = (system.size as i128) * (3 * (BOLTZMANN as i128));
        proof {
            assert(den == 3 * (system.size as int) * (BOLTZMANN as int)) by (nonlinear_arith)
                requires
                    den == (system.size as int) * (3 * (BOLTZMANN as int)),
            ;
        }
        tdiv_i128(num, den)
    }
}

/// Energy contributed by one selected pair of a pairwise entry: the
/// potential's energy at the current minimum-image distance, and exactly
/// zero beyond the cutoff.
pub open spec fn pair_energy_term(sys: System, slot: PairSlot, i: int, j: int) -> int {
    let r = sys.cell.distance_spec(sys.positions@[i], sys.positions@[j]);
    if r <= slot.meta.cutoff {
        slot.potential.energy_spec(r)
    } else {
        0
    }
}

/// Whether the pair's energy evaluation cannot fault: it is beyond the
/// cutoff, or inside the potential's domain.
pub open spec fn pair_energy_term_ok(sys: System, slot: PairSlot, i: int, j: int) -> bool {
    let r = sys.cell.distance_spec(sys.positions@[i], sys.positions@[j]);
    r > slot.meta.cutoff || slot.potential.energy_ok(r)
}

/// Energy of the first `k` selected pairs of one entry.
pub open spec fn pair_slot_energy(sys: System, slot: PairSlot, k: int) -> int
    decreases k,
{
    if k <= 0 {
        0
    } else {
        pair_slot_energy(sys, slot, k - 1) + pair_energy_term(
            sys,
            slot,
            slot.selection@[k - 1].0 as int,
            slot.selection@[k - 1].1 as int,
        )
    }
}

/// Energy of the first `s` pairwise entries.
pub open spec fn pair_energy_upto(sys: System, slots: Seq<PairSlot>, s: int) -> int
    decreases s,
{
    if s <= 0 {
        0
    } else {
        pair_energy_upto(sys, slots, s - 1) + pair_slot_energy(
            sys,
            slots[s - 1],
            slots[s - 1].selection@.len() as int,
        )
    }
}

/// Potential energy due to all pairwise entries.
pub open spec fn pair_energy_spec(sys: System, pots: Potentials) -> int {
    pair_energy_upto(sys, pots.pair_slots@, pots.pair_slots@.len() as int)
}

/// Every selected pair of the entry evaluates without fault.
pub open spec fn pair_slot_ok(sys: System, slot: PairSlot) -> bool {
    forall|k: int|
        0 <= k < slot.selection@.len() ==> pair_energy_term_ok(
            sys,
            slot,
            (#[trigger] slot.selection@[k]).0 as int,
            slot.selection@[k].1 as int,
        )
}

/// The whole pairwise energy evaluation is free of numeric faults.
pub open spec fn pair_energy_defined(sys: System, pots: Potentials) -> bool {
    forall|s: int| 0 <= s < pots.pair_slots@.len() ==> pair_slot_ok(sys, #[trigger] pots.pair_slots@[s])
}

/// Energy contributed by one selected pair of a coulombic entry.
pub open spec fn coulomb_energy_term(sys: System, slot: CoulombSlot, i: int, j: int) -> int {
    let r = sys.cell.distance_spec(sys.positions@[i], sys.positions@[j]);
    if r <= slot.meta.cutoff {
        slot.potential.energy_spec(sys.charges@[i] as int, sys.charges@[j] as int, r)
    } else {
        0
    }
}

/// Whether the coulombic pair's energy evaluation cannot fault.
pub open spec fn coulomb_energy_term_ok(sys: System, slot: CoulombSlot, i: int, j: int) -> bool {
    let r = sys.cell.distance_spec(sys.positions@[i], sys.positions@[j]);
    r > slot.meta.cutoff || slot.potential.energy_ok(
        sys.charges@[i] as int,
        sys.charges@[j] as int,
        r,
    )
}

/// Energy of the first `k` selected pairs of one coulombic entry.
pub open spec fn coulomb_slot_energy(sys: System, slot: CoulombSlot, k: int) -> int
    decreases k,
{
    if k <= 0 {
        0
    } else {
        coulomb_slot_energy(sys, slot, k - 1) + coulomb_energy_term(
            sys,
            slot,
            slot.selection@[k - 1].0 as int,
            slot.selection@[k - 1].1 as int,
        )
    }
}

/// Energy of the first `s` coulombic entries.
pub open spec fn coulomb_energy_upto(sys: System, slots: Seq<CoulombSlot>, s: int) -> int
    decreases s,
{
    if s <= 0 {
        0
    } else {
        coulomb_energy_upto(sys, slots, s - 1) + coulomb_slot_energy(
            sys,
            slots[s - 1],
            slots[s - 1].selection@.len() as int,
        )
    }
}

/// Potential energy due to all coulombic entries.
pub open spec fn coulomb_energy_spec(sys: System, pots: Potentials) -> int {
    coulomb_energy_upto(sys, pots.coulomb_slots@, pots.coulomb_slots@.len() as int)
}

/// Every selected pair of the coulombic entry evaluates without fault.
pub open spec fn coulomb_slot_ok(sys: System, slot: CoulombSlot) -> bool {
    forall|k: int|
        0 <= k < slot.selection@.len() ==> coulomb_energy_term_ok(
            sys,
            slot,
            (#[trigger] slot.selection@[k]).0 as int,
            slot.selection@[k].1 as int,
        )
}

/// The whole coulombic energy evaluation is free of numeric faults.
pub open spec fn coulomb_energy_defined(sys: System, pots: Potentials) -> bool {
    forall|s: int|
        0 <= s < pots.coulomb_slots@.len() ==> coulomb_slot_ok(
            sys,
            #[trigger] pots.coulomb_slots@[s],
        )
}

/// Potential energy of the whole system: pairwise plus coulombic.
pub open spec fn potential_energy_spec(sys: System, pots: Potentials) -> int {
    pair_energy_spec(sys, pots) + coulomb_energy_spec(sys, pots)
}

/// Magnitude bound on a fully accumulated energy family.
pub open spec fn family_energy_bound() -> int {
    (ENTRY_LIMIT as int) * (SIZE_LIMIT as int) * (SIZE_LIMIT as int) * (i64::MAX as int)
}

/// Potential energy due to pairwise potentials.
#[derive(Clone, Copy, Debug)]
pub struct PairEnergy;

impl PairEnergy {
    /// Sums the pairwise energy over every entry's selection; an `Err`
    /// reports a numeric fault of some in-cutoff pair, and is returned
    /// exactly when one exists.
    pub fn calculate(&self, system: &System, potentials: &Potentials) -> (res: Result<
        i128,
        NumericFault,
    >)
        requires
            system.wf(),
            potentials.wf(),
            selections_wf(*potentials, *system),
        ensures
            match res {
                Ok(e) => pair_energy_defined(*system, *potentials) && e == pair_energy_spec(
                    *system,
                    *potentials,
                ) && abs_int(e as int) <= family_energy_bound(),
                Err(_) => !pair_energy_defined(*system, *potentials),
            },
    {
        let ghost l2m: int = (SIZE_LIMIT as int) * (SIZE_LIMIT as int) * (i64::MAX as int);
        let mut acc: i128 = 0;
        let ns = potentials.pair_slots.len();
        let mut s: usize = 0;
        while s < ns
            invariant
                system.wf(),
                potentials.wf(),
                selections_wf(*potentials, *system),
                l2m == (SIZE_LIMIT as int) * (SIZE_LIMIT as int) * (i64::MAX as int),
                ns == potentials.pair_slots@.len(),
                s <= ns,
                acc == pair_energy_upto(*system, potentials.pair_slots@, s as int),
                forall|t: int|
                    0 <= t < s ==> pair_slot_ok(*system, #[trigger] potentials.pair_slots@[t]),
                abs_int(acc as int) <= (s as int) * l2m,
            decreases ns - s,
        {
            let slot = &potentials.pair_slots[s];
            let nk = slot.selection.len();
            proof {
                assert((system.size as int) * (system.size as int) <= (SIZE_LIMIT as int) * (
                SIZE_LIMIT as int)) by (nonlinear_arith)
                    requires
                        0 <= (system.size as int) && (system.size as int) <= (SIZE_LIMIT as int),
                ;
                assert((nk as int) * (i64::MAX as int) <= l2m) by (nonlinear_arith)
                    requires
                        0 <= (nk as int) && (nk as int) <= (SIZE_LIMIT as int) * (
                        SIZE_LIMIT as int),
                        l2m == (SIZE_LIMIT as int) * (SIZE_LIMIT as int) * (i64::MAX as int),
                ;
            }
            let mut k: usize = 0;
            while k < nk
                invariant
                    system.wf(),
                    potentials.wf(),
                    selections_wf(*potentials, *system),
                    l2m == (SIZE_LIMIT as int) * (SIZE_LIMIT as int) * (i64::MAX as int),
                    ns == potentials.pair_slots@.len(),
                    s < ns,
                    slot == &potentials.pair_slots[s as int],
                    nk == slot.selection@.len(),
                    (nk as int) * (i64::MAX as int) <= l2m,
                    k <= nk,
                    acc == pair_energy_upto(*system, potentials.pair_slots@, s as int)
                        + pair_slot_energy(*system, *slot, k as int),
                    forall|t: int|
                        0 <= t < s ==> pair_slot_ok(*system, #[trigger] potentials.pair_slots@[t]),
                    forall|kk: int|
                        0 <= kk < k ==> pair_energy_term_ok(
                            *system,
                            *slot,
                            (#[trigger] slot.selection@[kk]).0 as int,
                            slot.selection@[kk].1 as int,
                        ),
                    abs_int(acc as int) <= (s as int) * l2m + (k as int) * (i64::MAX as int),
                decreases nk - k,
            {
                let (pi, pj) = slot.selection[k];
                let r = system.cell.distance(&system.positions[pi], &system.positions[pj]);
                if r <= slot.meta.cutoff {
                    match slot.potential.energy(r) {
                        Some(e) => {
                            proof {
                                assert((s as int) * l2m + (k as int + 1) * (i64::MAX as int) <= (
                                ns as int) * l2m + (nk as int) * (i64::MAX as int))
                                    by (nonlinear_arith)
                                    requires
                                        0 <= (s as int) && (s as int) < (ns as int),
                                        (ns as int) <= (ENTRY_LIMIT as int),
                                        0 <= (k as int) && (k as int) < (nk as int),
                                        (nk as int) * (i64::MAX as int) <= l2m,
                                        l2m >= 0,
                                ;
                                assert((ns as int) * l2m <= (ENTRY_LIMIT as int) * l2m)
                                    by (nonlinear_arith)
                                    requires
                                        0 <= (ns as int) && (ns as int) <= (ENTRY_LIMIT as int),
                                        l2m >= 0,
                                ;
                            }
                            acc = acc + (e as i128);
                        },
                        None => {
                            proof {
                                assert(!pair_slot_ok(*system, *slot));
                            }
                            return Err(NumericFault);
                        },
                    }
                }
                k = k + 1;
            }
            proof {
                assert((s as int) * l2m + (nk as int) * (i64::MAX as int) <= (s as int + 1) * l2m)
                    by (nonlinear_arith)
                    requires
                        (nk as int) * (i64::MAX as int) <= l2m,
                ;
            }
            s = s + 1;
        }
        proof {
            assert((ns as int) * l2m <= (ENTRY_LIMIT as int) * l2m) by (nonlinear_arith)
                requires
                    0 <= (ns as int) && (ns as int) <= (ENTRY_LIMIT as int),
                    l2m >= 0,
            ;
            assert((ENTRY_LIMIT as int) * l2m == family_energy_bound()) by (nonlinear_arith)
                requires
                    l2m == (SIZE_LIMIT as int) * (SIZE_LIMIT as int) * (i64::MAX as int),
            ;
        }
        Ok(acc)
    }
}

impl PairEnergy {
    /// The property's reporting name.
    pub fn name(&self) -> (r: &'static str)
        ensures
            r@ == "pair_energy"@,
    {
        "pair_energy"
    }
}

/// Potential energy due to coulombic potentials.
#[derive(Clone, Copy, Debug)]
pub struct CoulombicEnergy;

impl CoulombicEnergy {
    /// Sums the coulombic energy over every entry's selection; an `Err`
    /// reports a numeric fault of some in-cutoff pair, and is returned
    /// exactly when one exists.
    pub fn calculate(&self, system: &System, potentials: &Potentials) -> (res: Result<
        i128,
        NumericFault,
    >)
        requires
            system.wf(),
            potentials.wf(),
            selections_wf(*potentials, *system),
        ensures
            match res {
                Ok(e) => coulomb_energy_defined(*system, *potentials) && e == coulomb_energy_spec(
                    *system,
                    *potentials,
                ) && abs_int(e as int) <= family_energy_bound(),
                Err(_) => !coulomb_energy_defined(*system, *potentials),
            },
    {
        let ghost l2m: int = (SIZE_LIMIT as int) * (SIZE_LIMIT as int) * (i64::MAX as int);
        let mut acc: i128 = 0;
        let ns = potentials.coulomb_slots.len();
        let mut s: usize = 0;
        while s < ns
            invariant
                system.wf(),
                potentials.wf(),
                selections_wf(*potentials, *system),
                l2m == (SIZE_LIMIT as int) * (SIZE_LIMIT as int) * (i64::MAX as int),
                ns == potentials.coulomb_slots@.len(),
                s <= ns,
                acc == coulomb_energy_upto(*system, potentials.coulomb_slots@, s as int),
                forall|t: int|
                    0 <= t < s ==> coulomb_slot_ok(
                        *system,
                        #[trigger] potentials.coulomb_slots@[t],
                    ),
                abs_int(acc as int) <= (s as int) * l2m,
            decreases ns - s,
        {
            let slot = &potentials.coulomb_slots[s];
            let nk = slot.selection.len();
            proof {
                assert((system.size as int) * (system.size as int) <= (SIZE_LIMIT as int) * (
                SIZE_LIMIT as int)) by (nonlinear_arith)
                    requires
                        0 <= (system.size as int) && (system.size as int) <= (SIZE_LIMIT as int),
                ;
                assert((nk as int) * (i64::MAX as int) <= l2m) by (nonlinear_arith)
                    requires
                        0 <= (nk as int) && (nk as int) <= (SIZE_LIMIT as int) * (
                        SIZE_LIMIT as int),
                        l2m == (SIZE_LIMIT as int) * (SIZE_LIMIT as int) * (i64::MAX as int),
                ;
            }
            let mut k: usize = 0;
            while k < nk
                invariant
                    system.wf(),
                    potentials.wf(),
                    selections_wf(*potentials, *system),
                    l2m == (SIZE_LIMIT as int) * (SIZE_LIMIT as int) * (i64::MAX as int),
                    ns == potentials.coulomb_slots@.len(),
                    s < ns,
                    slot == &potentials.coulomb_slots[s as int],
                    nk == slot.selection@.len(),
                    (nk as int) * (i64::MAX as int) <= l2m,
                    k <= nk,
                    acc == coulomb_energy_upto(*system, potentials.coulomb_slots@, s as int)
                        + coulomb_slot_energy(*system, *slot, k as int),
                    forall|t: int|
                        0 <= t < s ==> coulomb_slot_ok(
                            *system,
                            #[trigger] potentials.coulomb_slots@[t],
                        ),
                    forall|kk: int|
                        0 <= kk < k ==> coulomb_energy_term_ok(
                            *system,
                            *slot,
                            (#[trigger] slot.selection@[kk]).0 as int,
                            slot.selection@[kk].1 as int,
                        ),
                    abs_int(acc as int) <= (s as int) * l2m + (k as int) * (i64::MAX as int),
                decreases nk - k,
            {
                let (pi, pj) = slot.selection[k];
                let r = system.cell.distance(&system.positions[pi], &system.positions[pj]);
                if r <= slot.meta.cutoff {
                    match slot.potential.energy(system.charges[pi], system.charges[pj], r) {
                        Some(e) => {
                            proof {
                                assert((s as int) * l2m + (k as int + 1) * (i64::MAX as int) <= (
                                ns as int) * l2m + (nk as int) * (i64::MAX as int))
                                    by (nonlinear_arith)
                                    requires
                                        0 <= (s as int) && (s as int) < (ns as int),
                                        (ns as int) <= (ENTRY_LIMIT as int),
                                        0 <= (k as int) && (k as int) < (nk as int),
                                        (nk as int) * (i64::MAX as int) <= l2m,
                                        l2m >= 0,
                                ;
                                assert((ns as int) * l2m <= (ENTRY_LIMIT as int) * l2m)
                                    by (nonlinear_arith)
                                    requires
                                        0 <= (ns as int) && (ns as int) <= (ENTRY_LIMIT as int),
                                        l2m >= 0,
                                ;
                            }
                            acc = acc + (e as i128);
                        },
                        None => {
                            proof {
                                assert(!coulomb_slot_ok(*system, *slot));
                            }
                            return Err(NumericFault);
                        },
                    }
                }
                k = k + 1;
            }
            proof {
                assert((s as int) * l2m + (nk as int) * (i64::MAX as int) <= (s as int + 1) * l2m)
                    by (nonlinear_arith)
                    requires
                        (nk as int) * (i64::MAX as int) <= l2m,
                ;
            }
            s = s + 1;
        }
        proof {
            assert((ns as int) * l2m <= (ENTRY_LIMIT as int) * l2m) by (nonlinear_arith)
                requires
                    0 <= (ns as int) && (ns as int) <= (ENTRY_LIMIT as int),
                    l2m >= 0,
            ;
            assert((ENTRY_LIMIT as int) * l2m == family_energy_bound()) by (nonlinear_arith)
                requires
                    l2m == (SIZE_LIMIT as int) * (SIZE_LIMIT as int) * (i64::MAX as int),
            ;
        }
        Ok(acc)
    }
}

impl CoulombicEnergy {
    /// The property's reporting name.
    pub fn name(&self) -> (r: &'static str)
        ensures
            r@ == "coulombic_energy"@,
    {
        "coulombic_energy"
    }
}

/// Potential energy of the whole system.
#[derive(Clone, Copy, Debug)]
pub struct PotentialEnergy;

impl PotentialEnergy {
    /// Sums the pairwise and coulombic contributions, computed
    /// separately then combined.
    pub fn calculate(&self, system: &System, potentials: &Potentials) -> (res: Result<
        i128,
        NumericFault,
    >)
        requires
            system.wf(),
            potentials.wf(),
            selections_wf(*potentials, *system),
        ensures
            match res {
                Ok(e) => pair_energy_defined(*system, *potentials) && coulomb_energy_defined(
                    *system,
                    *potentials,
                ) && e == potential_energy_spec(*system, *potentials) && abs_int(e as int) <= 2
                    * family_energy_bound(),
                Err(_) => !pair_energy_defined(*system, *potentials) || !coulomb_energy_defined(
                    *system,
                    *potentials,
                ),
            },
    {
        let coulomb = match CoulombicEnergy.calculate(system, potentials) {
            Ok(e) => e,
            Err(f) => {
                return Err(f);
            },
        };
        let pair = match PairEnergy.calculate(system, potentials) {
            Ok(e) => e,
            Err(f) => {
                return Err(f);
            },
        };
        Ok(coulomb + pair)
    }
}

impl PotentialEnergy {
    /// The property's reporting name.
    pub fn name(&self) -> (r: &'static str)
        ensures
            r@ == "potential_energy"@,
    {
        "potential_energy"
    }
}

/// Sum of potential and kinetic energy.
#[derive(Clone, Copy, Debug)]
pub struct TotalEnergy;

impl TotalEnergy {
    /// Computes kinetic plus potential energy, fresh on each call; the
    /// identity `total == kinetic + potential` holds exactly.
    pub fn calculate(&self, system: &System, potentials: &Potentials) -> (res: Result<
        i128,
        NumericFault,
    >)
        requires
            system.wf(),
            potentials.wf(),
            selections_wf(*potentials, *system),
        ensures
            match res {
                Ok(e) => pair_energy_defined(*system, *potentials) && coulomb_energy_defined(
                    *system,
                    *potentials,
                ) && e == kinetic_energy_spec(*system) + potential_energy_spec(
                    *system,
                    *potentials,
                ),
                Err(_) => !pair_energy_defined(*system, *potentials) || !coulomb_energy_defined(
                    *system,
                    *potentials,
                ),
            },
    {
        let kinetic = KineticEnergy.calculate(system, potentials);
        let potential = match PotentialEnergy.calculate(system, potentials) {
            Ok(e) => e,
            Err(f) => {
                return Err(f);
            },
        };
        Ok(kinetic + potential)
    }
}

impl TotalEnergy {
    /// The property's reporting name.
    pub fn name(&self) -> (r: &'static str)
        ensures
            r@ == "total_energy"@,
    {
        "total_energy"
    }
}

/// Componentwise sum of integer triples.
pub open spec fn t3_add(a: (int, int, int), b: (int, int, int)) -> (int, int, int) {
    (a.0 + b.0, a.1 + b.1, a.2 + b.2)
}

/// Componentwise negation of an integer triple.
pub open spec fn t3_neg(a: (int, int, int)) -> (int, int, int) {
    (-a.0, -a.1, -a.2)
}

/// The zero triple.
pub open spec fn t3_zero() -> (int, int, int) {
    (0int, 0int, 0int)
}

/// Force vector exerted on the first particle of a selected pair by a
/// pairwise entry: the scalar force projected along the minimum-image
/// direction, and exactly zero beyond the cutoff.
pub open spec fn pair_force_term(sys: System, slot: PairSlot, i: int, j: int) -> (int, int, int) {
    let r = sys.cell.distance_spec(sys.positions@[i], sys.positions@[j]);
    if r <= slot.meta.cutoff {
        let f = slot.potential.force_spec(r);
        let u = sys.cell.direction_spec(sys.positions@[i], sys.positions@[j]);
        (fmul(f, u.0), fmul(f, u.1), fmul(f, u.2))
    } else {
        t3_zero()
    }
}

/// Whether the pair's force evaluation cannot fault: beyond the cutoff,
/// or at positive distance inside the potential's domain.
pub open spec fn pair_force_term_ok(sys: System, slot: PairSlot, i: int, j: int) -> bool {
    let r = sys.cell.distance_spec(sys.positions@[i], sys.positions@[j]);
    r > slot.meta.cutoff || (r > 0 && slot.potential.force_ok(r))
}

/// Contribution of the `k`-th selected pair of the entry to particle
/// `p`: the force on its first particle, the negation on its second
/// (Newton's third law), zero elsewhere.
pub open spec fn pair_contrib(sys: System, slot: PairSlot, k: int, p: int) -> (int, int, int) {
    let i = slot.selection@[k].0 as int;
    let j = slot.selection@[k].1 as int;
    if p == i {
        pair_force_term(sys, slot, i, j)
    } else if p == j {
        t3_neg(pair_force_term(sys, slot, i, j))
    } else {
        t3_zero()
    }
}

/// Force on particle `p` from the first `k` selected pairs of an entry.
pub open spec fn pair_slot_force(sys: System, slot: PairSlot, p: int, k: int) -> (int, int, int)
    decreases k,
{
    if k <= 0 {
        t3_zero()
    } else {
        t3_add(pair_slot_force(sys, slot, p, k - 1), pair_contrib(sys, slot, k - 1, p))
    }
}

/// Force on particle `p` from the first `s` pairwise entries.
pub open spec fn pair_force_upto(sys: System, slots: Seq<PairSlot>, p: int, s: int) -> (
    int,
    int,
    int,
)
    decreases s,
{
    if s <= 0 {
        t3_zero()
    } else {
        t3_add(
            pair_force_upto(sys, slots, p, s - 1),
            pair_slot_force(sys, slots[s - 1], p, slots[s - 1].selection@.len() as int),
        )
    }
}

/// Force vector exerted on the first particle of a selected pair by a
/// coulombic entry.
pub open spec fn coulomb_force_term(sys: System, slot: CoulombSlot, i: int, j: int) -> (
    int,
    int,
    int,
) {
    let r = sys.cell.distance_spec(sys.positions@[i], sys.positions@[j]);
    if r <= slot.meta.cutoff {
        let f = slot.potential.force_spec(sys.charges@[i] as int, sys.charges@[j] as int, r);
        let u = sys.cell.direction_spec(sys.positions@[i], sys.positions@[j]);
        (fmul(f, u.0), fmul(f, u.1), fmul(f, u.2))
    } else {
        t3_zero()
    }
}

/// Whether the coulombic pair's force evaluation cannot fault.
pub open spec fn coulomb_force_term_ok(sys: System, slot: CoulombSlot, i: int, j: int) -> bool {
    let r = sys.cell.distance_spec(sys.positions@[i], sys.positions@[j]);
    r > slot.meta.cutoff || (r > 0 && slot.potential.force_ok(
        sys.charges@[i] as int,
        sys.charges@[j] as int,
        r,
    ))
}

/// Contribution of the `k`-th selected pair of the coulombic entry to
/// particle `p`.
pub open spec fn coulomb_contrib(sys: System, slot: CoulombSlot, k: int, p: int) -> (
    int,
    int,
    int,
) {
    let i = slot.selection@[k].0 as int;
    let j = slot.selection@[k].1 as int;
    if p == i {
        coulomb_force_term(sys, slot, i, j)
    } else if p == j {
        t3_neg(coulomb_force_term(sys, slot, i, j))
    } else {
        t3_zero()
    }
}

/// Force on particle `p` from the first `k` selected pairs of a
/// coulombic entry.
pub open spec fn coulomb_slot_force(sys: System, slot: CoulombSlot, p: int, k: int) -> (
    int,
    int,
    int,
)
    decreases k,
{
    if k <= 0 {
        t3_zero()
    } else {
        t3_add(coulomb_slot_force(sys, slot, p, k - 1), coulomb_contrib(sys, slot, k - 1, p))
    }
}

/// Force on particle `p` from the first `s` coulombic entries.
pub open spec fn coulomb_force_upto(sys: System, slots: Seq<CoulombSlot>, p: int, s: int) -> (
    int,
    int,
    int,
)
    decreases s,
{
    if s <= 0 {
        t3_zero()
    } else {
        t3_add(
            coulomb_force_upto(sys, slots, p, s - 1),
            coulomb_slot_force(sys, slots[s - 1], p, slots[s - 1].selection@.len() as int),
        )
    }
}

/// Total force on particle `p` from every registered entry.
pub open spec fn force_on(sys: System, pots: Potentials, p: int) -> (int, int, int) {
    t3_add(
        pair_force_upto(sys, pots.pair_slots@, p, pots.pair_slots@.len() as int),
        coulomb_force_upto(sys, pots.coulomb_slots@, p, pots.coulomb_slots@.len() as int),
    )
}

/// Every selected pair of the entry evaluates its force without fault.
pub open spec fn pair_slot_force_ok(sys: System, slot: PairSlot) -> bool {
    forall|k: int|
        0 <= k < slot.selection@.len() ==> pair_force_term_ok(
            sys,
            slot,
            (#[trigger] slot.selection@[k]).0 as int,
            slot.selection@[k].1 as int,
        )
}

/// Every selected pair of the coulombic entry evaluates its force
/// without fault.
pub open spec fn coulomb_slot_force_ok(sys: System, slot: CoulombSlot) -> bool {
    forall|k: int|
        0 <= k < slot.selection@.len() ==> coulomb_force_term_ok(
            sys,
            slot,
            (#[trigger] slot.selection@[k]).0 as int,
            slot.selection@[k].1 as int,
        )
}

/// The whole force evaluation is free of numeric faults.
pub open spec fn forces_defined(sys: System, pots: Potentials) -> bool {
    &&& forall|s: int|
        0 <= s < pots.pair_slots@.len() ==> pair_slot_force_ok(sys, #[trigger] pots.pair_slots@[s])
    &&& forall|s: int|
        0 <= s < pots.coulomb_slots@.len() ==> coulomb_slot_force_ok(
            sys,
            #[trigger] pots.coulomb_slots@[s],
        )
}

/// Fills a vector with `n` zero wide vectors, whose sum is zero.
fn zero_wide_vec(n: usize) -> (v: Vec<WideVector3>)
    ensures
        v@.len() == n,
        forall|p: int| 0 <= p < n ==> (#[trigger] v@[p]) == (WideVector3 { x: 0i128, y: 0i128, z: 0i128 }),
        wide_sum(v@) == t3_zero(),
{
    let mut v: Vec<WideVector3> = Vec::new();
    let mut k: usize = 0;
    while k < n
        invariant
            k <= n,
            v@.len() == k,
            forall|p: int|
                0 <= p < k ==> (#[trigger] v@[p]) == (WideVector3 { x: 0i128, y: 0i128, z: 0i128 }),
            wide_sum(v@) == t3_zero(),
        decreases n - k,
    {
        let ghost prev = v@;
        v.push(WideVector3 { x: 0, y: 0, z: 0 });
        proof {
            assert(v@.drop_last() =~= prev);
        }
        k = k + 1;
    }
    v
}

/// Processes one pairwise entry: adds its projected forces into `f`.
/// Returns `false` on the first numeric fault.
fn apply_pair_slot(
    system: &System,
    slot: &PairSlot,
    f: &mut Vec<WideVector3>,
    Ghost(b): Ghost<int>,
) -> (ok: bool)
    requires
        system.wf(),
        slot.potential.wf(),
        slot.meta.wf(),
        slot.selection@.len() <= (SIZE_LIMIT as int) * (SIZE_LIMIT as int),
        forall|k: int|
            0 <= k < slot.selection@.len() ==> (#[trigger] slot.selection@[k]).0
                < slot.selection@[k].1 && slot.selection@[k].1 < system.size,
        old(f)@.len() == system.size,
        0 <= b,
        b + (SIZE_LIMIT as int) * (SIZE_LIMIT as int) * (i64::MAX as int) <= i128::MAX,
        forall|p: int| 0 <= p < system.size ==> (#[trigger] old(f)@[p]).in_bounds(b),
    ensures
        final(f)@.len() == system.size,
        ok ==> pair_slot_force_ok(*system, *slot),
        !ok ==> !pair_slot_force_ok(*system, *slot),
        ok ==> forall|p: int|
            0 <= p < system.size ==> ((#[trigger] final(f)@[p]).x as int, final(f)@[p].y as int,
            final(f)@[p].z as int) == t3_add(
                (old(f)@[p].x as int, old(f)@[p].y as int, old(f)@[p].z as int),
                pair_slot_force(*system, *slot, p, slot.selection@.len() as int),
            ),
        ok ==> forall|p: int|
            0 <= p < system.size ==> (#[trigger] final(f)@[p]).in_bounds(
                b + (SIZE_LIMIT as int) * (SIZE_LIMIT as int) * (i64::MAX as int),
            ),
        ok ==> wide_sum(final(f)@) == wide_sum(old(f)@),
{
    let ghost l2m: int = (SIZE_LIMIT as int) * (SIZE_LIMIT as int) * (i64::MAX as int);
    let n = system.size;
    let nk = slot.selection.len();
    let mut k: usize = 0;
    while k < nk
        invariant
            system.wf(),
            slot.potential.wf(),
            slot.meta.wf(),
            l2m == (SIZE_LIMIT as int) * (SIZE_LIMIT as int) * (i64::MAX as int),
            n == system.size,
            nk == slot.selection@.len(),
            nk as int <= (SIZE_LIMIT as int) * (SIZE_LIMIT as int),
            forall|kk: int|
                0 <= kk < slot.selection@.len() ==> (#[trigger] slot.selection@[kk]).0
                    < slot.selection@[kk].1 && slot.selection@[kk].1 < system.size,
            k <= nk,
            f@.len() == n,
            old(f)@.len() == n,
            0 <= b,
            b + l2m <= i128::MAX,
            forall|p: int| 0 <= p < n ==> (#[trigger] old(f)@[p]).in_bounds(b),
            forall|p: int|
                0 <= p < n ==> ((#[trigger] f@[p]).x as int, f@[p].y as int, f@[p].z as int)
                    == t3_add(
                    (old(f)@[p].x as int, old(f)@[p].y as int, old(f)@[p].z as int),
                    pair_slot_force(*system, *slot, p, k as int),
                ),
            forall|p: int|
                0 <= p < n ==> (#[trigger] f@[p]).in_bounds(b + (k as int) * (i64::MAX as int)),
            forall|kk: int|
                0 <= kk < k ==> pair_force_term_ok(
                    *system,
                    *slot,
                    (#[trigger] slot.selection@[kk]).0 as int,
                    slot.selection@[kk].1 as int,
                ),
            wide_sum(f@) == wide_sum(old(f)@),
        decreases nk - k,
    {
        let (pi, pj) = slot.selection[k];
        let r = system.cell.distance(&system.positions[pi], &system.positions[pj]);
        if r <= slot.meta.cutoff {
            if r == 0 {
                proof {
                    assert(!pair_slot_force_ok(*system, *slot));
                }
                return false;
            }
            match slot.potential.force(r) {
                Some(fv) => {
                    let u = system.cell.direction(&system.positions[pi], &system.positions[pj]);
                    proof {
                        lemma_projection_bound(fv as int, u.x as int);
                        lemma_projection_bound(fv as int, u.y as int);
                        lemma_projection_bound(fv as int, u.z as int);
                        assert(b + (k as int + 1) * (i64::MAX as int) <= b + (nk as int) * (
                        i64::MAX as int) && (nk as int) * (i64::MAX as int) <= l2m)
                            by (nonlinear_arith)
                            requires
                                0 <= (k as int) && (k as int) < (nk as int),
                                (nk as int) <= (SIZE_LIMIT as int) * (SIZE_LIMIT as int),
                                l2m == (SIZE_LIMIT as int) * (SIZE_LIMIT as int) * (
                                i64::MAX as int),
                        ;
                    }
                    let fx: i128 = fmul_i64(fv, u.x);
                    let fy: i128 = fmul_i64(fv, u.y);
                    let fz: i128 = fmul_i64(fv, u.z);
                    let ghost before = f@;
                    let oi = f[pi];
                    let vi = WideVector3 { x: oi.x + fx, y: oi.y + fy, z: oi.z + fz };
                    f[pi] = vi;
                    let oj = f[pj];
                    let vj = WideVector3 { x: oj.x - fx, y: oj.y - fy, z: oj.z - fz };
                    f[pj] = vj;
                    proof {
                        lemma_wide_sum_update(before, pi as int, vi);
                        lemma_wide_sum_update(before.update(pi as int, vi), pj as int, vj);
                    }
                },
                None => {
                    proof {
                        assert(!pair_slot_force_ok(*system, *slot));
                    }
                    return false;
                },
            }
        }
        k = k + 1;
    }
    proof {
        assert forall|p: int| 0 <= p < n implies (#[trigger] f@[p]).in_bounds(b + l2m) by {
            assert((nk as int) * (i64::MAX as int) <= l2m) by (nonlinear_arith)
                requires
                    0 <= (nk as int) && (nk as int) <= (SIZE_LIMIT as int) * (SIZE_LIMIT as int),
                    l2m == (SIZE_LIMIT as int) * (SIZE_LIMIT as int) * (i64::MAX as int),
            ;
        }
    }
    true
}

/// Processes one coulombic entry: adds its projected forces into `f`.
/// Returns `false` on the first numeric fault.
fn apply_coulomb_slot(
    system: &System,
    slot: &CoulombSlot,
    f: &mut Vec<WideVector3>,
    Ghost(b): Ghost<int>,
) -> (ok: bool)
    requires
        system.wf(),
        slot.meta.wf(),
        slot.selection@.len() <= (SIZE_LIMIT as int) * (SIZE_LIMIT as int),
        forall|k: int|
            0 <= k < slot.selection@.len() ==> (#[trigger] slot.selection@[k]).0
                < slot.selection@[k].1 && slot.selection@[k].1 < system.size,
        old(f)@.len() == system.size,
        0 <= b,
        b + (SIZE_LIMIT as int) * (SIZE_LIMIT as int) * (i64::MAX as int) <= i128::MAX,
        forall|p: int| 0 <= p < system.size ==> (#[trigger] old(f)@[p]).in_bounds(b),
    ensures
        final(f)@.len() == system.size,
        ok ==> coulomb_slot_force_ok(*system, *slot),
        !ok ==> !coulomb_slot_force_ok(*system, *slot),
        ok ==> forall|p: int|
            0 <= p < system.size ==> ((#[trigger] final(f)@[p]).x as int, final(f)@[p].y as int,
            final(f)@[p].z as int) == t3_add(
                (old(f)@[p].x as int, old(f)@[p].y as int, old(f)@[p].z as int),
                coulomb_slot_force(*system, *slot, p, slot.selection@.len() as int),
            ),
        ok ==> forall|p: int|
            0 <= p < system.size ==> (#[trigger] final(f)@[p]).in_bounds(
                b + (SIZE_LIMIT as int) * (SIZE_LIMIT as int) * (i64::MAX as int),
            ),
        ok ==> wide_sum(final(f)@) == wide_sum(old(f)@),
{
    let ghost l2m: int = (SIZE_LIMIT as int) * (SIZE_LIMIT as int) * (i64::MAX as int);
    let n = system.size;
    let nk = slot.selection.len();
    let mut k: usize = 0;
    while k < nk
        invariant
            system.wf(),
            slot.meta.wf(),
            l2m == (SIZE_LIMIT as int) * (SIZE_LIMIT as int) * (i64::MAX as int),
            n == system.size,
            nk == slot.selection@.len(),
            nk as int <= (SIZE_LIMIT as int) * (SIZE_LIMIT as int),
            forall|kk: int|
                0 <= kk < slot.selection@.len() ==> (#[trigger] slot.selection@[kk]).0
                    < slot.selection@[kk].1 && slot.selection@[kk].1 < system.size,
            k <= nk,
            f@.len() == n,
            old(f)@.len() == n,
            0 <= b,
            b + l2m <= i128::MAX,
            forall|p: int| 0 <= p < n ==> (#[trigger] old(f)@[p]).in_bounds(b),
            forall|p: int|
                0 <= p < n ==> ((#[trigger] f@[p]).x as int, f@[p].y as int, f@[p].z as int)
                    == t3_add(
                    (old(f)@[p].x as int, old(f)@[p].y as int, old(f)@[p].z as int),
                    coulomb_slot_force(*system, *slot, p, k as int),
                ),
            forall|p: int|
                0 <= p < n ==> (#[trigger] f@[p]).in_bounds(b + (k as int) * (i64::MAX as int)),
            forall|kk: int|
                0 <= kk < k ==> coulomb_force_term_ok(
                    *system,
                    *slot,
                    (#[trigger] slot.selection@[kk]).0 as int,
                    slot.selection@[kk].1 as int,
                ),
            wide_sum(f@) == wide_sum(old(f)@),
        decreases nk - k,
    {
        let (pi, pj) = slot.selection[k];
        let r = system.cell.distance(&system.positions[pi], &system.positions[pj]);
        if r <= slot.meta.cutoff {
            if r == 0 {
                proof {
                    assert(!coulomb_slot_force_ok(*system, *slot));
                }
                return false;
            }
            match slot.potential.force(system.charges[pi], system.charges[pj], r) {
                Some(fv) => {
                    let u = system.cell.direction(&system.positions[pi], &system.positions[pj]);
                    proof {
                        lemma_projection_bound(fv as int, u.x as int);
                        lemma_projection_bound(fv as int, u.y as int);
                        lemma_projection_bound(fv as int, u.z as int);
                        assert(b + (k as int + 1) * (i64::MAX as int) <= b + (nk as int) * (
                        i64::MAX as int) && (nk as int) * (i64::MAX as int) <= l2m)
                            by (nonlinear_arith)
                            requires
                                0 <= (k as int) && (k as int) < (nk as int),
                                (nk as int) <= (SIZE_LIMIT as int) * (SIZE_LIMIT as int),
                                l2m == (SIZE_LIMIT as int) * (SIZE_LIMIT as int) * (
                                i64::MAX as int),
                        ;
                    }
                    let fx: i128 = fmul_i64(fv, u.x);
                    let fy: i128 = fmul_i64(fv, u.y);
                    let fz: i128 = fmul_i64(fv, u.z);
                    let ghost before = f@;
                    let oi = f[pi];
                    let vi = WideVector3 { x: oi.x + fx, y: oi.y + fy, z: oi.z + fz };
                    f[pi] = vi;
                    let oj = f[pj];
                    let vj = WideVector3 { x: oj.x - fx, y: oj.y - fy, z: oj.z - fz };
                    f[pj] = vj;
                    proof {
                        lemma_wide_sum_update(before, pi as int, vi);
                        lemma_wide_sum_update(before.update(pi as int, vi), pj as int, vj);
                    }
                },
                None => {
                    proof {
                        assert(!coulomb_slot_force_ok(*system, *slot));
                    }
                    return false;
                },
            }
        }
        k = k + 1;
    }
    proof {
        assert forall|p: int| 0 <= p < n implies (#[trigger] f@[p]).in_bounds(b + l2m) by {
            assert((nk as int) * (i64::MAX as int) <= l2m) by (nonlinear_arith)
                requires
                    0 <= (nk as int) && (nk as int) <= (SIZE_LIMIT as int) * (SIZE_LIMIT as int),
                    l2m == (SIZE_LIMIT as int) * (SIZE_LIMIT as int) * (i64::MAX as int),
            ;
        }
    }
    true
}

/// A scalar force bounded by the narrow range, projected along a unit
/// direction, stays inside the narrow range.
proof fn lemma_projection_bound(fv: int, u: int)
    requires
        abs_int(fv) <= i64::MAX as int,
        abs_int(u) <= crate::SCALE as int,
    ensures
        abs_int(fmul(fv, u)) <= i64::MAX as int,
{
    crate::fixed::lemma_abs_mul_le(fv, u, i64::MAX as int, crate::SCALE as int);
    lemma_tdiv_bound(fv * u, crate::SCALE as int);
    crate::fixed::lemma_abs_div_le(fv * u, crate::SCALE as int, (i64::MAX as int) * (
    crate::SCALE as int));
    assert(((i64::MAX as int) * (crate::SCALE as int)) / (crate::SCALE as int) == i64::MAX as int)
        by (nonlinear_arith);
}

/// Force acting on each atom in the system.
#[derive(Clone, Copy, Debug)]
pub struct Forces;

impl Forces {
    /// Accumulates, for every in-cutoff selected pair of every entry,
    /// the projected force on the pair's first particle and its exact
    /// negation on the second.  On success the per-particle forces are
    /// pinned exactly and their total is the zero vector (momentum
    /// conservation); an `Err` reports a numeric fault and is returned
    /// exactly when one exists.
    pub fn calculate(&self, system: &System, potentials: &Potentials) -> (res: Result<
        Vec<WideVector3>,
        NumericFault,
    >)
        requires
            system.wf(),
            potentials.wf(),
            selections_wf(*potentials, *system),
        ensures
            match res {
                Ok(f) => {
                    &&& forces_defined(*system, *potentials)
                    &&& f@.len() == system.size
                    &&& forall|p: int|
                        0 <= p < system.size ==> ((#[trigger] f@[p]).x as int, f@[p].y as int,
                        f@[p].z as int) == force_on(*system, *potentials, p)
                    &&& wide_sum(f@) == t3_zero()
                },
                Err(_) => !forces_defined(*system, *potentials),
            },
    {
        let ghost l2m: int = (SIZE_LIMIT as int) * (SIZE_LIMIT as int) * (i64::MAX as int);
        let n = system.size;
        let mut f: Vec<WideVector3> = zero_wide_vec(n);
        let ns = potentials.pair_slots.len();
        let mut s: usize = 0;
        while s < ns
            invariant
                system.wf(),
                potentials.wf(),
                selections_wf(*potentials, *system),
                l2m == (SIZE_LIMIT as int) * (SIZE_LIMIT as int) * (i64::MAX as int),
                n == system.size,
                ns == potentials.pair_slots@.len(),
                s <= ns,
                f@.len() == n,
                forall|p: int|
                    0 <= p < n ==> ((#[trigger] f@[p]).x as int, f@[p].y as int, f@[p].z as int)
                        == pair_force_upto(*system, potentials.pair_slots@, p, s as int),
                forall|p: int| 0 <= p < n ==> (#[trigger] f@[p]).in_bounds((s as int) * l2m),
                forall|t: int|
                    0 <= t < s ==> pair_slot_force_ok(
                        *system,
                        #[trigger] potentials.pair_slots@[t],
                    ),
                wide_sum(f@) == t3_zero(),
            decreases ns - s,
        {
            let slot = &potentials.pair_slots[s];
            proof {
                assert((system.size as int) * (system.size as int) <= (SIZE_LIMIT as int) * (
                SIZE_LIMIT as int)) by (nonlinear_arith)
                    requires
                        0 <= (system.size as int) && (system.size as int) <= (SIZE_LIMIT as int),
                ;
                assert((s as int) * l2m + l2m == (s as int + 1) * l2m) by (nonlinear_arith);
                assert((s as int + 1) * l2m <= (2 * ENTRY_LIMIT as int) * l2m) by (nonlinear_arith)
                    requires
                        0 <= (s as int) && (s as int) < (ENTRY_LIMIT as int),
                        l2m >= 0,
                ;
            }
            let ok = apply_pair_slot(system, slot, &mut f, Ghost((s as int) * l2m));
            if !ok {
                return Err(NumericFault);
            }
            s = s + 1;
        }
        let ncs = potentials.coulomb_slots.len();
        let mut s2: usize = 0;
        proof {
            assert((ns as int) * l2m <= (ENTRY_LIMIT as int) * l2m) by (nonlinear_arith)
                requires
                    0 <= (ns as int) && (ns as int) <= (ENTRY_LIMIT as int),
                    l2m >= 0,
            ;
        }
        while s2 < ncs
            invariant
                system.wf(),
                potentials.wf(),
                selections_wf(*potentials, *system),
                l2m == (SIZE_LIMIT as int) * (SIZE_LIMIT as int) * (i64::MAX as int),
                n == system.size,
                ns == potentials.pair_slots@.len(),
                ncs == potentials.coulomb_slots@.len(),
                s2 <= ncs,
                f@.len() == n,
                forall|p: int|
                    0 <= p < n ==> ((#[trigger] f@[p]).x as int, f@[p].y as int, f@[p].z as int)
                        == t3_add(
                        pair_force_upto(*system, potentials.pair_slots@, p, ns as int),
                        coulomb_force_upto(*system, potentials.coulomb_slots@, p, s2 as int),
                    ),
                forall|p: int|
                    0 <= p < n ==> (#[trigger] f@[p]).in_bounds(
                        (ENTRY_LIMIT as int) * l2m + (s2 as int) * l2m,
                    ),
                forall|t: int|
                    0 <= t < ns ==> pair_slot_force_ok(
                        *system,
                        #[trigger] potentials.pair_slots@[t],
                    ),
                forall|t: int|
                    0 <= t < s2 ==> coulomb_slot_force_ok(
                        *system,
                        #[trigger] potentials.coulomb_slots@[t],
                    ),
                wide_sum(f@) == t3_zero(),
            decreases ncs - s2,
        {
            let slot = &potentials.coulomb_slots[s2];
            proof {
                assert((system.size as int) * (system.size as int) <= (SIZE_LIMIT as int) * (
                SIZE_LIMIT as int)) by (nonlinear_arith)
                    requires
                        0 <= (system.size as int) && (system.size as int) <= (SIZE_LIMIT as int),
                ;
                assert((ENTRY_LIMIT as int) * l2m + (s2 as int) * l2m + l2m == (ENTRY_LIMIT as int)
                    * l2m + (s2 as int + 1) * l2m) by (nonlinear_arith);
                assert((ENTRY_LIMIT as int) * l2m + (s2 as int + 1) * l2m <= (2 * (
                ENTRY_LIMIT as int)) * l2m) by (nonlinear_arith)
                    requires
                        0 <= (s2 as int) && (s2 as int) < (ENTRY_LIMIT as int),
                        l2m >= 0,
                ;
            }
            let ok = apply_coulomb_slot(
                system,
                slot,
                &mut f,
                Ghost((ENTRY_LIMIT as int) * l2m + (s2 as int) * l2m),
            );
            if !ok {
                return Err(NumericFault);
            }
            s2 = s2 + 1;
        }
        Ok(f)
    }
}

/// Cutoff boundary: a pair whose minimum-image distance lies beyond the
/// entry's cutoff contributes exactly zero energy and zero force, and
/// can never fault.
pub proof fn lemma_cutoff_beyond_is_zero(sys: System, slot: PairSlot, i: int, j: int)
    requires
        sys.cell.distance_spec(sys.positions@[i], sys.positions@[j]) > slot.meta.cutoff,
    ensures
        pair_energy_term(sys, slot, i, j) == 0,
        pair_force_term(sys, slot, i, j) == t3_zero(),
        pair_energy_term_ok(sys, slot, i, j),
        pair_force_term_ok(sys, slot, i, j),
{
}

/// Cutoff boundary for coulombic entries: beyond the cutoff the pair
/// contributes exactly zero energy and zero force.
pub proof fn lemma_coulomb_cutoff_beyond_is_zero(sys: System, slot: CoulombSlot, i: int, j: int)
    requires
        sys.cell.distance_spec(sys.positions@[i], sys.positions@[j]) > slot.meta.cutoff,
    ensures
        coulomb_energy_term(sys, slot, i, j) == 0,
        coulomb_force_term(sys, slot, i, j) == t3_zero(),
        coulomb_energy_term_ok(sys, slot, i, j),
        coulomb_force_term_ok(sys, slot, i, j),
{
}

/// An intermolecular-restricted entry never selects a pair that shares
/// a molecule; an intramolecular-restricted entry never selects a pair
/// that does not.
pub proof fn lemma_restriction_excludes(
    sys: System,
    meta: crate::potential::PairPotentialMeta,
    i: int,
    j: int,
)
    requires
        (meta.restriction == crate::potential::Restriction::Intermolecular && sys.molecules@[i]
            == sys.molecules@[j]) || (meta.restriction
            == crate::potential::Restriction::Intramolecular && sys.molecules@[i]
            != sys.molecules@[j]),
    ensures
        !crate::potential::pair_eligible(sys, meta, i, j),
{
}

/// Restriction correctness for a two-particle system: if the entry's
/// restriction rejects the only possible pair, the selection built by
/// setup is empty and the entry contributes zero energy and zero force.
pub proof fn lemma_restricted_two_particle_zero(sys: System, slot: PairSlot)
    requires
        sys.size == 2,
        crate::potential::pair_selection_exact(slot.selection@, sys, slot.meta),
        (slot.meta.restriction == crate::potential::Restriction::Intermolecular
            && sys.molecules@[0] == sys.molecules@[1]) || (slot.meta.restriction
            == crate::potential::Restriction::Intramolecular && sys.molecules@[0]
            != sys.molecules@[1]),
    ensures
        slot.selection@.len() == 0,
        pair_slot_energy(sys, slot, slot.selection@.len() as int) == 0,
        forall|p: int| pair_slot_force(sys, slot, p, slot.selection@.len() as int) == t3_zero(),
{
    if slot.selection@.len() > 0 {
        let q = slot.selection@[0];
        assert(crate::potential::pair_eligible(sys, slot.meta, q.0 as int, q.1 as int));
        assert(q.0 as int == 0 && q.1 as int == 1);
        lemma_restriction_excludes(sys, slot.meta, 0, 1);
        assert(false);
    }
}

/// The kinetic energy and temperature read only the particle count,
/// masses and velocities: systems equal there agree on both.
pub proof fn lemma_temperature_congruent(s1: System, s2: System)
    requires
        s2.size == s1.size,
        s2.masses@ == s1.masses@,
        s2.velocities@ == s1.velocities@,
    ensures
        kinetic_energy_spec(s1) == kinetic_energy_spec(s2),
        temperature_spec(s1) == temperature_spec(s2),
{
    lemma_kinetic_upto_congruent(s1, s2, s1.size as int);
}

/// Induction helper for [`lemma_temperature_congruent`].
proof fn lemma_kinetic_upto_congruent(s1: System, s2: System, i: int)
    requires
        s2.size == s1.size,
        s2.masses@ == s1.masses@,
        s2.velocities@ == s1.velocities@,
    ensures
        kinetic_upto(s1, i) == kinetic_upto(s2, i),
    decreases i,
{
    if i > 0 {
        lemma_kinetic_upto_congruent(s1, s2, i - 1);
    }
}

} // verus!
