//! Time integration: the velocity-Verlet stepper.

use vstd::prelude::*;

use crate::COORD_LIMIT;
use crate::NumericFault;
use crate::fixed::abs_int;
use crate::fixed::fdiv;
use crate::fixed::fdiv_i128;
use crate::fixed::fmul;
use crate::fixed::fmul_i128;
use crate::fixed::fmul_i64;
use crate::fixed::tdiv;
use crate::fixed::tdiv_i128;
use crate::potential::CoulombSlot;
use crate::potential::PairSlot;
use crate::potential::Potentials;
use crate::property::Forces;
use crate::property::coulomb_force_upto;
use crate::property::coulomb_slot_force;
use crate::property::coulomb_slot_force_ok;
use crate::property::force_on;
use crate::property::forces_defined;
use crate::property::pair_force_upto;
use crate::property::pair_slot_force;
use crate::property::pair_slot_force_ok;
use crate::property::selections_wf;
use crate::system::System;
use crate::vector::Vector3;
use crate::vector::WideVector3;

verus! {

/// Two systems agree on everything the force evaluation reads: sizes,
/// cell, elements, molecules, charges and positions (velocities may
/// differ).
pub open spec fn same_force_inputs(s1: System, s2: System) -> bool {
    &&& s1.size == s2.size
    &&& s1.cell == s2.cell
    &&& s1.elements@ == s2.elements@
    &&& s1.molecules@ == s2.molecules@
    &&& s1.charges@ == s2.charges@
    &&& s1.positions@ == s2.positions@
}

/// Forces of one pairwise entry read no velocities.
proof fn lemma_pair_slot_force_congruent(s1: System, s2: System, slot: PairSlot, p: int, k: int)
    requires
        same_force_inputs(s1, s2),
    ensures
        pair_slot_force(s1, slot, p, k) == pair_slot_force(s2, slot, p, k),
    decreases k,
{
    if k > 0 {
        lemma_pair_slot_force_congruent(s1, s2, slot, p, k - 1);
    }
}

/// Forces of the pairwise family read no velocities.
proof fn lemma_pair_force_upto_congruent(
    s1: System,
    s2: System,
    slots: Seq<PairSlot>,
    p: int,
    s: int,
)
    requires
        same_force_inputs(s1, s2),
    ensures
        pair_force_upto(s1, slots, p, s) == pair_force_upto(s2, slots, p, s),
    decreases s,
{
    if s > 0 {
        lemma_pair_force_upto_congruent(s1, s2, slots, p, s - 1);
        lemma_pair_slot_force_congruent(
            s1,
            s2,
            slots[s - 1],
            p,
            slots[s - 1].selection@.len() as int,
        );
    }
}

/// Forces of one coulombic entry read no velocities.
proof fn lemma_coulomb_slot_force_congruent(
    s1: System,
    s2: System,
    slot: CoulombSlot,
    p: int,
    k: int,
)
    requires
        same_force_inputs(s1, s2),
    ensures
        coulomb_slot_force(s1, slot, p, k) == coulomb_slot_force(s2, slot, p, k),
    decreases k,
{
    if k > 0 {
        lemma_coulomb_slot_force_congruent(s1, s2, slot, p, k - 1);
    }
}

/// Forces of the coulombic family read no velocities.
proof fn lemma_coulomb_force_upto_congruent(
    s1: System,
    s2: System,
    slots: Seq<CoulombSlot>,
    p: int,
    s: int,
)
    requires
        same_force_inputs(s1, s2),
    ensures
        coulomb_force_upto(s1, slots, p, s) == coulomb_force_upto(s2, slots, p, s),
    decreases s,
{
    if s > 0 {
        lemma_coulomb_force_upto_congruent(s1, s2, slots, p, s - 1);
        lemma_coulomb_slot_force_congruent(
            s1,
            s2,
            slots[s - 1],
            p,
            slots[s - 1].selection@.len() as int,
        );
    }
}

/// The whole force evaluation reads no velocities: two systems with the
/// same force inputs give the same forces and the same fault set.
pub proof fn lemma_force_velocity_independent(s1: System, s2: System, pots: Potentials)
    requires
        same_force_inputs(s1, s2),
    ensures
        forall|p: int| #[trigger] force_on(s1, pots, p) == force_on(s2, pots, p),
        forces_defined(s1, pots) == forces_defined(s2, pots),
{
    assert forall|p: int| #[trigger] force_on(s1, pots, p) == force_on(s2, pots, p) by {
        lemma_pair_force_upto_congruent(s1, s2, pots.pair_slots@, p, pots.pair_slots@.len() as int);
        lemma_coulomb_force_upto_congruent(
            s1,
            s2,
            pots.coulomb_slots@,
            p,
            pots.coulomb_slots@.len() as int,
        );
    }
    assert forall|s: int| 0 <= s < pots.pair_slots@.len() implies (pair_slot_force_ok(
        s1,
        #[trigger] pots.pair_slots@[s],
    ) == pair_slot_force_ok(s2, pots.pair_slots@[s])) by {
        let slot = pots.pair_slots@[s];
        assert forall|k: int| 0 <= k < slot.selection@.len() implies (
        crate::property::pair_force_term_ok(
            s1,
            slot,
            (#[trigger] slot.selection@[k]).0 as int,
            slot.selection@[k].1 as int,
        ) == crate::property::pair_force_term_ok(
            s2,
            slot,
            slot.selection@[k].0 as int,
            slot.selection@[k].1 as int,
        )) by {}
    }
    assert forall|s: int| 0 <= s < pots.coulomb_slots@.len() implies (coulomb_slot_force_ok(
        s1,
        #[trigger] pots.coulomb_slots@[s],
    ) == coulomb_slot_force_ok(s2, pots.coulomb_slots@[s])) by {
        let slot = pots.coulomb_slots@[s];
        assert forall|k: int| 0 <= k < slot.selection@.len() implies (
        crate::property::coulomb_force_term_ok(
            s1,
            slot,
            (#[trigger] slot.selection@[k]).0 as int,
            slot.selection@[k].1 as int,
        ) == crate::property::coulomb_force_term_ok(
            s2,
            slot,
            slot.selection@[k].0 as int,
            slot.selection@[k].1 as int,
        )) by {}
    }
}

/// Acceleration from a force vector and a mass: `f / m`, componentwise.
pub open spec fn accel_of(f: (int, int, int), m: int) -> (int, int, int) {
    (fdiv(f.0, m), fdiv(f.1, m), fdiv(f.2, m))
}

/// Whether the force components and the resulting acceleration fit the
/// narrow range.
pub open spec fn accel_ok(f: (int, int, int), m: int) -> bool {
    &&& abs_int(f.0) <= i64::MAX as int && abs_int(f.1) <= i64::MAX as int && abs_int(f.2)
        <= i64::MAX as int
    &&& abs_int(fdiv(f.0, m)) <= i64::MAX as int && abs_int(fdiv(f.1, m)) <= i64::MAX as int
        && abs_int(fdiv(f.2, m)) <= i64::MAX as int
}

/// Whether the whole acceleration field of the system is defined.
pub open spec fn accels_ok(sys: System, pots: Potentials) -> bool {
    &&& forces_defined(sys, pots)
    &&& forall|i: int|
        0 <= i < sys.size ==> accel_ok(#[trigger] force_on(sys, pots, i), sys.masses@[i] as int)
}

/// Position increment of one coordinate over one timestep:
/// `v*dt + 0.5*a*dt^2` in fixed-point arithmetic.
pub open spec fn pos_delta(v: int, a: int, dt: int) -> int {
    fmul(v, dt) + tdiv(fmul(fmul(a, dt), dt), 2)
}

/// Velocity increment of one coordinate over one timestep:
/// `0.5*(a_old + a_new)*dt` in fixed-point arithmetic.
pub open spec fn vel_delta(ao: int, an: int, dt: int) -> int {
    fmul(tdiv(ao + an, 2), dt)
}

/// Whether every stepped position stays inside the coordinate bound.
pub open spec fn positions_ok(sys: System, acc: Seq<Vector3>, dt: int) -> bool {
    forall|i: int|
        0 <= i < sys.size ==> {
            let p = #[trigger] sys.positions@[i];
            let v = sys.velocities@[i];
            let a = acc[i];
            &&& abs_int(p.x + pos_delta(v.x as int, a.x as int, dt)) <= COORD_LIMIT as int
            &&& abs_int(p.y + pos_delta(v.y as int, a.y as int, dt)) <= COORD_LIMIT as int
            &&& abs_int(p.z + pos_delta(v.z as int, a.z as int, dt)) <= COORD_LIMIT as int
        }
}

/// Whether every stepped velocity stays inside the coordinate bound.
pub open spec fn velocities_ok(
    vel: Seq<Vector3>,
    acc_old: Seq<Vector3>,
    acc_new: Seq<Vector3>,
    n: int,
    dt: int,
) -> bool {
    forall|i: int|
        0 <= i < n ==> {
            let v = #[trigger] vel[i];
            let ao = acc_old[i];
            let an = acc_new[i];
            &&& abs_int(v.x + vel_delta(ao.x as int, an.x as int, dt)) <= COORD_LIMIT as int
            &&& abs_int(v.y + vel_delta(ao.y as int, an.y as int, dt)) <= COORD_LIMIT as int
            &&& abs_int(v.z + vel_delta(ao.z as int, an.z as int, dt)) <= COORD_LIMIT as int
        }
}

/// The velocity-Verlet integrator: caches the accelerations of the last
/// force evaluation and advances positions and velocities one timestep
/// per call.
#[derive(Clone, Debug)]
pub struct VelocityVerlet {
    pub timestep: i64,
    pub accelerations: Vec<Vector3>,
    pub ready: bool,
}

impl VelocityVerlet {
    /// The timestep is positive and bounded.
    pub open spec fn wf(self) -> bool {
        0 < self.timestep <= COORD_LIMIT
    }

    /// Builds an integrator with the given timestep (fixed-point raw
    /// value).  It must be set up once before the first step.
    pub fn new(timestep: i64) -> (vv: VelocityVerlet)
        requires
            0 < timestep <= COORD_LIMIT,
        ensures
            vv.timestep == timestep,
            !vv.ready,
            vv.wf(),
    {
        VelocityVerlet { timestep, accelerations: Vec::new(), ready: false }
    }
}

/// Computes the acceleration field from a force field; `None` signals a
/// numeric fault (a force or acceleration out of the narrow range).
fn accelerations_from(system: &System, f: &Vec<WideVector3>) -> (res: Option<Vec<Vector3>>)
    requires
        system.wf(),
        f@.len() == system.size,
    ensures
        match res {
            Some(acc) => {
                &&& acc@.len() == system.size
                &&& forall|i: int|
                    0 <= i < system.size ==> accel_ok(
                        ((#[trigger] f@[i]).x as int, f@[i].y as int, f@[i].z as int),
                        system.masses@[i] as int,
                    )
                &&& forall|i: int|
                    0 <= i < system.size ==> ((#[trigger] acc@[i]).x as int, acc@[i].y as int,
                    acc@[i].z as int) == accel_of(
                        (f@[i].x as int, f@[i].y as int, f@[i].z as int),
                        system.masses@[i] as int,
                    )
            },
            None => exists|i: int|
                0 <= i < system.size && !accel_ok(
                    ((#[trigger] f@[i]).x as int, f@[i].y as int, f@[i].z as int),
                    system.masses@[i] as int,
                ),
        },
{
    let n = system.size;
    let mut acc: Vec<Vector3> = Vec::new();
    let mut i: usize = 0;
    while i < n
        invariant
            system.wf(),
            n == system.size,
            f@.len() == n,
            i <= n,
            acc@.len() == i,
            forall|t: int|
                0 <= t < i ==> accel_ok(
                    ((#[trigger] f@[t]).x as int, f@[t].y as int, f@[t].z as int),
                    system.masses@[t] as int,
                ),
            forall|t: int|
                0 <= t < i ==> ((#[trigger] acc@[t]).x as int, acc@[t].y as int, acc@[t].z as int)
                    == accel_of(
                    (f@[t].x as int, f@[t].y as int, f@[t].z as int),
                    system.masses@[t] as int,
                ),
        decreases n - i,
    {
        let fw = f[i];
        let limit: i128 = i64::MAX as i128;
        if fw.x > limit || fw.x < -limit || fw.y > limit || fw.y < -limit || fw.z > limit || fw.z
            < -limit {
            return None;
        }
        let m = system.masses[i];
        let ax: i128 = fdiv_i128(fw.x, m as i128);
        let ay: i128 = fdiv_i128(fw.y, m as i128);
        let az: i128 = fdiv_i128(fw.z, m as i128);
        if ax > limit || ax < -limit || ay > limit || ay < -limit || az > limit || az < -limit {
            return None;
        }
        acc.push(Vector3 { x: ax as i64, y: ay as i64, z: az as i64 });
        i = i + 1;
    }
    Some(acc)
}

impl VelocityVerlet {
    /// Computes and caches the initial accelerations from the current
    /// forces; must be called exactly once before the first
    /// [`VelocityVerlet::integrate`] call.  Returns `Err` exactly when
    /// the force or acceleration evaluation faults, leaving the
    /// integrator untouched.
    pub fn setup(&mut self, system: &System, potentials: &Potentials) -> (res: Result<
        (),
        NumericFault,
    >)
        requires
            old(self).wf(),
            system.wf(),
            potentials.wf(),
            selections_wf(*potentials, *system),
        ensures
            final(self).wf(),
            final(self).timestep == old(self).timestep,
            res is Ok <==> accels_ok(*system, *potentials),
            res is Ok ==> {
                &&& final(self).ready
                &&& final(self).accelerations@.len() == system.size
                &&& forall|i: int|
                    0 <= i < system.size ==> ((#[trigger] final(self).accelerations@[i]).x as int,
                    final(self).accelerations@[i].y as int,
                    final(self).accelerations@[i].z as int) == accel_of(
                        force_on(*system, *potentials, i),
                        system.masses@[i] as int,
                    )
            },
            res is Err ==> *final(self) == *old(self),
    {
        let f = match Forces.calculate(system, potentials) {
            Ok(f) => f,
            Err(e) => {
                return Err(e);
            },
        };
        match accelerations_from(system, &f) {
            Some(acc) => {
                proof {
                    assert forall|i: int| 0 <= i < system.size implies accel_ok(
                        #[trigger] force_on(*system, *potentials, i),
                        system.masses@[i] as int,
                    ) by {
                        assert((f@[i].x as int, f@[i].y as int, f@[i].z as int) == force_on(
                            *system,
                            *potentials,
                            i,
                        ));
                    }
                }
                self.accelerations = acc;
                self.ready = true;
                Ok(())
            },
            None => {
                proof {
                    let i = choose|i: int|
                        0 <= i < system.size && !accel_ok(
                            ((#[trigger] f@[i]).x as int, f@[i].y as int, f@[i].z as int),
                            system.masses@[i] as int,
                        );
                    assert((f@[i].x as int, f@[i].y as int, f@[i].z as int) == force_on(
                        *system,
                        *potentials,
                        i,
                    ));
                    assert(!accel_ok(force_on(*system, *potentials, i), system.masses@[i] as int));
                }
                Err(NumericFault)
            },
        }
    }
}

/// Computes the stepped positions `x + v*dt + 0.5*a*dt^2`; `None`
/// signals a stepped position out of the coordinate bound.
fn step_positions(system: &System, acc: &Vec<Vector3>, dt: i64) -> (res: Option<Vec<Vector3>>)
    requires
        system.wf(),
        acc@.len() == system.size,
        0 < dt <= COORD_LIMIT,
    ensures
        match res {
            Some(p) => {
                &&& positions_ok(*system, acc@, dt as int)
                &&& p@.len() == system.size
                &&& forall|i: int|
                    0 <= i < system.size ==> {
                        let q = system.positions@[i];
                        let v = system.velocities@[i];
                        let a = acc@[i];
                        ((#[trigger] p@[i]).x as int, p@[i].y as int, p@[i].z as int) == (
                        q.x + pos_delta(v.x as int, a.x as int, dt as int),
                        q.y + pos_delta(v.y as int, a.y as int, dt as int),
                        q.z + pos_delta(v.z as int, a.z as int, dt as int),
                        )
                    }
                &&& forall|i: int|
                    0 <= i < system.size ==> (#[trigger] p@[i]).in_bounds(COORD_LIMIT as int)
            },
            None => !positions_ok(*system, acc@, dt as int),
        },
{
    let n = system.size;
    let mut p: Vec<Vector3> = Vec::new();
    let mut i: usize = 0;
    while i < n
        invariant
            system.wf(),
            acc@.len() == n,
            n == system.size,
            0 < dt <= COORD_LIMIT,
            i <= n,
            p@.len() == i,
            forall|t: int|
                0 <= t < i ==> {
                    let q = system.positions@[t];
                    let v = system.velocities@[t];
                    let a = acc@[t];
                    ((#[trigger] p@[t]).x as int, p@[t].y as int, p@[t].z as int) == (
                    q.x + pos_delta(v.x as int, a.x as int, dt as int),
                    q.y + pos_delta(v.y as int, a.y as int, dt as int),
                    q.z + pos_delta(v.z as int, a.z as int, dt as int),
                    )
                },
            forall|t: int| 0 <= t < i ==> (#[trigger] p@[t]).in_bounds(COORD_LIMIT as int),
        decreases n - i,
    {
        let q = system.positions[i];
        let v = system.velocities[i];
        let a = acc[i];
        let nx: i128 = step_coord(q.x, v.x, a.x, dt);
        let ny: i128 = step_coord(q.y, v.y, a.y, dt);
        let nz: i128 = step_coord(q.z, v.z, a.z, dt);
        let lim: i128 = COORD_LIMIT as i128;
        if nx > lim || nx < -lim || ny > lim || ny < -lim || nz > lim || nz < -lim {
            return None;
        }
        p.push(Vector3 { x: nx as i64, y: ny as i64, z: nz as i64 });
        i = i + 1;
    }
    proof {
        assert forall|t: int|
            0 <= t < system.size implies {
            let q = #[trigger] system.positions@[t];
            let v = system.velocities@[t];
            let a = acc@[t];
            &&& abs_int(q.x + pos_delta(v.x as int, a.x as int, dt as int)) <= COORD_LIMIT as int
            &&& abs_int(q.y + pos_delta(v.y as int, a.y as int, dt as int)) <= COORD_LIMIT as int
            &&& abs_int(q.z + pos_delta(v.z as int, a.z as int, dt as int)) <= COORD_LIMIT as int
        } by {
            assert(p@[t].in_bounds(COORD_LIMIT as int));
            assert(((p@[t]).x as int, p@[t].y as int, p@[t].z as int) == (
            system.positions@[t].x + pos_delta(
                system.velocities@[t].x as int,
                acc@[t].x as int,
                dt as int,
            ),
            system.positions@[t].y + pos_delta(
                system.velocities@[t].y as int,
                acc@[t].y as int,
                dt as int,
            ),
            system.positions@[t].z + pos_delta(
                system.velocities@[t].z as int,
                acc@[t].z as int,
                dt as int,
            ),
            ));
        }
        assert(positions_ok(*system, acc@, dt as int));
    }
    Some(p)
}

/// One coordinate of the position step: `x + v*dt + 0.5*a*dt^2`.
fn step_coord(x: i64, v: i64, a: i64, dt: i64) -> (r: i128)
    requires
        0 < dt <= COORD_LIMIT,
    ensures
        r == x + pos_delta(v as int, a as int, dt as int),
{
    let ghost big: int = 9_223_372_036_854_775_808;
    proof {
        crate::fixed::lemma_abs_mul_le(v as int, dt as int, big, COORD_LIMIT as int);
        crate::fixed::lemma_abs_div_le(
            (v as int) * (dt as int),
            crate::SCALE as int,
            big * (COORD_LIMIT as int),
        );
        crate::fixed::lemma_abs_mul_le(a as int, dt as int, big, COORD_LIMIT as int);
        crate::fixed::lemma_abs_div_le(
            (a as int) * (dt as int),
            crate::SCALE as int,
            big * (COORD_LIMIT as int),
        );
    }
    let vdt: i128 = fmul_i64(v, dt);
    let adt: i128 = fmul_i64(a, dt);
    proof {
        crate::fixed::lemma_abs_mul_le(
            adt as int,
            dt as int,
            (big * (COORD_LIMIT as int)) / (crate::SCALE as int),
            COORD_LIMIT as int,
        );
        crate::fixed::lemma_abs_div_le(
            (adt as int) * (dt as int),
            crate::SCALE as int,
            ((big * (COORD_LIMIT as int)) / (crate::SCALE as int)) * (COORD_LIMIT as int),
        );
    }
    let adt2: i128 = fmul_i128(adt, dt as i128);
    let half: i128 = tdiv_i128(adt2, 2);
    (x as i128) + vdt + half
}

/// Computes the stepped velocities `v + 0.5*(a_old + a_new)*dt`; `None`
/// signals a stepped velocity out of the coordinate bound.
fn step_velocities(
    system: &System,
    acc_old: &Vec<Vector3>,
    acc_new: &Vec<Vector3>,
    dt: i64,
) -> (res: Option<Vec<Vector3>>)
    requires
        system.wf(),
        acc_old@.len() == system.size,
        acc_new@.len() == system.size,
        0 < dt <= COORD_LIMIT,
    ensures
        match res {
            Some(w) => {
                &&& velocities_ok(
                    system.velocities@,
                    acc_old@,
                    acc_new@,
                    system.size as int,
                    dt as int,
                )
                &&& w@.len() == system.size
                &&& forall|i: int|
                    0 <= i < system.size ==> {
                        let v = system.velocities@[i];
                        let ao = acc_old@[i];
                        let an = acc_new@[i];
                        ((#[trigger] w@[i]).x as int, w@[i].y as int, w@[i].z as int) == (
                        v.x + vel_delta(ao.x as int, an.x as int, dt as int),
                        v.y + vel_delta(ao.y as int, an.y as int, dt as int),
                        v.z + vel_delta(ao.z as int, an.z as int, dt as int),
                        )
                    }
                &&& forall|i: int|
                    0 <= i < system.size ==> (#[trigger] w@[i]).in_bounds(COORD_LIMIT as int)
            },
            None => !velocities_ok(
                system.velocities@,
                acc_old@,
                acc_new@,
                system.size as int,
                dt as int,
            ),
        },
{
    let n = system.size;
    let mut w: Vec<Vector3> = Vec::new();
    let mut i: usize = 0;
    while i < n
        invariant
            system.wf(),
            acc_old@.len() == n,
            acc_new@.len() == n,
            n == system.size,
            0 < dt <= COORD_LIMIT,
            i <= n,
            w@.len() == i,
            forall|t: int|
                0 <= t < i ==> {
                    let v = system.velocities@[t];
                    let ao = acc_old@[t];
                    let an = acc_new@[t];
                    ((#[trigger] w@[t]).x as int, w@[t].y as int, w@[t].z as int) == (
                    v.x + vel_delta(ao.x as int, an.x as int, dt as int),
                    v.y + vel_delta(ao.y as int, an.y as int, dt as int),
                    v.z + vel_delta(ao.z as int, an.z as int, dt as int),
                    )
                },
            forall|t: int| 0 <= t < i ==> (#[trigger] w@[t]).in_bounds(COORD_LIMIT as int),
        decreases n - i,
    {
        let v = system.velocities[i];
        let ao = acc_old[i];
        let an = acc_new[i];
        let nx: i128 = vel_coord(v.x, ao.x, an.x, dt);
        let ny: i128 = vel_coord(v.y, ao.y, an.y, dt);
        let nz: i128 = vel_coord(v.z, ao.z, an.z, dt);
        let lim: i128 = COORD_LIMIT as i128;
        if nx > lim || nx < -lim || ny > lim || ny < -lim || nz > lim || nz < -lim {
            return None;
        }
        w.push(Vector3 { x: nx as i64, y: ny as i64, z: nz as i64 });
        i = i + 1;
    }
    proof {
        assert forall|t: int|
            0 <= t < system.size implies {
            let v = #[trigger] system.velocities@[t];
            let ao = acc_old@[t];
            let an = acc_new@[t];
            &&& abs_int(v.x + vel_delta(ao.x as int, an.x as int, dt as int)) <= COORD_LIMIT as int
            &&& abs_int(v.y + vel_delta(ao.y as int, an.y as int, dt as int)) <= COORD_LIMIT as int
            &&& abs_int(v.z + vel_delta(ao.z as int, an.z as int, dt as int)) <= COORD_LIMIT as int
        } by {
            assert(w@[t].in_bounds(COORD_LIMIT as int));
            assert(((w@[t]).x as int, w@[t].y as int, w@[t].z as int) == (
            system.velocities@[t].x + vel_delta(
                acc_old@[t].x as int,
                acc_new@[t].x as int,
                dt as int,
            ),
            system.velocities@[t].y + vel_delta(
                acc_old@[t].y as int,
                acc_new@[t].y as int,
                dt as int,
            ),
            system.velocities@[t].z + vel_delta(
                acc_old@[t].z as int,
                acc_new@[t].z as int,
                dt as int,
            ),
            ));
        }
        assert(velocities_ok(system.velocities@, acc_old@, acc_new@, system.size as int, dt as int));
    }
    Some(w)
}

/// One coordinate of the velocity step: `v + 0.5*(a_old + a_new)*dt`.
fn vel_coord(v: i64, ao: i64, an: i64, dt: i64) -> (r: i128)
    requires
        0 < dt <= COORD_LIMIT,
    ensures
        r == v + vel_delta(ao as int, an as int, dt as int),
{
    let ghost big: int = 9_223_372_036_854_775_808;
    let t: i128 = tdiv_i128((ao as i128) + (an as i128), 2);
    proof {
        crate::fixed::lemma_abs_mul_le(t as int, dt as int, big, COORD_LIMIT as int);
        crate::fixed::lemma_abs_div_le(
            (t as int) * (dt as int),
            crate::SCALE as int,
            big * (COORD_LIMIT as int),
        );
    }
    let d: i128 = fmul_i128(t, dt as i128);
    (v as i128) + d
}

/// Whether the velocity step of every particle, taken against the
/// accelerations of the stepped system, stays inside the coordinate
/// bound.
pub open spec fn stepped_velocities_ok(
    vel: Seq<Vector3>,
    acc_old: Seq<Vector3>,
    sys2: System,
    pots: Potentials,
    dt: int,
) -> bool {
    forall|i: int|
        0 <= i < sys2.size ==> {
            let v = #[trigger] vel[i];
            let ao = acc_old[i];
            let an = accel_of(force_on(sys2, pots, i), sys2.masses@[i] as int);
            &&& abs_int(v.x + vel_delta(ao.x as int, an.0, dt)) <= COORD_LIMIT as int
            &&& abs_int(v.y + vel_delta(ao.y as int, an.1, dt)) <= COORD_LIMIT as int
            &&& abs_int(v.z + vel_delta(ao.z as int, an.2, dt)) <= COORD_LIMIT as int
        }
}


/// One velocity-Verlet step as a relation between the states before and
/// after it: positions stepped with the old accelerations, forces
/// defined at the new positions, the new accelerations taken from them,
/// and velocities stepped with the average of old and new
/// accelerations.
pub open spec fn verlet_step_rel(
    s0: System,
    acc0: Seq<Vector3>,
    dt: int,
    pots: Potentials,
    s1: System,
    acc1: Seq<Vector3>,
) -> bool {
    &&& positions_ok(s0, acc0, dt)
    &&& s1.size == s0.size
    &&& s1.cell == s0.cell
    &&& s1.elements@ == s0.elements@
    &&& s1.molecules@ == s0.molecules@
    &&& s1.charges@ == s0.charges@
    &&& s1.masses@ == s0.masses@
    &&& s1.positions@.len() == s0.size
    &&& forall|i: int|
        0 <= i < s0.size ==> {
            let q = s0.positions@[i];
            let v = s0.velocities@[i];
            let a = acc0[i];
            ((#[trigger] s1.positions@[i]).x as int, s1.positions@[i].y as int,
            s1.positions@[i].z as int) == (
            q.x + pos_delta(v.x as int, a.x as int, dt),
            q.y + pos_delta(v.y as int, a.y as int, dt),
            q.z + pos_delta(v.z as int, a.z as int, dt),
            )
        }
    &&& forces_defined(s1, pots)
    &&& acc1.len() == s0.size
    &&& forall|i: int|
        0 <= i < s0.size ==> ((#[trigger] acc1[i]).x as int, acc1[i].y as int,
        acc1[i].z as int) == accel_of(force_on(s1, pots, i), s1.masses@[i] as int)
    &&& s1.velocities@.len() == s0.size
    &&& forall|i: int|
        0 <= i < s0.size ==> {
            let v = s0.velocities@[i];
            let ao = acc0[i];
            let an = acc1[i];
            ((#[trigger] s1.velocities@[i]).x as int, s1.velocities@[i].y as int,
            s1.velocities@[i].z as int) == (
            v.x + vel_delta(ao.x as int, an.x as int, dt),
            v.y + vel_delta(ao.y as int, an.y as int, dt),
            v.z + vel_delta(ao.z as int, an.z as int, dt),
            )
        }
    &&& forall|i: int|
        0 <= i < s0.size ==> (#[trigger] s1.velocities@[i]).in_bounds(COORD_LIMIT as int)
}

impl VelocityVerlet {
    /// One velocity-Verlet timestep: advances the positions with the
    /// cached accelerations, evaluates the forces at the new positions,
    /// then advances the velocities with the average of the old and new
    /// accelerations, which it caches for the next step.  `Err` signals
    /// a numeric fault; the cached accelerations and the velocities are
    /// then left as they were.
    pub fn integrate(&mut self, system: &mut System, potentials: &Potentials) -> (res: Result<
        (),
        NumericFault,
    >)
        requires
            old(self).wf(),
            old(self).ready,
            old(self).accelerations@.len() == old(system).size,
            old(system).wf(),
            potentials.wf(),
            selections_wf(*potentials, *old(system)),
        ensures
            final(self).wf(),
            final(self).timestep == old(self).timestep,
            final(self).ready,
            final(system).wf(),
            final(system).size == old(system).size,
            final(system).cell == old(system).cell,
            final(system).elements@ == old(system).elements@,
            final(system).molecules@ == old(system).molecules@,
            final(system).charges@ == old(system).charges@,
            final(system).masses@ == old(system).masses@,
            final(system).bonds@ == old(system).bonds@,
            final(system).angles@ == old(system).angles@,
            final(system).dihedrals@ == old(system).dihedrals@,
            res is Ok ==> verlet_step_rel(
                *old(system),
                old(self).accelerations@,
                old(self).timestep as int,
                *potentials,
                *final(system),
                final(self).accelerations@,
            ),
            res is Ok ==> {
                &&& positions_ok(*old(system), old(self).accelerations@, old(self).timestep as int)
                &&& forall|i: int|
                    0 <= i < old(system).size ==> {
                        let q = old(system).positions@[i];
                        let v = old(system).velocities@[i];
                        let a = old(self).accelerations@[i];
                        ((#[trigger] final(system).positions@[i]).x as int, final(system).positions@[i].y as int, final(system).positions@[i].z as int) == (
                        q.x + pos_delta(v.x as int, a.x as int, old(self).timestep as int),
                        q.y + pos_delta(v.y as int, a.y as int, old(self).timestep as int),
                        q.z + pos_delta(v.z as int, a.z as int, old(self).timestep as int),
                        )
                    }
                &&& forces_defined(*final(system), *potentials)
                &&& final(self).accelerations@.len() == old(system).size
                &&& forall|i: int|
                    0 <= i < old(system).size ==> ((#[trigger] final(self).accelerations@[i]).x as int, final(self).accelerations@[i].y as int,
                    final(self).accelerations@[i].z as int) == accel_of(
                        force_on(*final(system), *potentials, i),
                        final(system).masses@[i] as int,
                    )
                &&& forall|i: int|
                    0 <= i < old(system).size ==> {
                        let v = old(system).velocities@[i];
                        let ao = old(self).accelerations@[i];
                        let an = final(self).accelerations@[i];
                        ((#[trigger] final(system).velocities@[i]).x as int, final(system).velocities@[i].y as int, final(system).velocities@[i].z as int) == (
                        v.x + vel_delta(ao.x as int, an.x as int, old(self).timestep as int),
                        v.y + vel_delta(ao.y as int, an.y as int, old(self).timestep as int),
                        v.z + vel_delta(ao.z as int, an.z as int, old(self).timestep as int),
                        )
                    }
            },
            res is Err ==> {
                &&& *final(self) == *old(self)
                &&& final(system).velocities@ == old(system).velocities@
                &&& (final(system).positions@ == old(system).positions@ || positions_ok(
                    *old(system),
                    old(self).accelerations@,
                    old(self).timestep as int,
                ))
                &&& (!positions_ok(
                    *old(system),
                    old(self).accelerations@,
                    old(self).timestep as int,
                ) || !forces_defined(*final(system), *potentials) || (exists|i: int|
                    0 <= i < old(system).size && !accel_ok(
                        #[trigger] force_on(*final(system), *potentials, i),
                        old(system).masses@[i] as int,
                    )) || !stepped_velocities_ok(
                    old(system).velocities@,
                    old(self).accelerations@,
                    *final(system),
                    *potentials,
                    old(self).timestep as int,
                ))
            },
    {
        let dt = self.timestep;
        let newpos = match step_positions(&*system, &self.accelerations, dt) {
            Some(p) => p,
            None => {
                return Err(NumericFault);
            },
        };
        system.positions = newpos;
        let f = match Forces.calculate(&*system, potentials) {
            Ok(f) => f,
            Err(e) => {
                return Err(e);
            },
        };
        let acc_new = match accelerations_from(&*system, &f) {
            Some(a) => a,
            None => {
                proof {
                    let i = choose|i: int|
                        0 <= i < system.size && !accel_ok(
                            ((#[trigger] f@[i]).x as int, f@[i].y as int, f@[i].z as int),
                            system.masses@[i] as int,
                        );
                    assert(!accel_ok(
                        force_on(*system, *potentials, i),
                        system.masses@[i] as int,
                    ));
                }
                return Err(NumericFault);
            },
        };
        let newvel = match step_velocities(&*system, &self.accelerations, &acc_new, dt) {
            Some(w) => w,
            None => {
                proof {
                    assert(!stepped_velocities_ok(
                        system.velocities@,
                        self.accelerations@,
                        *system,
                        *potentials,
                        dt as int,
                    )) by {
                        if stepped_velocities_ok(
                            system.velocities@,
                            self.accelerations@,
                            *system,
                            *potentials,
                            dt as int,
                        ) {
                            assert forall|i: int|
                                0 <= i < system.size implies {
                                let v = #[trigger] system.velocities@[i];
                                let ao = self.accelerations@[i];
                                let an = acc_new@[i];
                                &&& abs_int(
                                    v.x + vel_delta(ao.x as int, an.x as int, dt as int),
                                ) <= COORD_LIMIT as int
                                &&& abs_int(
                                    v.y + vel_delta(ao.y as int, an.y as int, dt as int),
                                ) <= COORD_LIMIT as int
                                &&& abs_int(
                                    v.z + vel_delta(ao.z as int, an.z as int, dt as int),
                                ) <= COORD_LIMIT as int
                            } by {
                                assert((acc_new@[i].x as int, acc_new@[i].y as int,
                                acc_new@[i].z as int) == accel_of(
                                    force_on(*system, *potentials, i),
                                    system.masses@[i] as int,
                                ));
                            }
                            assert(velocities_ok(
                                system.velocities@,
                                self.accelerations@,
                                acc_new@,
                                system.size as int,
                                dt as int,
                            ));
                        }
                    }
                }
                return Err(NumericFault);
            },
        };
        let ghost mid = *system;
        system.velocities = newvel;
        self.accelerations = acc_new;
        proof {
            lemma_force_velocity_independent(mid, *system, *potentials);
        }
        Ok(())
    }
}

} // verus!
