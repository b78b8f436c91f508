//! Thermostats: velocity-rescaling couplings that drive the system
//! toward a target temperature around each integration step.

use vstd::prelude::*;

use crate::COORD_LIMIT;
use crate::NumericFault;
use crate::SCALE;
use crate::fixed::abs_int;
use crate::fixed::exp_fixed;
use crate::fixed::exp_fixed_spec;
use crate::fixed::fdiv;
use crate::fixed::fdiv_i128;
use crate::fixed::fmul;
use crate::fixed::fmul_i128;
use crate::fixed::fmul_i64;
use crate::fixed::sqrt_fixed;
use crate::fixed::sqrt_fixed_i128;
use crate::fixed::tdiv;
use crate::property::temperature_spec;
use crate::property::Temperature;
use crate::system::System;
use crate::vector::Vector3;

verus! {

/// Whether scaling every velocity by `factor` stays inside the
/// coordinate bound.
pub open spec fn scaled_ok(sys: System, factor: int) -> bool {
    forall|i: int|
        0 <= i < sys.size ==> {
            let v = #[trigger] sys.velocities@[i];
            &&& abs_int(fmul(v.x as int, factor)) <= COORD_LIMIT as int
            &&& abs_int(fmul(v.y as int, factor)) <= COORD_LIMIT as int
            &&& abs_int(fmul(v.z as int, factor)) <= COORD_LIMIT as int
        }
}

/// The motion state `s1` is `s0` with every velocity scaled by
/// `factor`: topology and positions unchanged, velocities pinned
/// componentwise.
pub open spec fn velocities_scaled(s0: System, s1: System, factor: int) -> bool {
    &&& s1.size == s0.size
    &&& s1.cell == s0.cell
    &&& s1.elements@ == s0.elements@
    &&& s1.molecules@ == s0.molecules@
    &&& s1.charges@ == s0.charges@
    &&& s1.masses@ == s0.masses@
    &&& s1.positions@ == s0.positions@
    &&& s1.velocities@.len() == s0.size
    &&& forall|i: int|
        0 <= i < s0.size ==> {
            let v = s0.velocities@[i];
            ((#[trigger] s1.velocities@[i]).x as int, s1.velocities@[i].y as int,
            s1.velocities@[i].z as int) == (
            fmul(v.x as int, factor),
            fmul(v.y as int, factor),
            fmul(v.z as int, factor),
            )
        }
}

/// Builds the velocity field scaled by `factor`; `None` signals a
/// scaled velocity out of the coordinate bound.
pub(crate) fn scaled_velocities(system: &System, factor: i64) -> (res: Option<Vec<Vector3>>)
    requires
        system.wf(),
        0 <= factor <= 10_000_000_000_000_000,
    ensures
        match res {
            Some(w) => {
                &&& scaled_ok(*system, factor as int)
                &&& w@.len() == system.size
                &&& forall|i: int|
                    0 <= i < system.size ==> {
                        let v = system.velocities@[i];
                        ((#[trigger] w@[i]).x as int, w@[i].y as int, w@[i].z as int) == (
                        fmul(v.x as int, factor as int),
                        fmul(v.y as int, factor as int),
                        fmul(v.z as int, factor as int),
                        )
                    }
                &&& forall|i: int|
                    0 <= i < system.size ==> (#[trigger] w@[i]).in_bounds(COORD_LIMIT as int)
            },
            None => !scaled_ok(*system, factor as int),
        },
{
    let n = system.size;
    let mut w: Vec<Vector3> = Vec::new();
    let mut i: usize = 0;
    while i < n
        invariant
            system.wf(),
            n == system.size,
            0 <= factor <= 10_000_000_000_000_000,
            i <= n,
            w@.len() == i,
            forall|t: int|
                0 <= t < i ==> {
                    let v = system.velocities@[t];
                    ((#[trigger] w@[t]).x as int, w@[t].y as int, w@[t].z as int) == (
                    fmul(v.x as int, factor as int),
                    fmul(v.y as int, factor as int),
                    fmul(v.z as int, factor as int),
                    )
                },
            forall|t: int| 0 <= t < i ==> (#[trigger] w@[t]).in_bounds(COORD_LIMIT as int),
        decreases n - i,
    {
        let v = system.velocities[i];
        let nx: i128 = fmul_i64(v.x, factor);
        let ny: i128 = fmul_i64(v.y, factor);
        let nz: i128 = fmul_i64(v.z, factor);
        let lim: i128 = COORD_LIMIT as i128;
        if nx > lim || nx < -lim || ny > lim || ny < -lim || nz > lim || nz < -lim {
            return None;
        }
        w.push(Vector3 { x: nx as i64, y: ny as i64, z: nz as i64 });
        i = i + 1;
    }
    proof {
        assert forall|t: int|
            0 <= t < system.size implies {
            let v = #[trigger] system.velocities@[t];
            &&& abs_int(fmul(v.x as int, factor as int)) <= COORD_LIMIT as int
            &&& abs_int(fmul(v.y as int, factor as int)) <= COORD_LIMIT as int
            &&& abs_int(fmul(v.z as int, factor as int)) <= COORD_LIMIT as int
        } by {
            assert(w@[t].in_bounds(COORD_LIMIT as int));
            assert(((w@[t]).x as int, w@[t].y as int, w@[t].z as int) == (
            fmul(system.velocities@[t].x as int, factor as int),
            fmul(system.velocities@[t].y as int, factor as int),
            fmul(system.velocities@[t].z as int, factor as int),
            ));
        }
    }
    Some(w)
}

/// The inner squared factor of the Berendsen coupling, before the
/// square root.
pub open spec fn berendsen_inner(sys: System, target: int, tau: int) -> int {
    SCALE + fdiv(fdiv(target, temperature_spec(sys)) - SCALE, tau)
}

/// Whether the Berendsen rescale succeeds: a positive current
/// temperature, a nonnegative bounded squared factor, and every scaled
/// velocity inside the coordinate bound.
pub open spec fn berendsen_ok(sys: System, target: int, tau: int) -> bool {
    &&& temperature_spec(sys) > 0
    &&& 0 <= berendsen_inner(sys, target, tau) <= COORD_LIMIT as int
    &&& scaled_ok(sys, berendsen_lambda(sys, target, tau))
}

/// The Berendsen weak-coupling rescaling factor: the square root of
/// `1 + (dt/tau)*(target/current - 1)`.  The thermostat is constructed
/// from the target and the coupling constant alone, without a timestep,
/// so `tau` is taken in units of the timestep and `dt/tau` becomes
/// `1/tau`; a caller with `tau` in time units divides it by the
/// timestep once at construction.
pub open spec fn berendsen_lambda(sys: System, target: int, tau: int) -> int {
    sqrt_fixed(berendsen_inner(sys, target, tau))
}

/// The Berendsen weak-coupling thermostat: after each step it rescales
/// every velocity toward the target temperature.  It trades rigor for
/// simplicity and stability; the microcanonical ensemble is not
/// conserved exactly.
#[derive(Clone, Copy, Debug)]
pub struct Berendsen {
    pub target: i64,
    pub tau: i64,
}

impl Berendsen {
    /// Target temperature and coupling constant are bounded.
    pub open spec fn wf(self) -> bool {
        &&& 0 <= self.target <= COORD_LIMIT
        &&& 0 < self.tau <= COORD_LIMIT
    }

    /// Builds a Berendsen thermostat with the given target temperature
    /// and coupling time constant (in timesteps, fixed-point raw
    /// values).
    pub fn new(target: i64, tau: i64) -> (t: Berendsen)
        requires
            0 <= target <= COORD_LIMIT,
            0 < tau <= COORD_LIMIT,
        ensures
            t.target == target,
            t.tau == tau,
            t.wf(),
    {
        Berendsen { target, tau }
    }

    /// One-time initialisation; the Berendsen coupling keeps no derived
    /// state, so nothing changes.
    pub fn setup(&mut self, system: &System)
        ensures
            *final(self) == *old(self),
    {
        let _ = system;
    }

    /// Hook before the position update: the Berendsen coupling acts
    /// only after the step, so nothing changes.
    pub fn pre_integrate(&mut self, system: &mut System)
        ensures
            *final(self) == *old(self),
            *final(system) == *old(system),
    {
        let _ = self;
    }

    /// Hook after the velocity update: rescales every velocity by the
    /// weak-coupling factor.  `Err` signals a numeric fault (a
    /// non-positive current temperature, a negative or oversized
    /// squared factor, or a scaled velocity out of range); the system
    /// is then left unchanged.
    pub fn post_integrate(&mut self, system: &mut System) -> (res: Result<(), NumericFault>)
        requires
            old(self).wf(),
            old(system).wf(),
        ensures
            *final(self) == *old(self),
            final(system).wf(),
            final(system).size == old(system).size,
            final(system).cell == old(system).cell,
            final(system).elements@ == old(system).elements@,
            final(system).molecules@ == old(system).molecules@,
            final(system).charges@ == old(system).charges@,
            final(system).masses@ == old(system).masses@,
            final(system).positions@ == old(system).positions@,
            final(system).bonds@ == old(system).bonds@,
            final(system).angles@ == old(system).angles@,
            final(system).dihedrals@ == old(system).dihedrals@,
            res is Ok <==> berendsen_ok(
                *old(system),
                old(self).target as int,
                old(self).tau as int,
            ),
            res is Ok ==> {
                let lam = berendsen_lambda(*old(system), old(self).target as int, old(self).tau as int);
                &&& temperature_spec(*old(system)) > 0
                &&& forall|i: int|
                    0 <= i < old(system).size ==> {
                        let v = old(system).velocities@[i];
                        ((#[trigger] final(system).velocities@[i]).x as int, final(system).velocities@[i].y as int, final(system).velocities@[i].z as int) == (
                        fmul(v.x as int, lam), fmul(v.y as int, lam), fmul(v.z as int, lam))
                    }
            },
            res is Err ==> final(system).velocities@ == old(system).velocities@,
    {
        let t: i128 = Temperature.calculate_intrinsic(system);
        if t <= 0 {
            return Err(NumericFault);
        }
        let ratio: i128 = fdiv_i128(self.target as i128, t);
        proof {
            crate::fixed::lemma_abs_mul_le(
                self.target as int,
                SCALE as int,
                COORD_LIMIT as int,
                SCALE as int,
            );
            crate::fixed::lemma_abs_div_le(
                (self.target as int) * (SCALE as int),
                t as int,
                (COORD_LIMIT as int) * (SCALE as int),
            );
        }
        proof {
            crate::fixed::lemma_abs_mul_le(
                (ratio - SCALE) as int,
                SCALE as int,
                3_000_000_000_000_000_000_000,
                SCALE as int,
            );
        }
        let inner: i128 = (SCALE as i128) + fdiv_i128(ratio - (SCALE as i128), self.tau as i128);
        if inner < 0 || inner > COORD_LIMIT as i128 {
            return Err(NumericFault);
        }
        let lam: u64 = sqrt_fixed_i128(inner);
        proof {
            crate::fixed::lemma_sqrt_floor_le(
                (inner as int) * (SCALE as int),
                10_000_000_000_000_000,
            );
            crate::fixed::lemma_sqrt_floor_exists((inner as int) * (SCALE as int));
        }
        match scaled_velocities(system, lam as i64) {
            Some(w) => {
                system.velocities = w;
                Ok(())
            },
            None => Err(NumericFault),
        }
    }
}

/// One half-step advance of the friction coordinate and its derivative,
/// from the current temperature's deviation: the derivative gains
/// `freq^2 * (T/T0 - 1) * dt/2`, the coordinate gains the new
/// derivative times `dt/2`.
pub open spec fn nh_psi_dot_step(sys: System, t: NoseHoover) -> int {
    t.psi_dot + fmul(
        fmul(fmul(t.freq as int, t.freq as int), fdiv(
            temperature_spec(sys) - t.target,
            t.target as int,
        )),
        tdiv(t.timestep as int, 2),
    )
}

/// The friction coordinate after one half-step.
pub open spec fn nh_psi_step(sys: System, t: NoseHoover) -> int {
    t.psi + fmul(nh_psi_dot_step(sys, t), tdiv(t.timestep as int, 2))
}

/// The velocity scaling factor of one half-step: `exp(-psi*dt/2)` with
/// the advanced friction coordinate.
pub open spec fn nh_factor(sys: System, t: NoseHoover) -> int {
    exp_fixed_spec(-fmul(nh_psi_step(sys, t), tdiv(t.timestep as int, 2)))
}

/// Largest magnitude the temperature deviation may take before a
/// Nose-Hoover half-step is a numeric fault.
pub const NH_DEV_LIMIT: i128 = 100_000_000_000_000_000_000_000_000;

/// Whether one Nose-Hoover half-step succeeds: the temperature
/// deviation, the advanced friction state and the exponent stay in
/// range, the scaling factor is nonnegative, and every scaled velocity
/// stays inside the coordinate bound.
pub open spec fn nh_step_ok(sys: System, t: NoseHoover) -> bool {
    let dev = temperature_spec(sys) - t.target;
    let dt2 = tdiv(t.timestep as int, 2);
    &&& abs_int(dev) <= NH_DEV_LIMIT as int
    &&& abs_int(fdiv(dev, t.target as int)) <= COORD_LIMIT as int
    &&& abs_int(nh_psi_dot_step(sys, t)) <= COORD_LIMIT as int
    &&& abs_int(nh_psi_step(sys, t)) <= COORD_LIMIT as int
    &&& abs_int(fmul(nh_psi_step(sys, t), dt2)) <= 2 * SCALE
    &&& nh_factor(sys, t) >= 0
    &&& scaled_ok(sys, nh_factor(sys, t))
}

/// The Nose-Hoover extended-system thermostat: a friction coordinate
/// `psi` and its derivative are integrated alongside the particle
/// motion, and the velocities are scaled by `exp(-psi*dt/2)` on each
/// side of the integration step.
#[derive(Clone, Copy, Debug)]
pub struct NoseHoover {
    pub target: i64,
    pub freq: i64,
    pub timestep: i64,
    pub psi: i64,
    pub psi_dot: i64,
}

impl NoseHoover {
    /// Parameters are positive and bounded, and the friction state is
    /// bounded.
    pub open spec fn wf(self) -> bool {
        &&& 0 < self.target <= COORD_LIMIT
        &&& 0 < self.freq <= COORD_LIMIT
        &&& 0 < self.timestep <= COORD_LIMIT
        &&& abs_int(self.psi as int) <= COORD_LIMIT as int
        &&& abs_int(self.psi_dot as int) <= COORD_LIMIT as int
    }

    /// Builds a Nose-Hoover thermostat from the target temperature, the
    /// coupling frequency, and the timestep (fixed-point raw values).
    pub fn new(target: i64, freq: i64, timestep: i64) -> (t: NoseHoover)
        requires
            0 < target <= COORD_LIMIT,
            0 < freq <= COORD_LIMIT,
            0 < timestep <= COORD_LIMIT,
        ensures
            t.target == target,
            t.freq == freq,
            t.timestep == timestep,
            t.psi == 0,
            t.psi_dot == 0,
            t.wf(),
    {
        NoseHoover { target, freq, timestep, psi: 0, psi_dot: 0 }
    }

    /// One-time initialisation: the friction coordinate and its
    /// derivative start at rest.
    pub fn setup(&mut self, system: &System)
        requires
            old(self).wf(),
        ensures
            final(self).target == old(self).target,
            final(self).freq == old(self).freq,
            final(self).timestep == old(self).timestep,
            final(self).psi == 0,
            final(self).psi_dot == 0,
            final(self).wf(),
    {
        let _ = system;
        self.psi = 0;
        self.psi_dot = 0;
    }

    /// One half-step of the extended system: advances the friction
    /// derivative from the temperature deviation, advances the friction
    /// coordinate, and scales every velocity by `exp(-psi*dt/2)`.
    /// `Err` signals a numeric fault (friction state or scaling out of
    /// range); the thermostat and the system are then left unchanged.
    fn half_step(&mut self, system: &mut System) -> (res: Result<(), NumericFault>)
        requires
            old(self).wf(),
            old(system).wf(),
        ensures
            final(self).target == old(self).target,
            final(self).freq == old(self).freq,
            final(self).timestep == old(self).timestep,
            final(self).wf(),
            final(system).wf(),
            final(system).size == old(system).size,
            final(system).cell == old(system).cell,
            final(system).elements@ == old(system).elements@,
            final(system).molecules@ == old(system).molecules@,
            final(system).charges@ == old(system).charges@,
            final(system).masses@ == old(system).masses@,
            final(system).positions@ == old(system).positions@,
            final(system).bonds@ == old(system).bonds@,
            final(system).angles@ == old(system).angles@,
            final(system).dihedrals@ == old(system).dihedrals@,
            res is Ok <==> nh_step_ok(*old(system), *old(self)),
            res is Ok ==> {
                &&& final(self).psi_dot == nh_psi_dot_step(*old(system), *old(self))
                &&& final(self).psi == nh_psi_step(*old(system), *old(self))
                &&& forall|i: int|
                    0 <= i < old(system).size ==> {
                        let v = old(system).velocities@[i];
                        let lam = nh_factor(*old(system), *old(self));
                        ((#[trigger] final(system).velocities@[i]).x as int, final(system).velocities@[i].y as int, final(system).velocities@[i].z as int) == (
                        fmul(v.x as int, lam), fmul(v.y as int, lam), fmul(v.z as int, lam))
                    }
            },
            res is Err ==> {
                &&& *final(self) == *old(self)
                &&& final(system).velocities@ == old(system).velocities@
            },
    {
        let t: i128 = Temperature.calculate_intrinsic(system);
        let dev: i128 = t - (self.target as i128);
        proof {
            crate::fixed::lemma_abs_mul_le(
                self.freq as int,
                self.freq as int,
                COORD_LIMIT as int,
                COORD_LIMIT as int,
            );
            crate::fixed::lemma_abs_div_le(
                (self.freq as int) * (self.freq as int),
                SCALE as int,
                4_900_000_000_000_000_000_000_000,
            );
        }
        let f2: i128 = fmul_i64(self.freq, self.freq);
        let lim: i128 = COORD_LIMIT as i128;
        // bound the temperature deviation before dividing and scaling
        let devlim: i128 = NH_DEV_LIMIT;
        if dev > devlim || dev < -devlim {
            return Err(NumericFault);
        }
        let rel: i128 = fdiv_i128(dev, self.target as i128);
        if rel > lim || rel < -lim {
            return Err(NumericFault);
        }
        proof {
            crate::fixed::lemma_abs_mul_le(
                f2 as int,
                rel as int,
                5_000_000_000_000_000,
                COORD_LIMIT as int,
            );
            crate::fixed::lemma_abs_div_le(
                (f2 as int) * (rel as int),
                SCALE as int,
                11_000_000_000_000_000_000_000_000_000,
            );
        }
        let g: i128 = fmul_i128(f2, rel);
        let dt2: i64 = self.timestep / 2;
        proof {
            assert(dt2 == tdiv(self.timestep as int, 2));
            crate::fixed::lemma_abs_mul_le(
                g as int,
                dt2 as int,
                20_000_000_000_000_000_000_000_000,
                COORD_LIMIT as int,
            );
        }
        let dpd: i128 = fmul_i128(g, dt2 as i128);
        let pd_new: i128 = (self.psi_dot as i128) + dpd;
        if pd_new > lim || pd_new < -lim {
            return Err(NumericFault);
        }
        proof {
            crate::fixed::lemma_abs_mul_le(
                pd_new as int,
                dt2 as int,
                COORD_LIMIT as int,
                COORD_LIMIT as int,
            );
        }
        let dp: i128 = fmul_i128(pd_new, dt2 as i128);
        let p_new: i128 = (self.psi as i128) + dp;
        if p_new > lim || p_new < -lim {
            return Err(NumericFault);
        }
        proof {
            crate::fixed::lemma_abs_mul_le(
                p_new as int,
                dt2 as int,
                COORD_LIMIT as int,
                COORD_LIMIT as int,
            );
        }
        let arg: i128 = fmul_i128(p_new, dt2 as i128);
        let bound: i128 = 2 * (SCALE as i128);
        if arg > bound || arg < -bound {
            return Err(NumericFault);
        }
        let lam: i64 = exp_fixed(-(arg as i64));
        if lam < 0 {
            return Err(NumericFault);
        }
        match scaled_velocities(system, lam) {
            Some(w) => {
                system.velocities = w;
                self.psi_dot = pd_new as i64;
                self.psi = p_new as i64;
                Ok(())
            },
            None => Err(NumericFault),
        }
    }

    /// Hook before the position update: one half-step of the extended
    /// system.
    pub fn pre_integrate(&mut self, system: &mut System) -> (res: Result<(), NumericFault>)
        requires
            old(self).wf(),
            old(system).wf(),
        ensures
            final(self).wf(),
            final(self).target == old(self).target,
            final(self).freq == old(self).freq,
            final(self).timestep == old(self).timestep,
            final(system).wf(),
            final(system).size == old(system).size,
            final(system).cell == old(system).cell,
            final(system).elements@ == old(system).elements@,
            final(system).molecules@ == old(system).molecules@,
            final(system).charges@ == old(system).charges@,
            final(system).masses@ == old(system).masses@,
            final(system).positions@ == old(system).positions@,
            res is Ok <==> nh_step_ok(*old(system), *old(self)),
            res is Ok ==> final(self).psi == nh_psi_step(*old(system), *old(self)) && final(self).psi_dot == nh_psi_dot_step(*old(system), *old(self)),
            res is Ok ==> forall|i: int|
                0 <= i < old(system).size ==> {
                    let v = old(system).velocities@[i];
                    let lam = nh_factor(*old(system), *old(self));
                    ((#[trigger] final(system).velocities@[i]).x as int, final(system).velocities@[i].y as int, final(system).velocities@[i].z as int) == (
                    fmul(v.x as int, lam), fmul(v.y as int, lam), fmul(v.z as int, lam))
                },
            res is Err ==> *final(self) == *old(self) && final(system).velocities@ == old(system).velocities@,
    {
        self.half_step(system)
    }

    /// Hook after the velocity update: the symmetric half-step.
    pub fn post_integrate(&mut self, system: &mut System) -> (res: Result<(), NumericFault>)
        requires
            old(self).wf(),
            old(system).wf(),
        ensures
            final(self).wf(),
            final(self).target == old(self).target,
            final(self).freq == old(self).freq,
            final(self).timestep == old(self).timestep,
            final(system).wf(),
            final(system).size == old(system).size,
            final(system).cell == old(system).cell,
            final(system).elements@ == old(system).elements@,
            final(system).molecules@ == old(system).molecules@,
            final(system).charges@ == old(system).charges@,
            final(system).masses@ == old(system).masses@,
            final(system).positions@ == old(system).positions@,
            res is Ok <==> nh_step_ok(*old(system), *old(self)),
            res is Ok ==> final(self).psi == nh_psi_step(*old(system), *old(self)) && final(self).psi_dot == nh_psi_dot_step(*old(system), *old(self)),
            res is Ok ==> forall|i: int|
                0 <= i < old(system).size ==> {
                    let v = old(system).velocities@[i];
                    let lam = nh_factor(*old(system), *old(self));
                    ((#[trigger] final(system).velocities@[i]).x as int, final(system).velocities@[i].y as int, final(system).velocities@[i].z as int) == (
                    fmul(v.x as int, lam), fmul(v.y as int, lam), fmul(v.z as int, lam))
                },
            res is Err ==> *final(self) == *old(self) && final(system).velocities@ == old(system).velocities@,
    {
        self.half_step(system)
    }
}

/// The thermostat attached to a propagator: none, or one of the two
/// couplings.
#[derive(Clone, Copy, Debug)]
pub enum Thermostat {
    /// No temperature coupling: plain microcanonical integration.
    Off,
    /// Berendsen weak coupling.
    Berendsen(Berendsen),
    /// Nose-Hoover extended-system coupling.
    NoseHoover(NoseHoover),
}

impl Thermostat {
    /// The attached coupling, if any, is well-formed.
    pub open spec fn wf(self) -> bool {
        match self {
            Thermostat::Off => true,
            Thermostat::Berendsen(b) => b.wf(),
            Thermostat::NoseHoover(n) => n.wf(),
        }
    }
}

} // verus!
