//! High-level driver: a propagator that couples the integrator with an
//! optional thermostat, and a simulation that owns the whole run state.

use vstd::prelude::*;

use crate::NumericFault;
use crate::integrators::VelocityVerlet;
use crate::integrators::accel_ok;
use crate::integrators::accels_ok;
use crate::integrators::positions_ok;
use crate::integrators::stepped_velocities_ok;
use crate::integrators::verlet_step_rel;
use crate::potential::Potentials;
use crate::property::force_on;
use crate::property::forces_defined;
use crate::property::selections_wf;
use crate::system::System;
use crate::thermostats::NoseHoover;
use crate::thermostats::Thermostat;
use crate::thermostats::berendsen_lambda;
use crate::thermostats::berendsen_ok;
use crate::thermostats::nh_factor;
use crate::thermostats::nh_psi_dot_step;
use crate::thermostats::nh_psi_step;
use crate::thermostats::nh_step_ok;
use crate::thermostats::velocities_scaled;
use crate::vector::Vector3;

verus! {


/// The thermostat state after its one-time setup: the Nose-Hoover
/// friction coordinate and derivative start at rest, the rest is
/// unchanged.
pub open spec fn thermostat_setup(t: Thermostat) -> Thermostat {
    match t {
        Thermostat::Off => Thermostat::Off,
        Thermostat::Berendsen(b) => Thermostat::Berendsen(b),
        Thermostat::NoseHoover(n) => Thermostat::NoseHoover(
            NoseHoover { psi: 0, psi_dot: 0, ..n },
        ),
    }
}

/// The thermostat's pre-integrate hook as a relation between the
/// states before and after it: the Berendsen coupling and the absent
/// thermostat do nothing; the Nose-Hoover coupling advances its
/// friction state and scales the velocities.
pub open spec fn pre_hook_rel(t0: Thermostat, s0: System, t1: Thermostat, s1: System) -> bool {
    match t0 {
        Thermostat::Off => t1 == t0 && s1 == s0,
        Thermostat::Berendsen(_) => t1 == t0 && s1 == s0,
        Thermostat::NoseHoover(n) => {
            &&& nh_step_ok(s0, n)
            &&& (t1 matches Thermostat::NoseHoover(m) && m.target == n.target && m.freq == n.freq
                && m.timestep == n.timestep && m.psi == nh_psi_step(s0, n) && m.psi_dot
                == nh_psi_dot_step(s0, n))
            &&& velocities_scaled(s0, s1, nh_factor(s0, n))
        },
    }
}

/// The thermostat's post-integrate hook as a relation: the Berendsen
/// coupling rescales toward the target, the Nose-Hoover coupling takes
/// its symmetric half-step.
pub open spec fn post_hook_rel(t0: Thermostat, s0: System, t1: Thermostat, s1: System) -> bool {
    match t0 {
        Thermostat::Off => t1 == t0 && s1 == s0,
        Thermostat::Berendsen(b) => {
            &&& berendsen_ok(s0, b.target as int, b.tau as int)
            &&& t1 == t0
            &&& velocities_scaled(s0, s1, berendsen_lambda(s0, b.target as int, b.tau as int))
        },
        Thermostat::NoseHoover(n) => {
            &&& nh_step_ok(s0, n)
            &&& (t1 matches Thermostat::NoseHoover(m) && m.target == n.target && m.freq == n.freq
                && m.timestep == n.timestep && m.psi == nh_psi_step(s0, n) && m.psi_dot
                == nh_psi_dot_step(s0, n))
            &&& velocities_scaled(s0, s1, nh_factor(s0, n))
        },
    }
}

/// A numeric fault of one propagation step, witnessed at the phase
/// where it arose: the pre-hook, the Verlet step evaluated after the
/// pre-hook, or the post-hook evaluated after the step.  `s_end` is the
/// state the step left behind.
pub open spec fn propagate_fault(
    s0: System,
    t0: Thermostat,
    acc0: Seq<Vector3>,
    dt: int,
    pots: Potentials,
    s_end: System,
) -> bool {
    ||| (t0 matches Thermostat::NoseHoover(n) && !nh_step_ok(s0, n))
    ||| (exists|tmid: Thermostat, m1: System|
        #[trigger] pre_hook_rel(t0, s0, tmid, m1) && {
            ||| !positions_ok(m1, acc0, dt)
            ||| !forces_defined(s_end, pots)
            ||| (exists|i: int|
                0 <= i < m1.size && !accel_ok(
                    #[trigger] force_on(s_end, pots, i),
                    m1.masses@[i] as int,
                ))
            ||| !stepped_velocities_ok(m1.velocities@, acc0, s_end, pots, dt)
        })
    ||| (exists|tmid: Thermostat, m1: System, m2: System, acc1: Seq<Vector3>|
        #![trigger pre_hook_rel(t0, s0, tmid, m1), verlet_step_rel(m1, acc0, dt, pots, m2, acc1)]
        pre_hook_rel(t0, s0, tmid, m1) && verlet_step_rel(m1, acc0, dt, pots, m2, acc1)
            && ((tmid matches Thermostat::Berendsen(b) && !berendsen_ok(
            m2,
            b.target as int,
            b.tau as int,
        )) || (tmid matches Thermostat::NoseHoover(n2) && !nh_step_ok(m2, n2))))
}

/// A propagator: the velocity-Verlet integrator together with an
/// optional thermostat.  The thermostat's pre-integrate hook runs
/// before the position update and its post-integrate hook after the
/// velocity update.
#[derive(Clone, Debug)]
pub struct Propagator {
    pub integrator: VelocityVerlet,
    pub thermostat: Thermostat,
}

impl Propagator {
    /// Integrator and thermostat are well-formed.
    pub open spec fn wf(self) -> bool {
        &&& self.integrator.wf()
        &&& self.thermostat.wf()
    }

    /// Builds a propagator from its parts.
    pub fn new(integrator: VelocityVerlet, thermostat: Thermostat) -> (p: Propagator)
        requires
            integrator.wf(),
            thermostat.wf(),
        ensures
            p.integrator == integrator,
            p.thermostat == thermostat,
            p.wf(),
    {
        Propagator { integrator, thermostat }
    }

    /// One-time initialisation: seeds the thermostat and caches the
    /// initial accelerations; must run once before the first
    /// [`Propagator::propagate`] call.
    pub fn setup(&mut self, system: &System, potentials: &Potentials) -> (res: Result<
        (),
        NumericFault,
    >)
        requires
            old(self).wf(),
            system.wf(),
            potentials.wf(),
            selections_wf(*potentials, *system),
        ensures
            final(self).wf(),
            final(self).integrator.timestep == old(self).integrator.timestep,
            final(self).thermostat == thermostat_setup(old(self).thermostat),
            res is Ok <==> accels_ok(*system, *potentials),
            res is Ok ==> {
                &&& final(self).integrator.ready
                &&& final(self).integrator.accelerations@.len() == system.size
                &&& forall|i: int|
                    0 <= i < system.size ==> ((#[trigger] final(self).integrator.accelerations@[i]).x as int, final(self).integrator.accelerations@[i].y as int, final(self).integrator.accelerations@[i].z as int) == crate::integrators::accel_of(
                        force_on(*system, *potentials, i),
                        system.masses@[i] as int,
                    )
            },
            res is Err ==> final(self).integrator == old(self).integrator,
    {
        match self.thermostat {
            Thermostat::Off => {},
            Thermostat::Berendsen(mut b) => {
                b.setup(system);
                self.thermostat = Thermostat::Berendsen(b);
            },
            Thermostat::NoseHoover(mut n) => {
                n.setup(system);
                self.thermostat = Thermostat::NoseHoover(n);
            },
        }
        self.integrator.setup(system, potentials)
    }

    /// One timestep: thermostat pre-hook, velocity-Verlet step,
    /// thermostat post-hook.  On success the three phases are pinned by
    /// their relations through two intermediate states; `Err` signals a
    /// numeric fault, witnessed at the phase where it arose.
    pub fn propagate(&mut self, system: &mut System, potentials: &Potentials) -> (res: Result<
        (),
        NumericFault,
    >)
        requires
            old(self).wf(),
            old(self).integrator.ready,
            old(self).integrator.accelerations@.len() == old(system).size,
            old(system).wf(),
            potentials.wf(),
            selections_wf(*potentials, *old(system)),
        ensures
            final(self).wf(),
            final(self).integrator.ready,
            final(self).integrator.timestep == old(self).integrator.timestep,
            final(system).wf(),
            final(system).size == old(system).size,
            final(system).cell == old(system).cell,
            final(system).elements@ == old(system).elements@,
            final(system).molecules@ == old(system).molecules@,
            final(system).charges@ == old(system).charges@,
            final(system).masses@ == old(system).masses@,
            res is Ok ==> final(self).integrator.accelerations@.len() == old(system).size,
            res is Ok ==> exists|tmid: Thermostat, m1: System, m2: System|
                #![trigger pre_hook_rel(old(self).thermostat, *old(system), tmid, m1),
                post_hook_rel(tmid, m2, final(self).thermostat, *final(system))]
                pre_hook_rel(old(self).thermostat, *old(system), tmid, m1)
                    && verlet_step_rel(
                    m1,
                    old(self).integrator.accelerations@,
                    old(self).integrator.timestep as int,
                    *potentials,
                    m2,
                    final(self).integrator.accelerations@,
                ) && post_hook_rel(tmid, m2, final(self).thermostat, *final(system)),
            res is Err ==> propagate_fault(
                *old(system),
                old(self).thermostat,
                old(self).integrator.accelerations@,
                old(self).integrator.timestep as int,
                *potentials,
                *final(system),
            ),
    {
        match self.thermostat {
            Thermostat::Off => {},
            Thermostat::Berendsen(mut b) => {
                b.pre_integrate(system);
                self.thermostat = Thermostat::Berendsen(b);
            },
            Thermostat::NoseHoover(mut n) => {
                let r = n.pre_integrate(system);
                self.thermostat = Thermostat::NoseHoover(n);
                if r.is_err() {
                    return Err(NumericFault);
                }
            },
        }
        let ghost tmid = self.thermostat;
        let ghost m1 = *system;
        proof {
            assert(pre_hook_rel(old(self).thermostat, *old(system), tmid, m1));
            assert(selections_wf(*potentials, m1));
        }
        let stepped = self.integrator.integrate(system, potentials);
        if stepped.is_err() {
            return Err(NumericFault);
        }
        let ghost m2 = *system;
        let ghost acc1 = self.integrator.accelerations@;
        match self.thermostat {
            Thermostat::Off => {},
            Thermostat::Berendsen(mut b) => {
                let r = b.post_integrate(system);
                self.thermostat = Thermostat::Berendsen(b);
                if r.is_err() {
                    proof {
                        assert(verlet_step_rel(
                            m1,
                            old(self).integrator.accelerations@,
                            old(self).integrator.timestep as int,
                            *potentials,
                            m2,
                            acc1,
                        ));
                    }
                    return Err(NumericFault);
                }
            },
            Thermostat::NoseHoover(mut n) => {
                let r = n.post_integrate(system);
                self.thermostat = Thermostat::NoseHoover(n);
                if r.is_err() {
                    proof {
                        assert(verlet_step_rel(
                            m1,
                            old(self).integrator.accelerations@,
                            old(self).integrator.timestep as int,
                            *potentials,
                            m2,
                            acc1,
                        ));
                    }
                    return Err(NumericFault);
                }
            },
        }
        proof {
            assert(pre_hook_rel(old(self).thermostat, *old(system), tmid, m1));
            assert(verlet_step_rel(
                m1,
                old(self).integrator.accelerations@,
                old(self).integrator.timestep as int,
                *potentials,
                m2,
                final(self).integrator.accelerations@,
            ));
            assert(post_hook_rel(tmid, m2, final(self).thermostat, *final(system)));
        }
        Ok(())
    }
}

/// A well-formed prefix of a run trace: the first entry is the state
/// the one-time setup left behind, and every later entry follows from
/// its predecessor by one propagation step.
pub open spec fn run_trace_prefix(
    trace: Seq<(System, Thermostat, Seq<Vector3>, Potentials)>,
    sim0: Simulation,
) -> bool {
    &&& trace.len() >= 1
    &&& trace[0].0 == sim0.system
    &&& trace[0].1 == thermostat_setup(sim0.propagator.thermostat)
    &&& same_registry(sim0.potentials, trace[0].3)
    &&& accels_ok(sim0.system, trace[0].3)
    &&& trace[0].2.len() == sim0.system.size
    &&& forall|i: int|
        0 <= i < sim0.system.size ==> ((#[trigger] trace[0].2[i]).x as int,
        trace[0].2[i].y as int, trace[0].2[i].z as int) == crate::integrators::accel_of(
            force_on(sim0.system, trace[0].3, i),
            sim0.system.masses@[i] as int,
        )
    &&& forall|k: int|
        0 <= k < trace.len() - 1 ==> run_step_rel(
            sim0.potentials,
            sim0.propagator.integrator.timestep as int,
            #[trigger] trace[k],
            trace[k + 1],
        )
}

/// A complete run trace of `steps` steps, ending in the given final
/// motion state.
pub open spec fn run_trace(
    trace: Seq<(System, Thermostat, Seq<Vector3>, Potentials)>,
    sim0: Simulation,
    steps: int,
    s_end: System,
    t_end: Thermostat,
    acc_end: Seq<Vector3>,
) -> bool {
    &&& trace.len() == steps + 1
    &&& run_trace_prefix(trace, sim0)
    &&& trace[steps].0 == s_end
    &&& trace[steps].1 == t_end
    &&& trace[steps].2 == acc_end
}

/// Two registries hold the same potentials and metadata, entry by
/// entry; their pre-computed selections may differ.
pub open spec fn same_registry(p0: Potentials, p1: Potentials) -> bool {
    &&& p1.pair_slots@.len() == p0.pair_slots@.len()
    &&& forall|s: int|
        0 <= s < p0.pair_slots@.len() ==> (#[trigger] p1.pair_slots@[s]).potential
            == p0.pair_slots@[s].potential && p1.pair_slots@[s].meta == p0.pair_slots@[s].meta
    &&& p1.coulomb_slots@.len() == p0.coulomb_slots@.len()
    &&& forall|s: int|
        0 <= s < p0.coulomb_slots@.len() ==> (#[trigger] p1.coulomb_slots@[s]).potential
            == p0.coulomb_slots@[s].potential && p1.coulomb_slots@[s].meta
            == p0.coulomb_slots@[s].meta
}

/// One entry of a run trace: the system, the thermostat state, the
/// cached accelerations, and the registry whose selections the step
/// used.
pub open spec fn run_step_rel(
    reg: Potentials,
    dt: int,
    c0: (System, Thermostat, Seq<Vector3>, Potentials),
    c1: (System, Thermostat, Seq<Vector3>, Potentials),
) -> bool {
    &&& same_registry(reg, c0.3)
    &&& c0.3.wf()
    &&& c0.3.selections_exact(c0.0)
    &&& exists|tmid: Thermostat, m1: System, m2: System|
        #![trigger pre_hook_rel(c0.1, c0.0, tmid, m1), post_hook_rel(tmid, m2, c1.1, c1.0)]
        pre_hook_rel(c0.1, c0.0, tmid, m1) && verlet_step_rel(m1, c0.2, dt, c0.3, m2, c1.2)
            && post_hook_rel(tmid, m2, c1.1, c1.0)
}

/// High level abstraction for an atomistic simulation: the system, its
/// potential registry, and the propagator that advances it.
#[derive(Clone, Debug)]
pub struct Simulation {
    pub system: System,
    pub potentials: Potentials,
    pub propagator: Propagator,
}

impl Simulation {
    /// All parts are well-formed.
    pub open spec fn wf(self) -> bool {
        &&& self.system.wf()
        &&& self.potentials.wf()
        &&& self.propagator.wf()
    }

    /// Builds a simulation from its parts.
    pub fn new(system: System, potentials: Potentials, propagator: Propagator) -> (s: Simulation)
        requires
            system.wf(),
            potentials.wf(),
            propagator.wf(),
        ensures
            s.system == system,
            s.potentials == potentials,
            s.propagator == propagator,
            s.wf(),
    {
        Simulation { system, potentials, propagator }
    }

    /// Runs `steps` timesteps: builds the selections, seeds the
    /// propagator, then alternates propagation with a selection
    /// refresh.  On success the final state is pinned as exactly
    /// `steps` applications of the per-step relation, witnessed by a
    /// run trace; `Err` propagates the first numeric fault, witnessed
    /// at the setup phase or at the step where it arose, with the loop
    /// stopped there.
    pub fn run(&mut self, steps: usize) -> (res: Result<(), NumericFault>)
        requires
            old(self).wf(),
        ensures
            final(self).wf(),
            final(self).system.size == old(self).system.size,
            final(self).system.cell == old(self).system.cell,
            final(self).system.elements@ == old(self).system.elements@,
            final(self).system.molecules@ == old(self).system.molecules@,
            final(self).system.masses@ == old(self).system.masses@,
            final(self).system.charges@ == old(self).system.charges@,
            res is Ok ==> final(self).potentials.selections_exact(final(self).system),
            res is Ok ==> exists|trace: Seq<(System, Thermostat, Seq<Vector3>, Potentials)>|
                #![trigger trace.len()]
                run_trace(
                    trace,
                    *old(self),
                    steps as int,
                    final(self).system,
                    final(self).propagator.thermostat,
                    final(self).propagator.integrator.accelerations@,
                ),
            res is Err ==> (exists|p0: Potentials|
                #![trigger p0.selections_exact(old(self).system)]
                same_registry(old(self).potentials, p0) && p0.wf() && p0.selections_exact(
                    old(self).system,
                ) && !accels_ok(old(self).system, p0)) || (exists|
                trace: Seq<(System, Thermostat, Seq<Vector3>, Potentials)>,
                j: int,
            |
                #![trigger trace[j]]
                0 <= j && j < steps && trace.len() == j + 1 && run_trace_prefix(
                    trace,
                    *old(self),
                ) && propagate_fault(
                    trace[j].0,
                    trace[j].1,
                    trace[j].2,
                    old(self).propagator.integrator.timestep as int,
                    trace[j].3,
                    final(self).system,
                )),
    {
        self.potentials.setup(&self.system);
        proof {
            crate::property::lemma_exact_implies_wf(self.potentials, self.system);
            assert(same_registry(old(self).potentials, self.potentials));
        }
        let up = self.propagator.setup(&self.system, &self.potentials);
        if up.is_err() {
            proof {
                assert(self.system == old(self).system);
                assert(!accels_ok(old(self).system, self.potentials));
            }
            return Err(NumericFault);
        }
        let ghost mut trace: Seq<(System, Thermostat, Seq<Vector3>, Potentials)> = seq![
            (
                self.system,
                self.propagator.thermostat,
                self.propagator.integrator.accelerations@,
                self.potentials,
            ),
        ];
        proof {
            assert(self.system == old(self).system);
            assert(self.propagator.thermostat == thermostat_setup(old(self).propagator.thermostat));
            assert(trace[0].2 == self.propagator.integrator.accelerations@);
            assert(run_trace_prefix(trace, *old(self)));
        }
        let mut i: usize = 0;
        while i < steps
            invariant
                self.wf(),
                self.propagator.integrator.ready,
                self.propagator.integrator.accelerations@.len() == self.system.size,
                self.propagator.integrator.timestep == old(self).propagator.integrator.timestep,
                selections_wf(self.potentials, self.system),
                self.potentials.selections_exact(self.system),
                same_registry(old(self).potentials, self.potentials),
                self.system.size == old(self).system.size,
                self.system.cell == old(self).system.cell,
                self.system.elements@ == old(self).system.elements@,
                self.system.molecules@ == old(self).system.molecules@,
                self.system.masses@ == old(self).system.masses@,
                self.system.charges@ == old(self).system.charges@,
                i <= steps,
                trace.len() == i + 1,
                run_trace_prefix(trace, *old(self)),
                trace[i as int].0 == self.system,
                trace[i as int].1 == self.propagator.thermostat,
                trace[i as int].2 == self.propagator.integrator.accelerations@,
                trace[i as int].3 == self.potentials,
            decreases steps - i,
        {
            let ghost before = self.system;
            let r = self.propagator.propagate(&mut self.system, &self.potentials);
            proof {
                crate::potential::lemma_selections_exact_same_topology(
                    self.potentials,
                    before,
                    self.system,
                );
            }
            if r.is_err() {
                proof {
                    assert(propagate_fault(
                        trace[i as int].0,
                        trace[i as int].1,
                        trace[i as int].2,
                        old(self).propagator.integrator.timestep as int,
                        trace[i as int].3,
                        self.system,
                    ));
                    assert(trace[i as int] == trace[trace.len() - 1]);
                }
                return Err(NumericFault);
            }
            self.potentials.update(&self.system, i);
            proof {
                crate::property::lemma_exact_implies_wf(self.potentials, self.system);
                let ghost c1 = (
                    self.system,
                    self.propagator.thermostat,
                    self.propagator.integrator.accelerations@,
                    self.potentials,
                );
                let (tmid, m1, m2) = choose|tmid: Thermostat, m1: System, m2: System|
                    pre_hook_rel(trace[i as int].1, trace[i as int].0, tmid, m1)
                        && verlet_step_rel(
                        m1,
                        trace[i as int].2,
                        old(self).propagator.integrator.timestep as int,
                        trace[i as int].3,
                        m2,
                        c1.2,
                    ) && post_hook_rel(tmid, m2, c1.1, c1.0);
                assert(pre_hook_rel(trace[i as int].1, trace[i as int].0, tmid, m1));
                assert(verlet_step_rel(
                    m1,
                    trace[i as int].2,
                    old(self).propagator.integrator.timestep as int,
                    trace[i as int].3,
                    m2,
                    c1.2,
                ));
                assert(post_hook_rel(tmid, m2, c1.1, c1.0));
                assert(run_step_rel(
                    old(self).potentials,
                    old(self).propagator.integrator.timestep as int,
                    trace[i as int],
                    c1,
                ));
                trace = trace.push(c1);
                assert(forall|k: int|
                    0 <= k < trace.len() - 1 ==> run_step_rel(
                        old(self).potentials,
                        old(self).propagator.integrator.timestep as int,
                        #[trigger] trace[k],
                        trace[k + 1],
                    ));
            }
            i = i + 1;
        }
        proof {
            assert(run_trace(
                trace,
                *old(self),
                steps as int,
                self.system,
                self.propagator.thermostat,
                self.propagator.integrator.accelerations@,
            ));
        }
        Ok(())
    }

    /// Hands the system and the registry back to the caller.
    pub fn consume(self) -> (r: (System, Potentials))
        ensures
            r.0 == self.system,
            r.1 == self.potentials,
    {
        (self.system, self.potentials)
    }
}

} // verus!
