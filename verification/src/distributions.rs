//! Initial-velocity sampling: a Boltzmann distribution seeded to a
//! target temperature, followed by an exact rescale that removes the
//! sampling-noise bias.

use vstd::prelude::*;

use crate::BOLTZMANN;
use crate::COORD_LIMIT;
use crate::NumericFault;
use crate::SCALE;
use crate::fixed::abs_int;
use crate::fixed::fdiv;
use crate::fixed::fdiv_i128;
use crate::fixed::fmul;
use crate::fixed::fmul_i64;
use crate::fixed::sqrt_fixed;
use crate::fixed::sqrt_fixed_i128;
use crate::property::Temperature;
use crate::property::temperature_spec;
use crate::system::System;
use crate::system::zero_vector_vec;
use crate::thermostats::scaled_velocities;
use crate::thermostats::velocities_scaled;
use crate::vector::Vector3;

verus! {

/// The ensemble rescaling factor that drives the realized temperature
/// to the target: `sqrt(target / current)`.
pub open spec fn rescale_factor(sys: System, target: int) -> int {
    sqrt_fixed(fdiv(target, temperature_spec(sys)))
}

/// Whether the rescale succeeds: a positive current temperature, and
/// every scaled velocity inside the coordinate bound.
pub open spec fn rescale_ok(sys: System, target: int) -> bool {
    &&& temperature_spec(sys) > 0
    &&& crate::thermostats::scaled_ok(sys, rescale_factor(sys, target))
}

/// Rescales every velocity by `sqrt(target / current_temperature)`, so
/// that the realized instantaneous temperature matches the target up to
/// fixed-point rounding.  `Err` signals a numeric fault: a non-positive
/// current temperature (nothing to rescale) or a scaled velocity out of
/// range; the system is then left unchanged.
pub fn rescale_to_target(system: &mut System, target: i64) -> (res: Result<(), NumericFault>)
    requires
        old(system).wf(),
        0 <= target <= COORD_LIMIT,
    ensures
        res is Ok <==> rescale_ok(*old(system), target as int),
        final(system).wf(),
        final(system).size == old(system).size,
        final(system).cell == old(system).cell,
        final(system).elements@ == old(system).elements@,
        final(system).molecules@ == old(system).molecules@,
        final(system).charges@ == old(system).charges@,
        final(system).masses@ == old(system).masses@,
        final(system).positions@ == old(system).positions@,
        final(system).bonds@ == old(system).bonds@,
        final(system).angles@ == old(system).angles@,
        final(system).dihedrals@ == old(system).dihedrals@,
        res is Ok ==> {
            let lam = rescale_factor(*old(system), target as int);
            &&& temperature_spec(*old(system)) > 0
            &&& forall|i: int|
                0 <= i < old(system).size ==> {
                    let v = old(system).velocities@[i];
                    ((#[trigger] final(system).velocities@[i]).x as int, final(system).velocities@[i].y as int, final(system).velocities@[i].z as int) == (
                    fmul(v.x as int, lam), fmul(v.y as int, lam), fmul(v.z as int, lam))
                }
        },
        res is Err ==> final(system).velocities@ == old(system).velocities@,
{
    let t: i128 = Temperature.calculate_intrinsic(system);
    if t <= 0 {
        return Err(NumericFault);
    }
    let ratio: i128 = fdiv_i128(target as i128, t);
    proof {
        crate::fixed::lemma_abs_mul_le(
            target as int,
            SCALE as int,
            COORD_LIMIT as int,
            SCALE as int,
        );
        crate::fixed::lemma_abs_div_le(
            (target as int) * (SCALE as int),
            t as int,
            (COORD_LIMIT as int) * (SCALE as int),
        );
        crate::fixed::lemma_sqrt_floor_le(
            (ratio as int) * (SCALE as int),
            10_000_000_000_000_000,
        );
    }
    let lam: u64 = sqrt_fixed_i128(ratio);
    proof {
        crate::fixed::lemma_sqrt_floor_exists((ratio as int) * (SCALE as int));
    }
    match scaled_velocities(system, lam as i64) {
        Some(w) => {
            system.velocities = w;
            Ok(())
        },
        None => Err(NumericFault),
    }
}


/// One step of the sampler's own generator (an xorshift word), as a
/// spec function: the draws are deterministic in the sampler state.
pub open spec fn next_word(x0: u64) -> u64 {
    let x = if x0 == 0 {
        0x9E37_79B9_7F4A_7C15u64
    } else {
        x0
    };
    let a = x ^ (x << 13u64);
    let b = a ^ (a >> 7u64);
    b ^ (b << 17u64)
}

/// The uniform value of one generator step, in `[0, 1)` units.
pub open spec fn uniform_of(x: u64) -> int {
    (next_word(x) % (SCALE as u64)) as int
}

/// The generator state after `j` steps.
pub open spec fn state_after(x: u64, j: nat) -> u64
    decreases j,
{
    if j == 0 {
        x
    } else {
        next_word(state_after(x, (j - 1) as nat))
    }
}

/// The sum of the first `j` uniform draws from state `x`.
pub open spec fn uniform_sum(x: u64, j: nat) -> int
    decreases j,
{
    if j == 0 {
        0
    } else {
        uniform_sum(x, (j - 1) as nat) + uniform_of(state_after(x, (j - 1) as nat))
    }
}

/// The centered twelve-uniform deviate drawn from state `x`.
pub open spec fn normal_of(x: u64) -> int {
    uniform_sum(x, 12) - 6 * SCALE
}

/// Stepping a generator state in two runs is stepping it once.
pub proof fn lemma_state_after_add(x: u64, j: nat, k: nat)
    ensures
        state_after(state_after(x, j), k) == state_after(x, j + k),
    decreases k,
{
    if k > 0 {
        lemma_state_after_add(x, j, (k - 1) as nat);
    }
}

/// The velocity-component scale of one particle: `sqrt(k_B * T / m)`.
pub open spec fn sample_scale(m: i64, target: i64) -> int {
    sqrt_fixed(fdiv(fmul(BOLTZMANN as int, target as int), m as int))
}

/// The velocity drawn for one particle from state `x`: three deviates,
/// each scaled by the particle's thermal scale.
pub open spec fn drawn_velocity(x: u64, m: i64, target: i64) -> (int, int, int) {
    (
        fmul(normal_of(x), sample_scale(m, target)),
        fmul(normal_of(state_after(x, 12)), sample_scale(m, target)),
        fmul(normal_of(state_after(x, 24)), sample_scale(m, target)),
    )
}

/// The generator state when particle `i` is about to be drawn: each
/// particle consumes thirty-six words.
pub open spec fn stream_state(x0: u64, i: nat) -> u64
    decreases i,
{
    if i == 0 {
        x0
    } else {
        state_after(stream_state(x0, (i - 1) as nat), 36)
    }
}

/// Whether every drawn velocity component stays inside the coordinate
/// bound.
pub open spec fn draws_ok(x0: u64, sys: System, target: i64) -> bool {
    forall|i: int|
        0 <= i < sys.size ==> {
            let d = #[trigger] drawn_velocity(
                stream_state(x0, i as nat),
                sys.masses@[i],
                target,
            );
            &&& abs_int(d.0) <= COORD_LIMIT as int
            &&& abs_int(d.1) <= COORD_LIMIT as int
            &&& abs_int(d.2) <= COORD_LIMIT as int
        }
}

/// The motion state `mid` is `s0` carrying exactly the velocities the
/// sampler draws from state `x0`.
pub open spec fn drawn_state(mid: System, s0: System, x0: u64, target: i64) -> bool {
    &&& mid.size == s0.size
    &&& mid.cell == s0.cell
    &&& mid.elements@ == s0.elements@
    &&& mid.molecules@ == s0.molecules@
    &&& mid.charges@ == s0.charges@
    &&& mid.masses@ == s0.masses@
    &&& mid.positions@ == s0.positions@
    &&& mid.velocities@.len() == s0.size
    &&& forall|i: int|
        0 <= i < s0.size ==> {
            let d = #[trigger] drawn_velocity(stream_state(x0, i as nat), s0.masses@[i], target);
            ((mid.velocities@[i]).x as int, mid.velocities@[i].y as int,
            mid.velocities@[i].z as int) == d
        }
}

/// The rescale's success reads only the particle count, masses and
/// velocities: motion states equal there agree on it.
proof fn lemma_rescale_ok_congruent(m1: System, m2: System, target: int)
    requires
        m2.size == m1.size,
        m2.masses@ == m1.masses@,
        m2.velocities@ == m1.velocities@,
    ensures
        rescale_ok(m1, target) == rescale_ok(m2, target),
        rescale_factor(m1, target) == rescale_factor(m2, target),
{
    crate::property::lemma_temperature_congruent(m1, m2);
    let f = rescale_factor(m1, target);
    assert forall|i: int| 0 <= i < m1.size implies (m1.velocities@[i] == m2.velocities@[i]) by {}
    assert(crate::thermostats::scaled_ok(m1, f) == crate::thermostats::scaled_ok(m2, f)) by {
        if crate::thermostats::scaled_ok(m1, f) {
            assert forall|i: int|
                0 <= i < m2.size implies {
                let v = #[trigger] m2.velocities@[i];
                &&& abs_int(fmul(v.x as int, f)) <= crate::COORD_LIMIT as int
                &&& abs_int(fmul(v.y as int, f)) <= crate::COORD_LIMIT as int
                &&& abs_int(fmul(v.z as int, f)) <= crate::COORD_LIMIT as int
            } by {
                assert(m1.velocities@[i] == m2.velocities@[i]);
            }
        }
        if crate::thermostats::scaled_ok(m2, f) {
            assert forall|i: int|
                0 <= i < m1.size implies {
                let v = #[trigger] m1.velocities@[i];
                &&& abs_int(fmul(v.x as int, f)) <= crate::COORD_LIMIT as int
                &&& abs_int(fmul(v.y as int, f)) <= crate::COORD_LIMIT as int
                &&& abs_int(fmul(v.z as int, f)) <= crate::COORD_LIMIT as int
            } by {
                assert(m1.velocities@[i] == m2.velocities@[i]);
            }
        }
    }
}

/// The Boltzmann velocity initializer: draws each velocity component
/// from a bell-shaped distribution scaled by `sqrt(k_B * T / m)`, then
/// rescales the whole ensemble so the realized temperature matches the
/// target.  The draws come from the sampler's own deterministic
/// generator, whose state advances with every draw, so two applications
/// give two different but equally valid assignments.
#[derive(Clone, Copy, Debug)]
pub struct Boltzmann {
    pub target: i64,
    pub state: u64,
}

impl Boltzmann {
    /// The target temperature is bounded.
    pub open spec fn wf(self) -> bool {
        0 <= self.target <= COORD_LIMIT
    }

    /// Builds a sampler for the given target temperature (fixed-point
    /// raw value).
    pub fn new(target: i64) -> (b: Boltzmann)
        requires
            0 <= target <= COORD_LIMIT,
        ensures
            b.target == target,
            b.wf(),
    {
        Boltzmann { target, state: (target as u64) ^ 0x9E37_79B9_7F4A_7C15 }
    }

    /// Advances the generator one step and returns the raw word.
    fn next_raw(&mut self) -> (r: u64)
        ensures
            final(self).target == old(self).target,
            r == next_word(old(self).state),
            final(self).state == next_word(old(self).state),
    {
        let mut x: u64 = self.state;
        if x == 0 {
            x = 0x9E37_79B9_7F4A_7C15;
        }
        x = x ^ (x << 13);
        x = x ^ (x >> 7);
        x = x ^ (x << 17);
        self.state = x;
        x
    }

    /// Draws a uniform value in `[0, 1)` units.
    fn next_uniform(&mut self) -> (u: i64)
        ensures
            final(self).target == old(self).target,
            0 <= u < SCALE,
            u == uniform_of(old(self).state),
            final(self).state == state_after(old(self).state, 1),
    {
        let r = self.next_raw();
        proof {
            assert(state_after(old(self).state, 1) == next_word(state_after(old(self).state, 0)));
            assert(state_after(old(self).state, 0) == old(self).state);
        }
        (r % (SCALE as u64)) as i64
    }

    /// Draws an approximately normal deviate with zero mean and unit
    /// variance: the centered sum of twelve uniforms.
    fn next_normal(&mut self) -> (d: i64)
        ensures
            final(self).target == old(self).target,
            -6 * SCALE <= d <= 6 * SCALE,
            d == normal_of(old(self).state),
            final(self).state == state_after(old(self).state, 12),
    {
        let mut sum: i64 = 0;
        let mut j: u8 = 0;
        while j < 12
            invariant
                j <= 12,
                0 <= sum <= (j as int) * (SCALE as int),
                sum == uniform_sum(old(self).state, j as nat),
                self.state == state_after(old(self).state, j as nat),
                self.target == old(self).target,
            decreases 12 - j,
        {
            let ghost sj = state_after(old(self).state, j as nat);
            let u = self.next_uniform();
            proof {
                assert(state_after(old(self).state, (j + 1) as nat) == next_word(sj));
                assert(state_after(sj, 1) == next_word(state_after(sj, 0)));
                assert(state_after(sj, 0) == sj);
                assert(uniform_sum(old(self).state, (j + 1) as nat) == uniform_sum(
                    old(self).state,
                    j as nat,
                ) + uniform_of(sj));
            }
            sum = sum + u;
            j = j + 1;
        }
        sum - 6 * SCALE
    }

    /// Assigns a fresh velocity distribution at the target temperature:
    /// each component is drawn scaled by `sqrt(k_B * T / m)`, then the
    /// ensemble is rescaled so the realized temperature equals the
    /// target up to fixed-point rounding.  A system without particles,
    /// or a zero target temperature, gets all-zero velocities without
    /// sampling.  `Err` signals a numeric fault (a drawn or rescaled
    /// velocity out of range, or a degenerate all-zero draw).
    pub fn apply(&mut self, system: &mut System) -> (res: Result<(), NumericFault>)
        requires
            old(self).wf(),
            old(system).wf(),
        ensures
            final(self).target == old(self).target,
            final(self).wf(),
            final(system).wf(),
            final(system).size == old(system).size,
            final(system).cell == old(system).cell,
            final(system).elements@ == old(system).elements@,
            final(system).molecules@ == old(system).molecules@,
            final(system).charges@ == old(system).charges@,
            final(system).masses@ == old(system).masses@,
            final(system).positions@ == old(system).positions@,
            final(system).bonds@ == old(system).bonds@,
            final(system).angles@ == old(system).angles@,
            final(system).dihedrals@ == old(system).dihedrals@,
            (old(system).size == 0 || old(self).target == 0) ==> res is Ok,
            (old(system).size == 0 || old(self).target == 0) && res is Ok ==> forall|i: int|
                0 <= i < final(system).size ==> (#[trigger] final(system).velocities@[i]) == (
                Vector3 { x: 0i64, y: 0i64, z: 0i64 }),
            res is Err ==> old(system).size > 0 && old(self).target != 0,
            res is Ok <==> (old(system).size == 0 || old(self).target == 0) || (draws_ok(
                old(self).state,
                *old(system),
                old(self).target,
            ) && exists|mid: System|
                #![trigger drawn_state(mid, *old(system), old(self).state, old(self).target)]
                drawn_state(mid, *old(system), old(self).state, old(self).target) && mid.wf()
                    && rescale_ok(mid, old(self).target as int)),
            res is Ok && old(system).size > 0 && old(self).target != 0 ==> exists|mid: System|
                #![trigger drawn_state(mid, *old(system), old(self).state, old(self).target)]
                {
                    &&& drawn_state(mid, *old(system), old(self).state, old(self).target)
                    &&& mid.wf()
                    &&& rescale_ok(mid, old(self).target as int)
                    &&& velocities_scaled(
                        mid,
                        *final(system),
                        rescale_factor(mid, old(self).target as int),
                    )
                },
    {
        let n = system.size;
        if n == 0 || self.target == 0 {
            system.velocities = zero_vector_vec(n);
            return Ok(());
        }
        let mut drawn: Vec<Vector3> = Vec::new();
        let mut i: usize = 0;
        while i < n
            invariant
                *system == *old(system),
                system.wf(),
                n == system.size,
                0 < n,
                old(self).target != 0,
                self.target == old(self).target,
                0 <= self.target <= COORD_LIMIT,
                i <= n,
                drawn@.len() == i,
                self.state == stream_state(old(self).state, i as nat),
                forall|t: int| 0 <= t < i ==> (#[trigger] drawn@[t]).in_bounds(COORD_LIMIT as int),
                forall|t: int|
                    0 <= t < i ==> {
                        let d = #[trigger] drawn_velocity(
                            stream_state(old(self).state, t as nat),
                            system.masses@[t],
                            old(self).target,
                        );
                        ((drawn@[t]).x as int, drawn@[t].y as int, drawn@[t].z as int) == d
                    },
            decreases n - i,
        {
            let m = system.masses[i];
            proof {
                crate::fixed::lemma_abs_mul_le(
                    BOLTZMANN as int,
                    self.target as int,
                    BOLTZMANN as int,
                    COORD_LIMIT as int,
                );
                crate::fixed::lemma_abs_div_le(
                    (BOLTZMANN as int) * (self.target as int),
                    SCALE as int,
                    (BOLTZMANN as int) * (COORD_LIMIT as int),
                );
            }
            let kt: i128 = fmul_i64(BOLTZMANN, self.target);
            proof {
                crate::fixed::lemma_abs_mul_le(
                    kt as int,
                    SCALE as int,
                    5_000_000_000,
                    SCALE as int,
                );
                crate::fixed::lemma_abs_div_le(
                    (kt as int) * (SCALE as int),
                    m as int,
                    5_000_000_000_000_000_000,
                );
            }
            let v2: i128 = fdiv_i128(kt, m as i128);
            proof {
                assert((BOLTZMANN as int) * (self.target as int) >= 0) by (nonlinear_arith)
                    requires
                        self.target >= 0,
                ;
                assert(kt >= 0);
                assert((kt as int) * (SCALE as int) >= 0) by (nonlinear_arith)
                    requires
                        kt >= 0,
                ;
                assert(v2 >= 0);
                crate::fixed::lemma_sqrt_floor_le(
                    (v2 as int) * (SCALE as int),
                    100_000_000_000_000,
                );
                crate::fixed::lemma_sqrt_floor_exists((v2 as int) * (SCALE as int));
            }
            let scale_v: u64 = sqrt_fixed_i128(v2);
            let ghost si = self.state;
            let dx = self.next_normal();
            let dy = self.next_normal();
            let dz = self.next_normal();
            proof {
                lemma_state_after_add(si, 12, 12);
                lemma_state_after_add(si, 24, 12);
                assert(scale_v == sample_scale(m, old(self).target));
                assert((dx as int, dy as int, dz as int) == (
                    normal_of(si),
                    normal_of(state_after(si, 12)),
                    normal_of(state_after(si, 24)),
                ));
                assert(self.state == state_after(si, 36));
                assert(stream_state(old(self).state, (i + 1) as nat) == state_after(
                    stream_state(old(self).state, i as nat),
                    36,
                ));
            }
            let vx: i128 = fmul_i64(dx, scale_v as i64);
            let vy: i128 = fmul_i64(dy, scale_v as i64);
            let vz: i128 = fmul_i64(dz, scale_v as i64);
            proof {
                assert((vx as int, vy as int, vz as int) == drawn_velocity(
                    si,
                    m,
                    old(self).target,
                ));
            }
            let lim: i128 = COORD_LIMIT as i128;
            if vx > lim || vx < -lim || vy > lim || vy < -lim || vz > lim || vz < -lim {
                proof {
                    assert(!draws_ok(old(self).state, *old(system), old(self).target));
                }
                return Err(NumericFault);
            }
            drawn.push(Vector3 { x: vx as i64, y: vy as i64, z: vz as i64 });
            i = i + 1;
        }
        system.velocities = drawn;
        let ghost mid = *system;
        proof {
            assert(drawn_state(mid, *old(system), old(self).state, old(self).target));
            assert(draws_ok(old(self).state, *old(system), old(self).target));
        }
        let res = rescale_to_target(system, self.target);
        proof {
            if res is Ok {
                assert(rescale_ok(mid, old(self).target as int));
                assert(velocities_scaled(
                    mid,
                    *system,
                    rescale_factor(mid, old(self).target as int),
                ));
            } else {
                assert forall|mid2: System|
                    drawn_state(mid2, *old(system), old(self).state, old(self).target)
                        && mid2.wf() implies !rescale_ok(mid2, old(self).target as int) by {
                    assert forall|t: int| 0 <= t < mid.size implies mid2.velocities@[t]
                        == mid.velocities@[t] by {
                        assert(((mid.velocities@[t]).x as int, mid.velocities@[t].y as int,
                        mid.velocities@[t].z as int) == drawn_velocity(
                            stream_state(old(self).state, t as nat),
                            old(system).masses@[t],
                            old(self).target,
                        ));
                    }
                    assert(mid2.velocities@ =~= mid.velocities@);
                    lemma_rescale_ok_congruent(mid2, mid, old(self).target as int);
                    assert(!rescale_ok(mid, old(self).target as int));
                }
            }
        }
        res
    }
}

} // verus!
