use velvet::SCALE;
use velvet::cell::Cell;
use velvet::distributions::Boltzmann;
use velvet::elements::Element;
use velvet::integrators::VelocityVerlet;
use velvet::potential::PairPotential;
use velvet::potential::PairPotentialMeta;
use velvet::potential::Potentials;
use velvet::potential::Restriction;
use velvet::property::Temperature;
use velvet::simulation::Propagator;
use velvet::simulation::Simulation;
use velvet::system::System;
use velvet::system::SystemBuilder;
use velvet::thermostats::Berendsen;
use velvet::thermostats::NoseHoover;
use velvet::thermostats::Thermostat;
use velvet::vector::Vector3;

const RIGHT: i64 = 90_000_000_000;

fn argon_lattice(n_side: usize, spacing: i64, edge: i64) -> System {
    let n = n_side * n_side * n_side;
    let mut elements = Vec::new();
    let mut positions = Vec::new();
    for ix in 0..n_side {
        for iy in 0..n_side {
            for iz in 0..n_side {
                elements.push(Element::Ar);
                positions.push(Vector3::new(
                    ix as i64 * spacing,
                    iy as i64 * spacing,
                    iz as i64 * spacing,
                ));
            }
        }
    }
    let cell = Cell::new(edge, edge, edge, RIGHT, RIGHT, RIGHT);
    SystemBuilder::new(n)
        .with_cell(cell)
        .with_elements(elements)
        .with_positions(positions)
        .finish()
}

#[test]
fn boltzmann() {
    // 125 argon atoms, then the realized temperature must match the
    // target within one part in a thousand
    let mut system = argon_lattice(5, 2 * SCALE, 20 * SCALE);
    let target: i64 = 1000 * SCALE;
    let mut boltz = Boltzmann::new(target);
    boltz.apply(&mut system).unwrap();
    let res = Temperature.calculate_intrinsic(&system);
    let diff = (res - target as i128).abs();
    assert!(diff * 1000 <= target as i128, "temperature {} vs {}", res, target);

    // the smallest ensemble the accuracy claim covers: two particles
    let cell = Cell::new(10 * SCALE, 10 * SCALE, 10 * SCALE, RIGHT, RIGHT, RIGHT);
    let mut small = SystemBuilder::new(2)
        .with_cell(cell)
        .with_elements(vec![Element::Ar, Element::Ar])
        .with_positions(vec![Vector3::new(0, 0, 0), Vector3::new(2 * SCALE, 0, 0)])
        .finish();
    let mut pair = Boltzmann::new(300 * SCALE);
    pair.apply(&mut small).unwrap();
    let res2 = Temperature.calculate_intrinsic(&small);
    let target2: i128 = 300 * SCALE as i128;
    assert!((res2 - target2).abs() * 1000 <= target2);
}

#[test]
fn boltzmann_zero_target_zeroes_velocities() {
    let mut system = argon_lattice(2, 2 * SCALE, 10 * SCALE);
    let mut boltz = Boltzmann::new(0);
    boltz.apply(&mut system).unwrap();
    for v in &system.velocities {
        assert_eq!((v.x, v.y, v.z), (0, 0, 0));
    }
}

fn bonded_pair() -> (System, Potentials) {
    let cell = Cell::new(10 * SCALE, 10 * SCALE, 10 * SCALE, RIGHT, RIGHT, RIGHT);
    let system = SystemBuilder::new(2)
        .with_cell(cell)
        .with_elements(vec![Element::F, Element::F])
        .with_positions(vec![
            Vector3::new(0, 0, 0),
            Vector3::new(1_300_000_000, 0, 0),
        ])
        .finish();
    let mut pots = Potentials::new();
    pots.add_pair(
        PairPotential::harmonic(300 * SCALE, 1_200_000_000),
        PairPotentialMeta::new((Element::F, Element::F), 5 * SCALE, Restriction::Unrestricted),
    );
    pots.setup(&system);
    (system, pots)
}

#[test]
fn integrator_moves_stretched_pair() {
    let (mut system, pots) = bonded_pair();
    let dt: i64 = 1_000_000; // 0.001 time units
    let mut vv = VelocityVerlet::new(dt);
    vv.setup(&system, &pots).unwrap();
    let x0 = system.positions[0].x;
    for _ in 0..10 {
        vv.integrate(&mut system, &pots).unwrap();
    }
    // the spring pushes particle 0 toward -x under the sign convention
    // of the force test
    assert!(system.positions[0].x < x0);
}

#[test]
fn reversibility() {
    let (mut system, pots) = bonded_pair();
    let start_positions: Vec<Vector3> = system.positions.clone();
    let dt: i64 = 1_000_000;
    let steps = 5usize;

    let mut vv = VelocityVerlet::new(dt);
    vv.setup(&system, &pots).unwrap();
    for _ in 0..steps {
        vv.integrate(&mut system, &pots).unwrap();
    }
    // reverse the velocities and integrate the same number of steps
    let reversed: Vec<Vector3> = system
        .velocities
        .iter()
        .map(|v| Vector3::new(-v.x, -v.y, -v.z))
        .collect();
    system.velocities = reversed;
    let mut back = VelocityVerlet::new(dt);
    back.setup(&system, &pots).unwrap();
    for _ in 0..steps {
        back.integrate(&mut system, &pots).unwrap();
    }
    // positions return to the start within a tight numerical tolerance
    let tol: i64 = 10_000; // 1e-5 distance units
    for (p, q) in system.positions.iter().zip(start_positions.iter()) {
        assert!((p.x - q.x).abs() <= tol);
        assert!((p.y - q.y).abs() <= tol);
        assert!((p.z - q.z).abs() <= tol);
    }
}

#[test]
fn berendsen_pulls_toward_target() {
    let mut system = argon_lattice(3, 2 * SCALE, 10 * SCALE);
    let mut boltz = Boltzmann::new(100 * SCALE);
    boltz.apply(&mut system).unwrap();
    let target: i64 = 200 * SCALE;
    let before = (Temperature.calculate_intrinsic(&system) - target as i128).abs();
    let mut berendsen = Berendsen::new(target, 2 * SCALE);
    berendsen.setup(&system);
    berendsen.post_integrate(&mut system).unwrap();
    let after = (Temperature.calculate_intrinsic(&system) - target as i128).abs();
    assert!(after < before);
}

#[test]
fn nose_hoover_half_steps_run() {
    let mut system = argon_lattice(3, 2 * SCALE, 10 * SCALE);
    let mut boltz = Boltzmann::new(100 * SCALE);
    boltz.apply(&mut system).unwrap();
    let mut nose = NoseHoover::new(100 * SCALE, 3 * SCALE / 2, 1_000_000);
    nose.setup(&system);
    nose.pre_integrate(&mut system).unwrap();
    nose.post_integrate(&mut system).unwrap();
    // the friction state stays finite and the system keeps its size
    assert_eq!(system.velocities.len(), 27);
}

#[test]
fn simulation_run_conserves_energy_identity() {
    let (system, pots) = bonded_pair();
    let vv = VelocityVerlet::new(1_000_000);
    let propagator = Propagator::new(vv, Thermostat::Off);
    let mut sim = Simulation::new(system, pots, propagator);
    sim.run(20).unwrap();
    let (system, pots) = sim.consume();
    let kinetic = velvet::property::KineticEnergy.calculate(&system, &pots);
    let potential = velvet::property::PotentialEnergy.calculate(&system, &pots).unwrap();
    let total = velvet::property::TotalEnergy.calculate(&system, &pots).unwrap();
    assert_eq!(total, kinetic + potential);
}

#[test]
fn builder_defaults() {
    let cell = Cell::new(10 * SCALE, 10 * SCALE, 10 * SCALE, RIGHT, RIGHT, RIGHT);
    let sys = SystemBuilder::new(2)
        .with_cell(cell)
        .with_elements(vec![Element::H, Element::He])
        .with_positions(vec![Vector3::new(0, 0, 0), Vector3::new(SCALE, 0, 0)])
        .finish();
    assert_eq!(sys.size(), 2);
    assert_eq!(sys.molecules, vec![0, 0]);
    assert_eq!(sys.charges, vec![0, 0]);
    assert_eq!(sys.velocities.len(), 2);
    assert_eq!((sys.velocities[0].x, sys.velocities[1].x), (0, 0));
    assert_eq!(sys.masses[0], Element::H.mass());
    assert_eq!(sys.masses[1], Element::He.mass());
    assert!(sys.bonds.is_empty());
}
