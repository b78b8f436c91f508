use velvet::SCALE;
use velvet::cell::Cell;
use velvet::elements::Element;
use velvet::potential::CoulombPotential;
use velvet::potential::CoulombPotentialMeta;
use velvet::potential::PairPotential;
use velvet::potential::PairPotentialMeta;
use velvet::potential::Potentials;
use velvet::potential::Restriction;
use velvet::property::CoulombicEnergy;
use velvet::property::Forces;
use velvet::property::KineticEnergy;
use velvet::property::PairEnergy;
use velvet::property::PotentialEnergy;
use velvet::property::Temperature;
use velvet::property::TotalEnergy;
use velvet::system::System;
use velvet::system::SystemBuilder;
use velvet::vector::Vector3;

const RIGHT: i64 = 90_000_000_000;

fn get_pair_system() -> System {
    let size = 2usize;
    let fluorine = Element::F;
    let cell = Cell::new(
        10 * SCALE,
        10 * SCALE,
        10 * SCALE,
        RIGHT,
        RIGHT,
        RIGHT,
    );
    SystemBuilder::new(size)
        .with_cell(cell)
        .with_elements(vec![fluorine, fluorine])
        .with_molecules(vec![0usize, 0usize])
        .with_positions(vec![
            Vector3::new(0, 0, 0),
            Vector3::new(1_300_000_000, 0, 0),
        ])
        .with_velocities(vec![
            Vector3::new(-7_225_222, -2_405_756, 2_606_510),
            Vector3::new(1_179_633, 3_525_262, -413_277),
        ])
        .with_charges(vec![0, 0])
        .finish()
}

fn get_pair_potentials(system: &System) -> Potentials {
    let mut pots = Potentials::new();
    let potential = PairPotential::harmonic(300 * SCALE, 1_200_000_000);
    let meta = PairPotentialMeta::new((Element::F, Element::F), 5 * SCALE, Restriction::Unrestricted);
    pots.add_pair(potential, meta);
    pots.setup(system);
    pots
}

#[test]
fn forces() {
    let sys = get_pair_system();
    let pots = get_pair_potentials(&sys);

    let forces = Forces.calculate(&sys, &pots).unwrap();
    let total = (
        forces[0].x + forces[1].x,
        forces[0].y + forces[1].y,
        forces[0].z + forces[1].z,
    );
    assert_eq!(total, (0, 0, 0));

    let target_force: i128 = 30 * SCALE as i128;
    assert_eq!(forces[0].x, -target_force);
    assert_eq!(forces[0].y, 0);
    assert_eq!(forces[0].z, 0);

    assert_eq!(forces[1].x, target_force);
    assert_eq!(forces[1].y, 0);
    assert_eq!(forces[1].z, 0);
}

#[test]
fn energy() {
    let sys = get_pair_system();
    let pots = get_pair_potentials(&sys);

    let kinetic = KineticEnergy.calculate(&sys, &pots);
    let potential = PotentialEnergy.calculate(&sys, &pots).unwrap();
    let total = TotalEnergy.calculate(&sys, &pots).unwrap();

    assert_eq!(kinetic + potential, total);
    // 0.5 * m_F * (|v0|^2 + |v1|^2) in fixed-point steps: about 0.0007483
    assert_eq!(kinetic, 748_260);
    let expected: i128 = 748_300;
    assert!((kinetic - expected).abs() * 1000 <= expected);
    // harmonic well at r = 1.3 with r0 = 1.2, k = 300: 0.5 * 300 * 0.01
    assert_eq!(potential, 1_500_000_000);
}

#[test]
fn cutoff_beyond_gives_zero() {
    let sys = get_pair_system();
    let mut pots = Potentials::new();
    let potential = PairPotential::harmonic(300 * SCALE, 1_200_000_000);
    // particles sit 1.3 apart; a cutoff of 1.0 excludes the pair
    let meta = PairPotentialMeta::new((Element::F, Element::F), SCALE, Restriction::Unrestricted);
    pots.add_pair(potential, meta);
    pots.setup(&sys);
    assert_eq!(PairEnergy.calculate(&sys, &pots).unwrap(), 0);
    let forces = Forces.calculate(&sys, &pots).unwrap();
    assert_eq!((forces[0].x, forces[0].y, forces[0].z), (0, 0, 0));
    assert_eq!((forces[1].x, forces[1].y, forces[1].z), (0, 0, 0));
}

#[test]
fn cutoff_just_below_is_nonzero() {
    let sys = get_pair_system();
    let mut pots = Potentials::new();
    let potential = PairPotential::harmonic(300 * SCALE, 1_200_000_000);
    // cutoff at exactly the pair distance keeps the pair active
    let meta = PairPotentialMeta::new(
        (Element::F, Element::F),
        1_300_000_000,
        Restriction::Unrestricted,
    );
    pots.add_pair(potential, meta);
    pots.setup(&sys);
    assert!(PairEnergy.calculate(&sys, &pots).unwrap() > 0);
    let forces = Forces.calculate(&sys, &pots).unwrap();
    assert!(forces[0].x < 0);
}

fn two_molecule_system(mol0: usize, mol1: usize) -> System {
    let cell = Cell::new(10 * SCALE, 10 * SCALE, 10 * SCALE, RIGHT, RIGHT, RIGHT);
    SystemBuilder::new(2)
        .with_cell(cell)
        .with_elements(vec![Element::F, Element::F])
        .with_molecules(vec![mol0, mol1])
        .with_positions(vec![
            Vector3::new(0, 0, 0),
            Vector3::new(1_300_000_000, 0, 0),
        ])
        .finish()
}

fn restricted_potentials(system: &System, restriction: Restriction) -> Potentials {
    let mut pots = Potentials::new();
    let potential = PairPotential::harmonic(300 * SCALE, 1_200_000_000);
    let meta = PairPotentialMeta::new((Element::F, Element::F), 5 * SCALE, restriction);
    pots.add_pair(potential, meta);
    pots.setup(system);
    pots
}

#[test]
fn intermolecular_excludes_same_molecule() {
    let sys = two_molecule_system(0, 0);
    let pots = restricted_potentials(&sys, Restriction::Intermolecular);
    assert_eq!(PairEnergy.calculate(&sys, &pots).unwrap(), 0);
    let forces = Forces.calculate(&sys, &pots).unwrap();
    assert_eq!((forces[0].x, forces[0].y, forces[0].z), (0, 0, 0));
    // the same restriction admits the pair once the molecules differ
    let sys2 = two_molecule_system(0, 1);
    let pots2 = restricted_potentials(&sys2, Restriction::Intermolecular);
    assert!(PairEnergy.calculate(&sys2, &pots2).unwrap() > 0);
}

#[test]
fn intramolecular_excludes_different_molecules() {
    let sys = two_molecule_system(0, 1);
    let pots = restricted_potentials(&sys, Restriction::Intramolecular);
    assert_eq!(PairEnergy.calculate(&sys, &pots).unwrap(), 0);
    let forces = Forces.calculate(&sys, &pots).unwrap();
    assert_eq!((forces[1].x, forces[1].y, forces[1].z), (0, 0, 0));
    // the same restriction admits the pair within one molecule
    let sys2 = two_molecule_system(0, 0);
    let pots2 = restricted_potentials(&sys2, Restriction::Intramolecular);
    assert!(PairEnergy.calculate(&sys2, &pots2).unwrap() > 0);
}

#[test]
fn coincident_particles_fault() {
    let cell = Cell::new(10 * SCALE, 10 * SCALE, 10 * SCALE, RIGHT, RIGHT, RIGHT);
    let sys = SystemBuilder::new(2)
        .with_cell(cell)
        .with_elements(vec![Element::Ar, Element::Ar])
        .with_positions(vec![Vector3::new(0, 0, 0), Vector3::new(0, 0, 0)])
        .finish();
    let mut pots = Potentials::new();
    let lj = PairPotential::lennard_jones(SCALE, 3_400_000_000);
    let meta = PairPotentialMeta::new(
        (Element::Ar, Element::Ar),
        8_500_000_000,
        Restriction::Unrestricted,
    );
    pots.add_pair(lj, meta);
    pots.setup(&sys);
    assert!(PairEnergy.calculate(&sys, &pots).is_err());
    assert!(Forces.calculate(&sys, &pots).is_err());
    assert!(TotalEnergy.calculate(&sys, &pots).is_err());
}

#[test]
fn coulomb_pair_energy() {
    let cell = Cell::new(10 * SCALE, 10 * SCALE, 10 * SCALE, RIGHT, RIGHT, RIGHT);
    let sys = SystemBuilder::new(2)
        .with_cell(cell)
        .with_elements(vec![Element::H, Element::H])
        .with_positions(vec![Vector3::new(0, 0, 0), Vector3::new(SCALE, 0, 0)])
        .with_charges(vec![SCALE, SCALE])
        .finish();
    let mut pots = Potentials::new();
    pots.add_coulombic(
        CoulombPotential::Standard,
        CoulombPotentialMeta::new(5 * SCALE, Restriction::Unrestricted),
    );
    pots.setup(&sys);
    // q1*q2 / (4*pi*eps0 * r) with unit charges at unit distance
    assert_eq!(CoulombicEnergy.calculate(&sys, &pots).unwrap(), 138_935_393);
    let forces = Forces.calculate(&sys, &pots).unwrap();
    assert_eq!(forces[0].x, -138_935_393);
    assert_eq!(forces[1].x, 138_935_393);
    assert_eq!(forces[0].x + forces[1].x, 0);
}

#[test]
fn temperature_of_single_particle() {
    let cell = Cell::new(10 * SCALE, 10 * SCALE, 10 * SCALE, RIGHT, RIGHT, RIGHT);
    let sys = SystemBuilder::new(1)
        .with_cell(cell)
        .with_elements(vec![Element::H])
        .with_positions(vec![Vector3::new(0, 0, 0)])
        .with_velocities(vec![Vector3::new(100_000_000, 0, 0)])
        .finish();
    // with the hydrogen mass: T = m * v^2 / (3 * k_B), about 1.6919
    let t = Temperature.calculate_intrinsic(&sys);
    assert_eq!(t, 1_691_949_392);
    let ke = KineticEnergy.calculate_intrinsic(&sys);
    assert_eq!(ke, 5_040_000);
}

#[test]
fn lennard_jones_pair_energy() {
    let cell = Cell::new(20 * SCALE, 20 * SCALE, 20 * SCALE, RIGHT, RIGHT, RIGHT);
    let sys = SystemBuilder::new(2)
        .with_cell(cell)
        .with_elements(vec![Element::Ar, Element::Ar])
        .with_positions(vec![
            Vector3::new(0, 0, 0),
            Vector3::new(3_800_000_000, 0, 0),
        ])
        .finish();
    let mut pots = Potentials::new();
    pots.add_pair(
        PairPotential::lennard_jones(SCALE, 3_400_000_000),
        PairPotentialMeta::new(
            (Element::Ar, Element::Ar),
            8_500_000_000,
            Restriction::Unrestricted,
        ),
    );
    pots.setup(&sys);
    // 4 * ((3.4/3.8)^12 - (3.4/3.8)^6) at the bottom of the well
    assert_eq!(PairEnergy.calculate(&sys, &pots).unwrap(), -999_317_284);
    let forces = Forces.calculate(&sys, &pots).unwrap();
    assert_eq!(forces[0].x, -84_668_242);
    assert_eq!(forces[1].x, 84_668_242);
}

#[test]
fn triclinic_cell_is_rejected() {
    // the kernel's geometry covers orthorhombic cells only
    let skewed = Cell::try_new(10 * SCALE, 10 * SCALE, 10 * SCALE, RIGHT, RIGHT, 60 * SCALE);
    assert!(skewed.is_none());
    let flat = Cell::try_new(0, 10 * SCALE, 10 * SCALE, RIGHT, RIGHT, RIGHT);
    assert!(flat.is_none());
    let cube = Cell::try_new(10 * SCALE, 10 * SCALE, 10 * SCALE, RIGHT, RIGHT, RIGHT);
    assert!(cube.is_some());
}

#[test]
fn periodic_distance_wraps() {
    let cell = Cell::new(10 * SCALE, 10 * SCALE, 10 * SCALE, RIGHT, RIGHT, RIGHT);
    let p1 = Vector3::new(0, 0, 0);
    let p2 = Vector3::new(9 * SCALE, 0, 0);
    // the shortest image crosses the boundary: one unit, not nine
    assert_eq!(cell.distance(&p1, &p2), SCALE);
    let d = cell.direction(&p1, &p2);
    assert_eq!((d.x, d.y, d.z), (SCALE, 0, 0));
}
