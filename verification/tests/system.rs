use mlom::algebra::{Point3, Vector3};
use mlom::parameters::{BOX_SIDE, FAR_AWAY, R_CUT};
use mlom::periodic_conditions::neighboring_3d_translations;
use mlom::system::{Particle, System};
use mlom::SimError;

fn b(x: f64) -> u64 {
    x.to_bits()
}

fn f(u: u64) -> f64 {
    f64::from_bits(u)
}

/// A deterministic 27-particle configuration: a cubic lattice with a small
/// systematic jitter, standing in for the reference configuration.
fn lattice_system() -> System {
    let mut particles = Vec::new();
    for i in 0..3u64 {
        for j in 0..3u64 {
            for k in 0..3u64 {
                let x = 3.4 * i as f64 + 0.17 * ((i + 2 * j + k) % 3) as f64;
                let y = 3.4 * j as f64 + 0.13 * ((2 * i + j + k) % 3) as f64;
                let z = 3.4 * k as f64 + 0.11 * ((i + j + 2 * k) % 3) as f64;
                particles.push(Particle::new(Point3::from(b(x), b(y), b(z))));
            }
        }
    }
    System::new(particles, 0)
}

#[test]
fn check_energy_optimizations() {
    let system = lattice_system();
    let reference = f(system.microscopic_energy_reference());
    let optimized = f(system.microscopic_energy());
    assert!(
        (reference - optimized).abs() < 1e-5,
        "{reference} =/= {optimized}"
    );
}

#[test]
fn sum_of_forces_is_null() {
    let system = lattice_system();

    // Non periodic conditions
    system.compute_forces();
    let total = System::sum_of_forces(&system.compute_forces());
    assert!(f(total.x()).abs() < 1e-5);
    assert!(f(total.y()).abs() < 1e-5);
    assert!(f(total.z()).abs() < 1e-5);

    // Periodic conditions
    system.compute_forces_periodic(&neighboring_3d_translations(b(5.0)), R_CUT);
    let total = System::sum_of_forces_periodic(
        &system.compute_forces_periodic(&neighboring_3d_translations(BOX_SIDE), R_CUT),
    );
    assert!(f(total.x()).abs() < 1e-5);
    assert!(f(total.y()).abs() < 1e-5);
    assert!(f(total.z()).abs() < 1e-5);
}

#[test]
fn if_nb_sym_1_then_equivalent_to_non_periodic() {
    let system = lattice_system();
    let u_lj_non_periodic = f(system.microscopic_energy());
    let singleton = vec![Vector3::zero()];
    let u_lj_periodic = f(system.microscopic_energy_periodic(&singleton, FAR_AWAY).0);
    assert!(
        (u_lj_non_periodic - u_lj_periodic).abs() < 1e-5,
        "{u_lj_non_periodic} =/= {u_lj_periodic}"
    );
}

#[test]
fn if_far_away_then_equivalent_to_non_periodic() {
    let system = lattice_system();
    let u_lj_non_periodic = f(system.microscopic_energy());
    let u_lj_periodic = f(
        system
            .microscopic_energy_periodic(&neighboring_3d_translations(FAR_AWAY), FAR_AWAY)
            .0,
    );
    assert!(
        (u_lj_non_periodic - u_lj_periodic).abs() < 1e-5,
        "{u_lj_non_periodic} =/= {u_lj_periodic}"
    );
}

#[test]
fn singleton_image_matches_naive_sum() {
    // the engine under the single zero translation and a far cutoff
    // agrees with the naive non-periodic direct sum
    let system = lattice_system();
    let naive = f(system.microscopic_energy_reference());
    let singleton = vec![Vector3::zero()];
    let periodic = f(system.microscopic_energy_periodic(&singleton, FAR_AWAY).0);
    assert!((naive - periodic).abs() < 1e-5, "{naive} =/= {periodic}");
    let far = f(
        system
            .microscopic_energy_periodic(&neighboring_3d_translations(FAR_AWAY), FAR_AWAY)
            .0,
    );
    assert!((naive - far).abs() < 1e-5, "{naive} =/= {far}");
}

#[test]
fn two_particles_at_three_four() {
    // E1: particles at (0,0,0) and (3,4,0)
    let system = System::new(
        vec![
            Particle::new(Point3::from(b(0.0), b(0.0), b(0.0))),
            Particle::new(Point3::from(b(3.0), b(4.0), b(0.0))),
        ],
        0,
    );
    assert!((f(system.distance_between_squared(0, 1)) - 25.0).abs() < 1e-12);
    let p0 = Point3::from(b(0.0), b(0.0), b(0.0));
    let p1 = Point3::from(b(3.0), b(4.0), b(0.0));
    assert!((f(p0.distance_to(&p1)) - 5.0).abs() < 1e-12);

    let p2: f64 = 9.0 / 25.0;
    let p6 = (p2 * p2) * p2;
    let p12 = p6 * p6;
    let expected = 0.4 * ((p12 - 2.0 * p6) + (p12 - 2.0 * p6));
    assert!((f(system.microscopic_energy()) - expected).abs() < 1e-12);
}

#[test]
fn single_particle_energy_is_zero() {
    // E2: a single particle has no valid pair under any configuration
    let system = System::new(vec![Particle::new(Point3::origin())], 0);
    assert_eq!(f(system.microscopic_energy()), 0.0);
    let singleton = vec![Vector3::zero()];
    assert_eq!(f(system.microscopic_energy_periodic(&singleton, FAR_AWAY).0), 0.0);
    assert_eq!(
        f(system
            .microscopic_energy_periodic(&neighboring_3d_translations(BOX_SIDE), R_CUT)
            .0),
        0.0
    );
}

#[test]
fn two_particles_at_equilibrium_distance() {
    // E3: r = R*, so u = 1 - 2 = -1 and the energy is 4·ε*·(−1) = −0.8
    let system = System::new(
        vec![
            Particle::new(Point3::from(b(0.0), b(0.0), b(0.0))),
            Particle::new(Point3::from(b(3.0), b(0.0), b(0.0))),
        ],
        0,
    );
    assert!((f(system.microscopic_energy()) + 0.8).abs() < 1e-12);
}

#[test]
fn image_enumerator_on_unit_box() {
    // E4: 27 translations with components in {-1, 0, 1}, (0,0,0) once
    let images = neighboring_3d_translations(b(1.0));
    assert_eq!(images.len(), 27);
    let mut zero_count = 0;
    for v in images.iter() {
        for c in [f(v.x()), f(v.y()), f(v.z())] {
            assert!(c == -1.0 || c == 0.0 || c == 1.0, "component {c}");
        }
        if f(v.x()) == 0.0 && f(v.y()) == 0.0 && f(v.z()) == 0.0 {
            zero_count += 1;
        }
    }
    assert_eq!(zero_count, 1);
}

#[test]
fn parse_reads_a_configuration_line() {
    let p = Particle::parse("1 4.5 -2.25e1 0.75").unwrap();
    assert_eq!(f(p.x()), 4.5);
    assert_eq!(f(p.y()), -22.5);
    assert_eq!(f(p.z()), 0.75);
    assert_eq!(p.xyz(), (b(4.5), b(-22.5), b(0.75)));

    let q = Particle::parse("  +12\t0.1   0.2  0.3 ").unwrap();
    assert_eq!(f(q.x()), 0.1);
    assert_eq!(f(q.y()), 0.2);
    assert_eq!(f(q.z()), 0.3);
}

#[test]
fn parse_rejects_malformed_lines() {
    assert_eq!(Particle::parse(""), Err(SimError::InputParseError));
    assert_eq!(Particle::parse("1 2 3"), Err(SimError::InputParseError));
    assert_eq!(Particle::parse("1 2 3 4 5"), Err(SimError::InputParseError));
    assert_eq!(Particle::parse("x 1.0 2.0 3.0"), Err(SimError::InputParseError));
    assert_eq!(Particle::parse("1 a 2.0 3.0"), Err(SimError::InputParseError));
    assert_eq!(Particle::parse("-1 1.0 2.0 3.0"), Err(SimError::InputParseError));
}

#[test]
fn load_validates_the_configuration() {
    let good = vec![
        Point3::from(b(0.0), b(0.0), b(0.0)),
        Point3::from(b(3.0), b(0.0), b(0.0)),
    ];
    let sys = System::load(&good, 0).unwrap();
    assert_eq!(sys.nb_particles_total(), 2);
    assert_eq!(sys.nb_particles_local(), 0);
    for p in sys.particles().iter() {
        assert_eq!(f(p.momentum.x()), 0.0);
        assert_eq!(f(p.momentum.y()), 0.0);
        assert_eq!(f(p.momentum.z()), 0.0);
    }

    let single = vec![Point3::from(b(0.0), b(0.0), b(0.0))];
    assert_eq!(System::load(&single, 0), Err(SimError::ConfigError));
    assert_eq!(System::load(&good, 2), Err(SimError::ConfigError));
    let with_nan = vec![
        Point3::from(b(0.0), b(f64::NAN), b(0.0)),
        Point3::from(b(3.0), b(0.0), b(0.0)),
    ];
    assert_eq!(System::load(&with_nan, 0), Err(SimError::ConfigError));
}

#[test]
fn forces_vanish_on_diagonal_at_zero_image() {
    let system = lattice_system();
    let images = neighboring_3d_translations(BOX_SIDE);
    let tensor = system.compute_forces_periodic(&images, R_CUT);
    for (s, v) in images.iter().enumerate() {
        if f(v.x()) == 0.0 && f(v.y()) == 0.0 && f(v.z()) == 0.0 {
            for i in 0..system.nb_particles_total() {
                assert_eq!(f(tensor[s][i][i].x()), 0.0);
                assert_eq!(f(tensor[s][i][i].y()), 0.0);
                assert_eq!(f(tensor[s][i][i].z()), 0.0);
            }
        }
    }
}
