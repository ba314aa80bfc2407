use mlom::algebra::Point3;
use mlom::system::{Particle, System};

fn b(x: f64) -> u64 {
    x.to_bits()
}

fn f(u: u64) -> f64 {
    f64::from_bits(u)
}

/// A deterministic eight-particle configuration: the corners of a cube of
/// edge 3 near the box center, with a small systematic jitter.
fn cube_system() -> System {
    let mut particles = Vec::new();
    for i in 0..2u64 {
        for j in 0..2u64 {
            for k in 0..2u64 {
                let x = 18.0 + 3.0 * i as f64 + 0.05 * ((i + 2 * j + k) % 3) as f64;
                let y = 18.0 + 3.0 * j as f64 + 0.04 * ((2 * i + j + k) % 3) as f64;
                let z = 18.0 + 3.0 * k as f64 + 0.03 * ((i + j + 2 * k) % 3) as f64;
                particles.push(Particle::new(Point3::from(b(x), b(y), b(z))));
            }
        }
    }
    System::new(particles, 0)
}

#[test]
fn net_force_is_zero_on_fresh_store() {
    // the forces on a freshly loaded store cancel, with and without
    // periodicity
    let system = cube_system();
    let non_periodic = system.compute_forces();
    let mut sx = 0.0;
    let mut sy = 0.0;
    let mut sz = 0.0;
    for row in non_periodic.iter() {
        for v in row.iter() {
            sx += f(v.x());
            sy += f(v.y());
            sz += f(v.z());
        }
    }
    assert!(sx.abs() < 1e-5 && sy.abs() < 1e-5 && sz.abs() < 1e-5);

    let images = mlom::periodic_conditions::neighboring_3d_translations(
        mlom::parameters::BOX_SIDE,
    );
    let tensor = system.compute_forces_periodic(&images, mlom::parameters::R_CUT);
    let net = System::forces_applied_to_particles(&tensor);
    let mut tx = 0.0;
    let mut ty = 0.0;
    let mut tz = 0.0;
    for v in net.iter() {
        tx += f(v.x());
        ty += f(v.y());
        tz += f(v.z());
    }
    assert!(tx.abs() < 1e-5 && ty.abs() < 1e-5 && tz.abs() < 1e-5);
}

#[test]
fn momentum_is_zero_after_initialization() {
    let mut system = cube_system();
    system.init_particles_momentums(0x12345678);
    let mut sx = 0.0;
    let mut sy = 0.0;
    let mut sz = 0.0;
    for p in system.particles().iter() {
        sx += f(p.momentum.x());
        sy += f(p.momentum.y());
        sz += f(p.momentum.z());
    }
    assert!(sx.abs() < 1e-9 && sy.abs() < 1e-9 && sz.abs() < 1e-9);
}

#[test]
fn temperature_matches_target_after_initialization() {
    let mut system = cube_system();
    system.init_particles_momentums(0xDEADBEEF);
    let (_ke, temp) = system.kinetic_energy_and_temperature();
    let t = f(temp);
    assert!(((t - 300.0) / 300.0).abs() < 1e-9, "temperature {t}");
}

#[test]
fn single_step_conserves_energy_from_rest() {
    // E5: one velocity-Verlet step from a two-particle store with zero
    // initial momenta
    let mut system = System::new(
        vec![
            Particle::new(Point3::from(b(18.0), b(18.0), b(18.0))),
            Particle::new(Point3::from(b(21.0), b(18.0), b(18.0))),
        ],
        0,
    );
    let before = f(system.total_energy().0);
    system.step();
    let after = f(system.total_energy().0);
    assert!((after - before).abs() < 1e-6, "{before} -> {after}");
}

/// A deterministic 27-particle lattice near the box center: the reference
/// configuration of the driver tests.
fn lattice_system() -> System {
    let mut particles = Vec::new();
    for i in 0..3u64 {
        for j in 0..3u64 {
            for k in 0..3u64 {
                let x = 15.0 + 3.1 * i as f64 + 0.05 * ((i + 2 * j + k) % 3) as f64;
                let y = 15.0 + 3.1 * j as f64 + 0.04 * ((2 * i + j + k) % 3) as f64;
                let z = 15.0 + 3.1 * k as f64 + 0.03 * ((i + j + 2 * k) % 3) as f64;
                particles.push(Particle::new(Point3::from(b(x), b(y), b(z))));
            }
        }
    }
    System::new(particles, 0)
}

#[test]
fn energy_series_is_stable_over_hundred_steps() {
    // E6: the relative spread of the total energy stays small
    let mut system = lattice_system();
    system.init_particles_momentums(0x5EED);
    let energies = system.energy_evolution(100).unwrap();
    assert_eq!(energies.len(), 100);
    let values: Vec<f64> = energies.iter().map(|&e| f(e)).collect();
    let mean: f64 = values.iter().sum::<f64>() / values.len() as f64;
    let var: f64 =
        values.iter().map(|v| (v - mean) * (v - mean)).sum::<f64>() / values.len() as f64;
    let spread = var.sqrt() / mean.abs();
    assert!(spread < 1e-2, "spread {spread}, mean {mean}");
}

#[test]
fn wrap_is_idempotent_and_lands_in_box() {
    let mut p = Particle::new(Point3::from(b(-1.3), b(45.2), b(41.999)));
    p.put_back_in_box();
    let once = p;
    for c in [f(once.coordinates.x()), f(once.coordinates.y()), f(once.coordinates.z())] {
        assert!((0.0..42.0).contains(&c), "coordinate {c}");
    }
    p.put_back_in_box();
    assert_eq!(p, once);
}

#[test]
fn generator_is_deterministic() {
    let mut a = cube_system();
    let mut c = cube_system();
    a.init_particles_momentums(7);
    c.init_particles_momentums(7);
    assert_eq!(a, c);
    let mut d = cube_system();
    d.init_particles_momentums(8);
    assert_ne!(a, d);
}

#[test]
fn degrees_of_liberty_counts_three_n_minus_three() {
    let system = cube_system();
    assert_eq!(f(system.degrees_of_liberty()), 21.0);
}

#[test]
fn store_accessors_read_and_write() {
    let mut system = cube_system();
    let p = system.position(3);
    assert_eq!(p, system.particles()[3].coordinates);
    let d = mlom::algebra::Vector3::from(b(1.0), b(-2.0), b(0.5));
    system.set_momentum(3, d);
    assert_eq!(system.momentum(3), d);
    assert_eq!(system.position(3), p);
    let q = Point3::from(b(7.0), b(8.0), b(9.0));
    system.set_position(3, q);
    assert_eq!(system.position(3), q);
    assert_eq!(system.momentum(3), d);
}

#[test]
fn evolution_rejects_non_finite_energies() {
    // two particles close enough that the pair powers overflow: the first
    // kick already produces non-finite momenta
    let mut system = System::new(
        vec![
            Particle::new(Point3::from(b(0.0), b(0.0), b(0.0))),
            Particle::new(Point3::from(b(1.0e-22), b(0.0), b(0.0))),
        ],
        0,
    );
    match system.energy_evolution(50) {
        Err(mlom::SimError::NonFinite) => {}
        other => panic!("expected a non-finite failure, got {other:?}"),
    }
}

#[test]
fn evolution_flags_recurrent_zero_distance() {
    // two particles at exactly the same point: the pair is skipped with a
    // diagnostic each step, and the second consecutive one is fatal
    let mut system = System::new(
        vec![
            Particle::new(Point3::from(b(18.0), b(18.0), b(18.0))),
            Particle::new(Point3::from(b(18.0), b(18.0), b(18.0))),
        ],
        0,
    );
    match system.energy_evolution(50) {
        Err(mlom::SimError::ZeroDistance) => {}
        other => panic!("expected a zero-distance failure, got {other:?}"),
    }
}

#[test]
fn evolution_matches_manual_stepping() {
    let mut driven = cube_system();
    driven.init_particles_momentums(9);
    let mut manual = driven.clone();
    let series = driven.energy_evolution(5).unwrap();
    assert_eq!(series.len(), 5);
    for &recorded in series.iter() {
        manual.step();
        assert_eq!(recorded, manual.total_energy().0);
    }
    assert_eq!(driven, manual);
}
