//! The integrator and the thermal initializer: observables, the momentum
//! calibrations, the velocity-Verlet step and the driver loop.

use vstd::prelude::*;

use crate::algebra::{
    spec_divided, spec_minus, spec_norm_squared, spec_plus, spec_scaled, spec_translate, Point3,
    Vector3,
};
use crate::parameters::{
    BOX_SIDE, CONVERSION_FORCE, DELTA_TIME, PARTICLE_MASS, R_CONSTANT, R_CUT, SC_HALF, SC_ONE,
    SC_TWO, SC_TWO_POW_63, SC_ZERO, TWO_EPSILON_STAR, T_0,
};
use crate::periodic_conditions::{
    force_entry, neighboring_3d_translations, pe_all, spec_translations,
};
use crate::rng::{sm_output, sm_state_after, SplitMix};
use crate::scalar::{
    add_bits, add_scalar, div_bits, div_scalar, eq_bits, eq_scalar, floor_bits, floor_scalar,
    is_finite_bits, finite_scalar, lt_bits, lt_scalar, mul_bits, mul_scalar, of_nat_bits,
    of_nat_scalar, sub_bits, sub_scalar,
};
use crate::sqrt::{sqrt_bits, sqrt_scalar};
use crate::system::{Particle, System};
use crate::SimError;

verus! {

/// The degrees of liberty of a system of `n` particles: 3n − 3 converted
/// to a scalar, the three removed being the fixed center-of-mass
/// translation.
pub open spec fn spec_dol(n: nat) -> u64
    recommends
        n >= 1,
{
    of_nat_bits((3 * n - 3) as nat as u128)
}

/// The running sum of the squared momentum norms of the first `i`
/// particles.
pub open spec fn ke_sum(ps: Seq<Particle>, i: int, acc: u64) -> u64
    decreases i,
{
    if i <= 0 {
        acc
    } else {
        add_bits(ke_sum(ps, i - 1, acc), spec_norm_squared(ps[i - 1].momentum))
    }
}

/// The kinetic energy of the system: the squared momentum norms summed in
/// index order, divided by twice the particle mass.
pub open spec fn spec_kinetic_energy(ps: Seq<Particle>) -> u64 {
    div_bits(ke_sum(ps, ps.len() as int, SC_ZERO), mul_bits(SC_TWO, PARTICLE_MASS))
}

/// The instantaneous temperature: twice the kinetic energy over the
/// degrees of liberty times the gas constant.
pub open spec fn spec_temperature(ps: Seq<Particle>) -> u64 {
    div_bits(
        mul_bits(SC_TWO, spec_kinetic_energy(ps)),
        mul_bits(spec_dol(ps.len()), R_CONSTANT),
    )
}

/// The kinetic energy the thermal target asks for: ½ · N_dl · k_B · T₀.
pub open spec fn spec_desired_ke(ps: Seq<Particle>) -> u64 {
    mul_bits(mul_bits(mul_bits(SC_HALF, spec_dol(ps.len())), R_CONSTANT), T_0)
}

/// Every momentum multiplied by the scalar `scale`.
pub open spec fn spec_rescaled(ps: Seq<Particle>, scale: u64) -> Seq<Particle> {
    Seq::new(
        ps.len(),
        |i: int|
            Particle { coordinates: ps[i].coordinates, momentum: spec_scaled(ps[i].momentum, scale) },
    )
}

/// The factor that brings the kinetic energy to the thermal target:
/// the square root of desired over current.
pub open spec fn spec_temperature_scale(ps: Seq<Particle>) -> u64 {
    sqrt_bits(div_bits(spec_desired_ke(ps), spec_kinetic_energy(ps)))
}

/// The temperature recalibration: a no-op when the kinetic energy is not
/// positive, else every momentum scaled by the thermal factor.
pub open spec fn spec_rescale_to_temperature(ps: Seq<Particle>) -> Seq<Particle> {
    let ke = spec_kinetic_energy(ps);
    if lt_bits(ke, SC_ZERO) || eq_bits(ke, SC_ZERO) {
        ps
    } else {
        spec_rescaled(ps, spec_temperature_scale(ps))
    }
}

/// The running sum of the momenta of the first `i` particles.
pub open spec fn momentum_sum(ps: Seq<Particle>, i: int, acc: Vector3) -> Vector3
    decreases i,
{
    if i <= 0 {
        acc
    } else {
        spec_plus(momentum_sum(ps, i - 1, acc), ps[i - 1].momentum)
    }
}

/// The mean momentum: the momentum sum divided by the particle count.
pub open spec fn spec_mean_momentum(ps: Seq<Particle>) -> Vector3 {
    spec_divided(
        momentum_sum(ps, ps.len() as int, Vector3 { x: SC_ZERO, y: SC_ZERO, z: SC_ZERO }),
        of_nat_bits(ps.len() as u128),
    )
}

/// The center-of-mass recalibration: the mean momentum subtracted from
/// every momentum.
pub open spec fn spec_zero_drift(ps: Seq<Particle>) -> Seq<Particle> {
    let c = spec_mean_momentum(ps);
    Seq::new(
        ps.len(),
        |i: int|
            Particle { coordinates: ps[i].coordinates, momentum: spec_minus(ps[i].momentum, c) },
    )
}

/// A raw 64-bit draw mapped into [−1, 1]: converted to a scalar, divided
/// by 2⁶³ and shifted down by one.
pub open spec fn spec_uniform_pm1(r: u64) -> u64 {
    sub_bits(div_bits(of_nat_bits(r as u128), SC_TWO_POW_63), SC_ONE)
}

/// Every momentum replaced by three consecutive draws of the generator
/// seeded with `seed`, each mapped into [−1, 1].
pub open spec fn spec_drawn(ps: Seq<Particle>, seed: u64) -> Seq<Particle> {
    Seq::new(
        ps.len(),
        |i: int|
            Particle {
                coordinates: ps[i].coordinates,
                momentum: Vector3 {
                    x: spec_uniform_pm1(sm_output(sm_state_after(seed, (3 * i) as nat))),
                    y: spec_uniform_pm1(sm_output(sm_state_after(seed, (3 * i + 1) as nat))),
                    z: spec_uniform_pm1(sm_output(sm_state_after(seed, (3 * i + 2) as nat))),
                },
            },
    )
}

impl System {
    /// Compute the degrees of liberty of the system. Noted N_dl.
    pub fn degrees_of_liberty(&self) -> (r: u64)
        requires
            self.particles@.len() >= 1,
        ensures
            r == spec_dol(self.particles@.len()),
    {
        let n = self.nb_particles_total();
        of_nat_scalar(3u128 * (n as u128) - 3)
    }

    /// The kinetic energy and the instantaneous temperature of the system.
    pub fn kinetic_energy_and_temperature(&self) -> (r: (u64, u64))
        requires
            self.particles@.len() >= 1,
        ensures
            r.0 == spec_kinetic_energy(self.particles@),
            r.1 == spec_temperature(self.particles@),
    {
        let n = self.nb_particles_total();
        let mut sum_p2: u64 = SC_ZERO;
        let mut i: usize = 0;
        while i < n
            invariant
                n == self.particles@.len(),
                i <= n,
                sum_p2 == ke_sum(self.particles@, i as int, SC_ZERO),
            decreases n - i,
        {
            let p = self.particles[i].momentum;
            sum_p2 = add_scalar(sum_p2, p.norm_squared());
            i = i + 1;
        }
        let kinetic_energy = div_scalar(sum_p2, mul_scalar(SC_TWO, PARTICLE_MASS));
        let dol = self.degrees_of_liberty();
        let temperature = div_scalar(mul_scalar(SC_TWO, kinetic_energy), mul_scalar(dol, R_CONSTANT));
        (kinetic_energy, temperature)
    }

    /// Calibrate the kinetic momentum of the particles to have the desired
    /// temperature.
    pub fn recalibrate_according_to_temperature(&mut self)
        requires
            old(self).particles@.len() >= 1,
        ensures
            final(self).particles@ == spec_rescale_to_temperature(old(self).particles@),
            final(self).nb_particles_local == old(self).nb_particles_local,
    {
        let ghost ps0 = self.particles@;
        let (initial_ke, _t) = self.kinetic_energy_and_temperature();
        if lt_scalar(initial_ke, SC_ZERO) || eq_scalar(initial_ke, SC_ZERO) {
            proof {
                assert(self.particles@ =~= spec_rescale_to_temperature(ps0));
            }
            return ;
        }
        let dol = self.degrees_of_liberty();
        let desired_ke = mul_scalar(mul_scalar(mul_scalar(SC_HALF, dol), R_CONSTANT), T_0);
        let scale = sqrt_scalar(div_scalar(desired_ke, initial_ke));
        let n = self.nb_particles_total();
        let mut i: usize = 0;
        while i < n
            invariant
                n == ps0.len(),
                i <= n,
                self.particles@.len() == n,
                self.nb_particles_local == old(self).nb_particles_local,
                scale == spec_temperature_scale(ps0),
                forall|m: int| i as int <= m < n as int ==> self.particles@[m] == ps0[m],
                forall|m: int|
                    0 <= m < i as int ==> self.particles@[m] == (Particle {
                        coordinates: ps0[m].coordinates,
                        momentum: spec_scaled(ps0[m].momentum, scale),
                    }),
            decreases n - i,
        {
            let p = self.particles[i];
            self.particles.set(
                i,
                Particle { coordinates: p.coordinates, momentum: p.momentum.scaled(scale) },
            );
            i = i + 1;
        }
        proof {
            assert(self.particles@ =~= spec_rescaled(ps0, spec_temperature_scale(ps0)));
        }
    }

    /// Calibrate the kinetic momentum of the particles to conserve the
    /// kinetic momentum of the center of mass.
    pub fn recalibrate_according_to_center_of_mass(&mut self)
        ensures
            final(self).particles@ == spec_zero_drift(old(self).particles@),
            final(self).nb_particles_local == old(self).nb_particles_local,
    {
        let ghost ps0 = self.particles@;
        let n = self.nb_particles_total();
        let mut center = Vector3::zero();
        let mut i: usize = 0;
        while i < n
            invariant
                n == ps0.len(),
                self.particles@ == ps0,
                i <= n,
                center == momentum_sum(ps0, i as int, Vector3 { x: SC_ZERO, y: SC_ZERO, z: SC_ZERO }),
            decreases n - i,
        {
            center = center.plus(&self.particles[i].momentum);
            i = i + 1;
        }
        let count = of_nat_scalar(n as u128);
        let center = Vector3 {
            x: div_scalar(center.x, count),
            y: div_scalar(center.y, count),
            z: div_scalar(center.z, count),
        };
        let ghost c = spec_mean_momentum(ps0);
        let mut i: usize = 0;
        while i < n
            invariant
                n == ps0.len(),
                i <= n,
                self.particles@.len() == n,
                self.nb_particles_local == old(self).nb_particles_local,
                center == c,
                forall|m: int| i as int <= m < n as int ==> self.particles@[m] == ps0[m],
                forall|m: int|
                    0 <= m < i as int ==> self.particles@[m] == (Particle {
                        coordinates: ps0[m].coordinates,
                        momentum: spec_minus(ps0[m].momentum, c),
                    }),
            decreases n - i,
        {
            let p = self.particles[i];
            self.particles.set(
                i,
                Particle { coordinates: p.coordinates, momentum: p.momentum.minus(&center) },
            );
            i = i + 1;
        }
        proof {
            assert(self.particles@ =~= spec_zero_drift(ps0));
        }
    }

    /// Assign fresh momenta: a draw in [−1, 1]³ for every particle from
    /// the seeded generator, a rescale to the target temperature, the
    /// removal of the mean drift, and a second rescale, which the drift
    /// removal makes necessary.
    pub fn init_particles_momentums(&mut self, seed: u64)
        requires
            old(self).particles@.len() >= 1,
        ensures
            final(self).particles@ == spec_rescale_to_temperature(
                spec_zero_drift(
                    spec_rescale_to_temperature(spec_drawn(old(self).particles@, seed)),
                ),
            ),
            final(self).nb_particles_local == old(self).nb_particles_local,
    {
        let ghost ps0 = self.particles@;
        let n = self.nb_particles_total();
        let mut rng = SplitMix::new(seed);
        let mut i: usize = 0;
        while i < n
            invariant
                n == ps0.len(),
                i <= n,
                self.particles@.len() == n,
                self.nb_particles_local == old(self).nb_particles_local,
                rng.state == sm_state_after(seed, (3 * i as int) as nat),
                forall|m: int| i as int <= m < n as int ==> self.particles@[m] == ps0[m],
                forall|m: int|
                    0 <= m < i as int ==> self.particles@[m] == spec_drawn(ps0, seed)[m],
            decreases n - i,
        {
            let rx = rng.next();
            let ry = rng.next();
            let rz = rng.next();
            let mx = sub_scalar(div_scalar(of_nat_scalar(rx as u128), SC_TWO_POW_63), SC_ONE);
            let my = sub_scalar(div_scalar(of_nat_scalar(ry as u128), SC_TWO_POW_63), SC_ONE);
            let mz = sub_scalar(div_scalar(of_nat_scalar(rz as u128), SC_TWO_POW_63), SC_ONE);
            let p = self.particles[i];
            proof {
                assert(sm_state_after(seed, (3 * i as int + 1) as nat) == crate::rng::sm_next_state(
                    sm_state_after(seed, (3 * i as int) as nat),
                ));
                assert(sm_state_after(seed, (3 * i as int + 2) as nat) == crate::rng::sm_next_state(
                    sm_state_after(seed, (3 * i as int + 1) as nat),
                ));
                assert(sm_state_after(seed, (3 * i as int + 3) as nat) == crate::rng::sm_next_state(
                    sm_state_after(seed, (3 * i as int + 2) as nat),
                ));
            }
            self.particles.set(
                i,
                Particle { coordinates: p.coordinates, momentum: Vector3 { x: mx, y: my, z: mz } },
            );
            i = i + 1;
        }
        proof {
            assert(self.particles@ =~= spec_drawn(ps0, seed));
        }
        self.recalibrate_according_to_temperature();
        self.recalibrate_according_to_center_of_mass();
        self.recalibrate_according_to_temperature();
    }
}

} // verus!

verus! {

/// The deep view of a force tensor.
pub open spec fn tensor_view(f: Seq<Vec<Vec<Vector3>>>) -> Seq<Seq<Seq<Vector3>>> {
    f.map_values(|p: Vec<Vec<Vector3>>| p@.map_values(|row: Vec<Vector3>| row@))
}

/// The net force on particle `i` after image `s` has contributed its
/// first `j` entries.
pub open spec fn net_over_j(fs: Seq<Seq<Seq<Vector3>>>, s: int, i: int, j: int, acc: Vector3) -> Vector3
    decreases j,
{
    if j <= 0 {
        acc
    } else {
        spec_plus(net_over_j(fs, s, i, j - 1, acc), fs[s][i][j - 1])
    }
}

/// The net force on particle `i` after the first `s` images, each row
/// holding `nb` entries.
pub open spec fn net_over_s(fs: Seq<Seq<Seq<Vector3>>>, i: int, s: int, nb: int, acc: Vector3) -> Vector3
    decreases s,
{
    if s <= 0 {
        acc
    } else {
        net_over_j(fs, s - 1, i, nb, net_over_s(fs, i, s - 1, nb, acc))
    }
}

/// As `net_over_j`, phrased over the force entries themselves.
pub open spec fn net_direct_j(
    ps: Seq<Particle>,
    t: Vector3,
    rc2: u64,
    i: int,
    j: int,
    acc: Vector3,
) -> Vector3
    decreases j,
{
    if j <= 0 {
        acc
    } else {
        spec_plus(net_direct_j(ps, t, rc2, i, j - 1, acc), force_entry(ps, t, rc2, i, j - 1))
    }
}

/// As `net_over_s`, phrased over the force entries themselves.
pub open spec fn net_direct_s(
    ps: Seq<Particle>,
    ts: Seq<Vector3>,
    rc2: u64,
    i: int,
    s: int,
    acc: Vector3,
) -> Vector3
    decreases s,
{
    if s <= 0 {
        acc
    } else {
        net_direct_j(
            ps,
            ts[s - 1],
            rc2,
            i,
            ps.len() as int,
            net_direct_s(ps, ts, rc2, i, s - 1, acc),
        )
    }
}

/// The per-particle net forces of the periodic engine.
pub open spec fn spec_net(ps: Seq<Particle>, ts: Seq<Vector3>, rc2: u64) -> Seq<Vector3> {
    Seq::new(
        ps.len(),
        |i: int|
            net_direct_s(ps, ts, rc2, i, ts.len() as int, Vector3 { x: SC_ZERO, y: SC_ZERO, z: SC_ZERO }),
    )
}

proof fn lemma_net_j_cong(
    fs: Seq<Seq<Seq<Vector3>>>,
    ps: Seq<Particle>,
    t: Vector3,
    rc2: u64,
    s: int,
    i: int,
    j: int,
    acc: Vector3,
)
    requires
        j >= 0,
        forall|jj: int| 0 <= jj < j ==> #[trigger] fs[s][i][jj] == force_entry(ps, t, rc2, i, jj),
    ensures
        net_over_j(fs, s, i, j, acc) == net_direct_j(ps, t, rc2, i, j, acc),
    decreases j,
{
    if j > 0 {
        lemma_net_j_cong(fs, ps, t, rc2, s, i, j - 1, acc);
    }
}

proof fn lemma_net_s_cong(
    fs: Seq<Seq<Seq<Vector3>>>,
    ps: Seq<Particle>,
    ts: Seq<Vector3>,
    rc2: u64,
    i: int,
    s: int,
    acc: Vector3,
)
    requires
        s >= 0,
        forall|ss: int, jj: int|
            0 <= ss < s && 0 <= jj < ps.len() ==> #[trigger] fs[ss][i][jj] == force_entry(
                ps,
                ts[ss],
                rc2,
                i,
                jj,
            ),
    ensures
        net_over_s(fs, i, s, ps.len() as int, acc) == net_direct_s(ps, ts, rc2, i, s, acc),
    decreases s,
{
    if s > 0 {
        lemma_net_s_cong(fs, ps, ts, rc2, i, s - 1, acc);
        lemma_net_j_cong(
            fs,
            ps,
            ts[s - 1],
            rc2,
            s - 1,
            i,
            ps.len() as int,
            net_direct_s(ps, ts, rc2, i, s - 1, acc),
        );
    }
}

/// The sum of a tensor row.
pub open spec fn sofp_j(fs: Seq<Seq<Seq<Vector3>>>, s: int, i: int, j: int, acc: Vector3) -> Vector3
    decreases j,
{
    if j <= 0 {
        acc
    } else {
        spec_plus(sofp_j(fs, s, i, j - 1, acc), fs[s][i][j - 1])
    }
}

/// The sum of the first `i` rows of a plane, each of `nb` entries.
pub open spec fn sofp_i(fs: Seq<Seq<Seq<Vector3>>>, s: int, i: int, nb: int, acc: Vector3) -> Vector3
    decreases i,
{
    if i <= 0 {
        acc
    } else {
        sofp_j(fs, s, i - 1, nb, sofp_i(fs, s, i - 1, nb, acc))
    }
}

/// The sum of the first `s` planes, each of `np` rows of `nb` entries.
pub open spec fn sofp_s(fs: Seq<Seq<Seq<Vector3>>>, s: int, np: int, nb: int, acc: Vector3) -> Vector3
    decreases s,
{
    if s <= 0 {
        acc
    } else {
        sofp_i(fs, s - 1, np, nb, sofp_s(fs, s - 1, np, nb, acc))
    }
}

/// One wrapped coordinate: x − L·floor(x/L).
pub open spec fn wrap_comp(x: u64) -> u64 {
    sub_bits(x, mul_bits(BOX_SIDE, floor_bits(div_bits(x, BOX_SIDE))))
}

/// A particle with its position wrapped back into the primary cell.
pub open spec fn spec_wrap_particle(p: Particle) -> Particle {
    Particle {
        coordinates: Point3 {
            x: wrap_comp(p.coordinates.x),
            y: wrap_comp(p.coordinates.y),
            z: wrap_comp(p.coordinates.z),
        },
        momentum: p.momentum,
    }
}

/// Every position wrapped back into the primary cell.
pub open spec fn spec_wrap_all(ps: Seq<Particle>) -> Seq<Particle> {
    Seq::new(ps.len(), |i: int| spec_wrap_particle(ps[i]))
}

/// The momentum half-kick: each momentum loses ½·Δt·κ times its net
/// force, the factors applied in that order.
pub open spec fn spec_half_kick(ps: Seq<Particle>, net: Seq<Vector3>) -> Seq<Particle> {
    Seq::new(
        ps.len(),
        |i: int|
            Particle {
                coordinates: ps[i].coordinates,
                momentum: spec_minus(
                    ps[i].momentum,
                    spec_scaled(spec_scaled(spec_scaled(net[i], SC_HALF), DELTA_TIME), CONVERSION_FORCE),
                ),
            },
    )
}

/// The drift: each position advances by its velocity, momentum over mass,
/// times the time step.
pub open spec fn spec_drift(ps: Seq<Particle>) -> Seq<Particle> {
    Seq::new(
        ps.len(),
        |i: int|
            Particle {
                coordinates: spec_translate(
                    ps[i].coordinates,
                    spec_scaled(spec_divided(ps[i].momentum, PARTICLE_MASS), DELTA_TIME),
                ),
                momentum: ps[i].momentum,
            },
    )
}

/// One velocity-Verlet step under the box images and the fixed cutoff:
/// half-kick from the current net forces, drift, wrap into the primary
/// cell, recompute the net forces, half-kick again.
pub open spec fn spec_step(ps: Seq<Particle>) -> Seq<Particle> {
    let ts = spec_translations(BOX_SIDE);
    let rc2 = mul_bits(R_CUT, R_CUT);
    let p1 = spec_half_kick(ps, spec_net(ps, ts, rc2));
    let p2 = spec_drift(p1);
    let p3 = spec_wrap_all(p2);
    spec_half_kick(p3, spec_net(p3, ts, rc2))
}

/// The particle count is fixed: one integrator step neither adds nor
/// removes a particle.
pub proof fn lemma_step_preserves_particle_count(ps: Seq<Particle>)
    ensures
        spec_step(ps).len() == ps.len(),
{
}

impl Particle {
    /// Wrap the position of the particle back into the primary cell.
    pub fn put_back_in_box(&mut self)
        ensures
            *final(self) == spec_wrap_particle(*old(self)),
    {
        let x = self.coordinates.x;
        let y = self.coordinates.y;
        let z = self.coordinates.z;
        self.coordinates = Point3 {
            x: sub_scalar(x, mul_scalar(BOX_SIDE, floor_scalar(div_scalar(x, BOX_SIDE)))),
            y: sub_scalar(y, mul_scalar(BOX_SIDE, floor_scalar(div_scalar(y, BOX_SIDE)))),
            z: sub_scalar(z, mul_scalar(BOX_SIDE, floor_scalar(div_scalar(z, BOX_SIDE)))),
        };
    }
}

impl System {
    /// Collapse a force tensor to the per-particle net forces, image by
    /// image and column by column.
    pub fn forces_applied_to_particles(forces: &Vec<Vec<Vec<Vector3>>>) -> (r: Vec<Vector3>)
        requires
            forces@.len() >= 1,
            forall|s: int|
                0 <= s < forces@.len() ==> #[trigger] forces@[s]@.len() == forces@[0]@.len(),
            forall|s: int, i: int|
                0 <= s < forces@.len() && 0 <= i < forces@[0]@.len()
                    ==> #[trigger] forces@[s]@[i]@.len() == forces@[0]@.len(),
        ensures
            r@.len() == forces@[0]@.len(),
            forall|i: int|
                0 <= i < r@.len() ==> #[trigger] r@[i] == net_over_s(
                    tensor_view(forces@),
                    i,
                    forces@.len() as int,
                    forces@[0]@.len() as int,
                    Vector3 { x: SC_ZERO, y: SC_ZERO, z: SC_ZERO },
                ),
    {
        let ghost tv = tensor_view(forces@);
        let ns = forces.len();
        let nb = forces[0].len();
        let mut r: Vec<Vector3> = Vec::new();
        let mut i: usize = 0;
        while i < nb
            invariant
                tv == tensor_view(forces@),
                ns == forces@.len(),
                ns >= 1,
                nb == forces@[0]@.len(),
                forall|s: int| 0 <= s < ns as int ==> #[trigger] forces@[s]@.len() == nb as int,
                forall|s: int, a: int|
                    0 <= s < ns as int && 0 <= a < nb as int ==> #[trigger] forces@[s]@[a]@.len()
                        == nb as int,
                i <= nb,
                r@.len() == i as int,
                forall|a: int|
                    0 <= a < i as int ==> #[trigger] r@[a] == net_over_s(
                        tv,
                        a,
                        ns as int,
                        nb as int,
                        Vector3 { x: SC_ZERO, y: SC_ZERO, z: SC_ZERO },
                    ),
            decreases nb - i,
        {
            let mut acc = Vector3::zero();
            let mut s: usize = 0;
            while s < ns
                invariant
                    tv == tensor_view(forces@),
                    ns == forces@.len(),
                    nb == forces@[0]@.len(),
                    forall|ss: int| 0 <= ss < ns as int ==> #[trigger] forces@[ss]@.len() == nb as int,
                    forall|ss: int, a: int|
                        0 <= ss < ns as int && 0 <= a < nb as int
                            ==> #[trigger] forces@[ss]@[a]@.len() == nb as int,
                    i < nb,
                    s <= ns,
                    acc == net_over_s(
                        tv,
                        i as int,
                        s as int,
                        nb as int,
                        Vector3 { x: SC_ZERO, y: SC_ZERO, z: SC_ZERO },
                    ),
                decreases ns - s,
            {
                let mut j: usize = 0;
                while j < nb
                    invariant
                        tv == tensor_view(forces@),
                        ns == forces@.len(),
                        nb == forces@[0]@.len(),
                        forall|ss: int| 0 <= ss < ns as int ==> #[trigger] forces@[ss]@.len() == nb as int,
                        forall|ss: int, a: int|
                            0 <= ss < ns as int && 0 <= a < nb as int
                                ==> #[trigger] forces@[ss]@[a]@.len() == nb as int,
                        i < nb,
                        s < ns,
                        j <= nb,
                        acc == net_over_j(
                            tv,
                            s as int,
                            i as int,
                            j as int,
                            net_over_s(
                                tv,
                                i as int,
                                s as int,
                                nb as int,
                                Vector3 { x: SC_ZERO, y: SC_ZERO, z: SC_ZERO },
                            ),
                        ),
                    decreases nb - j,
                {
                    proof {
                        assert(tv[s as int][i as int][j as int] == forces@[s as int]@[i as int]@[j as int]);
                    }
                    acc = acc.plus(&forces[s][i][j]);
                    j = j + 1;
                }
                s = s + 1;
            }
            r.push(acc);
            i = i + 1;
        }
        r
    }

    /// Compute the sum of every entry of a periodic force tensor, plane by
    /// plane, row by row.
    pub fn sum_of_forces_periodic(forces: &Vec<Vec<Vec<Vector3>>>) -> (r: Vector3)
        requires
            forall|s: int|
                0 <= s < forces@.len() ==> #[trigger] forces@[s]@.len() == (if forces@.len() > 0 {
                    forces@[0]@.len()
                } else {
                    0
                }),
            forall|s: int, i: int|
                0 <= s < forces@.len() && 0 <= i < forces@[0]@.len()
                    ==> #[trigger] forces@[s]@[i]@.len() == forces@[0]@.len(),
        ensures
            r == sofp_s(
                tensor_view(forces@),
                forces@.len() as int,
                (if forces@.len() > 0 {
                    forces@[0]@.len() as int
                } else {
                    0
                }),
                (if forces@.len() > 0 {
                    forces@[0]@.len() as int
                } else {
                    0
                }),
                Vector3 { x: SC_ZERO, y: SC_ZERO, z: SC_ZERO },
            ),
    {
        let ghost tv = tensor_view(forces@);
        let ns = forces.len();
        let np: usize = if ns > 0 {
            forces[0].len()
        } else {
            0
        };
        let mut acc = Vector3::zero();
        let mut s: usize = 0;
        while s < ns
            invariant
                tv == tensor_view(forces@),
                ns == forces@.len(),
                ns > 0 ==> np == forces@[0]@.len(),
                forall|ss: int| 0 <= ss < ns as int ==> #[trigger] forces@[ss]@.len() == np as int,
                forall|ss: int, a: int|
                    0 <= ss < ns as int && 0 <= a < np as int ==> #[trigger] forces@[ss]@[a]@.len()
                        == np as int,
                s <= ns,
                acc == sofp_s(tv, s as int, np as int, np as int, Vector3 { x: SC_ZERO, y: SC_ZERO, z: SC_ZERO }),
            decreases ns - s,
        {
            let mut i: usize = 0;
            while i < np
                invariant
                    tv == tensor_view(forces@),
                    ns == forces@.len(),
                    forall|ss: int| 0 <= ss < ns as int ==> #[trigger] forces@[ss]@.len() == np as int,
                    forall|ss: int, a: int|
                        0 <= ss < ns as int && 0 <= a < np as int
                            ==> #[trigger] forces@[ss]@[a]@.len() == np as int,
                    s < ns,
                    i <= np,
                    acc == sofp_i(
                        tv,
                        s as int,
                        i as int,
                        np as int,
                        sofp_s(tv, s as int, np as int, np as int, Vector3 { x: SC_ZERO, y: SC_ZERO, z: SC_ZERO }),
                    ),
                decreases np - i,
            {
                let mut j: usize = 0;
                while j < np
                    invariant
                        tv == tensor_view(forces@),
                        ns == forces@.len(),
                        forall|ss: int| 0 <= ss < ns as int ==> #[trigger] forces@[ss]@.len() == np as int,
                        forall|ss: int, a: int|
                            0 <= ss < ns as int && 0 <= a < np as int
                                ==> #[trigger] forces@[ss]@[a]@.len() == np as int,
                        s < ns,
                        i < np,
                        j <= np,
                        acc == sofp_j(
                            tv,
                            s as int,
                            i as int,
                            j as int,
                            sofp_i(
                                tv,
                                s as int,
                                i as int,
                                np as int,
                                sofp_s(tv, s as int, np as int, np as int, Vector3 { x: SC_ZERO, y: SC_ZERO, z: SC_ZERO }),
                            ),
                        ),
                    decreases np - j,
                {
                    proof {
                        assert(tv[s as int][i as int][j as int] == forces@[s as int]@[i as int]@[j as int]);
                    }
                    acc = acc.plus(&forces[s][i][j]);
                    j = j + 1;
                }
                i = i + 1;
            }
            s = s + 1;
        }
        acc
    }
}

} // verus!

verus! {

/// Every momentum component is finite.
pub open spec fn finite_momenta(ps: Seq<Particle>) -> bool {
    forall|i: int|
        0 <= i < ps.len() ==> is_finite_bits(#[trigger] ps[i].momentum.x) && is_finite_bits(
            ps[i].momentum.y,
        ) && is_finite_bits(ps[i].momentum.z)
}

/// The total energy of a system and the number of zero-distance pairs the
/// potential part skipped.
pub open spec fn spec_total_energy(ps: Seq<Particle>) -> (u64, nat) {
    let pe = pe_all(
        ps,
        spec_translations(BOX_SIDE),
        mul_bits(R_CUT, R_CUT),
        27,
        (SC_ZERO, 0nat),
    );
    (add_bits(spec_kinetic_energy(ps), mul_bits(TWO_EPSILON_STAR, pe.0)), pe.1)
}

/// The run of the driver: from the given particles, `left` steps remain
/// and `prev_zero` says whether the step before reported a zero-distance
/// pair. The result carries the energy series or the first fatal error,
/// and the particles as they stand when the run ends.
pub open spec fn spec_evo(ps: Seq<Particle>, left: nat, prev_zero: bool) -> (
    Result<Seq<u64>, SimError>,
    Seq<Particle>,
)
    decreases left,
{
    if left == 0 {
        (Ok(Seq::<u64>::empty()), ps)
    } else {
        let ps1 = spec_step(ps);
        let te = spec_total_energy(ps1);
        if !is_finite_bits(te.0) || !finite_momenta(ps1) {
            (Err(SimError::NonFinite), ps1)
        } else if te.1 > 0 && prev_zero {
            (Err(SimError::ZeroDistance), ps1)
        } else {
            let rest = spec_evo(ps1, (left - 1) as nat, te.1 > 0);
            (
                match rest.0 {
                    Ok(s) => Ok(seq![te.0] + s),
                    Err(e) => Err(e),
                },
                rest.1,
            )
        }
    }
}

impl System {
    /// One velocity-Verlet step: a momentum half-kick from the current net
    /// forces, a position drift, the wrap back into the primary cell, a
    /// second force computation on the wrapped positions, and the closing
    /// half-kick.
    pub fn step(&mut self)
        requires
            old(self).wf(),
        ensures
            final(self).particles@ == spec_step(old(self).particles@),
            final(self).nb_particles_local == old(self).nb_particles_local,
            final(self).wf(),
    {
        let ghost ts = spec_translations(BOX_SIDE);
        let ghost rc2 = mul_bits(R_CUT, R_CUT);
        let ghost ps0 = self.particles@;
        let n = self.nb_particles_total();

        let translations = neighboring_3d_translations(BOX_SIDE);
        let forces = self.compute_forces_periodic(&translations, R_CUT);
        let net = Self::forces_applied_to_particles(&forces);
        proof {
            assert forall|i: int| 0 <= i < n as int implies net@[i] == spec_net(ps0, ts, rc2)[i] by {
                assert forall|ss: int, jj: int|
                    0 <= ss < 27 && 0 <= jj < ps0.len() implies #[trigger] tensor_view(
                    forces@,
                )[ss][i][jj] == force_entry(ps0, ts[ss], rc2, i, jj) by {
                    assert(tensor_view(forces@)[ss][i][jj] == forces@[ss]@[i]@[jj]);
                }
                lemma_net_s_cong(
                    tensor_view(forces@),
                    ps0,
                    ts,
                    rc2,
                    i,
                    27,
                    Vector3 { x: SC_ZERO, y: SC_ZERO, z: SC_ZERO },
                );
            }
        }
        let ghost p1 = spec_half_kick(ps0, spec_net(ps0, ts, rc2));
        let mut i: usize = 0;
        while i < n
            invariant
                n == ps0.len(),
                net@.len() == n,
                i <= n,
                self.particles@.len() == n,
                self.nb_particles_local == old(self).nb_particles_local,
                p1 == spec_half_kick(ps0, spec_net(ps0, ts, rc2)),
                forall|m: int| 0 <= m < n as int ==> net@[m] == spec_net(ps0, ts, rc2)[m],
                forall|m: int| i as int <= m < n as int ==> self.particles@[m] == ps0[m],
                forall|m: int| 0 <= m < i as int ==> self.particles@[m] == p1[m],
            decreases n - i,
        {
            let p = self.particles[i];
            let kick = net[i].scaled(SC_HALF).scaled(DELTA_TIME).scaled(CONVERSION_FORCE);
            self.particles.set(
                i,
                Particle { coordinates: p.coordinates, momentum: p.momentum.minus(&kick) },
            );
            i = i + 1;
        }
        proof {
            assert(self.particles@ =~= p1);
        }

        let ghost p2 = spec_drift(p1);
        let mut i: usize = 0;
        while i < n
            invariant
                n == p1.len(),
                i <= n,
                self.particles@.len() == n,
                self.nb_particles_local == old(self).nb_particles_local,
                p2 == spec_drift(p1),
                forall|m: int| i as int <= m < n as int ==> self.particles@[m] == p1[m],
                forall|m: int| 0 <= m < i as int ==> self.particles@[m] == p2[m],
            decreases n - i,
        {
            let p = self.particles[i];
            let velocity = Vector3 {
                x: div_scalar(p.momentum.x, PARTICLE_MASS),
                y: div_scalar(p.momentum.y, PARTICLE_MASS),
                z: div_scalar(p.momentum.z, PARTICLE_MASS),
            };
            let moved = p.coordinates.translate(&velocity.scaled(DELTA_TIME));
            self.particles.set(i, Particle { coordinates: moved, momentum: p.momentum });
            i = i + 1;
        }
        proof {
            assert(self.particles@ =~= p2);
        }

        let ghost p3 = spec_wrap_all(p2);
        let mut i: usize = 0;
        while i < n
            invariant
                n == p2.len(),
                i <= n,
                self.particles@.len() == n,
                self.nb_particles_local == old(self).nb_particles_local,
                p3 == spec_wrap_all(p2),
                forall|m: int| i as int <= m < n as int ==> self.particles@[m] == p2[m],
                forall|m: int| 0 <= m < i as int ==> self.particles@[m] == p3[m],
            decreases n - i,
        {
            let mut p = self.particles[i];
            p.put_back_in_box();
            self.particles.set(i, p);
            i = i + 1;
        }
        proof {
            assert(self.particles@ =~= p3);
        }

        let forces = self.compute_forces_periodic(&translations, R_CUT);
        let net = Self::forces_applied_to_particles(&forces);
        proof {
            assert forall|i: int| 0 <= i < n as int implies net@[i] == spec_net(p3, ts, rc2)[i] by {
                assert forall|ss: int, jj: int|
                    0 <= ss < 27 && 0 <= jj < p3.len() implies #[trigger] tensor_view(
                    forces@,
                )[ss][i][jj] == force_entry(p3, ts[ss], rc2, i, jj) by {
                    assert(tensor_view(forces@)[ss][i][jj] == forces@[ss]@[i]@[jj]);
                }
                lemma_net_s_cong(
                    tensor_view(forces@),
                    p3,
                    ts,
                    rc2,
                    i,
                    27,
                    Vector3 { x: SC_ZERO, y: SC_ZERO, z: SC_ZERO },
                );
            }
        }
        let ghost p4 = spec_half_kick(p3, spec_net(p3, ts, rc2));
        let mut i: usize = 0;
        while i < n
            invariant
                n == p3.len(),
                net@.len() == n,
                i <= n,
                self.particles@.len() == n,
                self.nb_particles_local == old(self).nb_particles_local,
                p4 == spec_half_kick(p3, spec_net(p3, ts, rc2)),
                forall|m: int| 0 <= m < n as int ==> net@[m] == spec_net(p3, ts, rc2)[m],
                forall|m: int| i as int <= m < n as int ==> self.particles@[m] == p3[m],
                forall|m: int| 0 <= m < i as int ==> self.particles@[m] == p4[m],
            decreases n - i,
        {
            let p = self.particles[i];
            let kick = net[i].scaled(SC_HALF).scaled(DELTA_TIME).scaled(CONVERSION_FORCE);
            self.particles.set(
                i,
                Particle { coordinates: p.coordinates, momentum: p.momentum.minus(&kick) },
            );
            i = i + 1;
        }
        proof {
            assert(self.particles@ =~= p4);
        }
    }

    /// The total energy: kinetic plus the periodic potential under the box
    /// images and the fixed cutoff, with the count of zero-distance pairs
    /// the potential part skipped.
    pub fn total_energy(&self) -> (r: (u64, usize))
        requires
            self.particles@.len() >= 1,
            27 * (self.particles@.len() * self.particles@.len()) <= usize::MAX,
        ensures
            r.0 == spec_total_energy(self.particles@).0,
            r.1 as nat == spec_total_energy(self.particles@).1,
    {
        let (kinetic_energy, _temp) = self.kinetic_energy_and_temperature();
        let translations = neighboring_3d_translations(BOX_SIDE);
        let (potential_energy, zero_pairs) = self.microscopic_energy_periodic(&translations, R_CUT);
        (add_scalar(kinetic_energy, potential_energy), zero_pairs)
    }

    /// Whether every momentum component is finite.
    fn momenta_are_finite(&self) -> (r: bool)
        ensures
            r == finite_momenta(self.particles@),
    {
        let n = self.nb_particles_total();
        let mut i: usize = 0;
        while i < n
            invariant
                n == self.particles@.len(),
                i <= n,
                forall|m: int|
                    0 <= m < i as int ==> is_finite_bits(
                        #[trigger] self.particles@[m].momentum.x,
                    ) && is_finite_bits(self.particles@[m].momentum.y) && is_finite_bits(
                        self.particles@[m].momentum.z,
                    ),
            decreases n - i,
        {
            let p = self.particles[i].momentum;
            if !(finite_scalar(p.x) && finite_scalar(p.y) && finite_scalar(p.z)) {
                return false;
            }
            i = i + 1;
        }
        true
    }

    /// Run the integrator for the requested number of steps and record the
    /// total energy after each one. The run stops with `NonFinite` when a
    /// total energy or a momentum stops being finite, and with
    /// `ZeroDistance` when two consecutive steps both report a
    /// zero-distance pair.
    pub fn energy_evolution(&mut self, nb_steps: usize) -> (r: Result<Vec<u64>, SimError>)
        requires
            old(self).wf(),
            27 * (old(self).particles@.len() * old(self).particles@.len()) <= usize::MAX,
        ensures
            final(self).particles@ == spec_evo(old(self).particles@, nb_steps as nat, false).1,
            final(self).nb_particles_local == old(self).nb_particles_local,
            final(self).wf(),
            ({
                let out = spec_evo(old(self).particles@, nb_steps as nat, false).0;
                match r {
                    Ok(v) => out matches Ok(s) && v@ == s,
                    Err(e) => out == Err::<Seq<u64>, SimError>(e),
                }
            }),
    {
        let ghost ps0 = self.particles@;
        let mut energies: Vec<u64> = Vec::new();
        let mut prev_zero: bool = false;
        let mut k: usize = 0;
        while k < nb_steps
            invariant
                self.wf(),
                ps0 == old(self).particles@,
                self.particles@.len() == ps0.len(),
                self.nb_particles_local == old(self).nb_particles_local,
                27 * (ps0.len() * ps0.len()) <= usize::MAX,
                k <= nb_steps,
                spec_evo(ps0, nb_steps as nat, false).1 == spec_evo(
                    self.particles@,
                    (nb_steps - k) as nat,
                    prev_zero,
                ).1,
                ({
                    let rest = spec_evo(self.particles@, (nb_steps - k) as nat, prev_zero).0;
                    let out = spec_evo(ps0, nb_steps as nat, false).0;
                    match rest {
                        Ok(s) => out matches Ok(full) && full == energies@ + s,
                        Err(e) => out == Err::<Seq<u64>, SimError>(e),
                    }
                }),
            decreases nb_steps - k,
        {
            let ghost cur = self.particles@;
            self.step();
            let (total_energy, zero_pairs) = self.total_energy();
            let momenta_ok = self.momenta_are_finite();
            if !finite_scalar(total_energy) || !momenta_ok {
                proof {
                    assert(spec_evo(cur, (nb_steps - k) as nat, prev_zero) == (
                        Err::<Seq<u64>, SimError>(SimError::NonFinite),
                        self.particles@,
                    ));
                }
                return Err(SimError::NonFinite);
            }
            if zero_pairs > 0 && prev_zero {
                proof {
                    assert(spec_evo(cur, (nb_steps - k) as nat, prev_zero) == (
                        Err::<Seq<u64>, SimError>(SimError::ZeroDistance),
                        self.particles@,
                    ));
                }
                return Err(SimError::ZeroDistance);
            }
            energies.push(total_energy);
            proof {
                let rest = spec_evo(self.particles@, (nb_steps - k - 1) as nat, zero_pairs > 0).0;
                if rest is Ok {
                    assert(energies@ + rest->Ok_0 =~= energies@.drop_last() + (seq![total_energy]
                        + rest->Ok_0));
                }
            }
            prev_zero = zero_pairs > 0;
            k = k + 1;
        }
        proof {
            assert(spec_evo(self.particles@, 0, prev_zero).0 == Ok::<Seq<u64>, SimError>(
                Seq::<u64>::empty(),
            ));
            assert(energies@ + Seq::<u64>::empty() =~= energies@);
        }
        Ok(energies)
    }
}

} // verus!
