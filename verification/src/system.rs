//! A system of particles, with the non-periodic pair-interaction engine.

use vstd::prelude::*;

use crate::algebra::{
    spec_delta, spec_distance_squared, spec_plus, spec_scaled, Point3, Vector3,
};
use crate::parameters::{
    EPSILON_STAR, R_STAR, SC_MINUS_48, SC_TWO, SC_ZERO, TWO_EPSILON_STAR,
};
use crate::scalar::{
    add_bits, add_scalar, decimal_bits, div_bits, div_scalar, is_finite_bits, mul_bits, mul_scalar,
    parse_scalar, sub_bits, sub_scalar,
};
use crate::sqrt::{sqrt_bits, sqrt_scalar};
use crate::SimError;

verus! {

/// A particle in the system: a position and a kinetic momentum.
#[derive(Debug, Clone, Copy, PartialEq, Eq, Structural)]
pub struct Particle {
    /// The coordinates of the particle
    pub coordinates: Point3,
    /// The kinetic momentum of the particle
    pub momentum: Vector3,
}

/// A whitespace character of a configuration line.
pub open spec fn is_space_char(c: char) -> bool {
    c == ' ' || c == '\t' || c == '\r' || c == '\n'
}

/// One step of the tokenizer: a space closes the pending token, any other
/// character extends it.
pub open spec fn tok_step(st: (Seq<Seq<char>>, Seq<char>), c: char) -> (Seq<Seq<char>>, Seq<char>) {
    if is_space_char(c) {
        if st.1.len() > 0 {
            (st.0.push(st.1), Seq::<char>::empty())
        } else {
            st
        }
    } else {
        (st.0, st.1.push(c))
    }
}

/// The tokenizer state after reading the first `n` characters.
pub open spec fn tok_fold(s: Seq<char>, n: int) -> (Seq<Seq<char>>, Seq<char>)
    decreases n,
{
    if n <= 0 {
        (Seq::<Seq<char>>::empty(), Seq::<char>::empty())
    } else {
        tok_step(tok_fold(s, n - 1), s[n - 1])
    }
}

/// The whitespace-separated tokens of a line.
pub open spec fn spec_tokens(s: Seq<char>) -> Seq<Seq<char>> {
    let st = tok_fold(s, s.len() as int);
    if st.1.len() > 0 {
        st.0.push(st.1)
    } else {
        st.0
    }
}

/// A token that reads as an unsigned integer: an optional leading plus
/// sign, then one or more decimal digits.
pub open spec fn is_uint_token(t: Seq<char>) -> bool {
    let off: int = if t.len() >= 1 && t[0] == '+' {
        1
    } else {
        0
    };
    t.len() > off && (forall|k: int| off <= k < t.len() ==> '0' <= #[trigger] t[k] <= '9')
}

/// Split a line into its whitespace-separated tokens.
fn split_tokens<'a>(s: &'a str) -> (r: Vec<&'a str>)
    requires
        s.is_ascii(),
    ensures
        r@.len() == spec_tokens(s@).len(),
        forall|k: int| 0 <= k < r@.len() ==> #[trigger] r@[k]@ == spec_tokens(s@)[k],
{
    let n: usize = s.unicode_len();
    let mut r: Vec<&'a str> = Vec::new();
    let mut start: usize = 0;
    let mut in_tok: bool = false;
    let mut i: usize = 0;
    while i < n
        invariant
            s.is_ascii(),
            n == s@.len(),
            i <= n,
            in_tok ==> start <= i && tok_fold(s@, i as int).1 == s@.subrange(
                start as int,
                i as int,
            ) && i > start,
            !in_tok ==> tok_fold(s@, i as int).1.len() == 0,
            r@.len() == tok_fold(s@, i as int).0.len(),
            forall|k: int|
                0 <= k < r@.len() ==> #[trigger] r@[k]@ == tok_fold(s@, i as int).0[k],
        decreases n - i,
    {
        let c = s.get_char(i);
        if c == ' ' || c == '\t' || c == '\r' || c == '\n' {
            if in_tok {
                let tok = s.substring_ascii(start, i);
                r.push(tok);
                in_tok = false;
            }
        } else {
            if !in_tok {
                start = i;
                in_tok = true;
            }
            proof {
                assert(s@.subrange(start as int, i + 1) =~= s@.subrange(start as int, i as int)
                    .push(s@[i as int]));
            }
        }
        i = i + 1;
    }
    if in_tok {
        let tok = s.substring_ascii(start, n);
        r.push(tok);
    }
    r
}

/// Whether a token reads as an unsigned integer.
fn is_uint_str(t: &str) -> (b: bool)
    ensures
        b == is_uint_token(t@),
{
    let n: usize = t.unicode_len();
    if n == 0 {
        return false;
    }
    let first = t.get_char(0);
    let from: usize = if first == '+' {
        1
    } else {
        0
    };
    if from >= n {
        return false;
    }
    let mut i: usize = from;
    while i < n
        invariant
            n == t@.len(),
            from <= i <= n,
            from < n,
            from == (if t@.len() >= 1 && t@[0] == '+' {
                1int
            } else {
                0int
            }),
            forall|k: int| from <= k < i ==> '0' <= #[trigger] t@[k] <= '9',
        decreases n - i,
    {
        let c = t.get_char(i);
        if !('0' <= c && c <= '9') {
            return false;
        }
        i = i + 1;
    }
    true
}

/// Whether a configuration line is well formed: ASCII text, exactly four
/// tokens, an unsigned integer tag, and three numeric tokens, each short
/// enough for the conversion (fewer than 2^31 characters).
pub open spec fn line_is_valid(s: &str) -> bool {
    let ts = spec_tokens(s@);
    s.is_ascii() && ts.len() == 4 && is_uint_token(ts[0]) && ts[1].len() < 0x8000_0000
        && ts[2].len() < 0x8000_0000 && ts[3].len() < 0x8000_0000 && decimal_bits(ts[1]).is_some()
        && decimal_bits(ts[2]).is_some() && decimal_bits(ts[3]).is_some()
}

/// The particle encoded by a valid configuration line.
pub open spec fn spec_parse_particle(s: &str) -> Particle {
    let ts = spec_tokens(s@);
    Particle {
        coordinates: Point3 {
            x: decimal_bits(ts[1]).unwrap(),
            y: decimal_bits(ts[2]).unwrap(),
            z: decimal_bits(ts[3]).unwrap(),
        },
        momentum: Vector3 { x: SC_ZERO, y: SC_ZERO, z: SC_ZERO },
    }
}

impl Particle {
    /// A particle at the given position, with a zero momentum.
    pub fn new(p: Point3) -> (r: Self)
        ensures
            r == (Particle { coordinates: p, momentum: Vector3 { x: SC_ZERO, y: SC_ZERO, z: SC_ZERO } }),
    {
        Particle { coordinates: p, momentum: Vector3 { x: SC_ZERO, y: SC_ZERO, z: SC_ZERO } }
    }

    /// Parse a particle from a configuration line: an unsigned integer
    /// species tag (ignored), then three decimal coordinates, separated by
    /// whitespace, and nothing else.
    pub fn parse(s: &str) -> (r: Result<Self, SimError>)
        ensures
            r.is_ok() <==> line_is_valid(s),
            line_is_valid(s) ==> r == Ok::<Particle, SimError>(spec_parse_particle(s)),
            !line_is_valid(s) ==> r == Err::<Particle, SimError>(SimError::InputParseError),
    {
        if !s.is_ascii() {
            return Err(SimError::InputParseError);
        }
        let toks = split_tokens(s);
        if toks.len() != 4 {
            return Err(SimError::InputParseError);
        }
        if !is_uint_str(toks[0]) {
            return Err(SimError::InputParseError);
        }
        if toks[1].unicode_len() >= 0x8000_0000 || toks[2].unicode_len() >= 0x8000_0000
            || toks[3].unicode_len() >= 0x8000_0000 {
            return Err(SimError::InputParseError);
        }
        let x = parse_scalar(toks[1]);
        let y = parse_scalar(toks[2]);
        let z = parse_scalar(toks[3]);
        match (x, y, z) {
            (Some(xb), Some(yb), Some(zb)) => Ok(
                Particle {
                    coordinates: Point3 { x: xb, y: yb, z: zb },
                    momentum: Vector3 { x: SC_ZERO, y: SC_ZERO, z: SC_ZERO },
                },
            ),
            _ => Err(SimError::InputParseError),
        }
    }

    /// The x coordinate of the particle.
    pub fn x(&self) -> (r: u64)
        ensures
            r == self.coordinates.x,
    {
        self.coordinates.x
    }

    /// The y coordinate of the particle.
    pub fn y(&self) -> (r: u64)
        ensures
            r == self.coordinates.y,
    {
        self.coordinates.y
    }

    /// The z coordinate of the particle.
    pub fn z(&self) -> (r: u64)
        ensures
            r == self.coordinates.z,
    {
        self.coordinates.z
    }

    /// The coordinates of the particle.
    pub fn xyz(&self) -> (r: (u64, u64, u64))
        ensures
            r == (self.coordinates.x, self.coordinates.y, self.coordinates.z),
    {
        (self.coordinates.x, self.coordinates.y, self.coordinates.z)
    }

    /// Compute the distance to another particle, squared.
    pub fn distance_to_squared(&self, rhs: &Self) -> (r: u64)
        ensures
            r == spec_distance_squared(self.coordinates, rhs.coordinates),
    {
        self.coordinates.distance_to_squared(&rhs.coordinates)
    }

    /// Compute the distance to another particle.
    pub fn distance_to(&self, rhs: &Self) -> (r: u64)
        ensures
            r == sqrt_bits(spec_distance_squared(self.coordinates, rhs.coordinates)),
    {
        sqrt_scalar(self.distance_to_squared(rhs))
    }

    /// The kinetic momentum of the particle.
    pub fn kinetic_moment(&self) -> (r: Vector3)
        ensures
            r == self.momentum,
    {
        self.momentum
    }
}

/// A system of particles.
#[derive(Debug, Clone, PartialEq)]
pub struct System {
    /// The particles in the system
    pub particles: Vec<Particle>,
    /// The number of local particles (kept for domain decomposition,
    /// unused by the core)
    pub nb_particles_local: usize,
}

/// A position whose three coordinates are finite.
pub open spec fn finite_point(p: Point3) -> bool {
    is_finite_bits(p.x) && is_finite_bits(p.y) && is_finite_bits(p.z)
}

/// The validated-construction condition: at least two particles, a local
/// count in range, every coordinate finite.
pub open spec fn load_is_valid(points: Seq<Point3>, nb_local: int) -> bool {
    points.len() >= 2 && nb_local < points.len() && (forall|k: int|
        0 <= k < points.len() ==> finite_point(#[trigger] points[k]))
}

/// The Lennard-Jones contribution of a pair at squared distance `d2`:
/// (R*²/d2) cubed gives the sixth power, squared the twelfth, and the term
/// is the twelfth minus twice the sixth.
pub open spec fn lj_term(d2: u64) -> u64 {
    let p2 = div_bits(mul_bits(R_STAR, R_STAR), d2);
    let p6 = mul_bits(mul_bits(p2, p2), p2);
    let p12 = mul_bits(p6, p6);
    sub_bits(p12, mul_bits(SC_TWO, p6))
}

/// The reference Lennard-Jones term, phrased over the plain distance:
/// q = R*/r is squared, the square cubed, the sixth power squared, and the
/// energy scale multiplies the difference directly.
pub open spec fn lj_term_reference(r_ij: u64) -> u64 {
    let q = div_bits(R_STAR, r_ij);
    let q2 = mul_bits(q, q);
    let q6 = mul_bits(mul_bits(q2, q2), q2);
    let q12 = mul_bits(q6, q6);
    mul_bits(EPSILON_STAR, sub_bits(q12, mul_bits(SC_TWO, q6)))
}

/// The accumulator after row `i` has processed its first `j` columns of
/// the non-periodic energy sum; the diagonal is skipped.
pub open spec fn energy_row(ps: Seq<Particle>, i: int, j: int, acc: u64) -> u64
    decreases j,
{
    if j <= 0 {
        acc
    } else {
        let prev = energy_row(ps, i, j - 1, acc);
        if i == j - 1 {
            prev
        } else {
            add_bits(
                prev,
                lj_term(spec_distance_squared(ps[i].coordinates, ps[j - 1].coordinates)),
            )
        }
    }
}

/// The accumulator after the first `i` rows of the non-periodic energy
/// sum.
pub open spec fn energy_rows(ps: Seq<Particle>, i: int, acc: u64) -> u64
    decreases i,
{
    if i <= 0 {
        acc
    } else {
        energy_row(ps, i - 1, ps.len() as int, energy_rows(ps, i - 1, acc))
    }
}

/// As `energy_row`, for the reference engine over plain distances.
pub open spec fn energy_row_reference(ps: Seq<Particle>, i: int, j: int, acc: u64) -> u64
    decreases j,
{
    if j <= 0 {
        acc
    } else {
        let prev = energy_row_reference(ps, i, j - 1, acc);
        if i == j - 1 {
            prev
        } else {
            add_bits(
                prev,
                lj_term_reference(
                    sqrt_bits(spec_distance_squared(ps[i].coordinates, ps[j - 1].coordinates)),
                ),
            )
        }
    }
}

/// As `energy_rows`, for the reference engine.
pub open spec fn energy_rows_reference(ps: Seq<Particle>, i: int, acc: u64) -> u64
    decreases i,
{
    if i <= 0 {
        acc
    } else {
        energy_row_reference(ps, i - 1, ps.len() as int, energy_rows_reference(ps, i - 1, acc))
    }
}

/// The force applied to a particle at `pi` by one at `pj`, without cutoff:
/// −48·ε*·((R*/r)¹⁴ − (R*/r)⁸)·δ, the even powers built from R*²/r².
pub open spec fn force_pair(pi: Point3, pj: Point3) -> Vector3 {
    let d2 = spec_distance_squared(pi, pj);
    let p2 = div_bits(mul_bits(R_STAR, R_STAR), d2);
    let p6 = mul_bits(mul_bits(p2, p2), p2);
    let p12 = mul_bits(p6, p6);
    let p8 = mul_bits(p6, p2);
    let p14 = mul_bits(p12, p2);
    let coef = mul_bits(mul_bits(SC_MINUS_48, EPSILON_STAR), sub_bits(p14, p8));
    spec_scaled(spec_delta(pi, pj), coef)
}

/// The running total of `sum_of_forces` after row `i` has processed `j`
/// entries.
pub open spec fn sum_forces_row(fs: Seq<Seq<Vector3>>, i: int, j: int, acc: Vector3) -> Vector3
    decreases j,
{
    if j <= 0 {
        acc
    } else {
        spec_plus(sum_forces_row(fs, i, j - 1, acc), fs[i][j - 1])
    }
}

/// The running total of `sum_of_forces` after the first `i` rows.
pub open spec fn sum_forces_rows(fs: Seq<Seq<Vector3>>, i: int, acc: Vector3) -> Vector3
    decreases i,
{
    if i <= 0 {
        acc
    } else {
        sum_forces_row(fs, i - 1, fs.len() as int, sum_forces_rows(fs, i - 1, acc))
    }
}

impl System {
    /// Whether the auxiliary local count is in range; every particle index
    /// below it must exist.
    pub open spec fn wf(&self) -> bool {
        self.nb_particles_local < self.particles@.len()
    }

    /// A system made of the given particles.
    pub fn new(particles: Vec<Particle>, nb_particles_local: usize) -> (r: Self)
        requires
            nb_particles_local < particles@.len(),
        ensures
            r.particles == particles,
            r.nb_particles_local == nb_particles_local,
            r.wf(),
    {
        System { particles, nb_particles_local }
    }

    /// A system loaded from an ordered list of positions, with every
    /// momentum zero. Fails with `ConfigError` exactly when there are
    /// fewer than two positions, the local count is out of range, or some
    /// coordinate is not finite.
    pub fn load(points: &Vec<Point3>, nb_particles_local: usize) -> (r: Result<Self, SimError>)
        ensures
            r.is_ok() <==> load_is_valid(points@, nb_particles_local as int),
            r.is_ok() ==> {
                let sys = r.unwrap();
                &&& sys.particles@.len() == points@.len()
                &&& forall|k: int|
                    0 <= k < points@.len() ==> #[trigger] sys.particles@[k] == (Particle {
                        coordinates: points@[k],
                        momentum: Vector3 { x: SC_ZERO, y: SC_ZERO, z: SC_ZERO },
                    })
                &&& sys.nb_particles_local == nb_particles_local
                &&& sys.wf()
            },
            r.is_err() ==> r == Err::<System, SimError>(SimError::ConfigError),
    {
        if points.len() < 2 || nb_particles_local >= points.len() {
            return Err(SimError::ConfigError);
        }
        let mut particles: Vec<Particle> = Vec::new();
        let mut k: usize = 0;
        while k < points.len()
            invariant
                k <= points@.len(),
                particles@.len() == k as int,
                forall|m: int|
                    0 <= m < k as int ==> #[trigger] particles@[m] == (Particle {
                        coordinates: points@[m],
                        momentum: Vector3 { x: SC_ZERO, y: SC_ZERO, z: SC_ZERO },
                    }),
                forall|m: int| 0 <= m < k as int ==> finite_point(#[trigger] points@[m]),
            decreases points@.len() - k,
        {
            let p = points[k];
            if !(crate::scalar::finite_scalar(p.x) && crate::scalar::finite_scalar(p.y)
                && crate::scalar::finite_scalar(p.z)) {
                return Err(SimError::ConfigError);
            }
            particles.push(Particle::new(p));
            k = k + 1;
        }
        Ok(System { particles, nb_particles_local })
    }

    /// Get the total number of particles in the system.
    pub fn nb_particles_total(&self) -> (r: usize)
        ensures
            r == self.particles@.len(),
    {
        self.particles.len()
    }

    /// Get the local number of particles in the system.
    pub fn nb_particles_local(&self) -> (r: usize)
        ensures
            r == self.nb_particles_local,
    {
        self.nb_particles_local
    }

    /// The position of the particle at the given index.
    pub fn position(&self, i: usize) -> (r: Point3)
        requires
            i < self.particles@.len(),
        ensures
            r == self.particles@[i as int].coordinates,
    {
        self.particles[i].coordinates
    }

    /// The momentum of the particle at the given index.
    pub fn momentum(&self, i: usize) -> (r: Vector3)
        requires
            i < self.particles@.len(),
        ensures
            r == self.particles@[i as int].momentum,
    {
        self.particles[i].momentum
    }

    /// Replace the position of the particle at the given index.
    pub fn set_position(&mut self, i: usize, p: Point3)
        requires
            i < old(self).particles@.len(),
        ensures
            final(self).particles@ == old(self).particles@.update(
                i as int,
                Particle {
                    coordinates: p,
                    momentum: old(self).particles@[i as int].momentum,
                },
            ),
            final(self).nb_particles_local == old(self).nb_particles_local,
    {
        let momentum = self.particles[i].momentum;
        self.particles.set(i, Particle { coordinates: p, momentum });
    }

    /// Replace the momentum of the particle at the given index.
    pub fn set_momentum(&mut self, i: usize, d: Vector3)
        requires
            i < old(self).particles@.len(),
        ensures
            final(self).particles@ == old(self).particles@.update(
                i as int,
                Particle {
                    coordinates: old(self).particles@[i as int].coordinates,
                    momentum: d,
                },
            ),
            final(self).nb_particles_local == old(self).nb_particles_local,
    {
        let coordinates = self.particles[i].coordinates;
        self.particles.set(i, Particle { coordinates, momentum: d });
    }

    /// Get a reference to the particles in the system.
    pub fn particles(&self) -> (r: &Vec<Particle>)
        ensures
            r == &self.particles,
    {
        &self.particles
    }

    /// Compute the distance between two particles of the system, squared.
    pub fn distance_between_squared(&self, i: usize, j: usize) -> (r: u64)
        requires
            i < self.particles@.len(),
            j < self.particles@.len(),
        ensures
            r == spec_distance_squared(
                self.particles@[i as int].coordinates,
                self.particles@[j as int].coordinates,
            ),
    {
        self.particles[i].distance_to_squared(&self.particles[j])
    }

    /// Reference (unoptimized) method for computing the microscopic energy
    /// in the system, according to the Lennard-Jones potential: every
    /// ordered pair off the diagonal contributes through the plain
    /// distance, and the total is doubled at the end.
    pub fn microscopic_energy_reference(&self) -> (r: u64)
        ensures
            r == mul_bits(
                SC_TWO,
                energy_rows_reference(self.particles@, self.particles@.len() as int, SC_ZERO),
            ),
    {
        let n = self.nb_particles_total();
        let mut total: u64 = SC_ZERO;
        let mut i: usize = 0;
        while i < n
            invariant
                n == self.particles@.len(),
                i <= n,
                total == energy_rows_reference(self.particles@, i as int, SC_ZERO),
            decreases n - i,
        {
            let mut j: usize = 0;
            while j < n
                invariant
                    n == self.particles@.len(),
                    i < n,
                    j <= n,
                    total == energy_row_reference(
                        self.particles@,
                        i as int,
                        j as int,
                        energy_rows_reference(self.particles@, i as int, SC_ZERO),
                    ),
                decreases n - j,
            {
                if i != j {
                    let r_ij = sqrt_scalar(self.distance_between_squared(i, j));
                    let q = div_scalar(R_STAR, r_ij);
                    let q2 = mul_scalar(q, q);
                    let q6 = mul_scalar(mul_scalar(q2, q2), q2);
                    let q12 = mul_scalar(q6, q6);
                    let u_ij = mul_scalar(EPSILON_STAR, sub_scalar(q12, mul_scalar(SC_TWO, q6)));
                    total = add_scalar(total, u_ij);
                }
                j = j + 1;
            }
            i = i + 1;
        }
        mul_scalar(SC_TWO, total)
    }

    /// Compute the microscopic energy in the system, according to the
    /// Lennard-Jones potential: every ordered pair off the diagonal
    /// contributes u(r²), and the total is scaled by 2·ε*, which
    /// compensates the Lennard-Jones prefactor 4 against the double count
    /// of unordered pairs. With a single particle there is no valid pair
    /// and the energy is exactly the positive zero.
    pub fn microscopic_energy(&self) -> (r: u64)
        ensures
            r == mul_bits(
                TWO_EPSILON_STAR,
                energy_rows(self.particles@, self.particles@.len() as int, SC_ZERO),
            ),
            self.particles@.len() == 1 ==> r == SC_ZERO,
    {
        let n = self.nb_particles_total();
        let mut total: u64 = SC_ZERO;
        let mut i: usize = 0;
        while i < n
            invariant
                n == self.particles@.len(),
                i <= n,
                total == energy_rows(self.particles@, i as int, SC_ZERO),
            decreases n - i,
        {
            let mut j: usize = 0;
            while j < n
                invariant
                    n == self.particles@.len(),
                    i < n,
                    j <= n,
                    total == energy_row(
                        self.particles@,
                        i as int,
                        j as int,
                        energy_rows(self.particles@, i as int, SC_ZERO),
                    ),
                decreases n - j,
            {
                if i != j {
                    let p2 = div_scalar(
                        mul_scalar(R_STAR, R_STAR),
                        self.distance_between_squared(i, j),
                    );
                    let p6 = mul_scalar(mul_scalar(p2, p2), p2);
                    let p12 = mul_scalar(p6, p6);
                    let u_ij = sub_scalar(p12, mul_scalar(SC_TWO, p6));
                    total = add_scalar(total, u_ij);
                }
                j = j + 1;
            }
            i = i + 1;
        }
        proof {
            if self.particles@.len() == 1 {
                assert(energy_rows(self.particles@, 0, SC_ZERO) == SC_ZERO);
                assert(energy_row(self.particles@, 0, 0, SC_ZERO) == SC_ZERO);
                assert(energy_row(self.particles@, 0, 1, SC_ZERO) == SC_ZERO);
                assert(energy_rows(self.particles@, 1, SC_ZERO) == SC_ZERO);
            }
        }
        mul_scalar(TWO_EPSILON_STAR, total)
    }

    /// Compute the forces between pairs of particles: entry (i, j) is the
    /// force that particle j applies to particle i, zero on the diagonal.
    pub fn compute_forces(&self) -> (r: Vec<Vec<Vector3>>)
        ensures
            r@.len() == self.particles@.len(),
            forall|i: int|
                0 <= i < r@.len() ==> #[trigger] r@[i]@.len() == self.particles@.len(),
            forall|i: int, j: int|
                0 <= i < r@.len() && 0 <= j < r@.len() ==> #[trigger] r@[i]@[j] == (if i == j {
                    Vector3 { x: SC_ZERO, y: SC_ZERO, z: SC_ZERO }
                } else {
                    force_pair(
                        self.particles@[i].coordinates,
                        self.particles@[j].coordinates,
                    )
                }),
    {
        let n = self.nb_particles_total();
        let mut forces: Vec<Vec<Vector3>> = Vec::new();
        let mut i: usize = 0;
        while i < n
            invariant
                n == self.particles@.len(),
                i <= n,
                forces@.len() == i as int,
                forall|a: int| 0 <= a < i as int ==> #[trigger] forces@[a]@.len() == n as int,
                forall|a: int, b: int|
                    0 <= a < i as int && 0 <= b < n as int ==> #[trigger] forces@[a]@[b] == (
                    if a == b {
                        Vector3 { x: SC_ZERO, y: SC_ZERO, z: SC_ZERO }
                    } else {
                        force_pair(
                            self.particles@[a].coordinates,
                            self.particles@[b].coordinates,
                        )
                    }),
            decreases n - i,
        {
            let mut row: Vec<Vector3> = Vec::new();
            let mut j: usize = 0;
            while j < n
                invariant
                    n == self.particles@.len(),
                    i < n,
                    j <= n,
                    row@.len() == j as int,
                    forall|b: int|
                        0 <= b < j as int ==> #[trigger] row@[b] == (if i as int == b {
                            Vector3 { x: SC_ZERO, y: SC_ZERO, z: SC_ZERO }
                        } else {
                            force_pair(
                                self.particles@[i as int].coordinates,
                                self.particles@[b].coordinates,
                            )
                        }),
                decreases n - j,
            {
                if i == j {
                    row.push(Vector3::zero());
                } else {
                    let d2 = self.distance_between_squared(i, j);
                    let p2 = div_scalar(mul_scalar(R_STAR, R_STAR), d2);
                    let p6 = mul_scalar(mul_scalar(p2, p2), p2);
                    let p12 = mul_scalar(p6, p6);
                    let p8 = mul_scalar(p6, p2);
                    let p14 = mul_scalar(p12, p2);
                    let coef = mul_scalar(
                        mul_scalar(SC_MINUS_48, EPSILON_STAR),
                        sub_scalar(p14, p8),
                    );
                    let delta = self.particles[i].coordinates.delta(
                        &self.particles[j].coordinates,
                    );
                    row.push(delta.scaled(coef));
                }
                j = j + 1;
            }
            forces.push(row);
            i = i + 1;
        }
        forces
    }

    /// Compute the sum of all the forces between pairs of particles in the
    /// system, accumulated row by row.
    pub fn sum_of_forces(forces: &Vec<Vec<Vector3>>) -> (r: Vector3)
        requires
            forall|i: int|
                0 <= i < forces@.len() ==> #[trigger] forces@[i]@.len() == forces@.len(),
        ensures
            r == sum_forces_rows(
                forces@.map_values(|row: Vec<Vector3>| row@),
                forces@.len() as int,
                Vector3 { x: SC_ZERO, y: SC_ZERO, z: SC_ZERO },
            ),
    {
        let ghost fs = forces@.map_values(|row: Vec<Vector3>| row@);
        let n = forces.len();
        let mut acc = Vector3::zero();
        let mut i: usize = 0;
        while i < n
            invariant
                n == forces@.len(),
                fs == forces@.map_values(|row: Vec<Vector3>| row@),
                forall|a: int| 0 <= a < n as int ==> #[trigger] forces@[a]@.len() == n as int,
                i <= n,
                acc == sum_forces_rows(fs, i as int, Vector3 { x: SC_ZERO, y: SC_ZERO, z: SC_ZERO }),
            decreases n - i,
        {
            let mut j: usize = 0;
            while j < n
                invariant
                    n == forces@.len(),
                    fs == forces@.map_values(|row: Vec<Vector3>| row@),
                    forall|a: int| 0 <= a < n as int ==> #[trigger] forces@[a]@.len() == n as int,
                    i < n,
                    j <= n,
                    acc == sum_forces_row(
                        fs,
                        i as int,
                        j as int,
                        sum_forces_rows(fs, i as int, Vector3 { x: SC_ZERO, y: SC_ZERO, z: SC_ZERO }),
                    ),
                decreases n - j,
            {
                acc = acc.plus(&forces[i][j]);
                j = j + 1;
            }
            i = i + 1;
        }
        acc
    }
}

} // verus!
