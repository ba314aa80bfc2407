//! Periodic boundary conditions: the image enumerator and the periodic
//! pair-interaction engine.

use vstd::prelude::*;

use crate::algebra::{spec_delta, spec_distance_squared, spec_scaled, spec_translate, Vector3};
use crate::parameters::{
    EPSILON_STAR, R_STAR, SC_MINUS_48, SC_NEG_ONE, SC_ONE, SC_TWO, SC_ZERO, TWO_EPSILON_STAR,
};
use crate::scalar::{
    add_bits, add_scalar, div_bits, div_scalar, eq_bits, eq_scalar, lt_bits, lt_scalar, mul_bits,
    mul_scalar, sub_bits, sub_scalar,
};
use crate::system::{lj_term, Particle, System};

verus! {

/// The coefficient bits of the image component at offset `c` of {0, 1, 2},
/// standing for the factors −1, 0 and +1.
pub open spec fn image_coefficient(c: int) -> u64 {
    if c == 0 {
        SC_NEG_ONE
    } else if c == 1 {
        SC_ZERO
    } else {
        SC_ONE
    }
}

/// The 27 image translations of a cubic box of side `l`, ordered with the
/// x factor outermost: entry n carries the factors (n/9, (n/3)%3, n%3),
/// each mapped through {−1, 0, +1} and multiplied by the box side.
pub open spec fn spec_translations(l: u64) -> Seq<Vector3> {
    Seq::new(
        27,
        |n: int|
            Vector3 {
                x: mul_bits(image_coefficient(n / 9), l),
                y: mul_bits(image_coefficient((n / 3) % 3), l),
                z: mul_bits(image_coefficient(n % 3), l),
            },
    )
}

/// Computes the neighbors in 3D of the simulation box.
pub fn neighboring_3d_translations(box_side: u64) -> (r: Vec<Vector3>)
    ensures
        r@ == spec_translations(box_side),
        r@.len() == 27,
{
    let mut r: Vec<Vector3> = Vec::new();
    let mut n: usize = 0;
    while n < 27
        invariant
            n <= 27,
            r@.len() == n as int,
            forall|m: int| 0 <= m < n as int ==> r@[m] == spec_translations(box_side)[m],
        decreases 27 - n,
    {
        let cx: usize = n / 9;
        let cy: usize = (n / 3) % 3;
        let cz: usize = n % 3;
        let fx: u64 = if cx == 0 {
            SC_NEG_ONE
        } else if cx == 1 {
            SC_ZERO
        } else {
            SC_ONE
        };
        let fy: u64 = if cy == 0 {
            SC_NEG_ONE
        } else if cy == 1 {
            SC_ZERO
        } else {
            SC_ONE
        };
        let fz: u64 = if cz == 0 {
            SC_NEG_ONE
        } else if cz == 1 {
            SC_ZERO
        } else {
            SC_ONE
        };
        let v = Vector3 {
            x: mul_scalar(fx, box_side),
            y: mul_scalar(fy, box_side),
            z: mul_scalar(fz, box_side),
        };
        r.push(v);
        n = n + 1;
    }
    proof {
        assert(r@ =~= spec_translations(box_side));
    }
    r
}

/// Whether a translation is the zero vector, by the IEEE comparison, so a
/// negative zero component counts as zero.
pub open spec fn is_zero_trans(t: Vector3) -> bool {
    eq_bits(t.x, SC_ZERO) && eq_bits(t.y, SC_ZERO) && eq_bits(t.z, SC_ZERO)
}

/// One ordered pair of the periodic energy sum: the state carries the
/// accumulated energy and the number of zero-distance pairs, which are
/// skipped and only counted. A pair strictly beyond the cutoff is skipped;
/// one exactly at the cutoff contributes.
pub open spec fn pe_step(
    ps: Seq<Particle>,
    t: Vector3,
    rc2: u64,
    i: int,
    j: int,
    st: (u64, nat),
) -> (u64, nat) {
    if i == j && is_zero_trans(t) {
        st
    } else {
        let d2 = spec_distance_squared(ps[i].coordinates, spec_translate(ps[j].coordinates, t));
        if eq_bits(d2, SC_ZERO) {
            (st.0, st.1 + 1)
        } else if lt_bits(rc2, d2) {
            st
        } else {
            (add_bits(st.0, lj_term(d2)), st.1)
        }
    }
}

/// The state after row `i` of image `t` has processed its first `j`
/// columns.
pub open spec fn pe_row(
    ps: Seq<Particle>,
    t: Vector3,
    rc2: u64,
    i: int,
    j: int,
    st: (u64, nat),
) -> (u64, nat)
    decreases j,
{
    if j <= 0 {
        st
    } else {
        pe_step(ps, t, rc2, i, j - 1, pe_row(ps, t, rc2, i, j - 1, st))
    }
}

/// The state after the first `i` rows of image `t`.
pub open spec fn pe_plane(ps: Seq<Particle>, t: Vector3, rc2: u64, i: int, st: (u64, nat)) -> (
    u64,
    nat,
)
    decreases i,
{
    if i <= 0 {
        st
    } else {
        pe_row(ps, t, rc2, i - 1, ps.len() as int, pe_plane(ps, t, rc2, i - 1, st))
    }
}

/// The state after the first `s` images.
pub open spec fn pe_all(
    ps: Seq<Particle>,
    ts: Seq<Vector3>,
    rc2: u64,
    s: int,
    st: (u64, nat),
) -> (u64, nat)
    decreases s,
{
    if s <= 0 {
        st
    } else {
        pe_plane(ps, ts[s - 1], rc2, ps.len() as int, pe_all(ps, ts, rc2, s - 1, st))
    }
}

proof fn lemma_pe_row_count(ps: Seq<Particle>, t: Vector3, rc2: u64, i: int, j: int, st: (u64, nat))
    requires
        j >= 0,
    ensures
        pe_row(ps, t, rc2, i, j, st).1 <= st.1 + j,
    decreases j,
{
    if j > 0 {
        lemma_pe_row_count(ps, t, rc2, i, j - 1, st);
    }
}

proof fn lemma_pe_plane_count(ps: Seq<Particle>, t: Vector3, rc2: u64, i: int, st: (u64, nat))
    requires
        i >= 0,
    ensures
        pe_plane(ps, t, rc2, i, st).1 <= st.1 + i * ps.len(),
    decreases i,
{
    if i > 0 {
        lemma_pe_plane_count(ps, t, rc2, i - 1, st);
        lemma_pe_row_count(ps, t, rc2, i - 1, ps.len() as int, pe_plane(ps, t, rc2, i - 1, st));
        assert((i - 1) * ps.len() + ps.len() == i * ps.len()) by (nonlinear_arith);
    }
}

proof fn lemma_pe_all_count(ps: Seq<Particle>, ts: Seq<Vector3>, rc2: u64, s: int, st: (u64, nat))
    requires
        s >= 0,
    ensures
        pe_all(ps, ts, rc2, s, st).1 <= st.1 + s * (ps.len() * ps.len()),
    decreases s,
{
    if s > 0 {
        lemma_pe_all_count(ps, ts, rc2, s - 1, st);
        lemma_pe_plane_count(ps, ts[s - 1], rc2, ps.len() as int, pe_all(ps, ts, rc2, s - 1, st));
        assert((s - 1) * (ps.len() * ps.len()) + ps.len() * ps.len() == s * (ps.len()
            * ps.len())) by (nonlinear_arith);
    }
}

/// The force applied to particle `i` by the copy of particle `j`
/// translated by `t`: zero for the self pair at the zero image, for a
/// zero-distance pair and beyond the cutoff, else
/// −48·ε*·((R*/r)¹⁴ − (R*/r)⁸)·δ with the even powers built from R*²/r².
pub open spec fn force_entry(ps: Seq<Particle>, t: Vector3, rc2: u64, i: int, j: int) -> Vector3 {
    if i == j && is_zero_trans(t) {
        Vector3 { x: SC_ZERO, y: SC_ZERO, z: SC_ZERO }
    } else {
        let pj = spec_translate(ps[j].coordinates, t);
        let d2 = spec_distance_squared(ps[i].coordinates, pj);
        if eq_bits(d2, SC_ZERO) || lt_bits(rc2, d2) {
            Vector3 { x: SC_ZERO, y: SC_ZERO, z: SC_ZERO }
        } else {
            let p2 = div_bits(mul_bits(R_STAR, R_STAR), d2);
            let p6 = mul_bits(mul_bits(p2, p2), p2);
            let p12 = mul_bits(p6, p6);
            let p8 = mul_bits(p6, p2);
            let p14 = mul_bits(p12, p2);
            let coef = mul_bits(mul_bits(SC_MINUS_48, EPSILON_STAR), sub_bits(p14, p8));
            spec_scaled(spec_delta(ps[i].coordinates, pj), coef)
        }
    }
}

/// The self pair at the zero image never contributes a force: whenever
/// the translation is the zero vector, the diagonal entry of the force
/// tensor is exactly the zero displacement.
pub proof fn lemma_zero_image_self_force(
    ps: Seq<Particle>,
    t: Vector3,
    rc2: u64,
    i: int,
)
    requires
        is_zero_trans(t),
    ensures
        force_entry(ps, t, rc2, i, i) == (Vector3 { x: SC_ZERO, y: SC_ZERO, z: SC_ZERO }),
{
}

impl System {
    /// Compute the microscopic energy in the system, according to the
    /// Lennard-Jones potential, with periodic conditions: every image,
    /// then every ordered pair, the self pair at the zero image excluded
    /// up front. The result carries the energy, scaled by 2·ε* at the end,
    /// and the number of zero-distance pairs that were skipped.
    pub fn microscopic_energy_periodic(&self, translations: &Vec<Vector3>, radius_cut: u64) -> (r:
        (u64, usize))
        requires
            translations@.len() * (self.particles@.len() * self.particles@.len()) <= usize::MAX,
        ensures
            ({
                let st = pe_all(
                    self.particles@,
                    translations@,
                    mul_bits(radius_cut, radius_cut),
                    translations@.len() as int,
                    (SC_ZERO, 0nat),
                );
                r.0 == mul_bits(TWO_EPSILON_STAR, st.0) && r.1 as nat == st.1
            }),
    {
        let ghost ps = self.particles@;
        let ghost ts = translations@;
        let rc2 = mul_scalar(radius_cut, radius_cut);
        let n = self.nb_particles_total();
        let nt = translations.len();
        let mut total: u64 = SC_ZERO;
        let mut zeros: usize = 0;
        let mut s: usize = 0;
        while s < nt
            invariant
                ps == self.particles@,
                ts == translations@,
                n == ps.len(),
                nt == ts.len(),
                rc2 == mul_bits(radius_cut, radius_cut),
                nt * (n * n) <= usize::MAX,
                s <= nt,
                (total, zeros as nat) == pe_all(ps, ts, rc2, s as int, (SC_ZERO, 0nat)),
            decreases nt - s,
        {
            let t = translations[s];
            let mut i: usize = 0;
            while i < n
                invariant
                    ps == self.particles@,
                    ts == translations@,
                    n == ps.len(),
                    nt == ts.len(),
                    rc2 == mul_bits(radius_cut, radius_cut),
                    nt * (n * n) <= usize::MAX,
                    s < nt,
                    t == ts[s as int],
                    i <= n,
                    (total, zeros as nat) == pe_plane(
                        ps,
                        t,
                        rc2,
                        i as int,
                        pe_all(ps, ts, rc2, s as int, (SC_ZERO, 0nat)),
                    ),
                decreases n - i,
            {
                let mut j: usize = 0;
                while j < n
                    invariant
                        ps == self.particles@,
                        ts == translations@,
                        n == ps.len(),
                        nt == ts.len(),
                        rc2 == mul_bits(radius_cut, radius_cut),
                        nt * (n * n) <= usize::MAX,
                        s < nt,
                        t == ts[s as int],
                        i < n,
                        j <= n,
                        (total, zeros as nat) == pe_row(
                            ps,
                            t,
                            rc2,
                            i as int,
                            j as int,
                            pe_plane(ps, t, rc2, i as int, pe_all(ps, ts, rc2, s as int, (SC_ZERO, 0nat))),
                        ),
                    decreases n - j,
                {
                    let same = i == j && eq_scalar(t.x, SC_ZERO) && eq_scalar(t.y, SC_ZERO)
                        && eq_scalar(t.z, SC_ZERO);
                    if !same {
                        let pj = self.particles[j].coordinates.translate(&t);
                        let d2 = self.particles[i].coordinates.distance_to_squared(&pj);
                        if eq_scalar(d2, SC_ZERO) {
                            proof {
                                lemma_pe_all_count(ps, ts, rc2, s as int, (SC_ZERO, 0nat));
                                lemma_pe_plane_count(
                                    ps,
                                    t,
                                    rc2,
                                    i as int,
                                    pe_all(ps, ts, rc2, s as int, (SC_ZERO, 0nat)),
                                );
                                lemma_pe_row_count(
                                    ps,
                                    t,
                                    rc2,
                                    i as int,
                                    j as int,
                                    pe_plane(
                                        ps,
                                        t,
                                        rc2,
                                        i as int,
                                        pe_all(ps, ts, rc2, s as int, (SC_ZERO, 0nat)),
                                    ),
                                );
                                assert((s as int * (n as int * n as int) + i as int * n as int
                                    + j as int) < (nt as int) * ((n as int) * (n as int)))
                                    by (nonlinear_arith)
                                    requires
                                        0 <= (s as int) && (s as int) < (nt as int),
                                        0 <= (i as int) && (i as int) < (n as int),
                                        0 <= (j as int) && (j as int) < (n as int),
                                ;
                                assert(i as int * n as int <= (n as int) * (n as int))
                                    by (nonlinear_arith)
                                    requires
                                        0 <= (i as int) && (i as int) < (n as int),
                                        (n as int) >= 0,
                                ;
                            }
                            zeros = zeros + 1;
                        } else if lt_scalar(rc2, d2) {
                            // beyond the cutoff: skipped
                        } else {
                            let p2 = div_scalar(mul_scalar(R_STAR, R_STAR), d2);
                            let p6 = mul_scalar(mul_scalar(p2, p2), p2);
                            let p12 = mul_scalar(p6, p6);
                            let u_ij = sub_scalar(p12, mul_scalar(SC_TWO, p6));
                            total = add_scalar(total, u_ij);
                        }
                    }
                    j = j + 1;
                }
                i = i + 1;
            }
            s = s + 1;
        }
        (mul_scalar(TWO_EPSILON_STAR, total), zeros)
    }

    /// Compute the force tensor with periodic conditions: entry (s, i, j)
    /// is the force that the image-s translated copy of particle j applies
    /// to particle i. At the zero image the diagonal is exactly zero.
    pub fn compute_forces_periodic(&self, translations: &Vec<Vector3>, radius_cut: u64) -> (r: Vec<
        Vec<Vec<Vector3>>,
    >)
        ensures
            r@.len() == translations@.len(),
            forall|s: int|
                0 <= s < r@.len() ==> #[trigger] r@[s]@.len() == self.particles@.len(),
            forall|s: int, i: int|
                0 <= s < r@.len() && 0 <= i < self.particles@.len() ==> #[trigger] r@[s]@[i]@.len()
                    == self.particles@.len(),
            forall|s: int, i: int, j: int|
                0 <= s < r@.len() && 0 <= i < self.particles@.len() && 0 <= j
                    < self.particles@.len() ==> #[trigger] r@[s]@[i]@[j] == force_entry(
                    self.particles@,
                    translations@[s],
                    mul_bits(radius_cut, radius_cut),
                    i,
                    j,
                ),
            forall|s: int, i: int|
                0 <= s < r@.len() && 0 <= i < self.particles@.len() && is_zero_trans(
                    translations@[s],
                ) ==> #[trigger] r@[s]@[i]@[i] == (Vector3 { x: SC_ZERO, y: SC_ZERO, z: SC_ZERO }),
    {
        let ghost ps = self.particles@;
        let ghost ts = translations@;
        let rc2 = mul_scalar(radius_cut, radius_cut);
        let n = self.nb_particles_total();
        let nt = translations.len();
        let mut out: Vec<Vec<Vec<Vector3>>> = Vec::new();
        let mut s: usize = 0;
        while s < nt
            invariant
                ps == self.particles@,
                ts == translations@,
                n == ps.len(),
                nt == ts.len(),
                rc2 == mul_bits(radius_cut, radius_cut),
                s <= nt,
                out@.len() == s as int,
                forall|a: int| 0 <= a < s as int ==> #[trigger] out@[a]@.len() == n as int,
                forall|a: int, b: int|
                    0 <= a < s as int && 0 <= b < n as int ==> #[trigger] out@[a]@[b]@.len()
                        == n as int,
                forall|a: int, b: int, c: int|
                    0 <= a < s as int && 0 <= b < n as int && 0 <= c < n as int
                        ==> #[trigger] out@[a]@[b]@[c] == force_entry(ps, ts[a], rc2, b, c),
            decreases nt - s,
        {
            let t = translations[s];
            let mut plane: Vec<Vec<Vector3>> = Vec::new();
            let mut i: usize = 0;
            while i < n
                invariant
                    ps == self.particles@,
                    n == ps.len(),
                    rc2 == mul_bits(radius_cut, radius_cut),
                    t == ts[s as int],
                    s < nt,
                    nt == ts.len(),
                    i <= n,
                    plane@.len() == i as int,
                    forall|b: int| 0 <= b < i as int ==> #[trigger] plane@[b]@.len() == n as int,
                    forall|b: int, c: int|
                        0 <= b < i as int && 0 <= c < n as int ==> #[trigger] plane@[b]@[c]
                            == force_entry(ps, ts[s as int], rc2, b, c),
                decreases n - i,
            {
                let mut row: Vec<Vector3> = Vec::new();
                let mut j: usize = 0;
                while j < n
                    invariant
                        ps == self.particles@,
                        n == ps.len(),
                        rc2 == mul_bits(radius_cut, radius_cut),
                        t == ts[s as int],
                        s < nt,
                        nt == ts.len(),
                        i < n,
                        j <= n,
                        row@.len() == j as int,
                        forall|c: int|
                            0 <= c < j as int ==> #[trigger] row@[c] == force_entry(
                                ps,
                                ts[s as int],
                                rc2,
                                i as int,
                                c,
                            ),
                    decreases n - j,
                {
                    let same = i == j && eq_scalar(t.x, SC_ZERO) && eq_scalar(t.y, SC_ZERO)
                        && eq_scalar(t.z, SC_ZERO);
                    if same {
                        row.push(Vector3::zero());
                    } else {
                        let pj = self.particles[j].coordinates.translate(&t);
                        let d2 = self.particles[i].coordinates.distance_to_squared(&pj);
                        if eq_scalar(d2, SC_ZERO) || lt_scalar(rc2, d2) {
                            row.push(Vector3::zero());
                        } else {
                            let p2 = div_scalar(mul_scalar(R_STAR, R_STAR), d2);
                            let p6 = mul_scalar(mul_scalar(p2, p2), p2);
                            let p12 = mul_scalar(p6, p6);
                            let p8 = mul_scalar(p6, p2);
                            let p14 = mul_scalar(p12, p2);
                            let coef = mul_scalar(
                                mul_scalar(SC_MINUS_48, EPSILON_STAR),
                                sub_scalar(p14, p8),
                            );
                            let delta = self.particles[i].coordinates.delta(&pj);
                            row.push(delta.scaled(coef));
                        }
                    }
                    j = j + 1;
                }
                plane.push(row);
                i = i + 1;
            }
            out.push(plane);
            s = s + 1;
        }
        out
    }
}

} // verus!
