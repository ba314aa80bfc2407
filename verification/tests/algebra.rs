use mlom::algebra::{Point3, Vector3};
use mlom::SimError;

fn b(x: f64) -> u64 {
    x.to_bits()
}

fn f(u: u64) -> f64 {
    f64::from_bits(u)
}

#[test]
fn point_distance_to_origin() {
    let o = Point3::origin();
    assert_eq!(f(o.x()), 0.0);
    assert_eq!(f(o.y()), 0.0);
    assert_eq!(f(o.z()), 0.0);

    let a = Point3::from(b(1.0), b(2.0), b(2.0));
    // difference = (1,2,2) -> squared = 1+4+4 = 9 -> distance = 3
    let dist_sq = a.distance_to_squared(&o);
    let dist = a.distance_to(&o);
    let eps = 1e-12;
    assert!((f(dist_sq) - 9.0).abs() < eps);
    assert!((f(dist) - 3.0).abs() < eps);
}

#[test]
fn point_distance() {
    let p = Point3::from(b(1.0), b(2.0), b(3.0));
    let q = Point3::from(b(4.0), b(6.0), b(3.0));
    // difference = (3,4,0) -> squared = 9+16+0 = 25 -> distance = 5
    assert!((f(p.distance_to_squared(&q)) - 25.0).abs() < 1e-12);
    assert!((f(p.distance_to(&q)) - 5.0).abs() < 1e-12);
}

#[test]
fn vector_zero_and_norms() {
    let z = Vector3::zero();
    assert_eq!(f(z.x()), 0.0);
    assert_eq!(f(z.y()), 0.0);
    assert_eq!(f(z.z()), 0.0);
    assert!((f(z.norm_squared()) - 0.0).abs() < 1e-12);
    assert!((f(z.norm()) - 0.0).abs() < 1e-12);
}

#[test]
fn vector_algebra_round_trip() {
    // (P + D) - D == P and squared_distance(P, P + D) == squared_norm(D)
    let p = Point3::from(b(1.5), b(-2.25), b(40.0));
    let d = Vector3::from(b(0.75), b(3.5), b(-1.25));
    let q = p.translate(&d);
    let back = q.translate_back(&d);
    assert!((f(back.x()) - f(p.x())).abs() < 1e-12);
    assert!((f(back.y()) - f(p.y())).abs() < 1e-12);
    assert!((f(back.z()) - f(p.z())).abs() < 1e-12);
    assert!((f(p.distance_to_squared(&q)) - f(d.norm_squared())).abs() < 1e-12);
}

#[test]
fn vector_named_operations() {
    let v = Vector3::from(b(1.0), b(2.0), b(3.0));
    let w = Vector3::from(b(0.5), b(-1.0), b(4.0));
    let s = v.plus(&w);
    assert_eq!(f(s.x()), 1.5);
    assert_eq!(f(s.y()), 1.0);
    assert_eq!(f(s.z()), 7.0);
    let m = v.minus(&w);
    assert_eq!(f(m.x()), 0.5);
    assert_eq!(f(m.y()), 3.0);
    assert_eq!(f(m.z()), -1.0);
    let k = v.scaled(b(2.0));
    assert_eq!(f(k.x()), 2.0);
    assert_eq!(f(k.y()), 4.0);
    assert_eq!(f(k.z()), 6.0);
}

#[test]
fn vector_division_by_zero_is_refused() {
    let v = Vector3::from(b(1.0), b(2.0), b(3.0));
    assert_eq!(v.divided(b(0.0)), Err(SimError::DivisionByZero));
    assert_eq!(v.divided(b(-0.0)), Err(SimError::DivisionByZero));
    let h = v.divided(b(2.0)).unwrap();
    assert_eq!(f(h.x()), 0.5);
    assert_eq!(f(h.y()), 1.0);
    assert_eq!(f(h.z()), 1.5);
}
