use rigid2d::rat::Rat;
use rigid2d::vec2::Vec2;
use rigid2d::collision::reflect_velocity;

fn rat(n: i64, d: i64) -> Rat {
    Rat::new(n, d).unwrap()
}

fn vec2(x: Rat, y: Rat) -> Vec2 {
    Vec2::new(x, y)
}

#[test]
fn rat_reduces_to_lowest_terms() {
    let half = rat(2, 4);
    assert_eq!(half.num(), 1);
    assert_eq!(half.den(), 2);
    let neg = rat(9, -12);
    assert_eq!(neg.num(), -3);
    assert_eq!(neg.den(), 4);
}

#[test]
fn rat_zero_denominator_is_rejected() {
    assert!(Rat::new(1, 0).is_none());
}

#[test]
fn rat_arithmetic_is_exact() {
    let a = rat(1, 2);
    let b = rat(1, 3);
    let sum = a.checked_add(&b).unwrap();
    assert!(sum.eqv(&rat(5, 6)));
    let diff = a.checked_sub(&b).unwrap();
    assert!(diff.eqv(&rat(1, 6)));
    let prod = a.checked_mul(&b).unwrap();
    assert!(prod.eqv(&rat(1, 6)));
    let quot = a.checked_div(&b).unwrap();
    assert!(quot.eqv(&rat(3, 2)));
}

#[test]
fn rat_division_by_zero_is_none() {
    let a = rat(1, 2);
    let z = Rat::from_int(0);
    assert!(a.checked_div(&z).is_none());
}

#[test]
fn rat_overflow_is_none() {
    let big = rat(i64::MAX, 1);
    assert!(big.checked_mul(&big).is_none());
    assert!(big.checked_add(&big).is_none());
}

#[test]
fn reflection_flips_normal_component() {
    // velocity (5, 5) against normal (0, 1) comes back as (5, -5)
    let v = vec2(Rat::from_int(5), Rat::from_int(5));
    let n = vec2(Rat::from_int(0), Rat::from_int(1));
    let r = reflect_velocity(&v, &n).unwrap();
    assert_eq!((r.x.num(), r.x.den()), (5, 1));
    assert_eq!((r.y.num(), r.y.den()), (-5, 1));
}

#[test]
fn reflection_twice_returns_original() {
    // a non-axis unit normal: (3/5, 4/5)
    let v = vec2(Rat::from_int(3), Rat::from_int(4));
    let n = vec2(rat(3, 5), rat(4, 5));
    let r = reflect_velocity(&v, &n).unwrap();
    assert_eq!((r.x.num(), r.x.den()), (-3, 1));
    assert_eq!((r.y.num(), r.y.den()), (-4, 1));
    let back = reflect_velocity(&r, &n).unwrap();
    assert_eq!((back.x.num(), back.x.den()), (3, 1));
    assert_eq!((back.y.num(), back.y.den()), (4, 1));
}

#[test]
fn reflection_preserves_magnitude() {
    let v = vec2(rat(7, 2), rat(-5, 3));
    let n = vec2(rat(3, 5), rat(4, 5));
    let r = reflect_velocity(&v, &n).unwrap();
    let before = v.checked_dot(&v).unwrap();
    let after = r.checked_dot(&r).unwrap();
    assert!(before.eqv(&after));
}
