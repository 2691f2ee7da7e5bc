//! Contact resolution arithmetic.
//!
//! Two disjoint algorithms, picked by the shapes of the contact pair:
//! specular reflection when a box is involved, and a two-body elastic
//! collision along the line of centers when both bodies are circles.
//!
//! Each algorithm has three layers: an ideal formula over unbounded
//! fractions (`reflect_spec`, `elastic_spec`), a checked mirror that says
//! exactly what the executable computation produces and when it stays within
//! `i64` range (`reflect_checked`, `elastic_checked`), and the executable
//! function itself.

use vstd::prelude::*;
use vstd::arithmetic::mul::lemma_mul_is_associative;
use crate::rat::{
    Rat, Frac, frac_wf, frac_eq, frac_add, frac_sub, frac_mul, frac_neg, frac_div, frac_int,
    crat, lemma_frac_ops_wf, lemma_norm_zero,
};
use crate::vec2::{
    Vec2, FVec, fvec_wf, fvec_eq, fvec_add, fvec_sub, fvec_scale, fvec_dot, vec2_wf,
    cvec_add, cvec_sub, cvec_scale, cvec_dot,
};

verus! {

// ------------------------------------------------------------------
// Reflection (contact with a box)
// ------------------------------------------------------------------

/// Ideal specular reflection of a velocity across a contact normal:
/// `v - 2·(v·n)·n`.  The normal is supplied by the geometry collaborator as
/// a unit vector, so no division by `n·n` appears.
pub open spec fn reflect_spec(v: FVec, n: FVec) -> FVec {
    fvec_sub(v, fvec_scale(frac_mul(frac_int(2), fvec_dot(v, n)), n))
}

/// Checked mirror of the executable reflection: the exact reduced result, or
/// `None` when an intermediate value leaves `i64` range.
pub open spec fn reflect_checked(v: FVec, n: FVec) -> Option<FVec>
    recommends
        fvec_wf(v),
        fvec_wf(n),
{
    match cvec_dot(v, n) {
        Some(dot) => match crat(frac_mul(frac_int(2), dot)) {
            Some(k) => match cvec_scale(k, n) {
                Some(kn) => cvec_sub(v, kn),
                None => None,
            },
            None => None,
        },
        None => None,
    }
}

/// Reflect `v` across the unit normal `n`.
pub fn reflect_velocity(v: &Vec2, n: &Vec2) -> (r: Option<Vec2>)
    requires
        vec2_wf(*v),
        vec2_wf(*n),
    ensures
        r is Some <==> reflect_checked(v@, n@) is Some,
        r matches Some(w) ==> vec2_wf(w) && Some(w@) == reflect_checked(v@, n@),
{
    let dot = match v.checked_dot(n) {
        Some(d) => d,
        None => {
            return None;
        },
    };
    let two = Rat::from_int(2);
    let k = match two.checked_mul(&dot) {
        Some(k) => k,
        None => {
            return None;
        },
    };
    let kn = match n.checked_scale(&k) {
        Some(kn) => kn,
        None => {
            return None;
        },
    };
    v.checked_sub(&kn)
}

// ------------------------------------------------------------------
// Elastic collision (circle against circle)
// ------------------------------------------------------------------

/// Geometry of a circle-circle contact: the line of centers `d = p1 - p2`,
/// its squared length `l = d·d`, and the along-axis closing speed term
/// `w = (v2 - v1)·d`.  `None` when the centers coincide (`l` is zero, the
/// axis is undefined and resolution is skipped) or a value leaves range.
pub open spec fn elastic_geometry(p1: FVec, p2: FVec, v1: FVec, v2: FVec) -> Option<
    (FVec, Frac, Frac),
>
    recommends
        fvec_wf(p1),
        fvec_wf(p2),
        fvec_wf(v1),
        fvec_wf(v2),
{
    match cvec_sub(p1, p2) {
        Some(d) => match cvec_dot(d, d) {
            Some(l) => {
                if l.n == 0 {
                    None
                } else {
                    match cvec_sub(v2, v1) {
                        Some(rel) => match cvec_dot(rel, d) {
                            Some(w) => Some((d, l, w)),
                            None => None,
                        },
                        None => None,
                    }
                }
            },
            None => None,
        },
        None => None,
    }
}

/// The two scale factors of the elastic update: `t1 = 2·m2·w / ((m1+m2)·l)`
/// and `t2 = 2·m1·(-w) / ((m1+m2)·l)`.  Adding `t1·d` to `v1` and `t2·d` to
/// `v2` is the closed form of the 1-D elastic collision solved along the
/// (unnormalized) line of centers: writing `u = d/|d|`, `vi_n = vi·u` and the
/// textbook post-collision speeds `vi_n'`, the update `(vi_n' - vi_n)·u`
/// equals `ti·d` exactly, so no square root is ever needed.
pub open spec fn elastic_coeffs(m1: Frac, m2: Frac, l: Frac, w: Frac) -> Option<(Frac, Frac)>
    recommends
        frac_wf(m1),
        frac_wf(m2),
        frac_wf(l),
        frac_wf(w),
{
    match crat(frac_add(m1, m2)) {
        Some(s) => match crat(frac_mul(s, l)) {
            Some(den) => match crat(frac_mul(frac_int(2), m2)) {
                Some(a2) => match crat(frac_mul(a2, w)) {
                    Some(n1) => {
                        if den.n == 0 {
                            None
                        } else {
                            match crat(frac_div(n1, den)) {
                                Some(t1) => match crat(frac_mul(frac_int(2), m1)) {
                                    Some(a1) => match crat(frac_mul(a1, frac_neg(w))) {
                                        Some(n2) => match crat(frac_div(n2, den)) {
                                            Some(t2) => Some((t1, t2)),
                                            None => None,
                                        },
                                        None => None,
                                    },
                                    None => None,
                                },
                                None => None,
                            }
                        }
                    },
                    None => None,
                },
                None => None,
            },
            None => None,
        },
        None => None,
    }
}

/// Checked mirror of the executable elastic update: the exact pair of new
/// velocities, or `None` when the contact is degenerate or a value leaves
/// range (then both velocities stay as they were).
pub open spec fn elastic_checked(
    p1: FVec,
    v1: FVec,
    m1: Frac,
    p2: FVec,
    v2: FVec,
    m2: Frac,
) -> Option<(FVec, FVec)>
    recommends
        fvec_wf(p1),
        fvec_wf(v1),
        frac_wf(m1),
        fvec_wf(p2),
        fvec_wf(v2),
        frac_wf(m2),
{
    match elastic_geometry(p1, p2, v1, v2) {
        Some((d, l, w)) => match elastic_coeffs(m1, m2, l, w) {
            Some((t1, t2)) => match cvec_scale(t1, d) {
                Some(d1) => match cvec_scale(t2, d) {
                    Some(d2) => match cvec_add(v1, d1) {
                        Some(w1) => match cvec_add(v2, d2) {
                            Some(w2) => Some((w1, w2)),
                            None => None,
                        },
                        None => None,
                    },
                    None => None,
                },
                None => None,
            },
            None => None,
        },
        None => None,
    }
}

/// New velocities of two colliding circles, solved as a 1-D elastic
/// collision along the line of centers.
pub fn elastic_velocities(
    p1: &Vec2,
    v1: &Vec2,
    m1: &Rat,
    p2: &Vec2,
    v2: &Vec2,
    m2: &Rat,
) -> (r: Option<(Vec2, Vec2)>)
    requires
        vec2_wf(*p1),
        vec2_wf(*v1),
        crate::rat::rat_wf(*m1),
        vec2_wf(*p2),
        vec2_wf(*v2),
        crate::rat::rat_wf(*m2),
    ensures
        r is Some <==> elastic_checked(p1@, v1@, m1@, p2@, v2@, m2@) is Some,
        r matches Some(w) ==> {
            &&& vec2_wf(w.0)
            &&& vec2_wf(w.1)
            &&& Some((w.0@, w.1@)) == elastic_checked(p1@, v1@, m1@, p2@, v2@, m2@)
        },
{
    let d = match p1.checked_sub(p2) {
        Some(d) => d,
        None => {
            return None;
        },
    };
    let l = match d.checked_dot(&d) {
        Some(l) => l,
        None => {
            return None;
        },
    };
    if l.is_zero() {
        return None;
    }
    let rel = match v2.checked_sub(v1) {
        Some(rel) => rel,
        None => {
            return None;
        },
    };
    let w = match rel.checked_dot(&d) {
        Some(w) => w,
        None => {
            return None;
        },
    };
    let s = match m1.checked_add(m2) {
        Some(s) => s,
        None => {
            return None;
        },
    };
    let den = match s.checked_mul(&l) {
        Some(den) => den,
        None => {
            return None;
        },
    };
    let two = Rat::from_int(2);
    let a2 = match two.checked_mul(m2) {
        Some(a2) => a2,
        None => {
            return None;
        },
    };
    let n1 = match a2.checked_mul(&w) {
        Some(n1) => n1,
        None => {
            return None;
        },
    };
    let t1 = match n1.checked_div(&den) {
        Some(t1) => t1,
        None => {
            return None;
        },
    };
    let a1 = match two.checked_mul(m1) {
        Some(a1) => a1,
        None => {
            return None;
        },
    };
    let wneg = w.neg();
    let n2 = match a1.checked_mul(&wneg) {
        Some(n2) => n2,
        None => {
            return None;
        },
    };
    let t2 = match n2.checked_div(&den) {
        Some(t2) => t2,
        None => {
            return None;
        },
    };
    let d1 = match d.checked_scale(&t1) {
        Some(d1) => d1,
        None => {
            return None;
        },
    };
    let d2 = match d.checked_scale(&t2) {
        Some(d2) => d2,
        None => {
            return None;
        },
    };
    let w1 = match v1.checked_add(&d1) {
        Some(w1) => w1,
        None => {
            return None;
        },
    };
    let w2 = match v2.checked_add(&d2) {
        Some(w2) => w2,
        None => {
            return None;
        },
    };
    Some((w1, w2))
}


// ------------------------------------------------------------------
// Degenerate contacts
// ------------------------------------------------------------------

/// Two circles whose centers coincide have no collision axis: resolution is
/// skipped entirely (no division by the zero-length axis is attempted) and
/// both velocities stay as they were.
pub proof fn lemma_degenerate_skip(p1: FVec, v1: FVec, m1: Frac, p2: FVec, v2: FVec, m2: Frac)
    requires
        fvec_wf(p1),
        fvec_wf(p2),
        fvec_eq(p1, p2),
    ensures
        elastic_checked(p1, v1, m1, p2, v2, m2) is None,
{
    let sx = frac_sub(p1.x, p2.x);
    let sy = frac_sub(p1.y, p2.y);
    lemma_frac_ops_wf(p1.x, p2.x);
    lemma_frac_ops_wf(p1.y, p2.y);
    assert(sx.n == 0);
    assert(sy.n == 0);
    lemma_norm_zero(sx);
    lemma_norm_zero(sy);
    let z = frac_int(0);
    assert(cvec_sub(p1, p2) == Some(FVec { x: z, y: z }));
    let zz = frac_mul(z, z);
    assert(zz.n == 0 && zz.d == 1);
    lemma_norm_zero(zz);
    let za = frac_add(z, z);
    assert(za.n == 0 && za.d == 1);
    lemma_norm_zero(za);
    assert(cvec_dot(FVec { x: z, y: z }, FVec { x: z, y: z }) == Some(z));
    assert(elastic_geometry(p1, p2, v1, v2) is None);
}


// ------------------------------------------------------------------
// Laws of reflection
// ------------------------------------------------------------------

proof fn ac_factor(dn2: int, rxn: int, ryn: int, rxd: int, ryd: int, c: int, e: int, p: int,
    q: int, r: int, s: int, dd: int)
    requires
        dn2 == (rxn * c) * (ryd * s) + (ryn * e) * (rxd * r),
        rxd == p * (dd * r),
        ryd == q * (dd * s),
    ensures
        dn2 == dd * (((c * q) * (s * s)) * rxn + ((e * p) * (r * r)) * ryn),
{
    broadcast use vstd::arithmetic::mul::group_mul_properties;

}

proof fn ac_expand_x(a: int, c: int, p: int, q: int, r: int, s: int, dn: int, dd: int, rxn: int)
    requires
        rxn == a * (dd * r) - 2 * dn * c * p,
    ensures
        ((c * q) * (s * s)) * rxn == ((a * c) * (q * s)) * (dd * (r * s)) - 2 * dn * ((p * q) * (
        (c * c) * (s * s))),
{
    broadcast use vstd::arithmetic::mul::group_mul_properties;

}

proof fn ac_expand_y(b: int, e: int, p: int, q: int, r: int, s: int, dn: int, dd: int, ryn: int)
    requires
        ryn == b * (dd * s) - 2 * dn * e * q,
    ensures
        ((e * p) * (r * r)) * ryn == ((b * e) * (p * r)) * (dd * (r * s)) - 2 * dn * ((p * q) * (
        (e * e) * (r * r))),
{
    broadcast use vstd::arithmetic::mul::group_mul_properties;

}

proof fn ac_regroup(x: int, u1: int, u2: int, w1: int, w2: int, t: int, dn: int)
    requires
        t == (w1 * x - 2 * dn * u1) + (w2 * x - 2 * dn * u2),
    ensures
        t == x * (w1 + w2) - 2 * dn * (u1 + u2),
{
    broadcast use vstd::arithmetic::mul::group_mul_properties;

}

proof fn ac_split(pq: int, u1: int, u2: int)
    ensures
        pq * (u1 + u2) == pq * u1 + pq * u2,
{
    broadcast use vstd::arithmetic::mul::group_mul_properties;

}

proof fn ac_den(p: int, q: int, r: int, s: int, dd: int)
    requires
        dd == (p * r) * (q * s),
    ensures
        dd * (r * s) == (p * q) * ((r * r) * (s * s)),
{
    broadcast use vstd::arithmetic::mul::group_mul_properties;

}

proof fn ac_collapse(dn: int, dd: int, y: int, dn2: int)
    requires
        dn2 == dd * (y * dn - 2 * dn * y),
    ensures
        dn2 == -(dn * (dd * y)),
{
    broadcast use vstd::arithmetic::mul::group_mul_properties;

}

proof fn ac_dd2(p: int, q: int, r: int, s: int, dd: int, dd2: int, rxd: int, ryd: int)
    requires
        dd2 == (rxd * r) * (ryd * s),
        rxd == p * (dd * r),
        ryd == q * (dd * s),
        dd == (p * r) * (q * s),
    ensures
        dd2 == (dd * (dd * dd)) * (r * s),
{
    broadcast use vstd::arithmetic::mul::group_mul_properties;

}

proof fn ac_dist_sub(u: int, w: int, big: int, rn: int)
    requires
        rn == u - w,
    ensures
        rn * big == u * big - w * big,
{
    broadcast use vstd::arithmetic::mul::group_mul_properties;

}

proof fn ac_neg3(k: int, c: int, rxd: int, dn2: int)
    requires
        dn2 == -k,
    ensures
        ((2 * dn2) * c) * rxd == -(((2 * k) * c) * rxd),
{
    broadcast use vstd::arithmetic::mul::group_mul_properties;

}

proof fn ac_prodmatch(k: int, c: int, rxd: int, w: int, big: int, dd: int, p: int, r: int,
    s: int, dn: int)
    requires
        k == dn * ((dd * dd) * (r * s)),
        rxd == p * (dd * r),
        w == 2 * dn * c * p,
        big == ((dd * (dd * dd)) * (r * s)) * r,
    ensures
        ((2 * k) * c) * rxd == w * big,
{
    broadcast use vstd::arithmetic::mul::group_mul_properties;

}

proof fn ac_prodmatch_y(k: int, e: int, ryd: int, w: int, big: int, dd: int, q: int, r: int,
    s: int, dn: int)
    requires
        k == dn * ((dd * dd) * (r * s)),
        ryd == q * (dd * s),
        w == 2 * dn * e * q,
        big == ((dd * (dd * dd)) * (r * s)) * s,
    ensures
        ((2 * k) * e) * ryd == w * big,
{
    broadcast use vstd::arithmetic::mul::group_mul_properties;

}

proof fn ac_last(a: int, u: int, big: int, rxd: int, p: int)
    requires
        rxd == p * u,
    ensures
        ((a * u) * big) * p == a * (rxd * big),
{
    broadcast use vstd::arithmetic::mul::group_mul_properties;

}

proof fn ac_final_x(a: int, c: int, p: int, r: int, s: int, dn: int, dd: int, dn2: int,
    dd2: int, rxn: int, rxd: int)
    requires
        dn2 == -(dn * ((dd * dd) * (r * s))),
        dd2 == (dd * (dd * dd)) * (r * s),
        rxn == a * (dd * r) - 2 * dn * c * p,
        rxd == p * (dd * r),
    ensures
        (rxn * (dd2 * r) - ((2 * dn2) * c) * rxd) * p == a * (rxd * (dd2 * r)),
{
    let big = dd2 * r;
    ac_dist_sub(a * (dd * r), 2 * dn * c * p, big, rxn);
    ac_neg3(dn * ((dd * dd) * (r * s)), c, rxd, dn2);
    ac_prodmatch(dn * ((dd * dd) * (r * s)), c, rxd, 2 * dn * c * p, big, dd, p, r, s, dn);
    assert(rxn * big - ((2 * dn2) * c) * rxd == (a * (dd * r)) * big);
    ac_last(a, dd * r, big, rxd, p);
}

proof fn ac_final_y(b: int, e: int, p: int, q: int, r: int, s: int, dn: int, dd: int, dn2: int,
    dd2: int, ryn: int, ryd: int)
    requires
        dn2 == -(dn * ((dd * dd) * (r * s))),
        dd2 == (dd * (dd * dd)) * (r * s),
        ryn == b * (dd * s) - 2 * dn * e * q,
        ryd == q * (dd * s),
    ensures
        (ryn * (dd2 * s) - ((2 * dn2) * e) * ryd) * q == b * (ryd * (dd2 * s)),
{
    let big = dd2 * s;
    ac_dist_sub(b * (dd * s), 2 * dn * e * q, big, ryn);
    ac_neg3(dn * ((dd * dd) * (r * s)), e, ryd, dn2);
    ac_prodmatch_y(dn * ((dd * dd) * (r * s)), e, ryd, 2 * dn * e * q, big, dd, q, r, s, dn);
    assert(ryn * big - ((2 * dn2) * e) * ryd == (b * (dd * s)) * big);
    ac_last(b, dd * s, big, ryd, q);
}

/// Reflecting a velocity twice across the same unit normal returns the
/// original velocity: `reflect(reflect(v, n), n) == v`.
pub proof fn lemma_reflect_involutive(v: FVec, n: FVec)
    requires
        fvec_wf(v),
        fvec_wf(n),
        frac_eq(fvec_dot(n, n), frac_int(1)),
    ensures
        fvec_eq(reflect_spec(reflect_spec(v, n), n), v),
{
    let a = v.x.n;
    let p = v.x.d;
    let b = v.y.n;
    let q = v.y.d;
    let c = n.x.n;
    let r = n.x.d;
    let e = n.y.n;
    let s = n.y.d;
    assert((c * c) * (s * s) + (e * e) * (r * r) == (r * r) * (s * s));
    let dn = (a * c) * (q * s) + (b * e) * (p * r);
    let dd = (p * r) * (q * s);
    assert(fvec_dot(v, n) == Frac { n: dn, d: dd });
    let r1 = reflect_spec(v, n);
    let rxn = a * (dd * r) - 2 * dn * c * p;
    let rxd = p * (dd * r);
    let ryn = b * (dd * s) - 2 * dn * e * q;
    let ryd = q * (dd * s);
    assert(r1.x == Frac { n: rxn, d: rxd });
    assert(r1.y == Frac { n: ryn, d: ryd });
    let dn2 = (rxn * c) * (ryd * s) + (ryn * e) * (rxd * r);
    let dd2 = (rxd * r) * (ryd * s);
    assert(fvec_dot(r1, n) == Frac { n: dn2, d: dd2 });
    ac_factor(dn2, rxn, ryn, rxd, ryd, c, e, p, q, r, s, dd);
    ac_expand_x(a, c, p, q, r, s, dn, dd, rxn);
    ac_expand_y(b, e, p, q, r, s, dn, dd, ryn);
    let big = dd * (r * s);
    let t = ((c * q) * (s * s)) * rxn + ((e * p) * (r * r)) * ryn;
    ac_regroup(big, (p * q) * ((c * c) * (s * s)), (p * q) * ((e * e) * (r * r)), (a * c) * (q
        * s), (b * e) * (p * r), t, dn);
    ac_split(p * q, (c * c) * (s * s), (e * e) * (r * r));
    ac_den(p, q, r, s, dd);
    assert(t == big * dn - 2 * dn * big);
    assert(dn2 == dd * (big * dn - 2 * dn * big));
    ac_collapse(dn, dd, big, dn2);
    lemma_mul_is_associative(dd, dd, r * s);
    assert(dn2 == -(dn * ((dd * dd) * (r * s))));
    ac_dd2(p, q, r, s, dd, dd2, rxd, ryd);
    let r2 = reflect_spec(r1, n);
    assert(r2.x == Frac { n: rxn * (dd2 * r) - ((2 * dn2) * c) * rxd, d: rxd * (dd2 * r) });
    assert(r2.y == Frac { n: ryn * (dd2 * s) - ((2 * dn2) * e) * ryd, d: ryd * (dd2 * s) });
    ac_final_x(a, c, p, r, s, dn, dd, dn2, dd2, rxn, rxd);
    ac_final_y(b, e, p, q, r, s, dn, dd, dn2, dd2, ryn, ryd);
}

} // verus!