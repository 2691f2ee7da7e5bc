//! Planar vectors over exact rationals.
//!
//! [`Vec2`] is the executable vector; its mathematical model is [`FVec`], a
//! pair of fractions.  Arithmetic is checked like the scalar arithmetic: each
//! operation's contract names both the exact reduced representative it
//! returns (via the `cvec_*` mirrors) and the ideal unreduced value it equals
//! (via `fvec_*`).

use vstd::prelude::*;
use crate::rat::{
    Rat, Frac, frac_wf, frac_eq, frac_add, frac_sub, frac_mul, rat_wf, crat,
    lemma_frac_ops_wf, lemma_frac_eq_trans, lemma_frac_add_cong,
};

verus! {

/// Mathematical planar vector: a pair of fractions.
pub struct FVec {
    pub x: Frac,
    pub y: Frac,
}

pub open spec fn fvec_wf(v: FVec) -> bool {
    frac_wf(v.x) && frac_wf(v.y)
}

/// Both components are representable as `Rat` values.
pub open spec fn fvec_fits(v: FVec) -> bool {
    crate::rat::fits(v.x) && crate::rat::fits(v.y)
}

/// Componentwise value equality.
pub open spec fn fvec_eq(a: FVec, b: FVec) -> bool {
    frac_eq(a.x, b.x) && frac_eq(a.y, b.y)
}

pub open spec fn fvec_add(a: FVec, b: FVec) -> FVec {
    FVec { x: frac_add(a.x, b.x), y: frac_add(a.y, b.y) }
}

pub open spec fn fvec_sub(a: FVec, b: FVec) -> FVec {
    FVec { x: frac_sub(a.x, b.x), y: frac_sub(a.y, b.y) }
}

pub open spec fn fvec_scale(k: Frac, v: FVec) -> FVec {
    FVec { x: frac_mul(k, v.x), y: frac_mul(k, v.y) }
}

pub open spec fn fvec_dot(a: FVec, b: FVec) -> Frac {
    frac_add(frac_mul(a.x, b.x), frac_mul(a.y, b.y))
}

/// Checked mirrors: the reduced result when every component fits, else `None`.
pub open spec fn cvec_add(a: FVec, b: FVec) -> Option<FVec>
    recommends
        fvec_wf(a),
        fvec_wf(b),
{
    match (crat(frac_add(a.x, b.x)), crat(frac_add(a.y, b.y))) {
        (Some(x), Some(y)) => Some(FVec { x, y }),
        _ => None,
    }
}

pub open spec fn cvec_sub(a: FVec, b: FVec) -> Option<FVec>
    recommends
        fvec_wf(a),
        fvec_wf(b),
{
    match (crat(frac_sub(a.x, b.x)), crat(frac_sub(a.y, b.y))) {
        (Some(x), Some(y)) => Some(FVec { x, y }),
        _ => None,
    }
}

pub open spec fn cvec_scale(k: Frac, v: FVec) -> Option<FVec>
    recommends
        frac_wf(k),
        fvec_wf(v),
{
    match (crat(frac_mul(k, v.x)), crat(frac_mul(k, v.y))) {
        (Some(x), Some(y)) => Some(FVec { x, y }),
        _ => None,
    }
}

pub open spec fn cvec_dot(a: FVec, b: FVec) -> Option<Frac>
    recommends
        fvec_wf(a),
        fvec_wf(b),
{
    match (crat(frac_mul(a.x, b.x)), crat(frac_mul(a.y, b.y))) {
        (Some(xx), Some(yy)) => crat(frac_add(xx, yy)),
        _ => None,
    }
}

/// Executable planar vector.
#[derive(Clone, Copy, Debug)]
pub struct Vec2 {
    pub x: Rat,
    pub y: Rat,
}

impl View for Vec2 {
    type V = FVec;

    open spec fn view(&self) -> FVec {
        FVec { x: self.x@, y: self.y@ }
    }
}

pub open spec fn vec2_wf(v: Vec2) -> bool {
    rat_wf(v.x) && rat_wf(v.y)
}

impl Vec2 {
    pub fn new(x: Rat, y: Rat) -> (r: Vec2)
        ensures
            r.x == x,
            r.y == y,
    {
        Vec2 { x, y }
    }

    /// Checked componentwise sum.
    pub fn checked_add(&self, other: &Vec2) -> (r: Option<Vec2>)
        requires
            vec2_wf(*self),
            vec2_wf(*other),
        ensures
            r is Some <==> cvec_add(self@, other@) is Some,
            r matches Some(v) ==> {
                &&& vec2_wf(v)
                &&& Some(v@) == cvec_add(self@, other@)
                &&& fvec_eq(v@, fvec_add(self@, other@))
            },
    {
        match (self.x.checked_add(&other.x), self.y.checked_add(&other.y)) {
            (Some(x), Some(y)) => Some(Vec2 { x, y }),
            _ => None,
        }
    }

    /// Checked componentwise difference.
    pub fn checked_sub(&self, other: &Vec2) -> (r: Option<Vec2>)
        requires
            vec2_wf(*self),
            vec2_wf(*other),
        ensures
            r is Some <==> cvec_sub(self@, other@) is Some,
            r matches Some(v) ==> {
                &&& vec2_wf(v)
                &&& Some(v@) == cvec_sub(self@, other@)
                &&& fvec_eq(v@, fvec_sub(self@, other@))
            },
    {
        match (self.x.checked_sub(&other.x), self.y.checked_sub(&other.y)) {
            (Some(x), Some(y)) => Some(Vec2 { x, y }),
            _ => None,
        }
    }

    /// Checked scaling by a rational factor.
    pub fn checked_scale(&self, k: &Rat) -> (r: Option<Vec2>)
        requires
            vec2_wf(*self),
            rat_wf(*k),
        ensures
            r is Some <==> cvec_scale(k@, self@) is Some,
            r matches Some(v) ==> {
                &&& vec2_wf(v)
                &&& Some(v@) == cvec_scale(k@, self@)
                &&& fvec_eq(v@, fvec_scale(k@, self@))
            },
    {
        match (k.checked_mul(&self.x), k.checked_mul(&self.y)) {
            (Some(x), Some(y)) => Some(Vec2 { x, y }),
            _ => None,
        }
    }

    /// Checked dot product; equal in value to the ideal `fvec_dot`.
    pub fn checked_dot(&self, other: &Vec2) -> (r: Option<Rat>)
        requires
            vec2_wf(*self),
            vec2_wf(*other),
        ensures
            r is Some <==> cvec_dot(self@, other@) is Some,
            r matches Some(v) ==> {
                &&& rat_wf(v)
                &&& Some(v@) == cvec_dot(self@, other@)
                &&& frac_eq(v@, fvec_dot(self@, other@))
            },
    {
        match (self.x.checked_mul(&other.x), self.y.checked_mul(&other.y)) {
            (Some(xx), Some(yy)) => {
                match xx.checked_add(&yy) {
                    Some(d) => {
                        proof {
                            let mxx = frac_mul(self@.x, other@.x);
                            let myy = frac_mul(self@.y, other@.y);
                            lemma_frac_ops_wf(self@.x, other@.x);
                            lemma_frac_ops_wf(self@.y, other@.y);
                            lemma_frac_ops_wf(xx@, yy@);
                            lemma_frac_ops_wf(mxx, myy);
                            lemma_frac_add_cong(xx@, yy@, mxx, myy);
                            lemma_frac_eq_trans(d@, frac_add(xx@, yy@), frac_add(mxx, myy));
                        }
                        Some(d)
                    },
                    None => None,
                }
            },
            _ => None,
        }
    }
}

} // verus!
