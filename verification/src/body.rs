//! Bodies and their collision geometry.
//!
//! A [`Body`] is a mutable dynamic-state record: position, linear velocity,
//! mass, motion status and an immutable [`Shape`].  Angular motion is not
//! modelled.  Static bodies never move; their velocity field exists only
//! because contact resolution rewrites both participants uniformly.

use vstd::prelude::*;
use crate::rat::{Rat, Frac, frac_pos, rat_wf};
use crate::vec2::{Vec2, FVec, vec2_wf};

verus! {

/// Collision geometry: a circle or an axis-aligned box, stored by half
/// extents.  All extents are strictly positive.
#[derive(Clone, Copy, Debug)]
pub enum Shape {
    Circle { radius: Rat },
    Rect { half_width: Rat, half_height: Rat },
}

/// Mathematical model of a shape.
pub enum ShapeV {
    Circle { radius: Frac },
    Rect { half_width: Frac, half_height: Frac },
}

impl View for Shape {
    type V = ShapeV;

    open spec fn view(&self) -> ShapeV {
        match *self {
            Shape::Circle { radius } => ShapeV::Circle { radius: radius@ },
            Shape::Rect { half_width, half_height } => ShapeV::Rect {
                half_width: half_width@,
                half_height: half_height@,
            },
        }
    }
}

pub open spec fn shape_wf(s: Shape) -> bool {
    match s {
        Shape::Circle { radius } => rat_wf(radius) && frac_pos(radius@),
        Shape::Rect { half_width, half_height } => {
            &&& rat_wf(half_width)
            &&& rat_wf(half_height)
            &&& frac_pos(half_width@)
            &&& frac_pos(half_height@)
        },
    }
}

/// Motion status: dynamic bodies are integrated, static bodies never move.
#[derive(Clone, Copy, Debug, PartialEq, Eq, Structural)]
pub enum BodyStatus {
    Dynamic,
    Static,
}

/// One rigid body.
#[derive(Clone, Copy, Debug)]
pub struct Body {
    pub position: Vec2,
    pub velocity: Vec2,
    pub mass: Rat,
    pub status: BodyStatus,
    pub shape: Shape,
}

/// Mathematical model of a body.
pub struct BodyV {
    pub position: FVec,
    pub velocity: FVec,
    pub mass: Frac,
    pub status: BodyStatus,
    pub shape: ShapeV,
}

impl View for Body {
    type V = BodyV;

    open spec fn view(&self) -> BodyV {
        BodyV {
            position: self.position@,
            velocity: self.velocity@,
            mass: self.mass@,
            status: self.status,
            shape: self.shape@,
        }
    }
}

/// Well-formed body: all rationals representable, extents positive, and a
/// circle carries the positive mass its constructor computed.
pub open spec fn body_wf(b: Body) -> bool {
    &&& vec2_wf(b.position)
    &&& vec2_wf(b.velocity)
    &&& rat_wf(b.mass)
    &&& shape_wf(b.shape)
    &&& (b.shape is Circle ==> frac_pos(b.mass@))
}

} // verus!
