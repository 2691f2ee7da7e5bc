//! The world: owns every body, spawns balls and walls, and advances the
//! simulation one tick at a time.
//!
//! A tick consumes the contact events the external geometry collaborator
//! reported for the previous spatial configuration, resolves each started
//! contact exactly once in report order, then integrates every dynamic
//! body's position by `velocity · dt` (no gravity, no damping).  The full
//! effect of a tick is pinned down by the spec mirror [`step_spec`].

use vstd::prelude::*;
use crate::rat::{
    Rat, Frac, frac_wf, frac_eq, frac_add, frac_mul, frac_div, frac_int, frac_pos, crat, norm,
    fits, rat_wf, gcd, lemma_frac_ops_wf, lemma_frac_eq_trans, lemma_frac_mul_cong,
    lemma_frac_eq_pos, lemma_frac_mul_pos, lemma_frac_div_pos,
};
use crate::vec2::{Vec2, FVec, fvec_wf, fvec_fits, vec2_wf, cvec_add, cvec_scale};
use crate::body::{Shape, ShapeV, shape_wf, BodyStatus, Body, BodyV, body_wf};
use crate::collision::{reflect_checked, elastic_checked, reflect_velocity, elastic_velocities};
use vstd::math::abs;

verus! {

// ------------------------------------------------------------------
// Contact events
// ------------------------------------------------------------------

/// One contact event, as reported by the external geometry collaborator.
/// The normal of a started contact is a unit vector pointing along the local
/// surface direction of impact.
#[derive(Clone, Copy, Debug)]
pub enum ContactEvent {
    Started { a: usize, b: usize, normal: Vec2 },
    Stopped { a: usize, b: usize },
}

/// Mathematical model of a contact event.
pub enum EventV {
    Started { a: int, b: int, normal: FVec },
    Stopped { a: int, b: int },
}

impl View for ContactEvent {
    type V = EventV;

    open spec fn view(&self) -> EventV {
        match *self {
            ContactEvent::Started { a, b, normal } => EventV::Started {
                a: a as int,
                b: b as int,
                normal: normal@,
            },
            ContactEvent::Stopped { a, b } => EventV::Stopped { a: a as int, b: b as int },
        }
    }
}

/// A started event must name two distinct live bodies and carry a
/// well-formed normal; this is the collaborator's side of the contract.
pub open spec fn event_wf(e: EventV, n: int) -> bool {
    match e {
        EventV::Started { a, b, normal } => 0 <= a < n && 0 <= b < n && a != b && fvec_wf(normal)
            && fvec_fits(normal),
        EventV::Stopped { .. } => true,
    }
}

// ------------------------------------------------------------------
// Spec mirror of one tick
// ------------------------------------------------------------------

/// Resolution outcome for one started contact: the two new velocities.
/// When a box is involved both velocities are reflected across the same
/// normal, independently (a static participant's velocity is rewritten too,
/// matching the uniform treatment of both participants).  When both bodies
/// are circles, a 1-D elastic collision is solved along the line of centers.
/// A degenerate or out-of-range computation leaves velocities unchanged.
pub open spec fn resolve_pair(b1: BodyV, b2: BodyV, n: FVec) -> (FVec, FVec) {
    if b1.shape is Rect || b2.shape is Rect {
        (
            match reflect_checked(b1.velocity, n) {
                Some(w) => w,
                None => b1.velocity,
            },
            match reflect_checked(b2.velocity, n) {
                Some(w) => w,
                None => b2.velocity,
            },
        )
    } else {
        match elastic_checked(b1.position, b1.velocity, b1.mass, b2.position, b2.velocity,
            b2.mass) {
            Some(p) => p,
            None => (b1.velocity, b2.velocity),
        }
    }
}

/// The body `b` with its velocity replaced.
pub open spec fn with_velocity(b: BodyV, v: FVec) -> BodyV {
    BodyV { position: b.position, velocity: v, mass: b.mass, status: b.status, shape: b.shape }
}

/// Effect of one contact event on the body sequence: a started contact
/// rewrites the two participants' velocities, a stopped contact does
/// nothing.
pub open spec fn apply_event(bodies: Seq<BodyV>, e: EventV) -> Seq<BodyV> {
    match e {
        EventV::Started { a, b, normal } => {
            if 0 <= a < bodies.len() && 0 <= b < bodies.len() && a != b {
                let p = resolve_pair(bodies[a], bodies[b], normal);
                bodies.update(a, with_velocity(bodies[a], p.0)).update(
                    b,
                    with_velocity(bodies[b], p.1),
                )
            } else {
                bodies
            }
        },
        EventV::Stopped { .. } => bodies,
    }
}

/// All events from index `i` on, applied in report order.
pub open spec fn apply_events_from(bodies: Seq<BodyV>, events: Seq<EventV>, i: int) -> Seq<BodyV>
    decreases events.len() - i,
{
    if 0 <= i < events.len() {
        apply_events_from(apply_event(bodies, events[i]), events, i + 1)
    } else {
        bodies
    }
}

/// One body integrated by `dt`: a dynamic body moves by `velocity · dt`, a
/// static body never moves.  An out-of-range position update is skipped.
pub open spec fn integrate_one(b: BodyV, dt: Frac) -> BodyV {
    if b.status is Static {
        b
    } else {
        match cvec_scale(dt, b.velocity) {
            Some(delta) => match cvec_add(b.position, delta) {
                Some(p) => BodyV {
                    position: p,
                    velocity: b.velocity,
                    mass: b.mass,
                    status: b.status,
                    shape: b.shape,
                },
                None => b,
            },
            None => b,
        }
    }
}

pub open spec fn integrate_all(bodies: Seq<BodyV>, dt: Frac) -> Seq<BodyV> {
    bodies.map_values(|b: BodyV| integrate_one(b, dt))
}

/// The full effect of one tick: resolve every reported contact in order,
/// then integrate.
pub open spec fn step_spec(bodies: Seq<BodyV>, events: Seq<EventV>, dt: Frac) -> Seq<BodyV> {
    integrate_all(apply_events_from(bodies, events, 0), dt)
}

// ------------------------------------------------------------------
// What resolution and integration never touch
// ------------------------------------------------------------------

/// One event changes no position, mass, status or shape.
pub proof fn lemma_apply_event_fields(bodies: Seq<BodyV>, e: EventV)
    ensures
        apply_event(bodies, e).len() == bodies.len(),
        forall|j: int| 0 <= j < bodies.len() ==> {
            &&& (#[trigger] apply_event(bodies, e)[j]).position == bodies[j].position
            &&& apply_event(bodies, e)[j].mass == bodies[j].mass
            &&& apply_event(bodies, e)[j].status == bodies[j].status
            &&& apply_event(bodies, e)[j].shape == bodies[j].shape
        },
{
}

/// No sequence of events changes any position, mass, status or shape.
pub proof fn lemma_apply_events_fields(bodies: Seq<BodyV>, events: Seq<EventV>, i: int)
    ensures
        apply_events_from(bodies, events, i).len() == bodies.len(),
        forall|j: int| 0 <= j < bodies.len() ==> {
            &&& (#[trigger] apply_events_from(bodies, events, i)[j]).position == bodies[j].position
            &&& apply_events_from(bodies, events, i)[j].mass == bodies[j].mass
            &&& apply_events_from(bodies, events, i)[j].status == bodies[j].status
            &&& apply_events_from(bodies, events, i)[j].shape == bodies[j].shape
        },
    decreases events.len() - i,
{
    if 0 <= i < events.len() {
        lemma_apply_event_fields(bodies, events[i]);
        lemma_apply_events_fields(apply_event(bodies, events[i]), events, i + 1);
    }
}

/// Integration keeps a static body exactly as it is, and changes nothing
/// but positions of dynamic bodies.
pub proof fn lemma_integrate_fields(bodies: Seq<BodyV>, dt: Frac)
    ensures
        integrate_all(bodies, dt).len() == bodies.len(),
        forall|j: int| 0 <= j < bodies.len() ==> {
            &&& (#[trigger] integrate_all(bodies, dt)[j]).mass == bodies[j].mass
            &&& integrate_all(bodies, dt)[j].status == bodies[j].status
            &&& integrate_all(bodies, dt)[j].shape == bodies[j].shape
            &&& integrate_all(bodies, dt)[j].velocity == bodies[j].velocity
            &&& (bodies[j].status is Static ==> integrate_all(bodies, dt)[j] == bodies[j])
        },
{
}

/// A static body's position after a whole tick equals its position before.
pub proof fn lemma_static_fixed(bodies: Seq<BodyV>, events: Seq<EventV>, dt: Frac, j: int)
    requires
        0 <= j < bodies.len(),
        bodies[j].status is Static,
    ensures
        step_spec(bodies, events, dt).len() == bodies.len(),
        step_spec(bodies, events, dt)[j].position == bodies[j].position,
{
    lemma_apply_events_fields(bodies, events, 0);
    lemma_integrate_fields(apply_events_from(bodies, events, 0), dt);
}

// ------------------------------------------------------------------
// Spawning
// ------------------------------------------------------------------

/// The rational stand-in for pi used for ball masses: the continued-fraction
/// convergent `103993 / 33102`, within `6·10^-10` of pi.
pub open spec fn pi_frac() -> Frac {
    Frac { n: 103993, d: 33102 }
}

/// `103993 / 33102` is already in lowest terms.
pub proof fn lemma_pi_norm()
    ensures
        norm(pi_frac()) == pi_frac(),
        fits(pi_frac()),
        frac_wf(pi_frac()),
        frac_pos(pi_frac()),
{
    assert(abs(103993) == 103993nat);
    assert(gcd(103993nat, 33102nat) == gcd(33102nat, 4687nat));
    assert(gcd(33102nat, 4687nat) == gcd(4687nat, 293nat));
    assert(gcd(4687nat, 293nat) == gcd(293nat, 292nat));
    assert(gcd(293nat, 292nat) == gcd(292nat, 1nat));
    assert(gcd(292nat, 1nat) == gcd(1nat, 0nat));
    assert(gcd(1nat, 0nat) == 1nat);
    assert(gcd(abs(103993), 33102nat) == 1nat);
    assert(103993int / 1int == 103993int);
    assert(33102int / 1int == 33102int);
    assert(norm(pi_frac()) == pi_frac());
}

/// Mass of a ball of radius `r`: `pi · r²` at unit density, as the checked
/// computation produces it.
pub open spec fn ball_mass(r: Frac) -> Option<Frac>
    recommends
        frac_wf(r),
{
    match crat(frac_mul(r, r)) {
        Some(r2) => crat(frac_mul(pi_frac(), r2)),
        None => None,
    }
}

/// Half of a wall extent, as the checked computation produces it.
pub open spec fn wall_half(w: Frac) -> Option<Frac>
    recommends
        frac_wf(w),
{
    crat(frac_div(w, frac_int(2)))
}

// ------------------------------------------------------------------
// The world itself
// ------------------------------------------------------------------

/// The set of all bodies, addressed by stable handles (dense indices; no
/// body is ever removed, so a handle stays valid for the world's lifetime).
pub struct World {
    bodies: Vec<Body>,
}

impl View for World {
    type V = Seq<BodyV>;

    closed spec fn view(&self) -> Seq<BodyV> {
        self.bodies@.map_values(|b: Body| b@)
    }
}

/// Every body stored is well-formed.
pub closed spec fn world_wf(w: World) -> bool {
    forall|i: int| 0 <= i < w.bodies@.len() ==> body_wf(#[trigger] w.bodies@[i])
}

impl World {
    /// An empty world.
    pub fn new() -> (r: World)
        ensures
            world_wf(r),
            r@ == Seq::<BodyV>::empty(),
    {
        let w = World { bodies: Vec::new() };
        proof {
            assert(w@ =~= Seq::<BodyV>::empty());
        }
        w
    }

    /// Number of bodies (equals the next handle to be handed out).
    pub fn body_count(&self) -> (r: usize)
        ensures
            r == self@.len(),
    {
        self.bodies.len()
    }

    /// A snapshot of the body with handle `h`, if one exists.
    pub fn get_body(&self, h: usize) -> (r: Option<Body>)
        ensures
            h < self@.len() ==> (r matches Some(b) && b@ == self@[h as int]),
            h >= self@.len() ==> r is None,
    {
        if h < self.bodies.len() {
            Some(self.bodies[h])
        } else {
            None
        }
    }

    /// Read-only traversal for the presenter: every body with its handle.
    pub fn iter_bodies(&self) -> (r: Vec<(usize, Body)>)
        ensures
            r@.len() == self@.len(),
            forall|i: int| 0 <= i < r@.len() ==> (#[trigger] r@[i]).0 == i && r@[i].1@ == self@[i],
    {
        let mut out: Vec<(usize, Body)> = Vec::new();
        let mut i: usize = 0;
        while i < self.bodies.len()
            invariant
                i <= self.bodies.len(),
                out@.len() == i as int,
                forall|k: int| 0 <= k < i as int ==> (#[trigger] out@[k]).0 == k && out@[k].1@
                    == self@[k],
            decreases self.bodies.len() - i,
        {
            out.push((i, self.bodies[i]));
            i = i + 1;
        }
        out
    }

    /// Spawn a dynamic circle of the given radius at `(x, y)` with the given
    /// launch velocity; its mass is `pi · radius²`.  Returns the new body's
    /// handle, or `None` in the single case that the mass computation leaves
    /// `i64` range.
    pub fn add_ball(&mut self, x: Rat, y: Rat, velocity: Vec2, radius: Rat) -> (r: Option<usize>)
        requires
            world_wf(*old(self)),
            rat_wf(x),
            rat_wf(y),
            vec2_wf(velocity),
            rat_wf(radius),
            frac_pos(radius@),
        ensures
            world_wf(*final(self)),
            r is Some <==> ball_mass(radius@) is Some,
            r matches Some(h) ==> h == old(self)@.len() && (ball_mass(radius@) matches Some(m)
                && final(self)@ == old(self)@.push(
                BodyV {
                    position: FVec { x: x@, y: y@ },
                    velocity: velocity@,
                    mass: m,
                    status: BodyStatus::Dynamic,
                    shape: ShapeV::Circle { radius: radius@ },
                },
            ) && frac_eq(m, frac_mul(pi_frac(), frac_mul(radius@, radius@)))),
            r is None ==> final(self)@ == old(self)@,
    {
        let r2 = match radius.checked_mul(&radius) {
            Some(v) => v,
            None => {
                return None;
            },
        };
        proof {
            lemma_pi_norm();
        }
        let pi = Rat::new(103993, 33102).unwrap();
        let mass = match pi.checked_mul(&r2) {
            Some(m) => m,
            None => {
                return None;
            },
        };
        proof {
            let rr = frac_mul(radius@, radius@);
            lemma_frac_ops_wf(radius@, radius@);
            lemma_frac_ops_wf(pi_frac(), r2@);
            lemma_frac_ops_wf(pi_frac(), rr);
            lemma_frac_mul_cong(pi_frac(), r2@, pi_frac(), rr);
            lemma_frac_eq_trans(mass@, frac_mul(pi_frac(), r2@), frac_mul(pi_frac(), rr));
            lemma_frac_mul_pos(radius@, radius@);
            lemma_frac_eq_pos(r2@, rr);
            lemma_frac_mul_pos(pi_frac(), r2@);
            lemma_frac_eq_pos(mass@, frac_mul(pi_frac(), r2@));
        }
        let handle = self.bodies.len();
        let nb = Body {
            position: Vec2 { x, y },
            velocity,
            mass,
            status: BodyStatus::Dynamic,
            shape: Shape::Circle { radius },
        };
        self.bodies.push(nb);
        proof {
            assert(self@ =~= old(self)@.push(nb@));
        }
        Some(handle)
    }

    /// Spawn a static box of full extents `width × height` centered at
    /// `(x, y)`, with zero velocity and zero mass.  Returns the new body's
    /// handle, or `None` in the single case that a half extent leaves `i64`
    /// range.
    pub fn add_wall(&mut self, x: Rat, y: Rat, width: Rat, height: Rat) -> (r: Option<usize>)
        requires
            world_wf(*old(self)),
            rat_wf(x),
            rat_wf(y),
            rat_wf(width),
            rat_wf(height),
            frac_pos(width@),
            frac_pos(height@),
        ensures
            world_wf(*final(self)),
            r is Some <==> wall_half(width@) is Some && wall_half(height@) is Some,
            r matches Some(h) ==> h == old(self)@.len() && (wall_half(width@) matches Some(hw)
                && (wall_half(height@) matches Some(hh) && final(self)@ == old(self)@.push(
                BodyV {
                    position: FVec { x: x@, y: y@ },
                    velocity: FVec { x: frac_int(0), y: frac_int(0) },
                    mass: frac_int(0),
                    status: BodyStatus::Static,
                    shape: ShapeV::Rect { half_width: hw, half_height: hh },
                },
            ) && frac_eq(hw, frac_div(width@, frac_int(2))) && frac_eq(
                hh,
                frac_div(height@, frac_int(2)),
            ))),
            r is None ==> final(self)@ == old(self)@,
    {
        let two = Rat::from_int(2);
        let hw = match width.checked_div(&two) {
            Some(v) => v,
            None => {
                return None;
            },
        };
        let hh = match height.checked_div(&two) {
            Some(v) => v,
            None => {
                return None;
            },
        };
        proof {
            lemma_frac_div_pos(width@, frac_int(2));
            lemma_frac_eq_pos(hw@, frac_div(width@, frac_int(2)));
            lemma_frac_div_pos(height@, frac_int(2));
            lemma_frac_eq_pos(hh@, frac_div(height@, frac_int(2)));
        }
        let handle = self.bodies.len();
        let zero = Rat::from_int(0);
        let nb = Body {
            position: Vec2 { x, y },
            velocity: Vec2 { x: zero, y: zero },
            mass: zero,
            status: BodyStatus::Static,
            shape: Shape::Rect { half_width: hw, half_height: hh },
        };
        self.bodies.push(nb);
        proof {
            assert(self@ =~= old(self)@.push(nb@));
        }
        Some(handle)
    }

    /// Resolve one started contact between the bodies with handles `a` and
    /// `b`, rewriting their velocities as [`resolve_pair`] says.
    fn resolve_contact(&mut self, a: usize, b: usize, normal: Vec2)
        requires
            world_wf(*old(self)),
            a < old(self)@.len(),
            b < old(self)@.len(),
            a != b,
            vec2_wf(normal),
        ensures
            world_wf(*final(self)),
            final(self)@ == apply_event(
                old(self)@,
                EventV::Started { a: a as int, b: b as int, normal: normal@ },
            ),
    {
        let b1 = self.bodies[a];
        let b2 = self.bodies[b];
        let use_reflect = match b1.shape {
            Shape::Rect { .. } => true,
            _ => match b2.shape {
                Shape::Rect { .. } => true,
                _ => false,
            },
        };
        let ghost pair = resolve_pair(b1@, b2@, normal@);
        if use_reflect {
            let w1 = match reflect_velocity(&b1.velocity, &normal) {
                Some(w) => w,
                None => b1.velocity,
            };
            let w2 = match reflect_velocity(&b2.velocity, &normal) {
                Some(w) => w,
                None => b2.velocity,
            };
            let mut nb1 = b1;
            nb1.velocity = w1;
            let mut nb2 = b2;
            nb2.velocity = w2;
            self.bodies[a] = nb1;
            self.bodies[b] = nb2;
            proof {
                assert(w1@ == pair.0 && w2@ == pair.1);
                assert(self@ =~= apply_event(
                    old(self)@,
                    EventV::Started { a: a as int, b: b as int, normal: normal@ },
                ));
            }
        } else {
            match elastic_velocities(&b1.position, &b1.velocity, &b1.mass, &b2.position,
                &b2.velocity, &b2.mass) {
                Some((w1, w2)) => {
                    let mut nb1 = b1;
                    nb1.velocity = w1;
                    let mut nb2 = b2;
                    nb2.velocity = w2;
                    self.bodies[a] = nb1;
                    self.bodies[b] = nb2;
                    proof {
                        assert(w1@ == pair.0 && w2@ == pair.1);
                        assert(self@ =~= apply_event(
                            old(self)@,
                            EventV::Started { a: a as int, b: b as int, normal: normal@ },
                        ));
                    }
                },
                None => {
                    proof {
                        assert(b1@.velocity == pair.0 && b2@.velocity == pair.1);
                        assert(with_velocity(old(self)@[a as int], pair.0) == old(
                            self,
                        )@[a as int]);
                        assert(with_velocity(old(self)@[b as int], pair.1) == old(
                            self,
                        )@[b as int]);
                        assert(self@ =~= apply_event(
                            old(self)@,
                            EventV::Started { a: a as int, b: b as int, normal: normal@ },
                        ));
                    }
                },
            }
        }
    }

    /// Advance the simulation by one tick of length `dt`: resolve the
    /// reported contacts in order, then integrate all dynamic bodies.
    /// Static bodies never translate; nothing but velocities and dynamic
    /// positions ever changes.
    pub fn step(&mut self, dt: &Rat, events: &Vec<ContactEvent>)
        requires
            world_wf(*old(self)),
            rat_wf(*dt),
            forall|i: int| 0 <= i < events@.len() ==> event_wf(
                (#[trigger] events@[i])@,
                old(self)@.len() as int,
            ),
        ensures
            world_wf(*final(self)),
            final(self)@ == step_spec(
                old(self)@,
                events@.map_values(|e: ContactEvent| e@),
                dt@,
            ),
            final(self)@.len() == old(self)@.len(),
            forall|i: int| 0 <= i < old(self)@.len() ==> {
                &&& (#[trigger] final(self)@[i]).mass == old(self)@[i].mass
                &&& final(self)@[i].status == old(self)@[i].status
                &&& final(self)@[i].shape == old(self)@[i].shape
            },
            forall|i: int| 0 <= i < old(self)@.len() && (#[trigger] old(self)@[i]).status
                is Static ==> final(self)@[i].position == old(self)@[i].position,
    {
        let ghost evs = events@.map_values(|e: ContactEvent| e@);
        let ghost orig: Seq<BodyV> = self@;
        let mut i: usize = 0;
        while i < events.len()
            invariant
                i <= events.len(),
                world_wf(*self),
                self@.len() == orig.len(),
                evs == events@.map_values(|e: ContactEvent| e@),
                evs.len() == events@.len(),
                forall|k: int| 0 <= k < events@.len() ==> event_wf(
                    (#[trigger] events@[k])@,
                    orig.len() as int,
                ),
                apply_events_from(self@, evs, i as int) == apply_events_from(orig, evs, 0),
            decreases events.len() - i,
        {
            let ghost prev = self@;
            let ev = events[i];
            proof {
                assert(evs[i as int] == events@[i as int]@);
            }
            match ev {
                ContactEvent::Started { a, b, normal } => {
                    self.resolve_contact(a, b, normal);
                },
                ContactEvent::Stopped { .. } => {},
            }
            proof {
                assert(self@ == apply_event(prev, evs[i as int]));
                lemma_apply_event_fields(prev, evs[i as int]);
            }
            i = i + 1;
        }
        proof {
            assert(apply_events_from(self@, evs, events@.len() as int) == self@);
            lemma_apply_events_fields(orig, evs, 0);
        }
        let ghost mid: Seq<BodyV> = self@;
        let n = self.bodies.len();
        let mut j: usize = 0;
        while j < n
            invariant
                j <= n,
                n == self@.len(),
                mid.len() == n,
                world_wf(*self),
                rat_wf(*dt),
                forall|k: int| 0 <= k < j as int ==> self@[k] == integrate_one(
                    mid[k],
                    dt@,
                ),
                forall|k: int| j as int <= k < n ==> self@[k] == mid[k],
            decreases n - j,
        {
            let ghost prev2 = self@;
            let bd = self.bodies[j];
            proof {
                assert(bd@ == mid[j as int]);
            }
            match bd.status {
                BodyStatus::Static => {},
                BodyStatus::Dynamic => {
                    match bd.velocity.checked_scale(dt) {
                        Some(delta) => {
                            match bd.position.checked_add(&delta) {
                                Some(p) => {
                                    let mut nb = bd;
                                    nb.position = p;
                                    self.bodies[j] = nb;
                                },
                                None => {},
                            }
                        },
                        None => {},
                    }
                },
            }
            proof {
                assert(self@[j as int] == integrate_one(mid[j as int], dt@));
                assert forall|k: int| 0 <= k < j as int implies self@[k] == integrate_one(
                    mid[k],
                    dt@,
                ) by {
                    assert(self@[k] == prev2[k]);
                }
            }
            j = j + 1;
        }
        proof {
            assert(self@ =~= integrate_all(mid, dt@));
            lemma_integrate_fields(mid, dt@);
        }
    }
}

} // verus!
