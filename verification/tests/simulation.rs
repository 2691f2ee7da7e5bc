use rigid2d::rat::Rat;
use rigid2d::vec2::Vec2;
use rigid2d::body::{Body, BodyStatus, Shape};
use rigid2d::world::{ContactEvent, World};

fn rat(n: i64, d: i64) -> Rat {
    Rat::new(n, d).unwrap()
}

fn ri(i: i64) -> Rat {
    Rat::from_int(i)
}

fn vec2(x: i64, y: i64) -> Vec2 {
    Vec2::new(ri(x), ri(y))
}

fn to_f64(r: &Rat) -> f64 {
    r.num() as f64 / r.den() as f64
}

fn velocity_of(w: &World, h: usize) -> (f64, f64) {
    let b = w.get_body(h).unwrap();
    (to_f64(&b.velocity.x), to_f64(&b.velocity.y))
}

fn body_of(w: &World, h: usize) -> Body {
    w.get_body(h).unwrap()
}

#[test]
fn ball_mass_is_pi_r_squared() {
    let mut w = World::new();
    let h = w.add_ball(ri(0), ri(0), vec2(0, 0), ri(10)).unwrap();
    let b = body_of(&w, h);
    let mass = to_f64(&b.mass);
    let expected = std::f64::consts::PI * 100.0;
    assert!((mass - expected).abs() < 1e-5);
    assert!(matches!(b.status, BodyStatus::Dynamic));
}

#[test]
fn wall_has_half_extents() {
    // add_wall(400, 10, 800, 20) spans x in [0, 800] and y in [0, 20]
    let mut w = World::new();
    let h = w.add_wall(ri(400), ri(10), ri(800), ri(20)).unwrap();
    let b = body_of(&w, h);
    match b.shape {
        Shape::Rect { half_width, half_height } => {
            assert_eq!((half_width.num(), half_width.den()), (400, 1));
            assert_eq!((half_height.num(), half_height.den()), (10, 1));
        },
        Shape::Circle { .. } => panic!("wall must be a box"),
    }
    assert!(matches!(b.status, BodyStatus::Static));
}

#[test]
fn handles_are_sequential() {
    let mut w = World::new();
    let h0 = w.add_wall(ri(1), ri(1), ri(2), ri(2)).unwrap();
    let h1 = w.add_ball(ri(0), ri(0), vec2(0, 0), ri(5)).unwrap();
    let h2 = w.add_ball(ri(9), ri(9), vec2(1, 1), ri(6)).unwrap();
    assert_eq!((h0, h1, h2), (0, 1, 2));
    assert_eq!(w.body_count(), 3);
    let snap = w.iter_bodies();
    assert_eq!(snap.len(), 3);
    for (i, entry) in snap.iter().enumerate() {
        assert_eq!(entry.0, i);
    }
}

#[test]
fn equal_mass_head_on_swaps_velocities() {
    let mut w = World::new();
    let h1 = w.add_ball(ri(0), ri(0), vec2(10, 0), ri(10)).unwrap();
    let h2 = w.add_ball(ri(20), ri(0), vec2(-10, 0), ri(10)).unwrap();
    let events = vec![ContactEvent::Started { a: h1, b: h2, normal: vec2(1, 0) }];
    w.step(&ri(0), &events);
    let b1 = body_of(&w, h1);
    let b2 = body_of(&w, h2);
    assert_eq!((b1.velocity.x.num(), b1.velocity.x.den()), (-10, 1));
    assert_eq!(b1.velocity.y.num(), 0);
    assert_eq!((b2.velocity.x.num(), b2.velocity.x.den()), (10, 1));
    assert_eq!(b2.velocity.y.num(), 0);
}

#[test]
fn circle_against_box_reflects() {
    let mut w = World::new();
    let wall = w.add_wall(ri(0), ri(50), ri(200), ri(20)).unwrap();
    let ball = w.add_ball(ri(0), ri(30), vec2(5, 5), ri(10)).unwrap();
    let events = vec![ContactEvent::Started { a: ball, b: wall, normal: vec2(0, 1) }];
    w.step(&ri(0), &events);
    let b = body_of(&w, ball);
    assert_eq!((b.velocity.x.num(), b.velocity.x.den()), (5, 1));
    assert_eq!((b.velocity.y.num(), b.velocity.y.den()), (-5, 1));
}

#[test]
fn static_bodies_never_translate() {
    let mut w = World::new();
    let wall = w.add_wall(ri(400), ri(10), ri(800), ri(20)).unwrap();
    let ball = w.add_ball(ri(100), ri(100), vec2(7, -3), ri(10)).unwrap();
    let dt = ri(1);
    let hit = vec![ContactEvent::Started { a: ball, b: wall, normal: vec2(0, 1) }];
    w.step(&dt, &vec![]);
    w.step(&dt, &hit);
    w.step(&dt, &vec![]);
    let b = body_of(&w, wall);
    assert_eq!((b.position.x.num(), b.position.x.den()), (400, 1));
    assert_eq!((b.position.y.num(), b.position.y.den()), (10, 1));
    // the ball, by contrast, moved
    let m = body_of(&w, ball);
    assert_ne!(m.position.x.num(), 100);
}

#[test]
fn identical_centers_skip_resolution() {
    let mut w = World::new();
    let h1 = w.add_ball(ri(5), ri(5), vec2(1, 2), ri(10)).unwrap();
    let h2 = w.add_ball(ri(5), ri(5), vec2(3, 4), ri(10)).unwrap();
    let events = vec![ContactEvent::Started { a: h1, b: h2, normal: vec2(1, 0) }];
    w.step(&ri(0), &events);
    assert_eq!(velocity_of(&w, h1), (1.0, 2.0));
    assert_eq!(velocity_of(&w, h2), (3.0, 4.0));
}

#[test]
fn stopped_events_do_nothing() {
    let mut w = World::new();
    let h1 = w.add_ball(ri(0), ri(0), vec2(2, 3), ri(10)).unwrap();
    let h2 = w.add_ball(ri(40), ri(0), vec2(0, 0), ri(10)).unwrap();
    let events = vec![ContactEvent::Stopped { a: h1, b: h2 }];
    w.step(&rat(1, 2), &events);
    // velocities untouched, position integrated by velocity * dt
    assert_eq!(velocity_of(&w, h1), (2.0, 3.0));
    let b = body_of(&w, h1);
    assert_eq!((b.position.x.num(), b.position.x.den()), (1, 1));
    assert_eq!((b.position.y.num(), b.position.y.den()), (3, 2));
}

#[test]
fn collision_conserves_momentum_and_energy() {
    let mut w = World::new();
    let h1 = w.add_ball(ri(0), ri(0), vec2(4, 1), ri(10)).unwrap();
    let h2 = w.add_ball(ri(30), ri(0), vec2(-2, 3), ri(20)).unwrap();
    let m1 = to_f64(&body_of(&w, h1).mass);
    let m2 = to_f64(&body_of(&w, h2).mass);
    let (v1x, v1y) = velocity_of(&w, h1);
    let (v2x, v2y) = velocity_of(&w, h2);
    let momentum_before = (m1 * v1x + m2 * v2x, m1 * v1y + m2 * v2y);
    let energy_before = 0.5 * m1 * (v1x * v1x + v1y * v1y) + 0.5 * m2 * (v2x * v2x + v2y * v2y);
    let events = vec![ContactEvent::Started { a: h1, b: h2, normal: vec2(1, 0) }];
    w.step(&ri(0), &events);
    let (w1x, w1y) = velocity_of(&w, h1);
    let (w2x, w2y) = velocity_of(&w, h2);
    // the collision actually changed the along-axis velocities
    assert_ne!((v1x, v1y), (w1x, w1y));
    let momentum_after = (m1 * w1x + m2 * w2x, m1 * w1y + m2 * w2y);
    let energy_after = 0.5 * m1 * (w1x * w1x + w1y * w1y) + 0.5 * m2 * (w2x * w2x + w2y * w2y);
    assert!((momentum_before.0 - momentum_after.0).abs() < 1e-6);
    assert!((momentum_before.1 - momentum_after.1).abs() < 1e-6);
    assert!((energy_before - energy_after).abs() < 1e-6);
}

#[test]
fn perpendicular_component_is_untouched() {
    // collision axis is x; the y components of both velocities survive
    let mut w = World::new();
    let h1 = w.add_ball(ri(0), ri(0), vec2(4, 1), ri(10)).unwrap();
    let h2 = w.add_ball(ri(30), ri(0), vec2(-2, 3), ri(20)).unwrap();
    let events = vec![ContactEvent::Started { a: h1, b: h2, normal: vec2(1, 0) }];
    w.step(&ri(0), &events);
    let b1 = body_of(&w, h1);
    let b2 = body_of(&w, h2);
    assert_eq!((b1.velocity.y.num(), b1.velocity.y.den()), (1, 1));
    assert_eq!((b2.velocity.y.num(), b2.velocity.y.den()), (3, 1));
}
