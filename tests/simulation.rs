use bevy_box::clock::StepClock;
use bevy_box::resolver::{bounce_pair, resolve_pair, separate_pair, Axis};
use bevy_box::narrow_phase::{circle_box_overlap, circles_overlap, cuboid_contact, Contact};
use bevy_box::shape::PhysicsError;
use bevy_box::world::{Body, BodyKind, World};

fn body(kind: BodyKind, x: i32, y: i32, vx: i32, vy: i32) -> Body {
    Body { kind, x, y, vx, vy, frozen: false }
}

#[test]
fn handles_go_stale_after_removal() {
    let mut w = World::new(0, -1);
    let a = w.add_body(body(BodyKind::Dynamic, 1, 2, 0, 0));
    let b = w.add_body(body(BodyKind::Static, 5, 5, 0, 0));
    assert_eq!(w.get(a), Ok(body(BodyKind::Dynamic, 1, 2, 0, 0)));
    assert_eq!(w.remove(a), Ok(body(BodyKind::Dynamic, 1, 2, 0, 0)));
    assert_eq!(w.get(a), Err(PhysicsError::InvalidHandle));
    assert_eq!(w.remove(a), Err(PhysicsError::InvalidHandle));
    let c = w.add_body(body(BodyKind::Dynamic, 7, 7, 0, 0));
    assert_eq!(c.index, a.index);
    assert_ne!(c.generation, a.generation);
    assert_eq!(w.get(a), Err(PhysicsError::InvalidHandle));
    assert_eq!(w.get(c), Ok(body(BodyKind::Dynamic, 7, 7, 0, 0)));
    assert_eq!(w.get(b), Ok(body(BodyKind::Static, 5, 5, 0, 0)));
    assert_eq!(w.len_slots(), 2);
    assert_eq!(w.set_velocity(a, 1, 1), Err(PhysicsError::InvalidHandle));
}

#[test]
fn semi_implicit_euler_step() {
    let mut w = World::new(0, -2);
    let d = w.add_body(body(BodyKind::Dynamic, 0, 100, 3, 0));
    let k = w.add_body(body(BodyKind::KinematicPositionBased, 0, 0, 1, 1));
    let s = w.add_body(body(BodyKind::Static, 9, 9, 4, 4));
    w.step();
    assert_eq!(w.get(d), Ok(body(BodyKind::Dynamic, 3, 98, 3, -2)));
    assert_eq!(w.get(k), Ok(body(BodyKind::KinematicPositionBased, 1, 1, 1, 1)));
    assert_eq!(w.get(s), Ok(body(BodyKind::Static, 9, 9, 4, 4)));
    w.step();
    assert_eq!(w.get(d), Ok(body(BodyKind::Dynamic, 6, 94, 3, -4)));
    assert_eq!(w.set_velocity(k, -1, 0), Ok(()));
    w.step_n(3);
    assert_eq!(w.get(k), Ok(body(BodyKind::KinematicPositionBased, -1, 2, -1, 0)));
}

#[test]
fn overflow_freezes_the_body() {
    let mut w = World::new(0, 0);
    let d = w.add_body(body(BodyKind::Dynamic, i32::MAX, 0, 1, 0));
    w.step();
    let frozen = Body { kind: BodyKind::Dynamic, x: i32::MAX, y: 0, vx: 0, vy: 0, frozen: true };
    assert_eq!(w.get(d), Ok(frozen));
    w.step_n(10);
    assert_eq!(w.get(d), Ok(frozen));
}

#[test]
fn stepping_is_reproducible() {
    let build = || {
        let mut w = World::new(1, -3);
        let mut hs = Vec::new();
        for i in 0..10 {
            hs.push(w.add_body(body(BodyKind::Dynamic, i, -i, i % 3, 2 - i % 5)));
        }
        (w, hs)
    };
    let (mut w1, h1) = build();
    let (mut w2, h2) = build();
    w1.step_n(250);
    w2.step_n(250);
    for (a, b) in h1.iter().zip(h2.iter()) {
        assert_eq!(w1.get(*a), w2.get(*b));
    }
}

#[test]
fn resolver_never_moves_static_or_kinematic() {
    let mut w = World::new(0, 0);
    let s = w.add_body(body(BodyKind::Static, 0, 0, 0, 0));
    let k = w.add_body(body(BodyKind::KinematicPositionBased, 1, 0, 2, 0));
    let d = w.add_body(body(BodyKind::Dynamic, 2, 0, -4, 0));
    assert_eq!(w.separate(s, k, 5, 5), Ok(()));
    assert_eq!(w.bounce(k, s, Axis::X, 1000), Ok(()));
    assert_eq!(w.get(s), Ok(body(BodyKind::Static, 0, 0, 0, 0)));
    assert_eq!(w.get(k), Ok(body(BodyKind::KinematicPositionBased, 1, 0, 2, 0)));
    assert_eq!(w.separate(s, d, 1, 0), Ok(()));
    assert_eq!(w.get(d), Ok(body(BodyKind::Dynamic, 4, 0, -4, 0)));
    assert_eq!(w.bounce(s, d, Axis::X, 1000), Ok(()));
    assert_eq!(w.get(d), Ok(body(BodyKind::Dynamic, 4, 0, 4, 0)));
    assert_eq!(w.get(s), Ok(body(BodyKind::Static, 0, 0, 0, 0)));
    assert_eq!(w.separate(d, d, 1, 0), Err(PhysicsError::InvalidHandle));
}

#[test]
fn separation_splits_between_movable_bodies() {
    let a = body(BodyKind::Dynamic, 0, 0, 0, 0);
    let b = body(BodyKind::Dynamic, 1, 0, 0, 0);
    assert_eq!(
        separate_pair(a, b, 2, 1),
        (body(BodyKind::Dynamic, -2, -1, 0, 0), body(BodyKind::Dynamic, 3, 1, 0, 0))
    );
    let s = body(BodyKind::Static, 1, 0, 0, 0);
    assert_eq!(separate_pair(a, s, 2, 0), (body(BodyKind::Dynamic, -4, 0, 0, 0), s));
}

#[test]
fn equal_masses_exchange_velocities() {
    let a = body(BodyKind::Dynamic, 0, 0, 7, 1);
    let b = body(BodyKind::Dynamic, 2, 0, -3, 4);
    let (na, nb) = bounce_pair(a, b, Axis::X, 1000);
    assert_eq!((na.vx, na.vy), (-3, 1));
    assert_eq!((nb.vx, nb.vy), (7, 4));
    // separating bodies are left alone
    assert_eq!(bounce_pair(b, a, Axis::X, 1000), (b, a));
    // restitution 0: both end with the common velocity
    let (na, nb) = bounce_pair(a, b, Axis::X, 0);
    assert_eq!((na.vx, nb.vx), (2, 2));
    // half restitution against a wall
    let wall = body(BodyKind::Static, 5, 0, 0, 0);
    let (na, _) = bounce_pair(a, wall, Axis::X, 500);
    assert_eq!(na.vx, 7 - 10);
}

#[test]
fn head_on_circles_swap_velocities() {
    // two circles of radius 10 at x = -11 and x = 11, closing at 5 units a step
    let mut w = World::new(0, 0);
    let a = w.add_body(body(BodyKind::Dynamic, -11, 0, 5, 0));
    let b = w.add_body(body(BodyKind::Dynamic, 11, 0, -5, 0));
    let mut touched = false;
    for _ in 0..10 {
        w.step();
        let (ba, bb) = (w.get(a).unwrap(), w.get(b).unwrap());
        if circles_overlap(ba.x, ba.y, 10, bb.x, bb.y, 10) {
            assert_eq!(w.bounce(a, b, Axis::X, 1000), Ok(()));
            touched = true;
            break;
        }
    }
    assert!(touched);
    assert_eq!(w.get(a).unwrap().vx, -5);
    assert_eq!(w.get(b).unwrap().vx, 5);
}

#[test]
fn resting_circle_does_not_sink() {
    // a circle of radius 10 dropped onto a static floor whose top is y = 0
    let mut w = World::new(0, -1);
    let floor = w.add_body(body(BodyKind::Static, 0, -10, 0, 0));
    let ball = w.add_body(body(BodyKind::Dynamic, 0, 40, 0, 0));
    let mut deepest = 0;
    for n in 0..600 {
        w.step();
        let c = w.get(ball).unwrap();
        let depth = 10 - c.y;
        assert_eq!(depth > 0, circle_box_overlap(c.x, c.y, 10, 0, -10, 100, 10));
        if depth >= 0 {
            assert_eq!(w.separate(floor, ball, 0, (depth + 1) / 2), Ok(()));
            assert_eq!(w.bounce(floor, ball, Axis::Y, 0), Ok(()));
        }
        if n > 100 {
            deepest = deepest.max(depth);
        }
    }
    assert!(deepest <= 1);
    assert!(w.get(ball).unwrap().y >= 9);
}

#[test]
fn fixed_step_clock() {
    assert!(StepClock::new(0).is_none());
    let mut c = StepClock::new(16_667).unwrap();
    assert_eq!(c.advance(40_000), 2);
    assert_eq!(c.advance(10_000), 0);
    assert_eq!(c.advance(1), 1);
    assert_eq!(c.advance(0), 0);
    assert_eq!(c.advance(u64::MAX), u64::MAX / 16_667 + 0);
}

#[test]
fn contact_response_orders_the_pair() {
    let upper = body(BodyKind::Dynamic, 0, 3, 0, -4);
    let floor = body(BodyKind::Static, 0, 0, 0, 0);
    let c = Contact { axis: Axis::Y, positive: false, depth: 3 };
    let (nu, nf) = resolve_pair(upper, floor, c, 1000);
    assert_eq!(nf, floor);
    assert_eq!(nu, body(BodyKind::Dynamic, 0, 7, 0, 4));
}

#[test]
fn falling_box_comes_to_rest() {
    let mut w = World::new(0, -1);
    let floor = w.add_body(body(BodyKind::Static, 0, 0, 0, 0));
    let crate_box = w.add_body(body(BodyKind::Dynamic, 1, 30, 0, 0));
    for _ in 0..600 {
        w.step();
        let f = w.get(floor).unwrap();
        let b = w.get(crate_box).unwrap();
        if let Some(c) = cuboid_contact(f.x, f.y, 50, 1, b.x, b.y, 2, 2) {
            assert_eq!(w.resolve(floor, crate_box, c, 0), Ok(()));
        }
    }
    let b = w.get(crate_box).unwrap();
    assert!(b.y >= 2 && b.y <= 4);
    assert_eq!(w.get(floor), Ok(body(BodyKind::Static, 0, 0, 0, 0)));
}

#[test]
fn static_body_meets_contacts_at_rest() {
    // the velocity stored on a static body takes no part in a contact
    let wall = body(BodyKind::Static, 10, 0, -100, 0);
    let ball = body(BodyKind::Dynamic, 0, 0, 3, 0);
    let (nb, nw) = bounce_pair(ball, wall, Axis::X, 1000);
    assert_eq!(nb.vx, -3);
    assert_eq!(nw, wall);
    let receding = body(BodyKind::Dynamic, 0, 0, -3, 0);
    assert_eq!(bounce_pair(receding, wall, Axis::X, 1000), (receding, wall));
}

#[test]
fn restitution_combines_by_minimum() {
    assert_eq!(bevy_box::resolver::combined_restitution(990, 1000), 990);
    assert_eq!(bevy_box::resolver::combined_restitution(1000, 0), 0);
    assert_eq!(bevy_box::resolver::combined_restitution(500, 500), 500);
}
