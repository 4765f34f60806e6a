use vstd::prelude::*;

use crate::narrow_phase::{cuboid_contact_spec, Contact};
use crate::shape::PhysicsError;
use crate::world::{
    body_of, displaced, fits, freeze, integrate, is_live, Body, BodyKind, Handle, Slot, World,
};

verus! {

/// The world axis along which a contact normal points.
#[derive(Debug, Clone, Copy, PartialEq, Eq, Structural)]
pub enum Axis {
    X,
    Y,
}

/// Full restitution, in thousandths.
pub const RESTITUTION_SCALE: u16 = 1000;

/// Restitution of a contact between two colliders: the smaller of their
/// coefficients, so that a dull surface damps any bounce off it.
pub fn combined_restitution(a: u16, b: u16) -> (r: u16)
    ensures
        r == if a <= b {
            a
        } else {
            b
        },
{
    if a <= b {
        a
    } else {
        b
    }
}

/// Only a dynamic body that is not frozen is moved by contacts.
pub open spec fn movable(b: Body) -> bool {
    b.kind == BodyKind::Dynamic && !b.frozen
}

pub open spec fn velocity_along(b: Body, axis: Axis) -> int {
    match axis {
        Axis::X => b.vx as int,
        Axis::Y => b.vy as int,
    }
}

/// Velocity along `axis` with which a body meets a contact: a static body
/// never moves, whatever velocity it stores.
pub open spec fn contact_velocity(b: Body, axis: Axis) -> int {
    if b.kind == BodyKind::Static {
        0
    } else {
        velocity_along(b, axis)
    }
}

/// The body with its velocity along `axis` replaced, or frozen where the new
/// velocity would leave the representable range.
pub open spec fn with_velocity_along(b: Body, axis: Axis, v: int) -> Body {
    if !fits(v) {
        freeze(b)
    } else {
        match axis {
            Axis::X => Body { vx: v as i32, ..b },
            Axis::Y => Body { vy: v as i32, ..b },
        }
    }
}

/// Positional correction of a contact between `a` and `b`: movable bodies
/// are pushed apart, `a` towards `-push` and `b` towards `+push`. Where only
/// one of them is movable it takes the whole separation, twice the push.
pub open spec fn separated(a: Body, b: Body, px: int, py: int) -> (Body, Body) {
    if movable(a) && movable(b) {
        (displaced(a, -px, -py), displaced(b, px, py))
    } else if movable(a) {
        (displaced(a, -2 * px, -2 * py), b)
    } else if movable(b) {
        (a, displaced(b, 2 * px, 2 * py))
    } else {
        (a, b)
    }
}

/// Velocity change of a contact between equal masses, with the normal
/// pointing from `a` to `b` along `axis` and the combined restitution `e`
/// in thousandths. Bodies that already separate are left alone; otherwise
/// two movable bodies share the impulse equally, and a single movable body
/// rebounds off an immovable one.
pub open spec fn bounced(a: Body, b: Body, axis: Axis, e: int) -> (Body, Body) {
    let va = contact_velocity(a, axis);
    let vb = contact_velocity(b, axis);
    let closing = va - vb;
    if closing <= 0 {
        (a, b)
    } else if movable(a) && movable(b) {
        let change = (1000 + e) * closing / 2000;
        (with_velocity_along(a, axis, va - change), with_velocity_along(b, axis, vb + change))
    } else if movable(a) {
        (with_velocity_along(a, axis, va - (1000 + e) * closing / 1000), b)
    } else if movable(b) {
        (a, with_velocity_along(b, axis, vb + (1000 + e) * closing / 1000))
    } else {
        (a, b)
    }
}

/// The arena with the bodies of `a` and `b` replaced by `na` and `nb`.
pub open spec fn replaced(slots: Seq<Slot>, a: Handle, na: Body, b: Handle, nb: Body) -> Seq<Slot> {
    slots.update(a.index as int, Slot { generation: a.generation, body: Some(na) }).update(
        b.index as int,
        Slot { generation: b.generation, body: Some(nb) },
    )
}

/// Whether a contact between `a` and `b` can be resolved: both are live and
/// distinct.
pub open spec fn valid_pair(slots: Seq<Slot>, a: Handle, b: Handle) -> bool {
    is_live(slots, a) && is_live(slots, b) && a.index != b.index
}

/// Static and kinematic bodies keep their state: contacts never move them.
pub open spec fn immovables_kept(before: Seq<Slot>, after: Seq<Slot>) -> bool {
    forall|h: Handle|
        #[trigger] is_live(before, h) && body_of(before, h).kind != BodyKind::Dynamic ==> is_live(
            after,
            h,
        ) && body_of(after, h) == body_of(before, h)
}

fn displace_wide(b: Body, dx: i64, dy: i64) -> (r: Body)
    requires
        -0x1_0000_0000_0000 <= dx <= 0x1_0000_0000_0000,
        -0x1_0000_0000_0000 <= dy <= 0x1_0000_0000_0000,
    ensures
        r == displaced(b, dx as int, dy as int),
{
    let nx: i64 = b.x as i64 + dx;
    let ny: i64 = b.y as i64 + dy;
    if nx < i32::MIN as i64 || nx > i32::MAX as i64 || ny < i32::MIN as i64 || ny > i32::MAX as i64 {
        Body { vx: 0, vy: 0, frozen: true, ..b }
    } else {
        Body { x: nx as i32, y: ny as i32, ..b }
    }
}

fn set_velocity_along(b: Body, axis: Axis, v: i64) -> (r: Body)
    ensures
        r == with_velocity_along(b, axis, v as int),
{
    if v < i32::MIN as i64 || v > i32::MAX as i64 {
        Body { vx: 0, vy: 0, frozen: true, ..b }
    } else {
        match axis {
            Axis::X => Body { vx: v as i32, ..b },
            Axis::Y => Body { vy: v as i32, ..b },
        }
    }
}

fn speed_in_contact(b: &Body, axis: Axis) -> (r: i64)
    ensures
        r == contact_velocity(*b, axis),
{
    if b.kind == BodyKind::Static {
        0
    } else {
        match axis {
            Axis::X => b.vx as i64,
            Axis::Y => b.vy as i64,
        }
    }
}

fn is_movable(b: &Body) -> (r: bool)
    ensures
        r == movable(*b),
{
    b.kind == BodyKind::Dynamic && !b.frozen
}

/// The pair after positional correction.
pub fn separate_pair(a: Body, b: Body, push_x: i32, push_y: i32) -> (r: (Body, Body))
    ensures
        r == separated(a, b, push_x as int, push_y as int),
{
    separate_wide(a, b, push_x as i64, push_y as i64)
}

fn separate_wide(a: Body, b: Body, px: i64, py: i64) -> (r: (Body, Body))
    requires
        -MAX_PUSH <= px <= MAX_PUSH,
        -MAX_PUSH <= py <= MAX_PUSH,
    ensures
        r == separated(a, b, px as int, py as int),
{
    if is_movable(&a) && is_movable(&b) {
        (displace_wide(a, -px, -py), displace_wide(b, px, py))
    } else if is_movable(&a) {
        (displace_wide(a, -(2 * px), -(2 * py)), b)
    } else if is_movable(&b) {
        (a, displace_wide(b, 2 * px, 2 * py))
    } else {
        (a, b)
    }
}

/// Largest push the resolver handles; any larger one would move a body far
/// out of the representable range anyway.
pub const MAX_PUSH: i64 = 0x8000_0000_0000;

/// Push that resolves a contact: half its depth, rounded up, along its axis
/// in the direction of the normal from the first body to the second.
pub open spec fn contact_push(c: Contact) -> (int, int) {
    let p = (c.depth + 1) / 2;
    match c.axis {
        Axis::X => (p, 0),
        Axis::Y => (0, p),
    }
}

/// Full response to a contact of `a` with `b`: positional correction, then
/// the velocity impulse, both taken with the normal pointing from the lower
/// body to the upper one along the contact's axis.
pub open spec fn resolved(a: Body, b: Body, c: Contact, e: int) -> (Body, Body) {
    let (px, py) = contact_push(c);
    if c.positive {
        let (sa, sb) = separated(a, b, px, py);
        bounced(sa, sb, c.axis, e)
    } else {
        let (sb, sa) = separated(b, a, px, py);
        let (nb, na) = bounced(sb, sa, c.axis, e);
        (na, nb)
    }
}

/// The pair after the full response to their contact.
pub fn resolve_pair(a: Body, b: Body, c: Contact, restitution: u16) -> (r: (Body, Body))
    requires
        c.depth <= MAX_PUSH,
        restitution <= RESTITUTION_SCALE,
    ensures
        r == resolved(a, b, c, restitution as int),
{
    let p: i64 = ((c.depth + 1) / 2) as i64;
    let (px, py): (i64, i64) = match c.axis {
        Axis::X => (p, 0),
        Axis::Y => (0, p),
    };
    if c.positive {
        let (sa, sb) = separate_wide(a, b, px, py);
        bounce_pair(sa, sb, c.axis, restitution)
    } else {
        let (sb, sa) = separate_wide(b, a, px, py);
        let (nb, na) = bounce_pair(sb, sa, c.axis, restitution);
        (na, nb)
    }
}

/// The pair after the velocity impulse of their contact.
pub fn bounce_pair(a: Body, b: Body, axis: Axis, restitution: u16) -> (r: (Body, Body))
    requires
        restitution <= RESTITUTION_SCALE,
    ensures
        r == bounced(a, b, axis, restitution as int),
{
    let va: i64 = speed_in_contact(&a, axis);
    let vb: i64 = speed_in_contact(&b, axis);
    let closing: i64 = va - vb;
    if closing <= 0 {
        return (a, b);
    }
    let k: i64 = 1000 + restitution as i64;
    assert(0 < k * closing <= 2000 * 0x1_0000_0000) by (nonlinear_arith)
        requires
            1000 <= k <= 2000,
            0 < closing <= 0x1_0000_0000,
    ;
    let scaled: u64 = (k * closing) as u64;
    if is_movable(&a) && is_movable(&b) {
        let change: i64 = (scaled / 2000) as i64;
        (set_velocity_along(a, axis, va - change), set_velocity_along(b, axis, vb + change))
    } else if is_movable(&a) {
        let change: i64 = (scaled / 1000) as i64;
        (set_velocity_along(a, axis, va - change), b)
    } else if is_movable(&b) {
        let change: i64 = (scaled / 1000) as i64;
        (a, set_velocity_along(b, axis, vb + change))
    } else {
        (a, b)
    }
}

/// Two movable bodies of equal mass that close in on each other along the
/// contact normal, with full restitution, exchange their velocities along it.
pub proof fn lemma_elastic_exchange(a: Body, b: Body, axis: Axis)
    requires
        movable(a),
        movable(b),
        velocity_along(a, axis) > velocity_along(b, axis),
    ensures
        velocity_along(bounced(a, b, axis, 1000).0, axis) == velocity_along(b, axis),
        velocity_along(bounced(a, b, axis, 1000).1, axis) == velocity_along(a, axis),
        !bounced(a, b, axis, 1000).0.frozen,
        !bounced(a, b, axis, 1000).1.frozen,
{
    let closing = velocity_along(a, axis) - velocity_along(b, axis);
    assert((1000 + 1000) * closing / 2000 == closing) by (nonlinear_arith);
}

/// One round of a box of half-extents `(hw, hh)` over a static box `floor`
/// of half-extents `(fhw, fhh)`: a step under unit downward gravity, then,
/// when the boxes touch, the full inelastic response to their contact.
pub open spec fn floor_round(floor: Body, fhw: int, fhh: int, b: Body, hw: int, hh: int) -> Body {
    let m = integrate(b, 0, -1);
    match cuboid_contact_spec(
        floor.x as int,
        floor.y as int,
        fhw,
        fhh,
        m.x as int,
        m.y as int,
        hw,
        hh,
    ) {
        Some(c) => resolved(floor, m, c, 0).1,
        None => m,
    }
}

pub open spec fn floor_rounds(
    floor: Body,
    fhw: int,
    fhh: int,
    b: Body,
    hw: int,
    hh: int,
    n: nat,
) -> Body
    decreases n,
{
    if n == 0 {
        b
    } else {
        floor_round(floor, fhw, fhh, floor_rounds(floor, fhw, fhh, b, hw, hh, (n - 1) as nat), hw, hh)
    }
}

/// Height at which a box of half-height `hh` rests on the top face of `floor`.
pub open spec fn rest_height(floor: Body, fhh: int, hh: int) -> int {
    floor.y + fhh + hh
}

/// A box at rest on a static box, well inside its top face, stays at rest:
/// over any number of rounds it never sinks more than one unit into the
/// floor, and the response lifts it back to at most one unit above rest.
pub proof fn lemma_resting_box_does_not_sink(
    floor: Body,
    fhw: int,
    fhh: int,
    b: Body,
    hw: int,
    hh: int,
    n: nat,
)
    requires
        floor.kind == BodyKind::Static,
        b.kind == BodyKind::Dynamic,
        !b.frozen,
        b.vx == 0,
        b.vy == 0,
        1 <= hw,
        1 <= hh,
        1 <= fhh,
        abs_diff(b.x as int, floor.x as int) + hw <= fhw,
        rest_height(floor, fhh, hh) <= b.y <= rest_height(floor, fhh, hh) + 1,
        i32::MIN + 1 <= rest_height(floor, fhh, hh) <= i32::MAX - 1,
    ensures
        ({
            let s = floor_rounds(floor, fhw, fhh, b, hw, hh, n);
            &&& s.kind == BodyKind::Dynamic
            &&& !s.frozen
            &&& s.x == b.x
            &&& s.vx == 0
            &&& s.vy == 0
            &&& rest_height(floor, fhh, hh) <= s.y <= rest_height(floor, fhh, hh) + 1
            &&& integrate(s, 0, -1).y >= rest_height(floor, fhh, hh) - 1
        }),
    decreases n,
{
    if n > 0 {
        lemma_resting_box_does_not_sink(floor, fhw, fhh, b, hw, hh, (n - 1) as nat);
        lemma_floor_round_at_rest(
            floor,
            fhw,
            fhh,
            floor_rounds(floor, fhw, fhh, b, hw, hh, (n - 1) as nat),
            hw,
            hh,
        );
    } else {
        lemma_floor_round_at_rest(floor, fhw, fhh, b, hw, hh);
    }
}

proof fn lemma_floor_round_at_rest(floor: Body, fhw: int, fhh: int, s: Body, hw: int, hh: int)
    requires
        floor.kind == BodyKind::Static,
        s.kind == BodyKind::Dynamic,
        !s.frozen,
        s.vx == 0,
        s.vy == 0,
        1 <= hw,
        1 <= hh,
        1 <= fhh,
        abs_diff(s.x as int, floor.x as int) + hw <= fhw,
        rest_height(floor, fhh, hh) <= s.y <= rest_height(floor, fhh, hh) + 1,
        i32::MIN + 1 <= rest_height(floor, fhh, hh) <= i32::MAX - 1,
    ensures
        ({
            let t = floor_round(floor, fhw, fhh, s, hw, hh);
            &&& t.kind == BodyKind::Dynamic
            &&& !t.frozen
            &&& t.x == s.x
            &&& t.vx == 0
            &&& t.vy == 0
            &&& rest_height(floor, fhh, hh) <= t.y <= rest_height(floor, fhh, hh) + 1
        }),
        integrate(s, 0, -1).y >= rest_height(floor, fhh, hh) - 1,
{
    let rest = rest_height(floor, fhh, hh);
    let m = integrate(s, 0, -1);
    assert(m == Body { vy: -1i32, y: (s.y - 1) as i32, ..s });
    let depth = rest - m.y;
    assert(0 <= depth <= 1);
    let c = Contact { axis: Axis::Y, positive: true, depth: depth as u64 };
    assert(m.y > floor.y);
    assert(crate::narrow_phase::overlap_1d(floor.y as int, fhh, m.y as int, hh) == depth);
    assert(crate::narrow_phase::overlap_1d(floor.x as int, fhw, m.x as int, hw) >= 2);
    assert(cuboid_contact_spec(
        floor.x as int,
        floor.y as int,
        fhw,
        fhh,
        m.x as int,
        m.y as int,
        hw,
        hh,
    ) == Some(c));
    let p = (c.depth + 1) / 2;
    assert(p == depth);
    let (sa, sb) = separated(floor, m, 0, p);
    assert(sa == floor);
    assert(sb == Body { y: (m.y + 2 * p) as i32, ..m });
    assert(!movable(sa) && movable(sb));
    assert(contact_velocity(sa, Axis::Y) - contact_velocity(sb, Axis::Y) == 1);
    assert((1000 + 0) * 1 / 1000 == 1) by (nonlinear_arith);
    let (na, nb) = bounced(sa, sb, Axis::Y, 0);
    assert(nb == Body { vy: 0i32, ..sb });
}

pub open spec fn abs_diff(a: int, b: int) -> int {
    if a < b {
        b - a
    } else {
        a - b
    }
}

impl World {
    /// Positional correction of the contact between the bodies of `a` and
    /// `b` (see `separated`).
    pub fn separate(&mut self, a: Handle, b: Handle, push_x: i32, push_y: i32) -> (r: Result<
        (),
        PhysicsError,
    >)
        ensures
            valid_pair(old(self)@, a, b) ==> r == Ok::<(), PhysicsError>(()) && {
                let (na, nb) = separated(
                    body_of(old(self)@, a),
                    body_of(old(self)@, b),
                    push_x as int,
                    push_y as int,
                );
                final(self)@ == replaced(old(self)@, a, na, b, nb)
            },
            !valid_pair(old(self)@, a, b) ==> r == Err::<(), PhysicsError>(
                PhysicsError::InvalidHandle,
            ) && final(self)@ == old(self)@,
            immovables_kept(old(self)@, final(self)@),
            final(self).gravity() == old(self).gravity(),
    {
        let (ba, bb) = match self.pair(a, b) {
            Ok(p) => p,
            Err(e) => return Err(e),
        };
        let (na, nb) = separate_pair(ba, bb, push_x, push_y);
        self.replace_body(a, na);
        self.replace_body(b, nb);
        Ok(())
    }

    /// Velocity impulse of the contact between the bodies of `a` and `b`,
    /// whose normal points from `a` to `b` along `axis` (see `bounced`).
    pub fn bounce(&mut self, a: Handle, b: Handle, axis: Axis, restitution: u16) -> (r: Result<
        (),
        PhysicsError,
    >)
        requires
            restitution <= RESTITUTION_SCALE,
        ensures
            valid_pair(old(self)@, a, b) ==> r == Ok::<(), PhysicsError>(()) && {
                let (na, nb) = bounced(
                    body_of(old(self)@, a),
                    body_of(old(self)@, b),
                    axis,
                    restitution as int,
                );
                final(self)@ == replaced(old(self)@, a, na, b, nb)
            },
            !valid_pair(old(self)@, a, b) ==> r == Err::<(), PhysicsError>(
                PhysicsError::InvalidHandle,
            ) && final(self)@ == old(self)@,
            immovables_kept(old(self)@, final(self)@),
            final(self).gravity() == old(self).gravity(),
    {
        let (ba, bb) = match self.pair(a, b) {
            Ok(p) => p,
            Err(e) => return Err(e),
        };
        let (na, nb) = bounce_pair(ba, bb, axis, restitution);
        self.replace_body(a, na);
        self.replace_body(b, nb);
        Ok(())
    }

    /// Full response to the contact `c` of the body of `a` with the body of
    /// `b` (see `resolved`).
    pub fn resolve(&mut self, a: Handle, b: Handle, c: Contact, restitution: u16) -> (r: Result<
        (),
        PhysicsError,
    >)
        requires
            c.depth <= MAX_PUSH,
            restitution <= RESTITUTION_SCALE,
        ensures
            valid_pair(old(self)@, a, b) ==> r == Ok::<(), PhysicsError>(()) && {
                let (na, nb) = resolved(
                    body_of(old(self)@, a),
                    body_of(old(self)@, b),
                    c,
                    restitution as int,
                );
                final(self)@ == replaced(old(self)@, a, na, b, nb)
            },
            !valid_pair(old(self)@, a, b) ==> r == Err::<(), PhysicsError>(
                PhysicsError::InvalidHandle,
            ) && final(self)@ == old(self)@,
            immovables_kept(old(self)@, final(self)@),
            final(self).gravity() == old(self).gravity(),
    {
        let (ba, bb) = match self.pair(a, b) {
            Ok(p) => p,
            Err(e) => return Err(e),
        };
        let (na, nb) = resolve_pair(ba, bb, c, restitution);
        self.replace_body(a, na);
        self.replace_body(b, nb);
        Ok(())
    }

    fn pair(&self, a: Handle, b: Handle) -> (r: Result<(Body, Body), PhysicsError>)
        ensures
            valid_pair(self@, a, b) ==> r == Ok::<(Body, Body), PhysicsError>(
                (body_of(self@, a), body_of(self@, b)),
            ),
            !valid_pair(self@, a, b) ==> r == Err::<(Body, Body), PhysicsError>(
                PhysicsError::InvalidHandle,
            ),
    {
        if a.index == b.index {
            return Err(PhysicsError::InvalidHandle);
        }
        let ba = match self.get(a) {
            Ok(x) => x,
            Err(e) => return Err(e),
        };
        let bb = match self.get(b) {
            Ok(x) => x,
            Err(e) => return Err(e),
        };
        Ok((ba, bb))
    }
}

} // verus!
