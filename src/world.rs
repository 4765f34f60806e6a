use vstd::prelude::*;

use crate::shape::PhysicsError;

verus! {

/// How a body takes part in the simulation.
#[derive(Debug, Clone, Copy, PartialEq, Eq, Structural)]
pub enum BodyKind {
    /// Never moves.
    Static,
    /// Moves only by its externally set velocity; no forces, no contacts.
    KinematicPositionBased,
    /// Moves under gravity and is pushed out of contacts.
    Dynamic,
}

/// State of one rigid body, in whole world units per step.
#[derive(Debug, Clone, Copy, PartialEq, Eq, Structural)]
pub struct Body {
    pub kind: BodyKind,
    pub x: i32,
    pub y: i32,
    pub vx: i32,
    pub vy: i32,
    /// Set when an update left the representable range; a frozen body keeps
    /// its position and never moves again.
    pub frozen: bool,
}

/// A reference to a body: the slot it lives in and the generation of that
/// slot when the body was added.
#[derive(Debug, Clone, Copy, PartialEq, Eq, Structural)]
pub struct Handle {
    pub index: usize,
    pub generation: u64,
}

/// One entry of the world's arena.
#[derive(Debug, Clone, Copy, PartialEq, Eq, Structural)]
pub struct Slot {
    pub generation: u64,
    pub body: Option<Body>,
}

/// Owner of all bodies. Removing a body empties its slot and advances the
/// slot's generation, so that no handle to it is ever valid again.
pub struct World {
    slots: Vec<Slot>,
    gravity_x: i32,
    gravity_y: i32,
}

pub open spec fn fits(v: int) -> bool {
    i32::MIN <= v <= i32::MAX
}

pub open spec fn is_live(slots: Seq<Slot>, h: Handle) -> bool {
    &&& h.index < slots.len()
    &&& slots[h.index as int].generation == h.generation
    &&& slots[h.index as int].body.is_some()
}

pub open spec fn body_of(slots: Seq<Slot>, h: Handle) -> Body {
    slots[h.index as int].body.unwrap()
}

/// The body stopped where it stands: no velocity, never moved again.
pub open spec fn freeze(b: Body) -> Body {
    Body { vx: 0, vy: 0, frozen: true, ..b }
}

/// The body displaced by `(dx, dy)`, or frozen where the new position would
/// leave the representable range.
pub open spec fn displaced(b: Body, dx: int, dy: int) -> Body {
    if fits(b.x + dx) && fits(b.y + dy) {
        Body { x: (b.x + dx) as i32, y: (b.y + dy) as i32, ..b }
    } else {
        freeze(b)
    }
}

/// One semi-implicit Euler step: a dynamic body first takes gravity into its
/// velocity, then moves by the new velocity; a kinematic body moves by its
/// own velocity; a static or frozen body stays.
pub open spec fn integrate(b: Body, gx: int, gy: int) -> Body {
    if b.frozen {
        b
    } else {
        match b.kind {
            BodyKind::Static => b,
            BodyKind::KinematicPositionBased => displaced(b, b.vx as int, b.vy as int),
            BodyKind::Dynamic => if fits(b.vx + gx) && fits(b.vy + gy) {
                displaced(
                    Body { vx: (b.vx + gx) as i32, vy: (b.vy + gy) as i32, ..b },
                    b.vx + gx,
                    b.vy + gy,
                )
            } else {
                freeze(b)
            },
        }
    }
}

pub open spec fn step_slot(s: Slot, gx: int, gy: int) -> Slot {
    match s.body {
        Some(b) => Slot { generation: s.generation, body: Some(integrate(b, gx, gy)) },
        None => s,
    }
}

pub open spec fn step_slots(slots: Seq<Slot>, gx: int, gy: int) -> Seq<Slot> {
    slots.map_values(|s: Slot| step_slot(s, gx, gy))
}

/// The arena after `n` steps.
pub open spec fn run(slots: Seq<Slot>, gx: int, gy: int, n: nat) -> Seq<Slot>
    decreases n,
{
    if n == 0 {
        slots
    } else {
        step_slots(run(slots, gx, gy, (n - 1) as nat), gx, gy)
    }
}

/// Every handle other than `except` is live in `after` exactly when it was
/// live in `before`, and then refers to the same body.
pub open spec fn others_unchanged(before: Seq<Slot>, after: Seq<Slot>, except: Handle) -> bool {
    forall|h: Handle|
        h != except ==> (#[trigger] is_live(after, h) == is_live(before, h) && (is_live(before, h)
            ==> body_of(after, h) == body_of(before, h)))
}

/// Stepping is deterministic: two worlds that start from the same arena
/// under the same gravity are equal after any number of steps.
pub proof fn lemma_steps_reproducible(a: Seq<Slot>, b: Seq<Slot>, gx: int, gy: int, n: nat)
    requires
        a == b,
    ensures
        run(a, gx, gy, n) == run(b, gx, gy, n),
    decreases n,
{
    if n > 0 {
        lemma_steps_reproducible(a, b, gx, gy, (n - 1) as nat);
    }
}

impl View for World {
    type V = Seq<Slot>;

    closed spec fn view(&self) -> Seq<Slot> {
        self.slots@
    }
}

fn step_body(b: Body, gx: i32, gy: i32) -> (r: Body)
    ensures
        r == integrate(b, gx as int, gy as int),
{
    if b.frozen {
        return b;
    }
    match b.kind {
        BodyKind::Static => b,
        BodyKind::KinematicPositionBased => displace(b, b.vx, b.vy),
        BodyKind::Dynamic => {
            match (b.vx.checked_add(gx), b.vy.checked_add(gy)) {
                (Some(vx), Some(vy)) => displace(Body { vx, vy, ..b }, vx, vy),
                _ => Body { vx: 0, vy: 0, frozen: true, ..b },
            }
        },
    }
}

fn displace(b: Body, dx: i32, dy: i32) -> (r: Body)
    ensures
        r == displaced(b, dx as int, dy as int),
{
    match (b.x.checked_add(dx), b.y.checked_add(dy)) {
        (Some(x), Some(y)) => Body { x, y, ..b },
        _ => Body { vx: 0, vy: 0, frozen: true, ..b },
    }
}

impl World {
    pub closed spec fn gravity(&self) -> (i32, i32) {
        (self.gravity_x, self.gravity_y)
    }

    /// An empty world with the given gravity, in units per step per step.
    pub fn new(gravity_x: i32, gravity_y: i32) -> (r: World)
        ensures
            r@ == Seq::<Slot>::empty(),
            r.gravity() == (gravity_x, gravity_y),
    {
        World { slots: Vec::new(), gravity_x, gravity_y }
    }

    pub fn len_slots(&self) -> (r: usize)
        ensures
            r == self@.len(),
    {
        self.slots.len()
    }

    /// Adds a body. An empty slot whose generation can still advance is
    /// reused under its current generation; otherwise a new slot is appended.
    pub fn add_body(&mut self, body: Body) -> (r: Handle)
        requires
            old(self)@.len() < usize::MAX,
        ensures
            is_live(final(self)@, r),
            body_of(final(self)@, r) == body,
            others_unchanged(old(self)@, final(self)@, r),
            final(self).gravity() == old(self).gravity(),
    {
        let n = self.slots.len();
        let mut i: usize = 0;
        while i < n
            invariant
                n == self.slots.len(),
                i <= n,
                self.slots@ == old(self).slots@,
                self.gravity_x == old(self).gravity_x,
                self.gravity_y == old(self).gravity_y,
                forall|k: int|
                    0 <= k < i ==> !((#[trigger] self.slots@[k]).body.is_none()
                        && self.slots@[k].generation < u64::MAX),
            decreases n - i,
        {
            if self.slots[i].body.is_none() && self.slots[i].generation < u64::MAX {
                let g = self.slots[i].generation;
                self.slots[i] = Slot { generation: g, body: Some(body) };
                let r = Handle { index: i, generation: g };
                assert forall|h: Handle| h != r implies #[trigger] is_live(self@, h) == is_live(
                    old(self)@,
                    h,
                ) && (is_live(old(self)@, h) ==> body_of(self@, h) == body_of(old(self)@, h)) by {
                    if h.index != i && h.index < n {
                        assert(self.slots@[h.index as int] == old(self).slots@[h.index as int]);
                    }
                }
                return r;
            }
            i = i + 1;
        }
        self.slots.push(Slot { generation: 0, body: Some(body) });
        let r = Handle { index: n, generation: 0 };
        assert forall|h: Handle| h != r implies #[trigger] is_live(self@, h) == is_live(
            old(self)@,
            h,
        ) && (is_live(old(self)@, h) ==> body_of(self@, h) == body_of(old(self)@, h)) by {
            if h.index < n {
                assert(self.slots@[h.index as int] == old(self).slots@[h.index as int]);
            }
        }
        r
    }

    /// The body that `h` refers to.
    pub fn get(&self, h: Handle) -> (r: Result<Body, PhysicsError>)
        ensures
            is_live(self@, h) ==> r == Ok::<Body, PhysicsError>(body_of(self@, h)),
            !is_live(self@, h) ==> r == Err::<Body, PhysicsError>(PhysicsError::InvalidHandle),
    {
        if h.index < self.slots.len() && self.slots[h.index].generation == h.generation {
            match self.slots[h.index].body {
                Some(b) => Ok(b),
                None => Err(PhysicsError::InvalidHandle),
            }
        } else {
            Err(PhysicsError::InvalidHandle)
        }
    }

    /// Removes the body that `h` refers to and returns it. Its slot's
    /// generation advances, so `h` and every copy of it are invalid after.
    pub fn remove(&mut self, h: Handle) -> (r: Result<Body, PhysicsError>)
        ensures
            is_live(old(self)@, h) ==> r == Ok::<Body, PhysicsError>(body_of(old(self)@, h)),
            !is_live(old(self)@, h) ==> r == Err::<Body, PhysicsError>(
                PhysicsError::InvalidHandle,
            ) && final(self)@ == old(self)@,
            !is_live(final(self)@, h),
            others_unchanged(old(self)@, final(self)@, h),
            final(self)@.len() == old(self)@.len(),
            final(self).gravity() == old(self).gravity(),
    {
        match self.get(h) {
            Err(e) => Err(e),
            Ok(b) => {
                let g = self.slots[h.index].generation;
                let next: u64 = if g < u64::MAX {
                    g + 1
                } else {
                    g
                };
                self.slots[h.index] = Slot { generation: next, body: None };
                Ok(b)
            },
        }
    }

    /// Sets the velocity of the body that `h` refers to: the explicit command
    /// that drives a kinematic body.
    pub fn set_velocity(&mut self, h: Handle, vx: i32, vy: i32) -> (r: Result<(), PhysicsError>)
        ensures
            is_live(old(self)@, h) ==> r == Ok::<(), PhysicsError>(()) && final(self)@ == old(
                self,
            )@.update(
                h.index as int,
                Slot {
                    generation: h.generation,
                    body: Some(Body { vx, vy, ..body_of(old(self)@, h) }),
                },
            ),
            !is_live(old(self)@, h) ==> r == Err::<(), PhysicsError>(PhysicsError::InvalidHandle)
                && final(self)@ == old(self)@,
            final(self).gravity() == old(self).gravity(),
    {
        match self.get(h) {
            Err(e) => Err(e),
            Ok(b) => {
                self.slots[h.index] = Slot {
                    generation: h.generation,
                    body: Some(Body { vx, vy, ..b }),
                };
                Ok(())
            },
        }
    }

    pub(crate) fn replace_body(&mut self, h: Handle, b: Body)
        requires
            is_live(old(self)@, h),
        ensures
            final(self)@ == old(self)@.update(
                h.index as int,
                Slot { generation: h.generation, body: Some(b) },
            ),
            final(self).gravity() == old(self).gravity(),
    {
        self.slots[h.index] = Slot { generation: h.generation, body: Some(b) };
    }

    /// Advances the simulation by exactly one fixed step.
    pub fn step(&mut self)
        ensures
            final(self)@ == step_slots(old(self)@, old(self).gravity().0 as int, old(self).gravity().1 as int),
            final(self).gravity() == old(self).gravity(),
    {
        let n = self.slots.len();
        let gx = self.gravity_x;
        let gy = self.gravity_y;
        let ghost start = self.slots@;
        let mut i: usize = 0;
        while i < n
            invariant
                n == self.slots.len(),
                n == start.len(),
                gx == self.gravity_x,
                gy == self.gravity_y,
                i <= n,
                forall|k: int| 0 <= k < i ==> self.slots@[k] == step_slot(start[k], gx as int, gy as int),
                forall|k: int| i <= k < n ==> self.slots@[k] == start[k],
            decreases n - i,
        {
            let s = self.slots[i];
            match s.body {
                Some(b) => {
                    self.slots[i] = Slot { generation: s.generation, body: Some(step_body(b, gx, gy)) };
                },
                None => {},
            }
            i = i + 1;
        }
        assert(self.slots@ =~= step_slots(start, gx as int, gy as int));
    }

    /// Advances the simulation by `n` fixed steps.
    pub fn step_n(&mut self, n: u64)
        ensures
            final(self)@ == run(old(self)@, old(self).gravity().0 as int, old(self).gravity().1 as int, n as nat),
            final(self).gravity() == old(self).gravity(),
    {
        let ghost start = self@;
        let mut k: u64 = 0;
        while k < n
            invariant
                k <= n,
                self.gravity() == old(self).gravity(),
                start == old(self)@,
                self@ == run(start, self.gravity().0 as int, self.gravity().1 as int, k as nat),
            decreases n - k,
        {
            self.step();
            k = k + 1;
        }
    }
}

} // verus!
