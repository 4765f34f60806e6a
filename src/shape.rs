use vstd::prelude::*;

verus! {

/// Errors reported by the physics world.
#[derive(Debug, Clone, Copy, PartialEq, Eq, Structural)]
pub enum PhysicsError {
    /// A handle that is stale or out of range.
    InvalidHandle,
    /// A shape with a zero radius or half-extent.
    DegenerateShape,
}

/// Collision shape of a collider, in whole world units.
#[derive(Debug, Clone, Copy, PartialEq, Eq, Structural)]
pub enum Shape {
    Circle { radius: u32 },
    Cuboid { half_width: u32, half_height: u32 },
}

/// An axis-aligned bounding box with inclusive bounds.
#[derive(Debug, Clone, Copy, PartialEq, Eq, Structural)]
pub struct Aabb {
    pub min_x: i64,
    pub min_y: i64,
    pub max_x: i64,
    pub max_y: i64,
}

impl Shape {
    pub open spec fn is_valid(self) -> bool {
        match self {
            Shape::Circle { radius } => radius > 0,
            Shape::Cuboid { half_width, half_height } => half_width > 0 && half_height > 0,
        }
    }

    /// How far the shape reaches from its centre along either axis, whatever
    /// its rotation: a rotated box reaches at most `hw * |cos| + hh * |sin|`,
    /// which never exceeds `hw + hh`.
    pub open spec fn reach(self) -> int {
        match self {
            Shape::Circle { radius } => radius as int,
            Shape::Cuboid { half_width, half_height } => half_width + half_height,
        }
    }

    /// A circle of the given radius; a zero radius is rejected.
    pub fn circle(radius: u32) -> (r: Result<Shape, PhysicsError>)
        ensures
            radius > 0 ==> r == Ok::<Shape, PhysicsError>(Shape::Circle { radius }),
            radius == 0 ==> r == Err::<Shape, PhysicsError>(PhysicsError::DegenerateShape),
    {
        if radius == 0 {
            Err(PhysicsError::DegenerateShape)
        } else {
            Ok(Shape::Circle { radius })
        }
    }

    /// A box of the given half-extents; a zero half-extent is rejected.
    pub fn cuboid(half_width: u32, half_height: u32) -> (r: Result<Shape, PhysicsError>)
        ensures
            half_width > 0 && half_height > 0 ==> r == Ok::<Shape, PhysicsError>(
                Shape::Cuboid { half_width, half_height },
            ),
            half_width == 0 || half_height == 0 ==> r == Err::<Shape, PhysicsError>(
                PhysicsError::DegenerateShape,
            ),
    {
        if half_width == 0 || half_height == 0 {
            Err(PhysicsError::DegenerateShape)
        } else {
            Ok(Shape::Cuboid { half_width, half_height })
        }
    }

    /// The bounding box of the shape centred at `(x, y)`, valid for every
    /// rotation of the shape.
    pub fn aabb_at(&self, x: i32, y: i32) -> (r: Aabb)
        ensures
            r == aabb_spec(*self, x as int, y as int),
    {
        let reach: i64 = match *self {
            Shape::Circle { radius } => radius as i64,
            Shape::Cuboid { half_width, half_height } => half_width as i64 + half_height as i64,
        };
        Aabb {
            min_x: x as i64 - reach,
            min_y: y as i64 - reach,
            max_x: x as i64 + reach,
            max_y: y as i64 + reach,
        }
    }
}

pub open spec fn aabb_spec(s: Shape, x: int, y: int) -> Aabb {
    Aabb {
        min_x: (x - s.reach()) as i64,
        min_y: (y - s.reach()) as i64,
        max_x: (x + s.reach()) as i64,
        max_y: (y + s.reach()) as i64,
    }
}

impl Aabb {
    pub open spec fn overlaps_spec(self, o: Aabb) -> bool {
        self.min_x <= o.max_x && o.min_x <= self.max_x && self.min_y <= o.max_y && o.min_y
            <= self.max_y
    }

    /// Whether two boxes share at least one point (touching counts).
    pub fn overlaps(&self, o: &Aabb) -> (r: bool)
        ensures
            r == self.overlaps_spec(*o),
    {
        self.min_x <= o.max_x && o.min_x <= self.max_x && self.min_y <= o.max_y && o.min_y
            <= self.max_y
    }
}

} // verus!
