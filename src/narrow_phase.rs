use vstd::prelude::*;

use crate::resolver::Axis;

verus! {

/// Result of a narrow-phase test that found the two shapes touching or
/// overlapping: the normal lies along `axis`, points from the first shape
/// to the second in the direction given by `positive`, and `depth` is how
/// far the shapes interpenetrate along it (zero when they just touch).
#[derive(Debug, Clone, Copy, PartialEq, Eq, Structural)]
pub struct Contact {
    pub axis: Axis,
    pub positive: bool,
    pub depth: u64,
}

pub open spec fn abs(v: int) -> int {
    if v < 0 {
        -v
    } else {
        v
    }
}

/// Overlap of two intervals, given by centres and half-lengths, along one
/// axis; negative when they are apart.
pub open spec fn overlap_1d(ca: int, ha: int, cb: int, hb: int) -> int {
    ha + hb - abs(cb - ca)
}

/// Separating-axis test of two axis-aligned boxes. The boxes are in contact
/// when they overlap, or touch, along both axes; the normal is the axis of
/// least overlap, the x axis on a tie.
pub open spec fn cuboid_contact_spec(
    ax: int,
    ay: int,
    ahw: int,
    ahh: int,
    bx: int,
    by: int,
    bhw: int,
    bhh: int,
) -> Option<Contact> {
    let ox = overlap_1d(ax, ahw, bx, bhw);
    let oy = overlap_1d(ay, ahh, by, bhh);
    if ox < 0 || oy < 0 {
        None
    } else if ox <= oy {
        Some(Contact { axis: Axis::X, positive: bx >= ax, depth: ox as u64 })
    } else {
        Some(Contact { axis: Axis::Y, positive: by >= ay, depth: oy as u64 })
    }
}

/// Narrow-phase contact of two axis-aligned boxes.
pub fn cuboid_contact(
    ax: i32,
    ay: i32,
    ahw: u32,
    ahh: u32,
    bx: i32,
    by: i32,
    bhw: u32,
    bhh: u32,
) -> (r: Option<Contact>)
    ensures
        r == cuboid_contact_spec(
            ax as int,
            ay as int,
            ahw as int,
            ahh as int,
            bx as int,
            by as int,
            bhw as int,
            bhh as int,
        ),
{
    let dx: i64 = bx as i64 - ax as i64;
    let dy: i64 = by as i64 - ay as i64;
    let adx: i64 = if dx < 0 {
        -dx
    } else {
        dx
    };
    let ady: i64 = if dy < 0 {
        -dy
    } else {
        dy
    };
    let ox: i64 = ahw as i64 + bhw as i64 - adx;
    let oy: i64 = ahh as i64 + bhh as i64 - ady;
    if ox < 0 || oy < 0 {
        None
    } else if ox <= oy {
        Some(Contact { axis: Axis::X, positive: bx >= ax, depth: ox as u64 })
    } else {
        Some(Contact { axis: Axis::Y, positive: by >= ay, depth: oy as u64 })
    }
}

pub open spec fn sq(v: int) -> int {
    v * v
}

/// Narrow-phase test of two circles: they overlap when the distance between
/// the centres is below the sum of the radii.
pub fn circles_overlap(x1: i32, y1: i32, r1: u32, x2: i32, y2: i32, r2: u32) -> (r: bool)
    ensures
        r == (sq(x2 - x1) + sq(y2 - y1) < sq(r1 + r2)),
{
    let dx: i128 = x2 as i128 - x1 as i128;
    let dy: i128 = y2 as i128 - y1 as i128;
    let rs: i128 = r1 as i128 + r2 as i128;
    assert(0 <= dx * dx <= 0x1_0000_0000_0000_0000) by (nonlinear_arith)
        requires -0x1_0000_0000 <= dx <= 0x1_0000_0000;
    assert(0 <= dy * dy <= 0x1_0000_0000_0000_0000) by (nonlinear_arith)
        requires -0x1_0000_0000 <= dy <= 0x1_0000_0000;
    assert(rs * rs <= 0x4_0000_0000_0000_0000) by (nonlinear_arith)
        requires 0 <= rs <= 0x2_0000_0000;
    dx * dx + dy * dy < rs * rs
}

pub open spec fn clamp_spec(v: int, lo: int, hi: int) -> int {
    if v < lo {
        lo
    } else if v > hi {
        hi
    } else {
        v
    }
}

/// Narrow-phase test of a circle against an axis-aligned box: the point of
/// the box closest to the circle's centre lies strictly inside the circle.
pub fn circle_box_overlap(
    cx: i32,
    cy: i32,
    radius: u32,
    bx: i32,
    by: i32,
    half_width: u32,
    half_height: u32,
) -> (r: bool)
    ensures
        r == (sq(cx - clamp_spec(cx as int, bx - half_width, bx + half_width)) + sq(
            cy - clamp_spec(cy as int, by - half_height, by + half_height),
        ) < sq(radius as int)),
{
    let lo_x: i128 = bx as i128 - half_width as i128;
    let hi_x: i128 = bx as i128 + half_width as i128;
    let lo_y: i128 = by as i128 - half_height as i128;
    let hi_y: i128 = by as i128 + half_height as i128;
    let px: i128 = if (cx as i128) < lo_x {
        lo_x
    } else if (cx as i128) > hi_x {
        hi_x
    } else {
        cx as i128
    };
    let py: i128 = if (cy as i128) < lo_y {
        lo_y
    } else if (cy as i128) > hi_y {
        hi_y
    } else {
        cy as i128
    };
    let dx: i128 = cx as i128 - px;
    let dy: i128 = cy as i128 - py;
    assert(0 <= dx * dx <= 0x10_0000_0000_0000_0000) by (nonlinear_arith)
        requires -0x4_0000_0000 <= dx <= 0x4_0000_0000;
    assert(0 <= dy * dy <= 0x10_0000_0000_0000_0000) by (nonlinear_arith)
        requires -0x4_0000_0000 <= dy <= 0x4_0000_0000;
    let r: i128 = radius as i128;
    assert(r * r <= 0x1_0000_0000_0000_0000) by (nonlinear_arith)
        requires 0 <= r <= 0x1_0000_0000;
    dx * dx + dy * dy < r * r
}

} // verus!
