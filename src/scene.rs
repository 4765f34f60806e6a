use vstd::prelude::*;
use vstd::arithmetic::div_mod::{lemma_fundamental_div_mod, lemma_mod_bound};

verus! {

/// One wall of the enclosure: a box given by its centre and half-extents.
#[derive(Debug, Clone, Copy, PartialEq, Eq, Structural)]
pub struct Wall {
    pub center_x: i32,
    pub center_y: i32,
    pub half_width: u32,
    pub half_height: u32,
}

/// An opaque colour.
#[derive(Debug, Clone, Copy, PartialEq, Eq, Structural)]
pub struct Rgb {
    pub r: u8,
    pub g: u8,
    pub b: u8,
}

/// Number of balls along each side of the starting grid.
pub const GRID_SIDE: usize = 21;

/// Coordinate of the first row and column of the grid.
pub const GRID_START: i32 = -20;

/// Distance between neighbouring balls of the grid.
pub const GRID_SPACING: i32 = 2;

/// Radius of every ball.
pub const BALL_RADIUS: u32 = 1;

pub open spec fn wall(x: int, y: int, hw: int, hh: int) -> Wall {
    Wall { center_x: x as i32, center_y: y as i32, half_width: hw as u32, half_height: hh as u32 }
}

/// The enclosure: left, right, bottom and top walls, each 2 units thick and
/// 100 long, around the origin.
pub open spec fn walls_spec() -> Seq<Wall> {
    seq![wall(-49, 0, 1, 50), wall(49, 0, 1, 50), wall(0, -49, 50, 1), wall(0, 49, 50, 1)]
}

/// Centre of the ball in row `row` and column `col` of the grid.
pub open spec fn grid_point(row: int, col: int) -> (i32, i32) {
    ((-20 + 2 * col) as i32, (-20 + 2 * row) as i32)
}

pub fn box_walls() -> (r: Vec<Wall>)
    ensures
        r@ == walls_spec(),
{
    let r = vec![
        Wall { center_x: -49, center_y: 0, half_width: 1, half_height: 50 },
        Wall { center_x: 49, center_y: 0, half_width: 1, half_height: 50 },
        Wall { center_x: 0, center_y: -49, half_width: 50, half_height: 1 },
        Wall { center_x: 0, center_y: 49, half_width: 50, half_height: 1 },
    ];
    assert(r@ =~= walls_spec());
    r
}

/// The starting centres of the balls, row by row from the bottom, each row
/// from left to right: every point of the square from -20 to 20 whose
/// coordinates are both even.
pub fn ball_grid() -> (r: Vec<(i32, i32)>)
    ensures
        r@.len() == GRID_SIDE * GRID_SIDE,
        forall|k: int|
            0 <= k < r@.len() ==> #[trigger] r@[k] == grid_point(k / GRID_SIDE as int, k % GRID_SIDE as int),
{
    let mut r: Vec<(i32, i32)> = Vec::new();
    let mut row: usize = 0;
    while row < GRID_SIDE
        invariant
            row <= GRID_SIDE,
            r@.len() == GRID_SIDE * row,
            forall|rr: int, cc: int|
                0 <= rr < row && 0 <= cc < GRID_SIDE ==> #[trigger] r@[GRID_SIDE * rr + cc]
                    == grid_point(rr, cc),
        decreases GRID_SIDE - row,
    {
        let y: i32 = GRID_START + GRID_SPACING * row as i32;
        let mut col: usize = 0;
        while col < GRID_SIDE
            invariant
                row < GRID_SIDE,
                col <= GRID_SIDE,
                y == -20 + 2 * row,
                r@.len() == GRID_SIDE * row + col,
                forall|rr: int, cc: int|
                    0 <= rr < row && 0 <= cc < GRID_SIDE ==> #[trigger] r@[GRID_SIDE * rr + cc]
                        == grid_point(rr, cc),
                forall|cc: int| 0 <= cc < col ==> #[trigger] r@[GRID_SIDE * row + cc] == grid_point(row as int, cc),
            decreases GRID_SIDE - col,
        {
            let x: i32 = GRID_START + GRID_SPACING * col as i32;
            r.push((x, y));
            col = col + 1;
        }
        row = row + 1;
    }
    assert forall|k: int| 0 <= k < r@.len() implies #[trigger] r@[k] == grid_point(
        k / GRID_SIDE as int,
        k % GRID_SIDE as int,
    ) by {
        lemma_fundamental_div_mod(k, GRID_SIDE as int);
        lemma_mod_bound(k, GRID_SIDE as int);
        let row = k / GRID_SIDE as int;
        let col = k % GRID_SIDE as int;
        assert(0 <= row < GRID_SIDE) by (nonlinear_arith)
            requires
                k == 21 * row + col,
                0 <= col < 21,
                0 <= k < 441,
        ;
        assert(r@[GRID_SIDE * row + col] == grid_point(row, col));
    }
    r
}

/// Relies on fastrand::u8 over the full range `0..=255`, which never panics
/// on that range. Nothing is known of the value drawn.
#[verifier::external_body]
fn random_channel() -> (r: u8) {
    fastrand::u8(0..=u8::MAX)
}

/// A colour for a ball, each channel drawn at random.
pub fn random_ball_color() -> (r: Rgb) {
    let r = random_channel();
    let g = random_channel();
    let b = random_channel();
    Rgb { r, g, b }
}

} // verus!
