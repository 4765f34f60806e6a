use bevy_box::broad_phase::{candidate_pairs, cell_range, CellRange};
use bevy_box::input::next_wireframe;
use bevy_box::scene::{ball_grid, box_walls, random_ball_color, Wall, GRID_SIDE};
use bevy_box::narrow_phase::{circle_box_overlap, circles_overlap, cuboid_contact, Contact};
use bevy_box::resolver::Axis;
use bevy_box::shape::{Aabb, PhysicsError, Shape};

#[test]
fn wireframe_flips_only_on_press() {
    assert!(next_wireframe(false, true));
    assert!(!next_wireframe(true, true));
    assert!(next_wireframe(true, false));
    assert!(!next_wireframe(false, false));
}

#[test]
fn degenerate_shapes_are_rejected() {
    assert_eq!(Shape::circle(0), Err(PhysicsError::DegenerateShape));
    assert_eq!(Shape::cuboid(0, 3), Err(PhysicsError::DegenerateShape));
    assert_eq!(Shape::cuboid(3, 0), Err(PhysicsError::DegenerateShape));
    assert_eq!(Shape::circle(2), Ok(Shape::Circle { radius: 2 }));
    assert_eq!(
        Shape::cuboid(1, 50),
        Ok(Shape::Cuboid { half_width: 1, half_height: 50 })
    );
}

#[test]
fn bounding_boxes_cover_every_rotation() {
    let c = Shape::circle(3).unwrap();
    assert_eq!(
        c.aabb_at(10, -4),
        Aabb { min_x: 7, min_y: -7, max_x: 13, max_y: -1 }
    );
    let b = Shape::cuboid(1, 50).unwrap();
    assert_eq!(
        b.aabb_at(-49, 0),
        Aabb { min_x: -100, min_y: -51, max_x: 2, max_y: 51 }
    );
}

#[test]
fn aabb_overlap_counts_touching() {
    let a = Aabb { min_x: 0, min_y: 0, max_x: 2, max_y: 2 };
    let b = Aabb { min_x: 2, min_y: 2, max_x: 5, max_y: 5 };
    let c = Aabb { min_x: 3, min_y: 0, max_x: 5, max_y: 2 };
    assert!(a.overlaps(&b));
    assert!(!a.overlaps(&c));
}

#[test]
fn circle_circle_narrow_phase() {
    assert!(!circles_overlap(-1, 0, 1, 1, 0, 1));
    assert!(circles_overlap(-1, 0, 1, 0, 1, 1));
    assert!(!circles_overlap(-11, 0, 10, 11, 0, 10));
    assert!(circles_overlap(-9, 0, 10, 9, 0, 10));
    assert!(circles_overlap(i32::MIN, 0, u32::MAX, i32::MAX, 0, u32::MAX));
}

#[test]
fn circle_box_narrow_phase() {
    // box centred at the origin, half-extents 5 x 1
    assert!(circle_box_overlap(0, 2, 2, 0, 0, 5, 1));
    assert!(!circle_box_overlap(0, 3, 2, 0, 0, 5, 1));
    assert!(circle_box_overlap(6, 2, 2, 0, 0, 5, 1));
    assert!(!circle_box_overlap(7, 3, 2, 0, 0, 5, 1));
}

#[test]
fn cells_use_floor_division() {
    let b = Aabb { min_x: -5, min_y: -1, max_x: 4, max_y: 0 };
    assert_eq!(
        cell_range(&b, 4),
        CellRange { min_cx: -2, min_cy: -1, max_cx: 1, max_cy: 0 }
    );
    let far = Aabb { min_x: i64::MIN, min_y: i64::MIN, max_x: i64::MAX, max_y: i64::MAX };
    let r = cell_range(&far, 1);
    assert_eq!(r.min_cx, i64::MIN);
    assert_eq!(r.max_cy, i64::MAX);
}

#[test]
fn broad_phase_pairs_share_a_cell() {
    let boxes = vec![
        Aabb { min_x: 0, min_y: 0, max_x: 1, max_y: 1 },
        Aabb { min_x: 3, min_y: 3, max_x: 4, max_y: 4 },
        Aabb { min_x: 20, min_y: 20, max_x: 21, max_y: 21 },
        Aabb { min_x: -30, min_y: -30, max_x: 30, max_y: 30 },
    ];
    let pairs = candidate_pairs(&boxes, 8);
    assert_eq!(pairs, vec![(0, 1), (0, 3), (1, 3), (2, 3)]);
    assert_eq!(candidate_pairs(&Vec::new(), 8), Vec::<(usize, usize)>::new());
}

#[test]
fn broad_phase_finds_every_overlap() {
    let mut boxes = Vec::new();
    for i in 0..30i64 {
        let x = (i * 37) % 50 - 25;
        let y = (i * 53) % 50 - 25;
        let r = 1 + i % 4;
        boxes.push(Aabb { min_x: x - r, min_y: y - r, max_x: x + r, max_y: y + r });
    }
    for cell in [1u32, 3, 7, 100] {
        let pairs = candidate_pairs(&boxes, cell);
        for i in 0..boxes.len() {
            for j in i + 1..boxes.len() {
                if boxes[i].overlaps(&boxes[j]) {
                    assert!(pairs.contains(&(i, j)));
                }
            }
        }
    }
    let coarse = candidate_pairs(&boxes, 1000);
    assert!(coarse.windows(2).all(|w| w[0] < w[1]));
    assert!(coarse.iter().all(|&(i, j)| i < j && j < boxes.len()));
    // with every box in the non-negative quadrant, one large cell holds them all
    let shifted: Vec<Aabb> = boxes
        .iter()
        .map(|b| Aabb { min_x: b.min_x + 40, min_y: b.min_y + 40, max_x: b.max_x + 40, max_y: b.max_y + 40 })
        .collect();
    assert_eq!(candidate_pairs(&shifted, 1000).len(), 30 * 29 / 2);
}

#[test]
fn enclosure_walls() {
    let w = box_walls();
    assert_eq!(w.len(), 4);
    assert_eq!(w[0], Wall { center_x: -49, center_y: 0, half_width: 1, half_height: 50 });
    assert_eq!(w[1], Wall { center_x: 49, center_y: 0, half_width: 1, half_height: 50 });
    assert_eq!(w[2], Wall { center_x: 0, center_y: -49, half_width: 50, half_height: 1 });
    assert_eq!(w[3], Wall { center_x: 0, center_y: 49, half_width: 50, half_height: 1 });
}

#[test]
fn ball_grid_layout() {
    let g = ball_grid();
    assert_eq!(g.len(), 441);
    assert_eq!(GRID_SIDE, 21);
    assert_eq!(g[0], (-20, -20));
    assert_eq!(g[1], (-18, -20));
    assert_eq!(g[21], (-20, -18));
    assert_eq!(g[440], (20, 20));
    assert!(g.iter().all(|&(x, y)| x % 2 == 0 && y % 2 == 0));
}

#[test]
fn random_colours_are_drawn() {
    let colours: Vec<_> = (0..64).map(|_| random_ball_color()).collect();
    assert!(colours.iter().any(|c| *c != colours[0]));
}

#[test]
fn box_box_separating_axis() {
    // apart along x
    assert_eq!(cuboid_contact(0, 0, 1, 1, 3, 0, 1, 1), None);
    // touching faces
    assert_eq!(
        cuboid_contact(0, 0, 1, 1, 2, 0, 1, 1),
        Some(Contact { axis: Axis::X, positive: true, depth: 0 })
    );
    // least overlap along y, second box below
    assert_eq!(
        cuboid_contact(0, 0, 5, 2, 1, -3, 5, 2),
        Some(Contact { axis: Axis::Y, positive: false, depth: 1 })
    );
    // equal overlap on both axes: the x axis wins
    assert_eq!(
        cuboid_contact(0, 0, 2, 2, -3, 3, 2, 2),
        Some(Contact { axis: Axis::X, positive: false, depth: 1 })
    );
}
