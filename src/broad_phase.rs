use vstd::prelude::*;
use vstd::arithmetic::div_mod::{
    lemma_div_is_ordered, lemma_div_is_ordered_by_denominator, lemma_fundamental_div_mod, lemma_fundamental_div_mod_converse,
    lemma_mod_bound,
};

use crate::shape::Aabb;

verus! {

/// The inclusive range of grid cells that a bounding box is registered in.
#[derive(Debug, Clone, Copy, PartialEq, Eq, Structural)]
pub struct CellRange {
    pub min_cx: i64,
    pub min_cy: i64,
    pub max_cx: i64,
    pub max_cy: i64,
}

/// The cell coordinate of a world coordinate: `floor(c / size)`.
pub open spec fn cell_of(c: int, size: int) -> int {
    c / size
}

pub open spec fn cell_range_spec(b: Aabb, size: int) -> CellRange {
    CellRange {
        min_cx: cell_of(b.min_x as int, size) as i64,
        min_cy: cell_of(b.min_y as int, size) as i64,
        max_cx: cell_of(b.max_x as int, size) as i64,
        max_cy: cell_of(b.max_y as int, size) as i64,
    }
}

/// Two cell ranges have at least one cell in common.
pub open spec fn share_cell(a: CellRange, b: CellRange) -> bool {
    a.min_cx <= b.max_cx && b.min_cx <= a.max_cx && a.min_cy <= b.max_cy && b.min_cy <= a.max_cy
}

/// Colliders `i` and `j` are registered in a common cell of the grid.
pub open spec fn binned_together(boxes: Seq<Aabb>, size: int, i: int, j: int) -> bool {
    share_cell(cell_range_spec(boxes[i], size), cell_range_spec(boxes[j], size))
}

/// `pairs` holds, once each and in ascending order, exactly the pairs
/// `(i, j)` with `i < j` of colliders that share a grid cell.
pub open spec fn is_candidate_set(boxes: Seq<Aabb>, size: int, pairs: Seq<(usize, usize)>) -> bool {
    &&& forall|k: int|
        0 <= k < pairs.len() ==> {
            let (i, j) = #[trigger] pairs[k];
            i < j < boxes.len() && binned_together(boxes, size, i as int, j as int)
        }
    &&& forall|i: int, j: int|
        0 <= i < j < boxes.len() && binned_together(boxes, size, i, j) ==> pairs.contains(
            (i as usize, j as usize),
        )
    &&& forall|k1: int, k2: int|
        0 <= k1 < k2 < pairs.len() ==> pair_before(#[trigger] pairs[k1], #[trigger] pairs[k2])
}

pub open spec fn pair_before(a: (usize, usize), b: (usize, usize)) -> bool {
    a.0 < b.0 || (a.0 == b.0 && a.1 < b.1)
}

/// Floor division of a coordinate by a positive cell size.
fn floor_div(c: i64, size: i64) -> (r: i64)
    requires
        size > 0,
    ensures
        r as int == c as int / size as int,
{
    if c >= 0 {
        let q: i64 = ((c as u64) / (size as u64)) as i64;
        proof {
            lemma_div_is_ordered_by_denominator(c as int, 1, size as int);
        }
        q
    } else {
        let m: u64 = (-(c + 1)) as u64;
        let q: u64 = m / (size as u64);
        let rem: u64 = m % (size as u64);
        proof {
            lemma_fundamental_div_mod(m as int, size as int);
            lemma_mod_bound(m as int, size as int);
            assert(m as int == size as int * q as int + rem as int);
            assert(c as int == (-(q as int) - 1) * size as int + (size - 1 - rem)) by (
            nonlinear_arith)
                requires
                    m as int == size as int * q as int + rem as int,
                    m as int == -(c + 1),
            ;
            lemma_fundamental_div_mod_converse(
                c as int,
                size as int,
                -(q as int) - 1,
                size - 1 - rem,
            );
        }
        proof {
            lemma_fundamental_div_mod(m as int, size as int);
        }
        assert(q <= m) by (nonlinear_arith)
            requires
                m as int == size as int * q as int + rem as int,
                size >= 1,
                rem >= 0,
                q >= 0,
        ;
        -(q as i64) - 1
    }
}

/// The cells that a bounding box is registered in.
pub fn cell_range(b: &Aabb, cell_size: u32) -> (r: CellRange)
    requires
        cell_size > 0,
    ensures
        r == cell_range_spec(*b, cell_size as int),
{
    let s: i64 = cell_size as i64;
    CellRange {
        min_cx: floor_div(b.min_x, s),
        min_cy: floor_div(b.min_y, s),
        max_cx: floor_div(b.max_x, s),
        max_cy: floor_div(b.max_y, s),
    }
}

/// Broad-phase: bins every box into the uniform grid and returns each pair
/// of colliders that share a cell, once, ordered by index. A collider that
/// spans several cells is registered in all of them.
pub fn candidate_pairs(boxes: &Vec<Aabb>, cell_size: u32) -> (r: Vec<(usize, usize)>)
    requires
        cell_size > 0,
    ensures
        is_candidate_set(boxes@, cell_size as int, r@),
{
    let n = boxes.len();
    let mut ranges: Vec<CellRange> = Vec::new();
    let mut k: usize = 0;
    while k < n
        invariant
            n == boxes.len(),
            cell_size > 0,
            k <= n,
            ranges.len() == k,
            forall|t: int| 0 <= t < k ==> ranges@[t] == cell_range_spec(boxes@[t], cell_size as int),
        decreases n - k,
    {
        ranges.push(cell_range(&boxes[k], cell_size));
        k = k + 1;
    }
    let ghost gboxes = boxes@;
    let ghost size = cell_size as int;
    let mut pairs: Vec<(usize, usize)> = Vec::new();
    let mut i: usize = 0;
    while i < n
        invariant
            n == boxes.len(),
            gboxes == boxes@,
            size == cell_size as int,
            ranges.len() == n,
            forall|t: int| 0 <= t < n ==> ranges@[t] == cell_range_spec(gboxes[t], size),
            i <= n,
            forall|k: int|
                0 <= k < pairs.len() ==> {
                    let (a, b) = #[trigger] pairs@[k];
                    a < b < n && a < i && binned_together(gboxes, size, a as int, b as int)
                },
            forall|a: int, b: int|
                0 <= a < b < n && a < i && binned_together(gboxes, size, a, b) ==> pairs@.contains(
                    (a as usize, b as usize),
                ),
            forall|k1: int, k2: int|
                0 <= k1 < k2 < pairs.len() ==> pair_before(
                    #[trigger] pairs@[k1],
                    #[trigger] pairs@[k2],
                ),
        decreases n - i,
    {
        let mut j: usize = i + 1;
        let ghost start = pairs.len();
        while j < n
            invariant
                n == boxes.len(),
                gboxes == boxes@,
                size == cell_size as int,
                ranges.len() == n,
                forall|t: int| 0 <= t < n ==> ranges@[t] == cell_range_spec(gboxes[t], size),
                i < n,
                i + 1 <= j <= n,
                start <= pairs.len(),
                forall|k: int|
                    0 <= k < pairs.len() ==> {
                        let (a, b) = #[trigger] pairs@[k];
                        a < b < n && a <= i && binned_together(gboxes, size, a as int, b as int)
                    },
                forall|k: int| start <= k < pairs.len() ==> (#[trigger] pairs@[k]).0 == i && pairs@[k].1 < j,
                forall|k: int| 0 <= k < start ==> (#[trigger] pairs@[k]).0 < i,
                forall|a: int, b: int|
                    0 <= a < b < n && a < i && binned_together(gboxes, size, a, b)
                        ==> pairs@.contains((a as usize, b as usize)),
                forall|b: int|
                    i < b < j && binned_together(gboxes, size, i as int, b) ==> pairs@.contains(
                        (i, b as usize),
                    ),
                forall|k1: int, k2: int|
                    0 <= k1 < k2 < pairs.len() ==> pair_before(
                        #[trigger] pairs@[k1],
                        #[trigger] pairs@[k2],
                    ),
            decreases n - j,
        {
            let ri = ranges[i];
            let rj = ranges[j];
            if ri.min_cx <= rj.max_cx && rj.min_cx <= ri.max_cx && ri.min_cy <= rj.max_cy
                && rj.min_cy <= ri.max_cy {
                let ghost before = pairs@;
                pairs.push((i, j));
                proof {
                    assert forall|a: int, b: int|
                        0 <= a < b < n && a < i && binned_together(gboxes, size, a, b)
                            implies pairs@.contains((a as usize, b as usize)) by {
                        let w = choose|w: int| 0 <= w < before.len() && before[w] == (a as usize, b as usize);
                        assert(pairs@[w] == before[w]);
                    }
                    assert forall|b: int|
                        i < b < j + 1 && binned_together(gboxes, size, i as int, b)
                            implies pairs@.contains((i, b as usize)) by {
                        if b < j {
                            let w = choose|w: int| 0 <= w < before.len() && before[w] == (i, b as usize);
                            assert(pairs@[w] == before[w]);
                        } else {
                            assert(pairs@[pairs.len() - 1] == (i, j));
                        }
                    }
                }
            }
            j = j + 1;
        }
        i = i + 1;
    }
    pairs
}

/// Binning is monotone: two boxes that overlap are always registered in at
/// least one common cell, whatever the cell size.
pub proof fn lemma_overlap_shares_cell(a: Aabb, b: Aabb, size: int)
    requires
        size > 0,
        a.overlaps_spec(b),
    ensures
        share_cell(cell_range_spec(a, size), cell_range_spec(b, size)),
{
    lemma_div_is_ordered(a.min_x as int, b.max_x as int, size);
    lemma_div_is_ordered(b.min_x as int, a.max_x as int, size);
    lemma_div_is_ordered(a.min_y as int, b.max_y as int, size);
    lemma_div_is_ordered(b.min_y as int, a.max_y as int, size);
    lemma_cell_fits(a.min_x as int, size);
    lemma_cell_fits(a.max_x as int, size);
    lemma_cell_fits(a.min_y as int, size);
    lemma_cell_fits(a.max_y as int, size);
    lemma_cell_fits(b.min_x as int, size);
    lemma_cell_fits(b.max_x as int, size);
    lemma_cell_fits(b.min_y as int, size);
    lemma_cell_fits(b.max_y as int, size);
}

proof fn lemma_cell_fits(c: int, size: int)
    requires
        size > 0,
        i64::MIN <= c <= i64::MAX,
    ensures
        i64::MIN <= c / size <= i64::MAX,
{
    if c >= 0 {
        lemma_div_is_ordered(0, c, size);
        lemma_div_is_ordered_by_denominator(c, 1, size);
    } else {
        lemma_div_is_ordered(c, 0, size);
        lemma_fundamental_div_mod(c, size);
        lemma_mod_bound(c, size);
        assert(c / size >= c) by (nonlinear_arith)
            requires
                size >= 1,
                c < 0,
                c == size * (c / size) + c % size,
                0 <= c % size < size,
        ;
    }
}

/// The grid never misses a contact: every pair of colliders whose bounding
/// boxes overlap is among the candidate pairs.
pub proof fn lemma_candidates_cover_overlaps(
    boxes: Seq<Aabb>,
    size: int,
    pairs: Seq<(usize, usize)>,
    i: int,
    j: int,
)
    requires
        size > 0,
        is_candidate_set(boxes, size, pairs),
        0 <= i < j < boxes.len(),
        boxes[i].overlaps_spec(boxes[j]),
    ensures
        pairs.contains((i as usize, j as usize)),
{
    lemma_overlap_shares_cell(boxes[i], boxes[j], size);
    assert(binned_together(boxes, size, i, j));
}

} // verus!
