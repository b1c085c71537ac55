use vstd::prelude::*;
use crate::num::{div_trunc, lemma_mul_bound, lemma_tdiv_magnitude, lemma_tdiv_neg_both, tdiv};
use crate::{Site2D, COORD_LIMIT};

verus! {

/// The crossing of the two infinite lines through segments `a` and `b`,
/// solved by the determinant method on the lines' general forms. `None`
/// when the determinant is exactly zero (parallel lines). The flag is true
/// iff the crossing point lies within both segments' bounding extents on
/// both axes (a proper crossing).
pub open spec fn get_cross_spec(a_start: Site2D, a_end: Site2D, b_start: Site2D, b_end: Site2D) -> Option<
    (int, int, bool),
> {
    let a1 = a_end.y - a_start.y;
    let b1 = a_start.x - a_end.x;
    let c1 = a1 * a_start.x + b1 * a_start.y;
    let a2 = b_end.y - b_start.y;
    let b2 = b_start.x - b_end.x;
    let c2 = a2 * b_start.x + b2 * b_start.y;
    let det = a1 * b2 - a2 * b1;
    if det == 0 {
        Option::None
    } else {
        let x = tdiv(b2 * c1 - b1 * c2, det);
        let y = tdiv(a1 * c2 - a2 * c1, det);
        let passing = (x - a_start.x) * (x - a_end.x) <= 0 && (y - a_start.y) * (y - a_end.y) <= 0
            && (x - b_start.x) * (x - b_end.x) <= 0 && (y - b_start.y) * (y - b_end.y) <= 0;
        Option::Some((x, y, passing))
    }
}

/// How an executable crossing result reads as the spec-level one.
pub open spec fn cross_view(r: Option<(Site2D, bool)>) -> Option<(int, int, bool)> {
    match r {
        Option::None => Option::None,
        Option::Some((p, passing)) => Option::Some((p.x as int, p.y as int, passing)),
    }
}

/// A site lies within the given coordinate bound on both axes.
pub open spec fn in_bounds(s: Site2D) -> bool {
    -COORD_LIMIT <= s.x <= COORD_LIMIT && -COORD_LIMIT <= s.y <= COORD_LIMIT
}

/// Exchanging the two segments leaves the crossing unchanged.
pub proof fn lemma_cross_symmetry(a_start: Site2D, a_end: Site2D, b_start: Site2D, b_end: Site2D)
    ensures
        get_cross_spec(a_start, a_end, b_start, b_end) == get_cross_spec(
            b_start,
            b_end,
            a_start,
            a_end,
        ),
{
    let a1 = a_end.y - a_start.y;
    let b1 = a_start.x - a_end.x;
    let c1 = a1 * a_start.x + b1 * a_start.y;
    let a2 = b_end.y - b_start.y;
    let b2 = b_start.x - b_end.x;
    let c2 = a2 * b_start.x + b2 * b_start.y;
    let det = a1 * b2 - a2 * b1;
    if det != 0 {
        lemma_tdiv_neg_both(b1 * c2 - b2 * c1, a2 * b1 - a1 * b2);
        lemma_tdiv_neg_both(a2 * c1 - a1 * c2, a2 * b1 - a1 * b2);
    }
}

/// Segments with parallel direction vectors have no crossing.
pub proof fn lemma_cross_parallel(a_start: Site2D, a_end: Site2D, b_start: Site2D, b_end: Site2D)
    requires
        (a_end.x - a_start.x) * (b_end.y - b_start.y) == (b_end.x - b_start.x) * (a_end.y
            - a_start.y),
    ensures
        get_cross_spec(a_start, a_end, b_start, b_end) is None,
{
    let a1 = a_end.y - a_start.y;
    let b1 = a_start.x - a_end.x;
    let a2 = b_end.y - b_start.y;
    let b2 = b_start.x - b_end.x;
    assert(a1 * b2 - a2 * b1 == 0) by (nonlinear_arith)
        requires
            a1 == a_end.y - a_start.y,
            b1 == a_start.x - a_end.x,
            a2 == b_end.y - b_start.y,
            b2 == b_start.x - b_end.x,
            (a_end.x - a_start.x) * (b_end.y - b_start.y) == (b_end.x - b_start.x) * (a_end.y
                - a_start.y),
    {}
}

/// A proper crossing lies within both segments' bounding extents, so it
/// inherits their coordinate bounds.
pub proof fn lemma_passing_in_bounds(a_start: Site2D, a_end: Site2D, b_start: Site2D, b_end: Site2D, x: int, y: int)
    requires
        in_bounds(a_start),
        in_bounds(a_end),
        get_cross_spec(a_start, a_end, b_start, b_end) == Option::Some((x, y, true)),
    ensures
        -COORD_LIMIT <= x <= COORD_LIMIT,
        -COORD_LIMIT <= y <= COORD_LIMIT,
{
    assert((x - a_start.x) * (x - a_end.x) <= 0);
    assert((y - a_start.y) * (y - a_end.y) <= 0);
    assert(-COORD_LIMIT <= x <= COORD_LIMIT) by (nonlinear_arith)
        requires
            (x - a_start.x) * (x - a_end.x) <= 0,
            -COORD_LIMIT <= a_start.x <= COORD_LIMIT,
            -COORD_LIMIT <= a_end.x <= COORD_LIMIT,
    {}
    assert(-COORD_LIMIT <= y <= COORD_LIMIT) by (nonlinear_arith)
        requires
            (y - a_start.y) * (y - a_end.y) <= 0,
            -COORD_LIMIT <= a_start.y <= COORD_LIMIT,
            -COORD_LIMIT <= a_end.y <= COORD_LIMIT,
    {}
}

/// Solves the general forms of the two lines and classifies the crossing.
pub fn get_cross(line_a_start: Site2D, line_a_end: Site2D, line_b_start: Site2D, line_b_end: Site2D) -> (r:
    Option<(Site2D, bool)>)
    requires
        in_bounds(line_a_start),
        in_bounds(line_a_end),
        in_bounds(line_b_start),
        in_bounds(line_b_end),
    ensures
        cross_view(r) == get_cross_spec(line_a_start, line_a_end, line_b_start, line_b_end),
{
    let asx: i128 = line_a_start.x as i128;
    let asy: i128 = line_a_start.y as i128;
    let aex: i128 = line_a_end.x as i128;
    let aey: i128 = line_a_end.y as i128;
    let bsx: i128 = line_b_start.x as i128;
    let bsy: i128 = line_b_start.y as i128;
    let bex: i128 = line_b_end.x as i128;
    let bey: i128 = line_b_end.y as i128;

    let a1: i128 = aey - asy;
    let b1: i128 = asx - aex;
    proof {
        lemma_mul_bound(a1 as int, asx as int, 1_000_000, 500_000);
        lemma_mul_bound(b1 as int, asy as int, 1_000_000, 500_000);
    }
    let c1: i128 = a1 * asx + b1 * asy;

    let a2: i128 = bey - bsy;
    let b2: i128 = bsx - bex;
    proof {
        lemma_mul_bound(a2 as int, bsx as int, 1_000_000, 500_000);
        lemma_mul_bound(b2 as int, bsy as int, 1_000_000, 500_000);
    }
    let c2: i128 = a2 * bsx + b2 * bsy;

    proof {
        lemma_mul_bound(a1 as int, b2 as int, 1_000_000, 1_000_000);
        lemma_mul_bound(a2 as int, b1 as int, 1_000_000, 1_000_000);
    }
    let det: i128 = a1 * b2 - a2 * b1;

    if det == 0 {
        return Option::None;
    }
    proof {
        lemma_mul_bound(b2 as int, c1 as int, 1_000_000, 1_000_000_000_000);
        lemma_mul_bound(b1 as int, c2 as int, 1_000_000, 1_000_000_000_000);
        lemma_mul_bound(a1 as int, c2 as int, 1_000_000, 1_000_000_000_000);
        lemma_mul_bound(a2 as int, c1 as int, 1_000_000, 1_000_000_000_000);
    }
    let num_x: i128 = b2 * c1 - b1 * c2;
    let num_y: i128 = a1 * c2 - a2 * c1;
    proof {
        lemma_tdiv_magnitude(num_x as int, det as int);
        lemma_tdiv_magnitude(num_y as int, det as int);
    }
    let x: i128 = div_trunc(num_x, det);
    let y: i128 = div_trunc(num_y, det);

    proof {
        lemma_mul_bound((x - asx) as int, (x - aex) as int, 3_000_000_000_000_000_000, 3_000_000_000_000_000_000);
        lemma_mul_bound((y - asy) as int, (y - aey) as int, 3_000_000_000_000_000_000, 3_000_000_000_000_000_000);
        lemma_mul_bound((x - bsx) as int, (x - bex) as int, 3_000_000_000_000_000_000, 3_000_000_000_000_000_000);
        lemma_mul_bound((y - bsy) as int, (y - bey) as int, 3_000_000_000_000_000_000, 3_000_000_000_000_000_000);
    }
    let passing: bool = (x - asx) * (x - aex) <= 0 && (y - asy) * (y - aey) <= 0 && (x - bsx) * (x
        - bex) <= 0 && (y - bsy) * (y - bey) <= 0;

    let point: Site2D = Site2D { x: x as i64, y: y as i64 };
    Option::Some((point, passing))
}

} // verus!
