//! A procedurally grown branching road network over a height-mapped
//! terrain. A priority-driven growth engine expands branches over a
//! terrain height field, snaps new branches onto nearby nodes or splits
//! crossed edges at exact integer intersections, and hands back an
//! undirected graph of sites with per-edge attributes. All geometry,
//! ranking and growth logic is exact fixed-point integer arithmetic, so
//! the whole construction is a proven function of the configuration, the
//! terrain and the random seed.

pub mod edge_graph;
pub mod math;
pub mod num;
pub mod queue;
pub mod random;
pub mod terrain_field;
pub mod transport;
pub mod treeobj;
pub mod trig;

use vstd::prelude::*;

verus! {

/// Largest coordinate magnitude the geometry accepts. All sites that enter
/// the network lie within `[-COORD_LIMIT, COORD_LIMIT]` on both axes, which
/// keeps every intermediate product of the exact integer geometry inside
/// `i128`.
pub const COORD_LIMIT: i64 = 500_000;

/// Largest elevation magnitude a terrain field may carry.
pub const ELEV_LIMIT: i64 = 1_000_000;

/// The elevation threshold below which no network growth is permitted.
/// Elevations are fixed-point thousandths, so this is one thousandth.
pub const SEA_LEVEL: i64 = 1;

/// Scale of the fixed-point weight and priority parameters: a weight `w`
/// means `w / WEIGHT_SCALE`.
pub const WEIGHT_SCALE: i64 = 1000;

/// A 2D site in fixed-point integer coordinates.
///
/// One unit is one thousandth of a map unit; all geometry in the crate is
/// exact integer arithmetic over these coordinates.
#[derive(Clone, Copy, PartialEq, Eq, Structural, Debug)]
pub struct Site2D {
    pub x: i64,
    pub y: i64,
}

impl Site2D {
    pub fn new(x: i64, y: i64) -> (r: Site2D)
        ensures
            r.x == x,
            r.y == y,
    {
        Site2D { x, y }
    }
}

/// Attributes carried by a committed edge: `is_highway` marks a primary,
/// arterial edge; `is_even` marks the secondary branch generation used to
/// keep lateral spacing regular (it alternates each time a non-straight
/// direction branches).
#[derive(Clone, Copy, PartialEq, Eq, Structural, Debug)]
pub struct PathAttr {
    pub is_highway: bool,
    pub is_even: bool,
}

} // verus!
