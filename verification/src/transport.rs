use vstd::prelude::*;
use crate::num::{lemma_div_bound, lemma_mul_bound};
use crate::queue::{min_cost_index, Candidate, CandidateQueue};
use crate::random::{scramble, RandomStream, PROB_DENOM};
use crate::terrain_field::TerrainField;
use crate::treeobj::{
    considered, excluded_hit, find_spec, inserted_object, lemma_find_cases, split_first,
    split_pos, split_second, PathTree, PathTreeObject, PathTreeQuery,
};
use crate::trig::{
    add_angle, add_angle_spec, cos_fp, cos_fp_spec, scale_trig, scale_trig_spec, sin_fp,
    sin_fp_spec, sub_angle, sub_angle_spec, ANGLE_FULL, ANGLE_HALF, ANGLE_QUARTER,
};
use crate::math::{get_cross, get_cross_spec, in_bounds, lemma_passing_in_bounds};
use crate::{PathAttr, Site2D, COORD_LIMIT, ELEV_LIMIT, SEA_LEVEL, WEIGHT_SCALE};

verus! {

/// A configuration mistake found eagerly, before any growth is attempted.
#[derive(Clone, Copy, PartialEq, Eq, Structural, Debug)]
pub enum ConfigError {
    ZeroAngleDeviation,
    ExcessiveMaxAngle,
    InvalidBranchLength,
    InvalidProbability,
    InvalidPriority,
    InvalidWeight,
    ExcessiveIterations,
    StartOutOfBounds,
}

/// Configuration of one network growth: the start site, the branch
/// geometry, the rotation probabilities, the cost-model weights and the
/// iteration budget. Lengths and coordinates are fixed-point thousandths of
/// a map unit, angles are fractions of a turn, probabilities are parts of
/// `PROB_DENOM`, and weights are parts of `WEIGHT_SCALE`.
#[derive(Clone, Copy, PartialEq, Eq, Structural, Debug)]
pub struct TransportNetworkBuilder {
    pub start: Site2D,
    pub branch_length: i64,
    pub branch_angle_deviation: u64,
    pub branch_max_angle: u64,
    pub highway_rotation_probability: u64,
    pub normal_rotation_probability: u64,
    pub highway_construction_priority: i64,
    pub even_path_length_weight: i64,
    pub highway_path_length_weight: i64,
    pub iterations: usize,
}

/// The configuration bounds under which every arithmetic step of the
/// growth is exact and within machine range.
pub open spec fn config_valid(c: TransportNetworkBuilder) -> bool {
    &&& 1 <= c.branch_angle_deviation
    &&& c.branch_max_angle <= ANGLE_HALF
    &&& 1 <= c.branch_length <= 250_000
    &&& c.highway_rotation_probability <= PROB_DENOM
    &&& c.normal_rotation_probability <= PROB_DENOM
    &&& 1 <= c.highway_construction_priority <= 1_000_000
    &&& 0 <= c.even_path_length_weight <= 2_000
    &&& 0 <= c.highway_path_length_weight <= 2_000
    &&& c.iterations <= 100_000_000
    &&& in_bounds(c.start)
}

/// The eager configuration check, reporting the first broken bound.
pub open spec fn validate_spec(c: TransportNetworkBuilder) -> Result<(), ConfigError> {
    if c.branch_angle_deviation < 1 {
        Result::Err(ConfigError::ZeroAngleDeviation)
    } else if c.branch_max_angle > ANGLE_HALF {
        Result::Err(ConfigError::ExcessiveMaxAngle)
    } else if c.branch_length < 1 || c.branch_length > 250_000 {
        Result::Err(ConfigError::InvalidBranchLength)
    } else if c.highway_rotation_probability > PROB_DENOM || c.normal_rotation_probability
        > PROB_DENOM {
        Result::Err(ConfigError::InvalidProbability)
    } else if c.highway_construction_priority < 1 || c.highway_construction_priority > 1_000_000 {
        Result::Err(ConfigError::InvalidPriority)
    } else if c.even_path_length_weight < 0 || c.even_path_length_weight > 2_000
        || c.highway_path_length_weight < 0 || c.highway_path_length_weight > 2_000 {
        Result::Err(ConfigError::InvalidWeight)
    } else if c.iterations > 100_000_000 {
        Result::Err(ConfigError::ExcessiveIterations)
    } else if !in_bounds(c.start) {
        Result::Err(ConfigError::StartOutOfBounds)
    } else {
        Result::Ok(())
    }
}

/// The cost of extending toward `altitude_to` from a branch rooted at
/// `altitude_from`: `None` below sea level, otherwise the scaled elevation
/// difference weighted by the branch attributes, with highway branches
/// always cheaper by construction.
pub open spec fn evaluate_cost_spec(c: TransportNetworkBuilder, altitude_from: int, altitude_to: int, attr: PathAttr) -> Option<
    int,
> {
    if altitude_to < SEA_LEVEL {
        Option::None
    } else {
        let d0 = vstd::math::abs(altitude_to - altitude_from) as int;
        let d1 = if attr.is_even {
            d0 * c.even_path_length_weight / (WEIGHT_SCALE as int)
        } else {
            d0
        };
        let d2 = if attr.is_highway {
            d1 * c.highway_path_length_weight / (WEIGHT_SCALE as int)
        } else {
            d1
        };
        let inv_p = (WEIGHT_SCALE * WEIGHT_SCALE) / (c.highway_construction_priority as int);
        let factor = inv_p + (if attr.is_highway {
            0
        } else {
            WEIGHT_SCALE as int
        });
        Option::Some(d2 * altitude_to * factor / ((WEIGHT_SCALE * WEIGHT_SCALE) as int))
    }
}

/// How an executable cost reads as a spec-level one.
pub open spec fn cost_view(r: Option<i64>) -> Option<int> {
    match r {
        Option::None => Option::None,
        Option::Some(v) => Option::Some(v as int),
    }
}

/// The step length of a branch with the given attributes: the configured
/// branch length scaled by the even and highway weights.
pub open spec fn effective_length_spec(c: TransportNetworkBuilder, attr: PathAttr) -> int {
    let l0 = c.branch_length as int;
    let l1 = if attr.is_even {
        l0 * c.even_path_length_weight / (WEIGHT_SCALE as int)
    } else {
        l0
    };
    if attr.is_highway {
        l1 * c.highway_path_length_weight / (WEIGHT_SCALE as int)
    } else {
        l1
    }
}

/// The best endpoint a sweep found: its coordinates, elevation, heading
/// and cost.
pub ghost struct SweepPick {
    pub x: int,
    pub y: int,
    pub altitude: int,
    pub angle: u64,
    pub cost: int,
}

/// The executable counterpart of a sweep pick.
#[derive(Clone, Copy, PartialEq, Eq, Structural, Debug)]
pub struct BranchPick {
    pub site: Site2D,
    pub altitude: i64,
    pub angle: u64,
    pub cost: i64,
}

/// How an executable pick reads as a spec-level one.
pub open spec fn pick_view(r: Option<BranchPick>) -> Option<SweepPick> {
    match r {
        Option::None => Option::None,
        Option::Some(p) => Option::Some(
            SweepPick {
                x: p.site.x as int,
                y: p.site.y as int,
                altitude: p.altitude as int,
                angle: p.angle,
                cost: p.cost as int,
            },
        ),
    }
}

/// Bounds that every pick handed onward satisfies.
pub open spec fn pick_ok(r: Option<BranchPick>) -> bool {
    r matches Some(p) ==> in_bounds(p.site) && SEA_LEVEL <= p.altitude <= ELEV_LIMIT && p.angle
        < ANGLE_FULL && 0 <= p.cost <= 10_000_000_000_000
}

/// The x coordinate of the endpoint one branch step from `origin` at the
/// given heading.
pub open spec fn endpoint_x(c: TransportNetworkBuilder, origin: Site2D, attr: PathAttr, a: u64) -> int {
    origin.x + scale_trig_spec(effective_length_spec(c, attr), cos_fp_spec(a))
}

/// The y coordinate of that endpoint.
pub open spec fn endpoint_y(c: TransportNetworkBuilder, origin: Site2D, attr: PathAttr, a: u64) -> int {
    origin.y + scale_trig_spec(effective_length_spec(c, attr), sin_fp_spec(a))
}

/// One try of the sweep: evaluate the endpoint at heading `a` and keep it
/// if it is strictly cheaper than the best so far.
pub open spec fn try_angle_spec(c: TransportNetworkBuilder, t: TerrainField, origin: Site2D, altitude_from: int, attr: PathAttr, a: u64, best: Option<
    SweepPick,
>) -> Option<SweepPick> {
    let x = endpoint_x(c, origin, attr, a);
    let y = endpoint_y(c, origin, attr, a);
    match t.at_spec(x, y) {
        Option::None => best,
        Option::Some(alt) => match evaluate_cost_spec(c, altitude_from, alt as int, attr) {
            Option::None => best,
            Option::Some(cost) => {
                let better = match best {
                    Option::None => true,
                    Option::Some(b) => cost < b.cost,
                };
                if better {
                    Option::Some(SweepPick { x, y, altitude: alt as int, angle: a, cost })
                } else {
                    best
                }
            },
        },
    }
}

/// The angular offset of sweep index `k`.
pub open spec fn dev_delta(c: TransportNetworkBuilder, k: nat) -> u64 {
    ((c.branch_angle_deviation * k) % (ANGLE_FULL as int)) as u64
}

/// The sweep after trying indices `0..=k`: index 0 tries the base heading,
/// every further index tries the positive deviation first, then the
/// negative one, each time keeping a strictly cheaper endpoint.
pub open spec fn sweep_upto(c: TransportNetworkBuilder, t: TerrainField, origin: Site2D, altitude_from: int, attr: PathAttr, base: u64, k: nat) -> Option<
    SweepPick,
>
    decreases k,
{
    if k == 0 {
        try_angle_spec(c, t, origin, altitude_from, attr, base, Option::None)
    } else {
        let prev = sweep_upto(c, t, origin, altitude_from, attr, base, (k - 1) as nat);
        let ap = add_angle_spec(base, dev_delta(c, k));
        let b1 = try_angle_spec(c, t, origin, altitude_from, attr, ap, prev);
        let am = sub_angle_spec(base, dev_delta(c, k));
        try_angle_spec(c, t, origin, altitude_from, attr, am, b1)
    }
}

/// The whole sweep around `base`, over `floor(max_angle / deviation)`
/// deviation steps to each side.
pub open spec fn sweep_spec(c: TransportNetworkBuilder, t: TerrainField, origin: Site2D, altitude_from: int, attr: PathAttr, base: u64) -> Option<
    SweepPick,
> {
    sweep_upto(
        c,
        t,
        origin,
        altitude_from,
        attr,
        base,
        (c.branch_max_angle / c.branch_angle_deviation) as nat,
    )
}

/// What holds of a freshly enqueued candidate.
pub open spec fn new_candidate_ok(cand: Candidate, parent_end_index: usize) -> bool {
    &&& cand.start == parent_end_index
    &&& in_bounds(cand.end_site)
    &&& SEA_LEVEL <= cand.end_elevation <= ELEV_LIMIT
    &&& cand.angle < ANGLE_FULL
    &&& 0 <= cand.cost
}

/// A candidate's cached elevation is exactly what the terrain defines at
/// its endpoint. Kept opaque so that quantified invariants over whole
/// queues stay cheap for the solver.
#[verifier::opaque]
pub open spec fn candidate_accurate(t: TerrainField, cand: Candidate) -> bool {
    t.at_spec(cand.end_site.x as int, cand.end_site.y as int) == Option::Some(cand.end_elevation)
}

/// A registered site's cached elevation is exactly what the terrain
/// defines at its coordinates.
#[verifier::opaque]
pub open spec fn site_accurate(t: TerrainField, entry: (Site2D, i64)) -> bool {
    t.at_spec(entry.0.x as int, entry.0.y as int) == Option::Some(entry.1)
}

/// A sweep winner's elevation is exactly what the terrain defines at its
/// coordinates.
pub proof fn lemma_sweep_elevation(c: TransportNetworkBuilder, t: TerrainField, origin: Site2D, altitude_from: int, attr: PathAttr, base: u64)
    ensures
        sweep_spec(c, t, origin, altitude_from, attr, base) matches Some(p) ==> t.at_spec(p.x, p.y)
            == Option::Some(p.altitude as i64) && p.altitude == p.altitude as i64,
{
    lemma_sweep_upto_elevation(
        c,
        t,
        origin,
        altitude_from,
        attr,
        base,
        (c.branch_max_angle / c.branch_angle_deviation) as nat,
    );
}

proof fn lemma_try_angle_elevation(c: TransportNetworkBuilder, t: TerrainField, origin: Site2D, altitude_from: int, attr: PathAttr, a: u64, best: Option<SweepPick>)
    requires
        best matches Some(p) ==> t.at_spec(p.x, p.y) == Option::Some(p.altitude as i64)
            && p.altitude == p.altitude as i64,
    ensures
        try_angle_spec(c, t, origin, altitude_from, attr, a, best) matches Some(p) ==> t.at_spec(
            p.x,
            p.y,
        ) == Option::Some(p.altitude as i64) && p.altitude == p.altitude as i64,
{
}

proof fn lemma_sweep_upto_elevation(c: TransportNetworkBuilder, t: TerrainField, origin: Site2D, altitude_from: int, attr: PathAttr, base: u64, k: nat)
    ensures
        sweep_upto(c, t, origin, altitude_from, attr, base, k) matches Some(p) ==> t.at_spec(
            p.x,
            p.y,
        ) == Option::Some(p.altitude as i64) && p.altitude == p.altitude as i64,
    decreases k,
{
    if k == 0 {
        lemma_try_angle_elevation(c, t, origin, altitude_from, attr, base, Option::None);
    } else {
        lemma_sweep_upto_elevation(c, t, origin, altitude_from, attr, base, (k - 1) as nat);
        let prev = sweep_upto(c, t, origin, altitude_from, attr, base, (k - 1) as nat);
        let ap = add_angle_spec(base, dev_delta(c, k));
        lemma_try_angle_elevation(c, t, origin, altitude_from, attr, ap, prev);
        let b1 = try_angle_spec(c, t, origin, altitude_from, attr, ap, prev);
        let am = sub_angle_spec(base, dev_delta(c, k));
        lemma_try_angle_elevation(c, t, origin, altitude_from, attr, am, b1);
    }
}

/// The queue after sweeping one direction: unchanged when no endpoint
/// survived, else extended by the winning candidate.
pub open spec fn branch_push_spec(c: TransportNetworkBuilder, t: TerrainField, queue: Seq<Candidate>, origin: Site2D, altitude_from: i64, attr: PathAttr, angle: u64, parent_end_index: usize) -> Seq<
    Candidate,
> {
    match sweep_spec(c, t, origin, altitude_from as int, attr, angle) {
        Option::None => queue,
        Option::Some(p) => queue.push(
            Candidate {
                start: parent_end_index,
                end_site: Site2D { x: p.x as i64, y: p.y as i64 },
                end_elevation: p.altitude as i64,
                angle: p.angle,
                cost: p.cost as i64,
                path_attr: attr,
            },
        ),
    }
}

/// One branch direction of a committed candidate: the straight direction
/// inherits the parent's attributes and draws nothing; a lateral direction
/// flips the even flag and consumes exactly one biased draw. Under a
/// highway parent the draw decides only whether the branch remains a
/// highway (the direction is attempted either way); under a local parent
/// it decides whether the direction is attempted at all. Returns the
/// random state and the queue after the decision.
pub open spec fn branch_dir_spec(c: TransportNetworkBuilder, t: TerrainField, rng: u64, queue: Seq<Candidate>, origin: Site2D, altitude_from: i64, parent_attr: PathAttr, parent_angle: u64, parent_end_index: usize, riter: int) -> (
    u64,
    Seq<Candidate>,
) {
    let angle = if riter == -1 {
        sub_angle_spec(parent_angle, ANGLE_QUARTER)
    } else if riter == 1 {
        add_angle_spec(parent_angle, ANGLE_QUARTER)
    } else {
        parent_angle
    };
    if riter == 0 {
        (
            rng,
            branch_push_spec(
                c,
                t,
                queue,
                origin,
                altitude_from,
                parent_attr,
                angle,
                parent_end_index,
            ),
        )
    } else {
        let flipped = !parent_attr.is_even;
        let d1 = scramble(rng);
        if parent_attr.is_highway {
            // one draw: does the lateral branch remain a highway?
            let stays_highway = d1 % PROB_DENOM < c.highway_rotation_probability;
            (
                d1,
                branch_push_spec(
                    c,
                    t,
                    queue,
                    origin,
                    altitude_from,
                    PathAttr { is_highway: stays_highway, is_even: flipped },
                    angle,
                    parent_end_index,
                ),
            )
        } else {
            // one draw: does the lateral branch happen at all?
            if d1 % PROB_DENOM < c.normal_rotation_probability {
                (
                    d1,
                    branch_push_spec(
                        c,
                        t,
                        queue,
                        origin,
                        altitude_from,
                        PathAttr { is_highway: false, is_even: flipped },
                        angle,
                        parent_end_index,
                    ),
                )
            } else {
                (d1, queue)
            }
        }
    }
}

impl TransportNetworkBuilder {
    /// One try of the sweep: computes the endpoint at heading `a`, asks
    /// the terrain for its elevation, scores it, and keeps the cheaper of
    /// it and `best`.
    fn try_angle(&self, terrain: &TerrainField, origin: Site2D, altitude_from: i64, attr: PathAttr, a: u64, best: Option<
        BranchPick,
    >) -> (r: Option<BranchPick>)
        requires
            config_valid(*self),
            terrain.inv(),
            in_bounds(origin),
            -ELEV_LIMIT <= altitude_from <= ELEV_LIMIT,
            a < ANGLE_FULL,
            pick_ok(best),
        ensures
            pick_view(r) == try_angle_spec(
                *self,
                *terrain,
                origin,
                altitude_from as int,
                attr,
                a,
                pick_view(best),
            ),
            pick_ok(r),
    {
        let len: i64 = self.effective_length(attr);
        let c: i64 = cos_fp(a);
        let s: i64 = sin_fp(a);
        let dx: i64 = scale_trig(len, c);
        let dy: i64 = scale_trig(len, s);
        let x: i64 = origin.x + dx;
        let y: i64 = origin.y + dy;
        match terrain.at(x, y) {
            Option::None => best,
            Option::Some(alt) => {
                proof {
                    terrain.lemma_at_in_bounds(x as int, y as int);
                }
                match self.evaluate_cost(altitude_from, alt, attr) {
                    Option::None => best,
                    Option::Some(cost) => {
                        let better: bool = match best {
                            Option::None => true,
                            Option::Some(b) => cost < b.cost,
                        };
                        if better {
                            Option::Some(
                                BranchPick { site: Site2D { x, y }, altitude: alt, angle: a, cost },
                            )
                        } else {
                            best
                        }
                    },
                }
            },
        }
    }

    /// Sweeps the candidate headings around `base` and returns the
    /// cheapest viable endpoint, if the sweep found any.
    pub fn sweep(&self, terrain: &TerrainField, origin: Site2D, altitude_from: i64, attr: PathAttr, base: u64) -> (r:
        Option<BranchPick>)
        requires
            config_valid(*self),
            terrain.inv(),
            in_bounds(origin),
            -ELEV_LIMIT <= altitude_from <= ELEV_LIMIT,
            base < ANGLE_FULL,
        ensures
            pick_view(r) == sweep_spec(*self, *terrain, origin, altitude_from as int, attr, base),
            pick_ok(r),
    {
        let check_times: u64 = self.branch_max_angle / self.branch_angle_deviation;
        let mut best: Option<BranchPick> = self.try_angle(
            terrain,
            origin,
            altitude_from,
            attr,
            base,
            Option::None,
        );
        let mut k: u64 = 1;
        while k <= check_times
            invariant
                config_valid(*self),
                terrain.inv(),
                in_bounds(origin),
                -ELEV_LIMIT <= altitude_from <= ELEV_LIMIT,
                base < ANGLE_FULL,
                check_times == self.branch_max_angle / self.branch_angle_deviation,
                1 <= k <= check_times + 1,
                pick_ok(best),
                pick_view(best) == sweep_upto(
                    *self,
                    *terrain,
                    origin,
                    altitude_from as int,
                    attr,
                    base,
                    (k - 1) as nat,
                ),
            decreases check_times + 1 - k,
        {
            proof {
                vstd::arithmetic::div_mod::lemma_fundamental_div_mod(
                    self.branch_max_angle as int,
                    self.branch_angle_deviation as int,
                );
                crate::num::lemma_mod_range(
                    self.branch_max_angle as int,
                    self.branch_angle_deviation as int,
                );
                vstd::arithmetic::mul::lemma_mul_inequality(
                    k as int,
                    check_times as int,
                    self.branch_angle_deviation as int,
                );
                assert(self.branch_angle_deviation * k == k * self.branch_angle_deviation)
                    by (nonlinear_arith)
                {}
                assert(check_times * self.branch_angle_deviation == self.branch_angle_deviation
                    * check_times) by (nonlinear_arith)
                {}
            }
            let delta_raw: u64 = self.branch_angle_deviation * k;
            let delta: u64 = delta_raw % ANGLE_FULL;
            let ap: u64 = add_angle(base, delta);
            best = self.try_angle(terrain, origin, altitude_from, attr, ap, best);
            let am: u64 = sub_angle(base, delta);
            best = self.try_angle(terrain, origin, altitude_from, attr, am, best);
            k = k + 1;
        }
        best
    }

    /// The queue a direction decision leaves behind: unchanged when the
    /// sweep found nothing, else with one new candidate growing from the
    /// committed endpoint.
    fn push_pick(&self, terrain: &TerrainField, queue: &mut CandidateQueue, origin: Site2D, altitude_from: i64, attr: PathAttr, angle: u64, parent_end_index: usize)
        requires
            config_valid(*self),
            terrain.inv(),
            in_bounds(origin),
            -ELEV_LIMIT <= altitude_from <= ELEV_LIMIT,
            angle < ANGLE_FULL,
            old(queue).items@.len() < usize::MAX - 1,
        ensures
            final(queue).items@ == branch_push_spec(
                *self,
                *terrain,
                old(queue).items@,
                origin,
                altitude_from,
                attr,
                angle,
                parent_end_index,
            ),
            old(queue).items@.len() <= final(queue).items@.len() <= old(queue).items@.len() + 1,
            forall|j: int|
                0 <= j < old(queue).items@.len() ==> final(queue).items@[j] == old(
                    queue,
                ).items@[j],
            final(queue).items@.len() > old(queue).items@.len() ==> new_candidate_ok(
                final(queue).items@.last(),
                parent_end_index,
            ) && candidate_accurate(*terrain, final(queue).items@.last()),
    {
        proof {
            reveal(candidate_accurate);
            lemma_sweep_elevation(*self, *terrain, origin, altitude_from as int, attr, angle);
        }
        match self.sweep(terrain, origin, altitude_from, attr, angle) {
            Option::None => {},
            Option::Some(p) => {
                queue.push(
                    Candidate {
                        start: parent_end_index,
                        end_site: p.site,
                        end_elevation: p.altitude,
                        angle: p.angle,
                        cost: p.cost,
                        path_attr: attr,
                    },
                );
            },
        }
    }

    /// One of the three branch directions of a committed candidate: decides
    /// the branch attributes (drawing from the random stream as needed),
    /// then sweeps and possibly enqueues one new candidate.
    fn branch_direction(&self, terrain: &TerrainField, rng: &mut RandomStream, queue: &mut CandidateQueue, origin: Site2D, altitude_from: i64, parent_attr: PathAttr, parent_angle: u64, parent_end_index: usize, riter: i64)
        requires
            config_valid(*self),
            terrain.inv(),
            in_bounds(origin),
            -ELEV_LIMIT <= altitude_from <= ELEV_LIMIT,
            parent_angle < ANGLE_FULL,
            riter == -1 || riter == 0 || riter == 1,
            old(queue).items@.len() < usize::MAX - 1,
        ensures
            final(rng).state == branch_dir_spec(
                *self,
                *terrain,
                old(rng).state,
                old(queue).items@,
                origin,
                altitude_from,
                parent_attr,
                parent_angle,
                parent_end_index,
                riter as int,
            ).0,
            final(queue).items@ == branch_dir_spec(
                *self,
                *terrain,
                old(rng).state,
                old(queue).items@,
                origin,
                altitude_from,
                parent_attr,
                parent_angle,
                parent_end_index,
                riter as int,
            ).1,
            old(queue).items@.len() <= final(queue).items@.len() <= old(queue).items@.len() + 1,
            forall|j: int|
                0 <= j < old(queue).items@.len() ==> final(queue).items@[j] == old(
                    queue,
                ).items@[j],
            final(queue).items@.len() > old(queue).items@.len() ==> new_candidate_ok(
                final(queue).items@.last(),
                parent_end_index,
            ) && candidate_accurate(*terrain, final(queue).items@.last()),
    {
        let angle: u64 = if riter == -1 {
            sub_angle(parent_angle, ANGLE_QUARTER)
        } else if riter == 1 {
            add_angle(parent_angle, ANGLE_QUARTER)
        } else {
            parent_angle
        };
        if riter == 0 {
            self.push_pick(
                terrain,
                queue,
                origin,
                altitude_from,
                parent_attr,
                angle,
                parent_end_index,
            );
            return ;
        }
        let flipped: bool = !parent_attr.is_even;
        if parent_attr.is_highway {
            let stays_highway: bool = rng.gen_bool(self.highway_rotation_probability);
            self.push_pick(
                terrain,
                queue,
                origin,
                altitude_from,
                PathAttr { is_highway: stays_highway, is_even: flipped },
                angle,
                parent_end_index,
            );
        } else {
            if rng.gen_bool(self.normal_rotation_probability) {
                self.push_pick(
                    terrain,
                    queue,
                    origin,
                    altitude_from,
                    PathAttr { is_highway: false, is_even: flipped },
                    angle,
                    parent_end_index,
                );
            }
        }
    }

    /// A blank configuration; every relevant field must be set before
    /// `build` will accept it.
    pub fn new() -> (r: TransportNetworkBuilder)
        ensures
            r == (TransportNetworkBuilder {
                start: Site2D { x: 0, y: 0 },
                branch_length: 0,
                branch_angle_deviation: 0,
                branch_max_angle: 0,
                highway_rotation_probability: 0,
                normal_rotation_probability: 0,
                highway_construction_priority: 0,
                even_path_length_weight: 0,
                highway_path_length_weight: 0,
                iterations: 0,
            }),
    {
        TransportNetworkBuilder {
            start: Site2D { x: 0, y: 0 },
            branch_length: 0,
            branch_angle_deviation: 0,
            branch_max_angle: 0,
            highway_rotation_probability: 0,
            normal_rotation_probability: 0,
            highway_construction_priority: 0,
            even_path_length_weight: 0,
            highway_path_length_weight: 0,
            iterations: 0,
        }
    }

    pub fn set_start(self, start_x: i64, start_y: i64) -> (r: Self)
        ensures
            r == (TransportNetworkBuilder { start: Site2D { x: start_x, y: start_y }, ..self }),
    {
        TransportNetworkBuilder { start: Site2D { x: start_x, y: start_y }, ..self }
    }

    pub fn set_branch_angle_deviation(self, branch_angle_deviation: u64) -> (r: Self)
        ensures
            r == (TransportNetworkBuilder { branch_angle_deviation, ..self }),
    {
        TransportNetworkBuilder { branch_angle_deviation, ..self }
    }

    pub fn set_iterations(self, iterations: usize) -> (r: Self)
        ensures
            r == (TransportNetworkBuilder { iterations, ..self }),
    {
        TransportNetworkBuilder { iterations, ..self }
    }

    pub fn set_branch_length(self, branch_length: i64) -> (r: Self)
        ensures
            r == (TransportNetworkBuilder { branch_length, ..self }),
    {
        TransportNetworkBuilder { branch_length, ..self }
    }

    pub fn set_branch_max_angle(self, branch_max_angle: u64) -> (r: Self)
        ensures
            r == (TransportNetworkBuilder { branch_max_angle, ..self }),
    {
        TransportNetworkBuilder { branch_max_angle, ..self }
    }

    pub fn set_highway_rotation_probability(self, highway_rotation_probability: u64) -> (r: Self)
        ensures
            r == (TransportNetworkBuilder { highway_rotation_probability, ..self }),
    {
        TransportNetworkBuilder { highway_rotation_probability, ..self }
    }

    pub fn set_normal_rotation_probability(self, normal_rotation_probability: u64) -> (r: Self)
        ensures
            r == (TransportNetworkBuilder { normal_rotation_probability, ..self }),
    {
        TransportNetworkBuilder { normal_rotation_probability, ..self }
    }

    pub fn set_highway_construction_priority(self, highway_construction_priority: i64) -> (r: Self)
        ensures
            r == (TransportNetworkBuilder { highway_construction_priority, ..self }),
    {
        TransportNetworkBuilder { highway_construction_priority, ..self }
    }

    pub fn set_even_path_length_weight(self, even_path_length_weight: i64) -> (r: Self)
        ensures
            r == (TransportNetworkBuilder { even_path_length_weight, ..self }),
    {
        TransportNetworkBuilder { even_path_length_weight, ..self }
    }

    pub fn set_highway_path_length_weight(self, highway_path_length_weight: i64) -> (r: Self)
        ensures
            r == (TransportNetworkBuilder { highway_path_length_weight, ..self }),
    {
        TransportNetworkBuilder { highway_path_length_weight, ..self }
    }

    /// Checks the configuration bounds, reporting the first broken one.
    pub fn validate(&self) -> (r: Result<(), ConfigError>)
        ensures
            r == validate_spec(*self),
            r is Ok <==> config_valid(*self),
    {
        if self.branch_angle_deviation < 1 {
            Result::Err(ConfigError::ZeroAngleDeviation)
        } else if self.branch_max_angle > ANGLE_HALF {
            Result::Err(ConfigError::ExcessiveMaxAngle)
        } else if self.branch_length < 1 || self.branch_length > 250_000 {
            Result::Err(ConfigError::InvalidBranchLength)
        } else if self.highway_rotation_probability > PROB_DENOM
            || self.normal_rotation_probability > PROB_DENOM {
            Result::Err(ConfigError::InvalidProbability)
        } else if self.highway_construction_priority < 1 || self.highway_construction_priority
            > 1_000_000 {
            Result::Err(ConfigError::InvalidPriority)
        } else if self.even_path_length_weight < 0 || self.even_path_length_weight > 2_000
            || self.highway_path_length_weight < 0 || self.highway_path_length_weight > 2_000 {
            Result::Err(ConfigError::InvalidWeight)
        } else if self.iterations > 100_000_000 {
            Result::Err(ConfigError::ExcessiveIterations)
        } else if self.start.x < -COORD_LIMIT || self.start.x > COORD_LIMIT || self.start.y
            < -COORD_LIMIT || self.start.y > COORD_LIMIT {
            Result::Err(ConfigError::StartOutOfBounds)
        } else {
            Result::Ok(())
        }
    }

    /// The cost model on fixed-point elevations.
    pub fn evaluate_cost(&self, altitude_from: i64, altitude_to: i64, attr: PathAttr) -> (r:
        Option<i64>)
        requires
            config_valid(*self),
            -ELEV_LIMIT <= altitude_from <= ELEV_LIMIT,
            -ELEV_LIMIT <= altitude_to <= ELEV_LIMIT,
        ensures
            cost_view(r) == evaluate_cost_spec(*self, altitude_from as int, altitude_to as int, attr),
            r matches Some(v) ==> 0 <= v <= 10_000_000_000_000,
    {
        if altitude_to < SEA_LEVEL {
            return Option::None;
        }
        let d0: u64 = if altitude_to >= altitude_from {
            (altitude_to - altitude_from) as u64
        } else {
            (altitude_from - altitude_to) as u64
        };
        let d1: u64 = if attr.is_even {
            proof {
                lemma_mul_bound(d0 as int, self.even_path_length_weight as int, 2_000_000, 2_000);
                lemma_div_bound(d0 * self.even_path_length_weight, 4_000_000_000, 1000);
            }
            d0 * (self.even_path_length_weight as u64) / 1000
        } else {
            d0
        };
        let d2: u64 = if attr.is_highway {
            proof {
                lemma_mul_bound(
                    d1 as int,
                    self.highway_path_length_weight as int,
                    4_000_000,
                    2_000,
                );
                lemma_div_bound(d1 * self.highway_path_length_weight, 8_000_000_000, 1000);
            }
            d1 * (self.highway_path_length_weight as u64) / 1000
        } else {
            d1
        };
        proof {
            lemma_div_bound(1_000_000int, 1_000_000int, self.highway_construction_priority as int);
        }
        let inv_p: u64 = 1_000_000 / (self.highway_construction_priority as u64);
        let factor: u64 = inv_p + (if attr.is_highway {
            0
        } else {
            1000
        });
        proof {
            lemma_mul_bound(d2 as int, altitude_to as int, 8_000_000, 1_000_000);
            lemma_mul_bound(
                d2 * altitude_to,
                factor as int,
                8_000_000_000_000,
                1_001_000,
            );
            lemma_div_bound(d2 * altitude_to * factor, 8_008_000_000_000_000_000, 1_000_000);
        }
        let big: u128 = (d2 as u128) * (altitude_to as u128) * (factor as u128);
        let cost_u: u128 = big / 1_000_000;
        Option::Some(cost_u as i64)
    }

    /// The step length of a branch with the given attributes.
    pub fn effective_length(&self, attr: PathAttr) -> (r: i64)
        requires
            config_valid(*self),
        ensures
            r == effective_length_spec(*self, attr),
            0 <= r <= 1_000_000,
    {
        let l0: i64 = self.branch_length;
        let l1: i64 = if attr.is_even {
            proof {
                lemma_mul_bound(l0 as int, self.even_path_length_weight as int, 250_000, 2_000);
                lemma_div_bound(l0 * self.even_path_length_weight, 500_000_000, 1000);
            }
            ((l0 as u64) * (self.even_path_length_weight as u64) / 1000) as i64
        } else {
            l0
        };
        if attr.is_highway {
            proof {
                lemma_mul_bound(l1 as int, self.highway_path_length_weight as int, 500_000, 2_000);
                lemma_div_bound(l1 * self.highway_path_length_weight, 1_000_000_000, 1000);
            }
            ((l1 as u64) * (self.highway_path_length_weight as u64) / 1000) as i64
        } else {
            l1
        }
    }
}

/// The whole mutable state of one growth: the random stream, the site
/// registry, the pending-candidate queue, the spatial index, and the count
/// of candidates popped so far.
pub struct GrowthState {
    pub rng: RandomStream,
    pub sites: Vec<(Site2D, i64)>,
    pub queue: CandidateQueue,
    pub tree: PathTree,
    pub pops: usize,
}

/// The mathematical value of a growth state.
#[verifier::ext_equal]
pub ghost struct StateModel {
    pub rng: u64,
    pub sites: Seq<(Site2D, i64)>,
    pub queue: Seq<Candidate>,
    pub paths: Seq<PathTreeObject>,
    pub next_path_index: int,
    pub pops: int,
}

impl GrowthState {
    pub open spec fn model(self) -> StateModel {
        StateModel {
            rng: self.rng.state,
            sites: self.sites@,
            queue: self.queue.items@,
            paths: self.tree.objects@,
            next_path_index: self.tree.next_path_index as int,
            pops: self.pops as int,
        }
    }

    /// Structural well-formedness of the growth state: a well-formed
    /// index whose entries point at registered sites, a registry of
    /// in-bounds sites at or above sea level whose cached elevations are
    /// exactly what the terrain defines at their coordinates, and a queue
    /// of terrain-accurate candidates growing from registered sites.
    pub open spec fn wf(self, t: TerrainField) -> bool {
        &&& self.tree.inv()
        &&& forall|i: int|
            0 <= i < self.sites@.len() ==> in_bounds((#[trigger] self.sites@[i]).0) && SEA_LEVEL
                <= self.sites@[i].1 <= ELEV_LIMIT
        &&& forall|i: int|
            0 <= i < self.sites@.len() ==> site_accurate(t, #[trigger] self.sites@[i])
        &&& forall|k: int|
            0 <= k < self.queue.items@.len() ==> (#[trigger] self.queue.items@[k]).start
                < self.sites@.len() && new_candidate_ok(
                self.queue.items@[k],
                self.queue.items@[k].start,
            ) && candidate_accurate(t, self.queue.items@[k])
        &&& forall|j: int|
            0 <= j < self.tree.objects@.len() ==> (#[trigger] self.tree.objects@[j]).site_index_start
                < self.sites@.len() && self.tree.objects@[j].site_index_end < self.sites@.len()
                && self.tree.objects@[j].site_index_start != self.tree.objects@[j].site_index_end
    }
}

/// The intersection search radius of the merge check: eight tenths of the
/// configured branch length.
pub open spec fn search_radius(c: TransportNetworkBuilder) -> int {
    c.branch_length * 8 / 10
}

/// The state after committing a candidate as a fresh edge and attempting
/// its three branch directions (left, straight, right, in that order). The
/// model `m` is the state after the pop.
pub open spec fn commit_spec(c: TransportNetworkBuilder, t: TerrainField, m: StateModel, cand: Candidate, qs: Site2D, altitude_from: i64) -> StateModel {
    let nidx = m.sites.len() as usize;
    let sites2 = m.sites.push((cand.end_site, cand.end_elevation));
    let paths2 = m.paths.push(
        inserted_object(
            m.next_path_index as usize,
            cand.start,
            nidx,
            qs,
            cand.end_site,
            cand.path_attr,
        ),
    );
    let r1 = branch_dir_spec(
        c,
        t,
        m.rng,
        m.queue,
        cand.end_site,
        altitude_from,
        cand.path_attr,
        cand.angle,
        nidx,
        -1,
    );
    let r2 = branch_dir_spec(
        c,
        t,
        r1.0,
        r1.1,
        cand.end_site,
        altitude_from,
        cand.path_attr,
        cand.angle,
        nidx,
        0,
    );
    let r3 = branch_dir_spec(
        c,
        t,
        r2.0,
        r2.1,
        cand.end_site,
        altitude_from,
        cand.path_attr,
        cand.angle,
        nidx,
        1,
    );
    StateModel {
        rng: r3.0,
        sites: sites2,
        queue: r3.1,
        paths: paths2,
        next_path_index: m.next_path_index + 1,
        pops: m.pops,
    }
}

/// One iteration of the growth loop: pop the cheapest candidate, resolve
/// it against the existing network (merge into a nearby site, split a
/// properly crossed edge, or commit it as a fresh edge and branch).
/// An empty queue leaves the state unchanged.
pub open spec fn step_spec(c: TransportNetworkBuilder, t: TerrainField, m: StateModel) -> StateModel {
    if m.queue.len() == 0 {
        m
    } else {
        let mi = min_cost_index(m.queue);
        let cand = m.queue[mi];
        let m1 = StateModel { queue: m.queue.remove(mi), pops: m.pops + 1, ..m };
        let qs = m.sites[cand.start as int].0;
        let altitude_from = m.sites[cand.start as int].1;
        let found = find_spec(m.paths, qs, cand.end_site, search_radius(c), seq![cand.start]);
        match found {
            PathTreeQuery::Site(si) => StateModel {
                paths: m1.paths.push(
                    inserted_object(
                        m1.next_path_index as usize,
                        cand.start,
                        si,
                        qs,
                        m.sites[si as int].0,
                        cand.path_attr,
                    ),
                ),
                next_path_index: m1.next_path_index + 1,
                ..m1
            },
            PathTreeQuery::Path(po) => {
                match get_cross_spec(po.site_start, po.site_end, qs, cand.end_site) {
                    Option::Some((x, y, passing)) => {
                        if passing {
                            match t.at_spec(x, y) {
                                Option::Some(alt) => {
                                    if alt >= SEA_LEVEL {
                                        let p = Site2D { x: x as i64, y: y as i64 };
                                        let nidx = m1.sites.len() as usize;
                                        let paths2 = m1.paths.remove(
                                            split_pos(m1.paths, po.path_index),
                                        ).push(
                                            split_first(
                                                po,
                                                m1.next_path_index as usize,
                                                p,
                                                nidx,
                                            ),
                                        ).push(
                                            split_second(
                                                po,
                                                (m1.next_path_index + 1) as usize,
                                                p,
                                                nidx,
                                            ),
                                        );
                                        StateModel {
                                            sites: m1.sites.push((p, alt)),
                                            paths: paths2.push(
                                                inserted_object(
                                                    (m1.next_path_index + 2) as usize,
                                                    cand.start,
                                                    nidx,
                                                    qs,
                                                    p,
                                                    cand.path_attr,
                                                ),
                                            ),
                                            next_path_index: m1.next_path_index + 3,
                                            ..m1
                                        }
                                    } else {
                                        commit_spec(c, t, m1, cand, qs, altitude_from)
                                    }
                                },
                                Option::None => commit_spec(c, t, m1, cand, qs, altitude_from),
                            }
                        } else {
                            commit_spec(c, t, m1, cand, qs, altitude_from)
                        }
                    },
                    Option::None => commit_spec(c, t, m1, cand, qs, altitude_from),
                }
            },
            PathTreeQuery::Nothing => commit_spec(c, t, m1, cand, qs, altitude_from),
        }
    }
}

impl TransportNetworkBuilder {
    /// Commits the popped candidate as a fresh site and edge, then
    /// attempts its three branch directions.
    #[verifier::rlimit(100)]
    fn commit_and_branch(&self, terrain: &TerrainField, state: &mut GrowthState, cand: Candidate, qs: Site2D, altitude_from: i64)
        requires
            config_valid(*self),
            terrain.inv(),
            old(state).wf(*terrain),
            cand.start < old(state).sites@.len(),
            new_candidate_ok(cand, cand.start),
            candidate_accurate(*terrain, cand),
            qs == old(state).sites@[cand.start as int].0,
            altitude_from == old(state).sites@[cand.start as int].1,
            old(state).sites@.len() < 1_000_000_000,
            old(state).queue.items@.len() + 4 < 1_000_000_000,
            old(state).tree.next_path_index + 1 < 1_000_000_000,
        ensures
            final(state).wf(*terrain),
            final(state).model() == commit_spec(
                *self,
                *terrain,
                old(state).model(),
                cand,
                qs,
                altitude_from,
            ),
            final(state).pops == old(state).pops,
            final(state).sites@.len() == old(state).sites@.len() + 1,
            final(state).queue.items@.len() <= old(state).queue.items@.len() + 3,
            final(state).tree.next_path_index == old(state).tree.next_path_index + 1,
    {
        let ghost m0 = old(state).model();
        proof {
            reveal(candidate_accurate);
            reveal(site_accurate);
        }
        let nidx: usize = state.sites.len();
        state.sites.push((cand.end_site, cand.end_elevation));
        state.tree.insert(cand.start, nidx, qs, cand.end_site, cand.path_attr);
        let ghost q0 = state.queue.items@;
        self.branch_direction(
            terrain,
            &mut state.rng,
            &mut state.queue,
            cand.end_site,
            altitude_from,
            cand.path_attr,
            cand.angle,
            nidx,
            -1,
        );
        let ghost q1 = state.queue.items@;
        self.branch_direction(
            terrain,
            &mut state.rng,
            &mut state.queue,
            cand.end_site,
            altitude_from,
            cand.path_attr,
            cand.angle,
            nidx,
            0,
        );
        let ghost q2 = state.queue.items@;
        self.branch_direction(
            terrain,
            &mut state.rng,
            &mut state.queue,
            cand.end_site,
            altitude_from,
            cand.path_attr,
            cand.angle,
            nidx,
            1,
        );
        proof {
            assert(state.model() =~= commit_spec(*self, *terrain, m0, cand, qs, altitude_from));
            assert forall|k: int|
                0 <= k < state.queue.items@.len() implies (#[trigger] state.queue.items@[k]).start
                < state.sites@.len() && new_candidate_ok(
                state.queue.items@[k],
                state.queue.items@[k].start,
            ) by {
                if k < q0.len() {
                    assert(state.queue.items@[k] == q0[k]);
                } else if k < q1.len() {
                    assert(state.queue.items@[k] == q1[k]);
                    assert(q1[k] == q1.last());
                } else if k < q2.len() {
                    assert(state.queue.items@[k] == q2[k]);
                    assert(q2[k] == q2.last());
                } else {
                    assert(state.queue.items@[k] == state.queue.items@.last());
                }
            }
        }
    }

    /// One iteration of the growth loop. Pops at most one candidate; an
    /// empty queue leaves the state untouched.
    pub fn step(&self, terrain: &TerrainField, state: &mut GrowthState)
        requires
            config_valid(*self),
            terrain.inv(),
            old(state).wf(*terrain),
            old(state).pops < self.iterations,
            old(state).sites@.len() <= 1 + old(state).pops,
            old(state).queue.items@.len() <= 2 + 2 * old(state).pops,
            old(state).tree.next_path_index <= 3 * old(state).pops,
        ensures
            final(state).wf(*terrain),
            final(state).model() == step_spec(*self, *terrain, old(state).model()),
            old(state).pops <= final(state).pops <= old(state).pops + 1,
            final(state).sites@.len() <= 1 + final(state).pops,
            final(state).queue.items@.len() <= 2 + 2 * final(state).pops,
            final(state).tree.next_path_index <= 3 * final(state).pops,
    {
        let ghost m0 = old(state).model();
        let popped: Option<Candidate> = state.queue.pop_min();
        let cand: Candidate = match popped {
            Option::None => {
                proof {
                    assert(state.model() =~= m0);
                }
                return ;
            },
            Option::Some(c) => c,
        };
        proof {
            crate::queue::lemma_min_cost_index(m0.queue);
            m0.queue.remove_ensures(min_cost_index(m0.queue));
        }
        state.pops = state.pops + 1;
        let pair: (Site2D, i64) = state.sites[cand.start];
        let qs: Site2D = pair.0;
        let altitude_from: i64 = pair.1;
        let d: i64 = (((self.branch_length as u64) * 8) / 10) as i64;
        proof {
            lemma_div_bound((self.branch_length * 8) as int, 2_000_000, 10);
        }
        let mut excl: Vec<usize> = Vec::new();
        excl.push(cand.start);
        proof {
            assert(excl@ =~= seq![cand.start]);
        }
        let found: PathTreeQuery = state.tree.find(&qs, &cand.end_site, d, &excl);
        let ghost m1 = StateModel {
            queue: m0.queue.remove(min_cost_index(m0.queue)),
            pops: m0.pops + 1,
            ..m0
        };
        proof {
            assert(state.model() =~= m1);
            lemma_find_cases(state.tree.objects@, qs, cand.end_site, d as int, excl@);
            assert(excl@[0] == cand.start);
            assert(excl@.contains(cand.start));
        }
        match found {
            PathTreeQuery::Nothing => {
                self.commit_and_branch(terrain, state, cand, qs, altitude_from);
                proof {
                    assert(state.model() =~= step_spec(*self, *terrain, m0));
                }
            },
            PathTreeQuery::Site(si) => {
                proof {
                    let o = choose|o: PathTreeObject|
                        #![auto]
                        m1.paths.contains(o) && considered(o, cand.end_site, d as int, excl@) && (
                        si == o.site_index_start || si == o.site_index_end);
                    let jj = choose|jj: int| 0 <= jj < m1.paths.len() && m1.paths[jj] == o;
                    assert(state.tree.objects@[jj] == o);
                    assert(si < state.sites@.len());
                    assert(si != cand.start);
                }
                let target: (Site2D, i64) = state.sites[si];
                state.tree.insert(cand.start, si, qs, target.0, cand.path_attr);
                proof {
                    assert(state.model() =~= step_spec(*self, *terrain, m0));
                }
            },
            PathTreeQuery::Path(po) => {
                proof {
                    let jj = choose|jj: int| 0 <= jj < m1.paths.len() && m1.paths[jj] == po;
                    assert(state.tree.objects@[jj] == po);
                    assert(in_bounds(po.site_start) && in_bounds(po.site_end));
                    assert(po.site_index_start < state.sites@.len() && po.site_index_end
                        < state.sites@.len());
                }
                match get_cross(po.site_start, po.site_end, qs, cand.end_site) {
                    Option::Some((p, passing)) => {
                        if passing {
                            proof {
                                lemma_passing_in_bounds(
                                    po.site_start,
                                    po.site_end,
                                    qs,
                                    cand.end_site,
                                    p.x as int,
                                    p.y as int,
                                );
                            }
                            match terrain.at(p.x, p.y) {
                                Option::Some(alt) => {
                                    if alt >= SEA_LEVEL {
                                        proof {
                                            terrain.lemma_at_in_bounds(p.x as int, p.y as int);
                                            reveal(site_accurate);
                                        }
                                        let nidx: usize = state.sites.len();
                                        state.sites.push((p, alt));
                                        let ghost pre_split = state.tree.objects@;
                                        state.tree.split(po, &p, nidx);
                                        state.tree.insert(cand.start, nidx, qs, p, cand.path_attr);
                                        proof {
                                            assert forall|j: int|
                                                0 <= j < state.tree.objects@.len() implies (
                                            #[trigger] state.tree.objects@[j]).site_index_start
                                                < state.sites@.len()
                                                && state.tree.objects@[j].site_index_end
                                                < state.sites@.len()
                                                && state.tree.objects@[j].site_index_start
                                                != state.tree.objects@[j].site_index_end by {
                                                let sp = split_pos(pre_split, po.path_index);
                                                pre_split.remove_ensures(sp);
                                                if j < pre_split.len() - 1 {
                                                    assert(state.tree.objects@[j] == pre_split[j]
                                                        || state.tree.objects@[j] == pre_split[j
                                                        + 1]);
                                                }
                                            }
                                            assert(state.model() =~= step_spec(*self, *terrain, m0));
                                        }
                                    } else {
                                        self.commit_and_branch(
                                            terrain,
                                            state,
                                            cand,
                                            qs,
                                            altitude_from,
                                        );
                                        proof {
                                            assert(state.model() =~= step_spec(*self, *terrain, m0));
                                        }
                                    }
                                },
                                Option::None => {
                                    self.commit_and_branch(terrain, state, cand, qs, altitude_from);
                                    proof {
                                        assert(state.model() =~= step_spec(*self, *terrain, m0));
                                    }
                                },
                            }
                        } else {
                            self.commit_and_branch(terrain, state, cand, qs, altitude_from);
                            proof {
                                assert(state.model() =~= step_spec(*self, *terrain, m0));
                            }
                        }
                    },
                    Option::None => {
                        self.commit_and_branch(terrain, state, cand, qs, altitude_from);
                        proof {
                            assert(state.model() =~= step_spec(*self, *terrain, m0));
                        }
                    },
                }
            },
        }
    }
}

/// The bit code an edge attribute travels under inside the graph.
pub open spec fn attr_bits_spec(a: PathAttr) -> u8 {
    if a.is_highway && a.is_even {
        3u8
    } else if a.is_highway {
        1u8
    } else if a.is_even {
        2u8
    } else {
        0u8
    }
}

/// Whether a bit code marks a highway edge.
pub open spec fn bits_highway(b: u8) -> bool {
    b % 2 == 1
}

/// Whether a bit code marks an even edge.
pub open spec fn bits_even(b: u8) -> bool {
    (b / 2) % 2 == 1
}

/// Encodes edge attributes as the graph's bit code.
pub fn attr_bits(a: PathAttr) -> (r: u8)
    ensures
        r == attr_bits_spec(a),
        bits_highway(r) == a.is_highway,
        bits_even(r) == a.is_even,
{
    if a.is_highway && a.is_even {
        3
    } else if a.is_highway {
        1
    } else if a.is_even {
        2
    } else {
        0
    }
}

/// The adjacency of a graph with `n` vertices and no edges.
pub open spec fn empty_adjacency(n: nat) -> Seq<Seq<(usize, u8)>> {
    Seq::new(n, |i: int| Seq::<(usize, u8)>::empty())
}

/// The adjacency after adding one undirected edge: `(w, b)` appended to
/// `v`'s list, then `(v, b)` appended to `w`'s.
pub open spec fn add_edge_adj(adj: Seq<Seq<(usize, u8)>>, v: usize, w: usize, b: u8) -> Seq<
    Seq<(usize, u8)>,
> {
    let adj1 = adj.update(v as int, adj[v as int].push((w, b)));
    adj1.update(w as int, adj1[w as int].push((v, b)))
}

/// The final graph of a growth: the stored segments folded in order, each
/// added unless an edge between its endpoints is already present
/// (duplicate unordered pairs are suppressed).
pub open spec fn dedup_adjacency(adj0: Seq<Seq<(usize, u8)>>, paths: Seq<PathTreeObject>, n: nat) -> Seq<
    Seq<(usize, u8)>,
>
    decreases n,
{
    if n == 0 {
        adj0
    } else {
        let prev = dedup_adjacency(adj0, paths, (n - 1) as nat);
        let o = paths[n - 1];
        if crate::edge_graph::adjacency_holds(prev[o.site_index_start as int], o.site_index_end) {
            prev
        } else {
            add_edge_adj(prev, o.site_index_start, o.site_index_end, attr_bits_spec(o.path_attr))
        }
    }
}

/// Every neighbor entry names a vertex of the graph.
pub open spec fn adjacency_in_range(adj: Seq<Seq<(usize, u8)>>) -> bool {
    forall|v: int, k: int|
        0 <= v < adj.len() && 0 <= k < adj[v].len() ==> (#[trigger] adj[v][k]).0 < adj.len()
}

/// No vertex lists the same neighbor twice.
pub open spec fn adjacency_dup_free(adj: Seq<Seq<(usize, u8)>>) -> bool {
    forall|v: int, k1: int, k2: int|
        0 <= v < adj.len() && 0 <= k1 < k2 < adj[v].len() ==> (#[trigger] adj[v][k1]).0 != (
        #[trigger] adj[v][k2]).0
}

/// Neighborhood is symmetric: `w` appears at `v` exactly when `v` appears
/// at `w`.
pub open spec fn adjacency_sym(adj: Seq<Seq<(usize, u8)>>) -> bool {
    forall|v: usize, w: usize|
        v < adj.len() && w < adj.len() ==> (#[trigger] crate::edge_graph::adjacency_holds(
            adj[v as int],
            w,
        ) <==> crate::edge_graph::adjacency_holds(adj[w as int], v))
}

/// One neighbor of a node, as consumers see it.
#[derive(Clone, Copy, PartialEq, Eq, Structural, Debug)]
pub struct Neighbor {
    pub index: usize,
    pub is_highway: bool,
    pub is_even: bool,
}

/// The finished network: the registered sites with their elevations, and
/// the undirected attribute-carrying graph over them.
pub struct TransportNetwork {
    pub nodes: Vec<Site2D>,
    pub elevations: Vec<i64>,
    pub graph: terrain_graph::edge_attributed_undirected::EdgeAttributedUndirectedGraph<u8>,
}

impl TransportNetwork {
    /// The node list, the elevation list and the graph describe the same
    /// set of sites.
    pub open spec fn wf(self) -> bool {
        &&& self.nodes@.len() == self.elevations@.len()
        &&& crate::edge_graph::graph_adjacency(self.graph).len() == self.nodes@.len()
    }

    pub fn num_nodes(&self) -> (r: usize)
        ensures
            r == self.nodes@.len(),
    {
        self.nodes.len()
    }

    pub fn get_site(&self, index: usize) -> (r: Site2D)
        requires
            index < self.nodes@.len(),
        ensures
            r == self.nodes@[index as int],
    {
        self.nodes[index]
    }

    pub fn get_elevation(&self, index: usize) -> (r: i64)
        requires
            index < self.elevations@.len(),
        ensures
            r == self.elevations@[index as int],
    {
        self.elevations[index]
    }

    /// The neighbors of a node, with the attributes of the connecting
    /// edges, in the order the edges were added.
    pub fn get_neighbors(&self, index: usize) -> (r: Vec<Neighbor>)
        requires
            self.wf(),
            index < self.nodes@.len(),
        ensures
            ({
                let adj = crate::edge_graph::graph_adjacency(self.graph)[index as int];
                &&& r@.len() == adj.len()
                &&& forall|k: int|
                    0 <= k < adj.len() ==> (#[trigger] r@[k]).index == adj[k].0 && r@[k].is_highway
                        == bits_highway(adj[k].1) && r@[k].is_even == bits_even(adj[k].1)
            }),
    {
        let raw: Vec<(usize, u8)> = crate::edge_graph::graph_neighbors(&self.graph, index);
        let mut out: Vec<Neighbor> = Vec::new();
        let mut k: usize = 0;
        while k < raw.len()
            invariant
                raw@ == crate::edge_graph::graph_adjacency(self.graph)[index as int],
                0 <= k <= raw@.len(),
                out@.len() == k,
                forall|j: int|
                    0 <= j < k ==> (#[trigger] out@[j]).index == raw@[j].0 && out@[j].is_highway
                        == bits_highway(raw@[j].1) && out@[j].is_even == bits_even(raw@[j].1),
            decreases raw@.len() - k,
        {
            let entry: (usize, u8) = raw[k];
            let hw: bool = entry.1 % 2 == 1;
            let ev: bool = (entry.1 / 2) % 2 == 1;
            out.push(Neighbor { index: entry.0, is_highway: hw, is_even: ev });
            k = k + 1;
        }
        out
    }
}

/// One of the two initial candidates: a branch-length step from the start
/// at the given heading, kept only if its endpoint has a defined elevation
/// at or above sea level.
pub open spec fn initial_candidate_spec(c: TransportNetworkBuilder, t: TerrainField, a: u64) -> Option<
    Candidate,
> {
    let x = c.start.x + scale_trig_spec(c.branch_length as int, cos_fp_spec(a));
    let y = c.start.y + scale_trig_spec(c.branch_length as int, sin_fp_spec(a));
    match t.at_spec(x, y) {
        Option::None => Option::None,
        Option::Some(e) => {
            if e >= SEA_LEVEL {
                Option::Some(
                    Candidate {
                        start: 0,
                        end_site: Site2D { x: x as i64, y: y as i64 },
                        end_elevation: e,
                        angle: a,
                        cost: 0,
                        path_attr: PathAttr { is_highway: true, is_even: false },
                    },
                )
            } else {
                Option::None
            }
        },
    }
}

/// The state a growth starts from: one random draw picks the initial
/// heading in `[0, half turn)`, the start site is registered with its
/// elevation `e0`, and the two opposite initial candidates are enqueued at
/// cost zero (first the drawn heading, then its opposite).
pub open spec fn init_model(c: TransportNetworkBuilder, t: TerrainField, seed: u32, e0: i64) -> StateModel {
    let s1 = scramble(crate::random::seed_state(seed));
    let a0 = ((s1 as int) % (ANGLE_HALF as int)) as u64;
    let a1 = add_angle_spec(a0, ANGLE_HALF);
    let q0 = Seq::<Candidate>::empty();
    let q1 = match initial_candidate_spec(c, t, a0) {
        Option::Some(cd) => q0.push(cd),
        Option::None => q0,
    };
    let q2 = match initial_candidate_spec(c, t, a1) {
        Option::Some(cd) => q1.push(cd),
        Option::None => q1,
    };
    StateModel {
        rng: s1,
        sites: seq![(c.start, e0)],
        queue: q2,
        paths: Seq::<PathTreeObject>::empty(),
        next_path_index: 0,
        pops: 0,
    }
}

/// The state after `n` iterations of the growth loop.
pub open spec fn run_model(c: TransportNetworkBuilder, t: TerrainField, m: StateModel, n: nat) -> StateModel
    decreases n,
{
    if n == 0 {
        m
    } else {
        step_spec(c, t, run_model(c, t, m, (n - 1) as nat))
    }
}

/// One iteration pops at most one candidate.
pub proof fn lemma_step_budget(c: TransportNetworkBuilder, t: TerrainField, m: StateModel)
    ensures
        m.pops <= step_spec(c, t, m).pops <= m.pops + 1,
{
}

/// The iteration budget is respected: `n` iterations of the loop pop at
/// most `n` candidates from the queue.
pub proof fn lemma_run_budget(c: TransportNetworkBuilder, t: TerrainField, m: StateModel, n: nat)
    ensures
        m.pops <= run_model(c, t, m, n).pops <= m.pops + n,
    decreases n,
{
    if n > 0 {
        lemma_run_budget(c, t, m, (n - 1) as nat);
        lemma_step_budget(c, t, run_model(c, t, m, (n - 1) as nat));
    }
}

/// The registered sites of a finished growth: none when the start has no
/// elevation, the start alone when it lies below sea level (no growth is
/// permitted below sea level), otherwise the registry the loop ends with.
pub open spec fn network_sites(c: TransportNetworkBuilder, t: TerrainField, seed: u32) -> Seq<
    (Site2D, i64),
> {
    match t.at_spec(c.start.x as int, c.start.y as int) {
        Option::None => Seq::<(Site2D, i64)>::empty(),
        Option::Some(e0) => {
            if e0 < SEA_LEVEL {
                seq![(c.start, e0)]
            } else {
                run_model(c, t, init_model(c, t, seed, e0), c.iterations as nat).sites
            }
        },
    }
}

/// The adjacency of a finished growth: the loop's stored segments folded
/// in order with duplicate unordered pairs suppressed.
pub open spec fn network_adjacency(c: TransportNetworkBuilder, t: TerrainField, seed: u32) -> Seq<
    Seq<(usize, u8)>,
> {
    match t.at_spec(c.start.x as int, c.start.y as int) {
        Option::None => empty_adjacency(0),
        Option::Some(e0) => {
            if e0 < SEA_LEVEL {
                empty_adjacency(1)
            } else {
                let fm = run_model(c, t, init_model(c, t, seed, e0), c.iterations as nat);
                dedup_adjacency(empty_adjacency(fm.sites.len()), fm.paths, fm.paths.len())
            }
        },
    }
}

/// Membership in a pushed list: the old entries plus the new one.
proof fn lemma_holds_push(l: Seq<(usize, u8)>, e: (usize, u8), q: usize)
    ensures
        crate::edge_graph::adjacency_holds(l.push(e), q) <==> (crate::edge_graph::adjacency_holds(
            l,
            q,
        ) || e.0 == q),
{
    if crate::edge_graph::adjacency_holds(l, q) {
        let k = choose|k: int| 0 <= k < l.len() && (#[trigger] l[k]).0 == q;
        assert(l.push(e)[k] == l[k]);
    }
    if e.0 == q {
        assert(l.push(e)[l.len() as int] == e);
    }
    if crate::edge_graph::adjacency_holds(l.push(e), q) && e.0 != q {
        let k = choose|k: int| 0 <= k < l.push(e).len() && (#[trigger] l.push(e)[k]).0 == q;
        if k < l.len() {
            assert(l[k] == l.push(e)[k]);
        } else {
            assert(l.push(e)[k] == e);
        }
    }
}

/// Adding an undirected edge between distinct, unconnected vertices keeps
/// the adjacency in range, duplicate-free and symmetric.
proof fn lemma_add_edge_props(adj: Seq<Seq<(usize, u8)>>, v: usize, w: usize, b: u8)
    requires
        v < adj.len(),
        w < adj.len(),
        v != w,
        !crate::edge_graph::adjacency_holds(adj[v as int], w),
        adjacency_in_range(adj),
        adjacency_dup_free(adj),
        adjacency_sym(adj),
    ensures
        add_edge_adj(adj, v, w, b).len() == adj.len(),
        adjacency_in_range(add_edge_adj(adj, v, w, b)),
        adjacency_dup_free(add_edge_adj(adj, v, w, b)),
        adjacency_sym(add_edge_adj(adj, v, w, b)),
{
    let a2 = add_edge_adj(adj, v, w, b);
    assert(!crate::edge_graph::adjacency_holds(adj[w as int], v));
    assert(a2[v as int] == adj[v as int].push((w, b)));
    assert(a2[w as int] == adj[w as int].push((v, b)));
    assert(forall|u: int| 0 <= u < adj.len() && u != v && u != w ==> a2[u] == #[trigger] adj[u]);
    assert forall|u: int, k: int|
        0 <= u < a2.len() && 0 <= k < a2[u].len() implies (#[trigger] a2[u][k]).0 < a2.len() by {
        if u == v {
            if k < adj[u].len() {
                assert(a2[u][k] == adj[u][k]);
            } else {
                assert(a2[u][k] == (w, b));
            }
        } else if u == w {
            if k < adj[u].len() {
                assert(a2[u][k] == adj[u][k]);
            } else {
                assert(a2[u][k] == (v, b));
            }
        } else {
            assert(a2[u][k] == adj[u][k]);
        }
    }
    assert forall|u: int, k1: int, k2: int|
        0 <= u < a2.len() && 0 <= k1 < k2 < a2[u].len() implies (#[trigger] a2[u][k1]).0 != (
    #[trigger] a2[u][k2]).0 by {
        if u == v {
            if k2 < adj[u].len() {
                assert(a2[u][k1] == adj[u][k1] && a2[u][k2] == adj[u][k2]);
            } else {
                assert(a2[u][k1] == adj[u][k1] && a2[u][k2] == (w, b));
                assert(adj[u][k1].0 != w);
            }
        } else if u == w {
            if k2 < adj[u].len() {
                assert(a2[u][k1] == adj[u][k1] && a2[u][k2] == adj[u][k2]);
            } else {
                assert(a2[u][k1] == adj[u][k1] && a2[u][k2] == (v, b));
                assert(adj[u][k1].0 != v);
            }
        } else {
            assert(a2[u][k1] == adj[u][k1] && a2[u][k2] == adj[u][k2]);
        }
    }
    assert forall|p: usize, q: usize|
        p < a2.len() && q < a2.len() implies (#[trigger] crate::edge_graph::adjacency_holds(
        a2[p as int],
        q,
    ) <==> crate::edge_graph::adjacency_holds(a2[q as int], p)) by {
        lemma_holds_push(adj[v as int], (w, b), q);
        lemma_holds_push(adj[w as int], (v, b), q);
        lemma_holds_push(adj[v as int], (w, b), p);
        lemma_holds_push(adj[w as int], (v, b), p);
    }
}

impl TransportNetworkBuilder {
    /// One initial candidate, at heading `a` from the start.
    fn initial_candidate(&self, terrain: &TerrainField, a: u64) -> (r: Option<Candidate>)
        requires
            config_valid(*self),
            terrain.inv(),
            a < ANGLE_FULL,
        ensures
            r == initial_candidate_spec(*self, *terrain, a),
            r matches Some(cd) ==> cd.start == 0 && new_candidate_ok(cd, 0)
                && candidate_accurate(*terrain, cd),
    {
        let x: i64 = self.start.x + scale_trig(self.branch_length, cos_fp(a));
        let y: i64 = self.start.y + scale_trig(self.branch_length, sin_fp(a));
        match terrain.at(x, y) {
            Option::None => Option::None,
            Option::Some(e) => {
                if e >= SEA_LEVEL {
                    proof {
                        terrain.lemma_at_in_bounds(x as int, y as int);
                        reveal(candidate_accurate);
                    }
                    Option::Some(
                        Candidate {
                            start: 0,
                            end_site: Site2D { x, y },
                            end_elevation: e,
                            angle: a,
                            cost: 0,
                            path_attr: PathAttr { is_highway: true, is_even: false },
                        },
                    )
                } else {
                    Option::None
                }
            },
        }
    }

    /// Grows the network: checks the configuration, registers the start,
    /// runs the priority-driven growth loop for the configured number of
    /// iterations, and materializes the final graph with duplicate edges
    /// suppressed. For a fixed configuration, terrain and seed the result
    /// is always the same network, as the contract pins every part of it.
    pub fn build(self, seed: u32, terrain: &TerrainField) -> (r: Result<
        TransportNetwork,
        ConfigError,
    >)
        requires
            terrain.inv(),
        ensures
            r is Ok <==> config_valid(self),
            r matches Err(e) ==> validate_spec(self) == Result::<(), ConfigError>::Err(e),
            r matches Ok(net) ==> {
                &&& net.wf()
                &&& net.nodes@ == network_sites(self, *terrain, seed).map(
                    |i: int, p: (Site2D, i64)| p.0,
                )
                &&& net.elevations@ == network_sites(self, *terrain, seed).map(
                    |i: int, p: (Site2D, i64)| p.1,
                )
                &&& crate::edge_graph::graph_adjacency(net.graph) == network_adjacency(
                    self,
                    *terrain,
                    seed,
                )
                &&& adjacency_dup_free(crate::edge_graph::graph_adjacency(net.graph))
                &&& adjacency_sym(crate::edge_graph::graph_adjacency(net.graph))
                &&& forall|v: int|
                    0 <= v < net.nodes@.len() && crate::edge_graph::graph_adjacency(
                        net.graph,
                    )[v].len() > 0 ==> #[trigger] net.elevations@[v] >= SEA_LEVEL
                &&& net.nodes@.len() > 1 ==> forall|v: int|
                    0 <= v < net.elevations@.len() ==> #[trigger] net.elevations@[v] >= SEA_LEVEL
                &&& forall|v: int|
                    0 <= v < net.nodes@.len() ==> terrain.at_spec(
                        (#[trigger] net.nodes@[v]).x as int,
                        net.nodes@[v].y as int,
                    ) == Option::Some(net.elevations@[v])
            },
    {
        match self.validate() {
            Result::Err(e) => {
                return Result::Err(e);
            },
            Result::Ok(u) => u,
        };
        let e0: i64 = match terrain.at(self.start.x, self.start.y) {
            Option::None => {
                let net = TransportNetwork {
                    nodes: Vec::new(),
                    elevations: Vec::new(),
                    graph: crate::edge_graph::graph_new(0),
                };
                proof {
                    assert(network_sites(self, *terrain, seed) =~= Seq::<(Site2D, i64)>::empty());
                    assert(net.nodes@ =~= network_sites(self, *terrain, seed).map(
                        |i: int, p: (Site2D, i64)| p.0,
                    ));
                    assert(net.elevations@ =~= network_sites(self, *terrain, seed).map(
                        |i: int, p: (Site2D, i64)| p.1,
                    ));
                    assert(crate::edge_graph::graph_adjacency(net.graph) =~= empty_adjacency(0));
                }
                return Result::Ok(net);
            },
            Option::Some(e0) => e0,
        };
        if e0 < SEA_LEVEL {
            let mut nodes: Vec<Site2D> = Vec::new();
            nodes.push(self.start);
            let mut elevations: Vec<i64> = Vec::new();
            elevations.push(e0);
            let net = TransportNetwork {
                nodes,
                elevations,
                graph: crate::edge_graph::graph_new(1),
            };
            proof {
                reveal(site_accurate);
                assert(network_sites(self, *terrain, seed) =~= seq![(self.start, e0)]);
                assert(net.nodes@ =~= network_sites(self, *terrain, seed).map(
                    |i: int, p: (Site2D, i64)| p.0,
                ));
                assert(net.elevations@ =~= network_sites(self, *terrain, seed).map(
                    |i: int, p: (Site2D, i64)| p.1,
                ));
                assert(crate::edge_graph::graph_adjacency(net.graph) =~= empty_adjacency(1));
            }
            return Result::Ok(net);
        }
        proof {
            terrain.lemma_at_in_bounds(self.start.x as int, self.start.y as int);
        }
        let mut rng = RandomStream::new(seed);
        let a0: u64 = rng.gen_range(ANGLE_HALF);
        let a1: u64 = add_angle(a0, ANGLE_HALF);
        let mut sites: Vec<(Site2D, i64)> = Vec::new();
        sites.push((self.start, e0));
        let mut queue = CandidateQueue::new();
        match self.initial_candidate(terrain, a0) {
            Option::Some(cd) => queue.push(cd),
            Option::None => {},
        }
        match self.initial_candidate(terrain, a1) {
            Option::Some(cd) => queue.push(cd),
            Option::None => {},
        }
        let mut state = GrowthState { rng, sites, queue, tree: PathTree::new(), pops: 0 };
        proof {
            reveal(site_accurate);
            assert(state.model() =~= init_model(self, *terrain, seed, e0));
        }
        let ghost im = init_model(self, *terrain, seed, e0);
        let mut it: usize = 0;
        while it < self.iterations
            invariant
                config_valid(self),
                terrain.inv(),
                state.wf(*terrain),
                0 <= it <= self.iterations,
                state.pops <= it,
                state.sites@.len() <= 1 + state.pops,
                state.queue.items@.len() <= 2 + 2 * state.pops,
                state.tree.next_path_index <= 3 * state.pops,
                im == init_model(self, *terrain, seed, e0),
                state.model() == run_model(self, *terrain, im, it as nat),
            decreases self.iterations - it,
        {
            proof {
                lemma_run_budget(self, *terrain, im, it as nat);
            }
            self.step(terrain, &mut state);
            it = it + 1;
        }
        let ghost fm = run_model(self, *terrain, im, self.iterations as nat);

        // materialize the node and elevation lists
        let n: usize = state.sites.len();
        let mut nodes: Vec<Site2D> = Vec::new();
        let mut elevations: Vec<i64> = Vec::new();
        let mut si: usize = 0;
        while si < n
            invariant
                n == state.sites@.len(),
                0 <= si <= n,
                nodes@.len() == si,
                elevations@.len() == si,
                forall|j: int|
                    0 <= j < si ==> nodes@[j] == (#[trigger] state.sites@[j]).0 && elevations@[j]
                        == state.sites@[j].1,
            decreases n - si,
        {
            let pair: (Site2D, i64) = state.sites[si];
            nodes.push(pair.0);
            elevations.push(pair.1);
            si = si + 1;
        }

        // materialize the graph, suppressing duplicate unordered pairs
        let mut graph = crate::edge_graph::graph_new(n);
        let mut gi: usize = 0;
        while gi < state.tree.objects.len()
            invariant
                state.wf(*terrain),
                n == state.sites@.len(),
                0 <= gi <= state.tree.objects@.len(),
                state.tree.objects@.len() < 1_000_000_000,
                crate::edge_graph::graph_adjacency(graph).len() == n,
                crate::edge_graph::graph_size(graph) <= gi,
                crate::edge_graph::graph_adjacency(graph) == dedup_adjacency(
                    empty_adjacency(n as nat),
                    state.tree.objects@,
                    gi as nat,
                ),
                adjacency_in_range(crate::edge_graph::graph_adjacency(graph)),
                adjacency_dup_free(crate::edge_graph::graph_adjacency(graph)),
                adjacency_sym(crate::edge_graph::graph_adjacency(graph)),
            decreases state.tree.objects@.len() - gi,
        {
            let o: PathTreeObject = state.tree.objects[gi];
            if !crate::edge_graph::graph_has_edge(&graph, o.site_index_start, o.site_index_end) {
                proof {
                    lemma_add_edge_props(
                        crate::edge_graph::graph_adjacency(graph),
                        o.site_index_start,
                        o.site_index_end,
                        attr_bits_spec(o.path_attr),
                    );
                }
                let bits: u8 = attr_bits(o.path_attr);
                crate::edge_graph::graph_add_edge(
                    &mut graph,
                    o.site_index_start,
                    o.site_index_end,
                    bits,
                );
            }
            gi = gi + 1;
        }
        let net = TransportNetwork { nodes, elevations, graph };
        proof {
            reveal(site_accurate);
            assert(net.nodes@ =~= network_sites(self, *terrain, seed).map(
                |i: int, p: (Site2D, i64)| p.0,
            ));
            assert(net.elevations@ =~= network_sites(self, *terrain, seed).map(
                |i: int, p: (Site2D, i64)| p.1,
            ));
        }
        Result::Ok(net)
    }
}

} // verus!
