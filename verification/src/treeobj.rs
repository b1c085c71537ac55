use vstd::prelude::*;
use crate::math::in_bounds;
use crate::num::lemma_mul_bound;
use crate::{PathAttr, Site2D};

verus! {

/// A committed edge as the spatial index stores it: the two site indices,
/// their coordinates, the edge attributes, and a key `path_index` that is
/// unique within one index.
#[derive(Clone, Copy, PartialEq, Eq, Structural, Debug)]
pub struct PathTreeObject {
    pub path_index: usize,
    pub site_index_start: usize,
    pub site_index_end: usize,
    pub site_start: Site2D,
    pub site_end: Site2D,
    pub path_attr: PathAttr,
}

/// The answer of a proximity query: nothing nearby, an existing site to
/// merge into, or an existing edge that the query segment may cross.
#[derive(Clone, Copy, PartialEq, Eq, Structural, Debug)]
pub enum PathTreeQuery {
    Nothing,
    Site(usize),
    Path(PathTreeObject),
}

pub open spec fn sq(x: int) -> int {
    x * x
}

/// Squared distance between two sites.
pub open spec fn dist2(p: Site2D, q: Site2D) -> int {
    sq(p.x - q.x) + sq(p.y - q.y)
}

/// The stored segment's bounding box meets the closed box of half-width `d`
/// around the query endpoint.
pub open spec fn envelope_hit(o: PathTreeObject, qe: Site2D, d: int) -> bool {
    let min_x = vstd::math::min(o.site_start.x as int, o.site_end.x as int);
    let max_x = vstd::math::max(o.site_start.x as int, o.site_end.x as int);
    let min_y = vstd::math::min(o.site_start.y as int, o.site_end.y as int);
    let max_y = vstd::math::max(o.site_start.y as int, o.site_end.y as int);
    &&& min_x <= qe.x + d
    &&& max_x >= qe.x - d
    &&& min_y <= qe.y + d
    &&& max_y >= qe.y - d
}

/// One of the segment's endpoints is an excluded site index.
pub open spec fn excluded_hit(o: PathTreeObject, excl: Seq<usize>) -> bool {
    excl.contains(o.site_index_start) || excl.contains(o.site_index_end)
}

/// Squared length of the stored segment.
pub open spec fn seg_len2(o: PathTreeObject) -> int {
    sq(o.site_end.x - o.site_start.x) + sq(o.site_end.y - o.site_start.y)
}

/// Twice the signed numerator of the perpendicular distance from the query
/// segment's midpoint to the stored segment's infinite line. Working with
/// twice the value keeps the midpoint exact in integers.
pub open spec fn mid_num2(o: PathTreeObject, qs: Site2D, qe: Site2D) -> int {
    (o.site_end.y - o.site_start.y) * (qs.x + qe.x) - (o.site_end.x - o.site_start.x) * (qs.y
        + qe.y) + 2 * (o.site_end.x * o.site_start.y - o.site_end.y * o.site_start.x)
}

/// A segment takes part in the ranking if its envelope is hit, it has no
/// excluded endpoint, and it is not degenerate (a zero-length segment has
/// no line to measure a distance to).
pub open spec fn considered(o: PathTreeObject, qe: Site2D, d: int, excl: Seq<usize>) -> bool {
    envelope_hit(o, qe, d) && !excluded_hit(o, excl) && seg_len2(o) > 0
}

/// Whether `o`'s line is strictly closer to the query midpoint than the
/// current winner (or than the search radius when there is none yet). The
/// comparisons are the exact cross-multiplied forms of
/// `|num| / (2 sqrt(len2)) < bound`.
pub open spec fn beats(o: PathTreeObject, best: Option<PathTreeObject>, qs: Site2D, qe: Site2D, d: int) -> bool {
    match best {
        Option::None => sq(mid_num2(o, qs, qe)) < 4 * d * d * seg_len2(o),
        Option::Some(b) => sq(mid_num2(o, qs, qe)) * seg_len2(b) < sq(mid_num2(b, qs, qe))
            * seg_len2(o),
    }
}

/// The winner of a forward scan: the first segment of strictly minimal line
/// distance below the radius, among the considered ones.
pub open spec fn scan_best(s: Seq<PathTreeObject>, qs: Site2D, qe: Site2D, d: int, excl: Seq<usize>) -> Option<
    PathTreeObject,
>
    decreases s.len(),
{
    if s.len() == 0 {
        Option::None
    } else {
        let prev = scan_best(s.drop_last(), qs, qe, d, excl);
        let o = s.last();
        if considered(o, qe, d, excl) && beats(o, prev, qs, qe, d) {
            Option::Some(o)
        } else {
            prev
        }
    }
}

/// The full query: rank the stored segments, then snap to the winner's
/// start or end site if the query endpoint is within the radius of it,
/// otherwise report the winner as a crossing candidate.
pub open spec fn find_spec(s: Seq<PathTreeObject>, qs: Site2D, qe: Site2D, d: int, excl: Seq<usize>) -> PathTreeQuery {
    match scan_best(s, qs, qe, d, excl) {
        Option::None => PathTreeQuery::Nothing,
        Option::Some(b) => {
            if dist2(qe, b.site_start) < d * d {
                PathTreeQuery::Site(b.site_index_start)
            } else if dist2(qe, b.site_end) < d * d {
                PathTreeQuery::Site(b.site_index_end)
            } else {
                PathTreeQuery::Path(b)
            }
        },
    }
}

/// The position of the stored segment carrying a given key.
pub open spec fn split_pos(s: Seq<PathTreeObject>, pi: usize) -> int {
    choose|i: int| 0 <= i < s.len() && (#[trigger] s[i]).path_index == pi
}

/// The first replacement half of a split: the original start toward the
/// split site.
pub open spec fn split_first(po: PathTreeObject, key: usize, p: Site2D, n: usize) -> PathTreeObject {
    PathTreeObject {
        path_index: key,
        site_index_start: po.site_index_start,
        site_index_end: n,
        site_start: po.site_start,
        site_end: p,
        path_attr: po.path_attr,
    }
}

/// The second replacement half of a split: the split site toward the
/// original end.
pub open spec fn split_second(po: PathTreeObject, key: usize, p: Site2D, n: usize) -> PathTreeObject {
    PathTreeObject {
        path_index: key,
        site_index_start: n,
        site_index_end: po.site_index_end,
        site_start: p,
        site_end: po.site_end,
        path_attr: po.path_attr,
    }
}

/// A scan winner is a stored, considered segment.
pub proof fn lemma_scan_best_contains(s: Seq<PathTreeObject>, qs: Site2D, qe: Site2D, d: int, excl: Seq<usize>)
    ensures
        scan_best(s, qs, qe, d, excl) matches Some(b) ==> s.contains(b) && considered(
            b,
            qe,
            d,
            excl,
        ),
    decreases s.len(),
{
    if s.len() > 0 {
        lemma_scan_best_contains(s.drop_last(), qs, qe, d, excl);
        match scan_best(s.drop_last(), qs, qe, d, excl) {
            Option::Some(pb) => {
                let j = choose|j: int| 0 <= j < s.drop_last().len() && s.drop_last()[j] == pb;
                assert(s[j] == pb);
            },
            Option::None => {},
        }
    }
}

/// What each query answer guarantees: a `Site` answer names an endpoint of
/// a stored, considered segment; a `Path` answer is such a segment itself.
pub proof fn lemma_find_cases(s: Seq<PathTreeObject>, qs: Site2D, qe: Site2D, d: int, excl: Seq<usize>)
    ensures
        find_spec(s, qs, qe, d, excl) matches PathTreeQuery::Site(si) ==> exists|o: PathTreeObject|
            #![auto]
            s.contains(o) && considered(o, qe, d, excl) && (si == o.site_index_start || si
                == o.site_index_end),
        find_spec(s, qs, qe, d, excl) matches PathTreeQuery::Path(o) ==> s.contains(o)
            && considered(o, qe, d, excl),
{
    lemma_scan_best_contains(s, qs, qe, d, excl);
}

/// The spatial index of committed edges: a growing store of segments keyed
/// by a monotonically increasing `path_index`.
pub struct PathTree {
    pub objects: Vec<PathTreeObject>,
    pub next_path_index: usize,
}

/// The object a fresh insertion stores.
pub open spec fn inserted_object(key: usize, site_index_start: usize, site_index_end: usize, site_start: Site2D, site_end: Site2D, path_attr: PathAttr) -> PathTreeObject {
    PathTreeObject {
        path_index: key,
        site_index_start,
        site_index_end,
        site_start,
        site_end,
        path_attr,
    }
}

impl PathTree {
    /// Well-formedness: keys are unique, below the next fresh key, and all
    /// stored coordinates are within the geometry's bounds.
    pub open spec fn inv(self) -> bool {
        &&& self.objects@.len() <= self.next_path_index
        &&& forall|i: int|
            0 <= i < self.objects@.len() ==> (#[trigger] self.objects@[i]).path_index
                < self.next_path_index
        &&& forall|i: int, j: int|
            0 <= i < j < self.objects@.len() ==> (#[trigger] self.objects@[i]).path_index != (
            #[trigger] self.objects@[j]).path_index
        &&& forall|i: int|
            0 <= i < self.objects@.len() ==> in_bounds((#[trigger] self.objects@[i]).site_start)
                && in_bounds(self.objects@[i].site_end)
    }

    pub fn new() -> (r: PathTree)
        ensures
            r.objects@ == Seq::<PathTreeObject>::empty(),
            r.next_path_index == 0,
            r.inv(),
    {
        PathTree { objects: Vec::new(), next_path_index: 0 }
    }

    /// Read access to the stored segments, in storage order: the
    /// traversal the final graph is materialized from.
    pub fn segments(&self) -> (r: &Vec<PathTreeObject>)
        ensures
            r@ == self.objects@,
    {
        &self.objects
    }

    /// Stores a segment under a fresh key.
    pub fn insert(&mut self, site_index_start: usize, site_index_end: usize, site_start: Site2D, site_end: Site2D, path_attr: PathAttr)
        requires
            old(self).inv(),
            in_bounds(site_start),
            in_bounds(site_end),
            old(self).next_path_index < usize::MAX,
            old(self).objects@.len() < usize::MAX,
        ensures
            final(self).inv(),
            final(self).next_path_index == old(self).next_path_index + 1,
            final(self).objects@ == old(self).objects@.push(
                inserted_object(
                    old(self).next_path_index,
                    site_index_start,
                    site_index_end,
                    site_start,
                    site_end,
                    path_attr,
                ),
            ),
    {
        let key: usize = self.next_path_index;
        self.next_path_index = key + 1;
        self.objects.push(
            PathTreeObject {
                path_index: key,
                site_index_start,
                site_index_end,
                site_start,
                site_end,
                path_attr,
            },
        );
    }

    /// Atomically replaces a stored edge by its two halves around a split
    /// site. The halves keep the original edge's attributes; the split site
    /// gets the given fresh node index. Callers must hand in an edge that is
    /// actually stored: a missing edge would be an index-consistency bug
    /// upstream, so no recovery is offered.
    pub fn split(&mut self, path_object: PathTreeObject, split_site: &Site2D, split_site_index: usize)
        requires
            old(self).inv(),
            old(self).objects@.contains(path_object),
            in_bounds(*split_site),
            old(self).next_path_index <= usize::MAX - 2,
            old(self).objects@.len() < usize::MAX,
        ensures
            final(self).inv(),
            final(self).next_path_index == old(self).next_path_index + 2,
            final(self).objects@ == old(self).objects@.remove(
                split_pos(old(self).objects@, path_object.path_index),
            ).push(
                split_first(path_object, old(self).next_path_index, *split_site, split_site_index),
            ).push(
                split_second(
                    path_object,
                    (old(self).next_path_index + 1) as usize,
                    *split_site,
                    split_site_index,
                ),
            ),
            // the split edge is gone ...
            forall|i: int|
                0 <= i < final(self).objects@.len() ==> (#[trigger] final(self).objects@[i]).path_index
                    != path_object.path_index,
            // ... both halves are present ...
            final(self).objects@.contains(
                split_first(path_object, old(self).next_path_index, *split_site, split_site_index),
            ),
            final(self).objects@.contains(
                split_second(
                    path_object,
                    (old(self).next_path_index + 1) as usize,
                    *split_site,
                    split_site_index,
                ),
            ),
            // ... and every other stored edge is untouched.
            forall|x: PathTreeObject|
                old(self).objects@.contains(x) && x.path_index != path_object.path_index
                    ==> final(self).objects@.contains(x),
    {
        let ghost s = self.objects@;
        let pi: usize = path_object.path_index;
        let mut pos: usize = 0;
        while pos < self.objects.len() && self.objects[pos].path_index != pi
            invariant
                self.objects@ == s,
                0 <= pos <= s.len(),
                forall|k: int| 0 <= k < pos ==> (#[trigger] s[k]).path_index != pi,
            decreases s.len() - pos,
        {
            pos = pos + 1;
        }
        proof {
            let j = choose|j: int| 0 <= j < s.len() && s[j] == path_object;
            assert(s[j].path_index == pi);
            assert(pos < s.len());
            assert(s[pos as int].path_index == pi);
            if pos != j {
                assert(s[pos as int].path_index != s[j].path_index);
                assert(false);
            }
            assert(s[pos as int] == path_object);
            assert(split_pos(s, pi) == pos) by {
                let c = split_pos(s, pi);
                assert(0 <= c < s.len() && s[c].path_index == pi);
                if c != pos {
                    assert(s[c].path_index != s[pos as int].path_index);
                }
            }
        }
        self.objects.remove(pos);
        proof {
            s.remove_ensures(pos as int);
            assert forall|i: int, jj: int| 0 <= i < jj < self.objects@.len() implies (
            #[trigger] self.objects@[i]).path_index != (#[trigger] self.objects@[jj]).path_index by {
                assert(self.objects@[i] == s[i] || self.objects@[i] == s[i + 1]);
                assert(self.objects@[jj] == s[jj] || self.objects@[jj] == s[jj + 1]);
            }
        }
        self.insert(
            path_object.site_index_start,
            split_site_index,
            path_object.site_start,
            *split_site,
            path_object.path_attr,
        );
        self.insert(
            split_site_index,
            path_object.site_index_end,
            *split_site,
            path_object.site_end,
            path_object.path_attr,
        );
        proof {
            let fin = self.objects@;
            let a = split_first(path_object, old(self).next_path_index, *split_site, split_site_index);
            let b = split_second(
                path_object,
                (old(self).next_path_index + 1) as usize,
                *split_site,
                split_site_index,
            );
            assert(fin =~= s.remove(pos as int).push(a).push(b));
            assert(fin[fin.len() - 2] == a);
            assert(fin[fin.len() - 1] == b);
            assert forall|x: PathTreeObject|
                s.contains(x) && x.path_index != path_object.path_index implies fin.contains(
                x,
            ) by {
                let j = choose|j: int| 0 <= j < s.len() && s[j] == x;
                if j < pos {
                    assert(fin[j] == x);
                } else {
                    assert(j > pos);
                    assert(fin[j - 1] == x);
                }
            }
        }
    }

    /// Searches the surroundings of the query segment's endpoint and ranks
    /// the nearby stored segments by the perpendicular distance of their
    /// infinite lines from the query segment's midpoint.
    pub fn find(&self, site_start: &Site2D, site_end: &Site2D, diameter: i64, indices_not_including: &Vec<usize>) -> (r: PathTreeQuery)
        requires
            self.inv(),
            in_bounds(*site_start),
            in_bounds(*site_end),
            0 <= diameter <= 1_000_000,
        ensures
            r == find_spec(
                self.objects@,
                *site_start,
                *site_end,
                diameter as int,
                indices_not_including@,
            ),
    {
        let ghost s = self.objects@;
        let ghost excl = indices_not_including@;
        let qs: Site2D = *site_start;
        let qe: Site2D = *site_end;
        let d: i64 = diameter;

        let mut best: Option<PathTreeObject> = Option::None;
        let mut best_sq: i128 = 0;
        let mut best_len2: i128 = 0;
        let mut i: usize = 0;
        proof {
            assert(s.take(0) =~= Seq::<PathTreeObject>::empty());
        }
        while i < self.objects.len()
            invariant
                self.inv(),
                self.objects@ == s,
                indices_not_including@ == excl,
                0 <= i <= s.len(),
                in_bounds(qs),
                in_bounds(qe),
                0 <= d <= 1_000_000,
                best == scan_best(s.take(i as int), qs, qe, d as int, excl),
                best matches Some(b) ==> best_sq == sq(mid_num2(b, qs, qe)) && best_len2
                    == seg_len2(b) && in_bounds(b.site_start) && in_bounds(b.site_end) && 0
                    <= best_sq <= 9_000_000_000_000_000_000_000_000 && 0 < best_len2
                    <= 2_000_000_000_000,
            decreases s.len() - i,
        {
            let o: PathTreeObject = self.objects[i];
            let ghost prev_best = best;
            proof {
                assert(s.take(i + 1).drop_last() =~= s.take(i as int));
                assert(s.take(i + 1).last() == s[i as int]);
            }

            // envelope test
            let o_min_x: i64 = if o.site_start.x <= o.site_end.x {
                o.site_start.x
            } else {
                o.site_end.x
            };
            let o_max_x: i64 = if o.site_start.x <= o.site_end.x {
                o.site_end.x
            } else {
                o.site_start.x
            };
            let o_min_y: i64 = if o.site_start.y <= o.site_end.y {
                o.site_start.y
            } else {
                o.site_end.y
            };
            let o_max_y: i64 = if o.site_start.y <= o.site_end.y {
                o.site_end.y
            } else {
                o.site_start.y
            };
            let env: bool = o_min_x <= qe.x + d && o_max_x >= qe.x - d && o_min_y <= qe.y + d
                && o_max_y >= qe.y - d;
            proof {
                assert(env == envelope_hit(o, qe, d as int));
            }

            // exclusion test
            let mut excluded: bool = false;
            let mut k: usize = 0;
            while k < indices_not_including.len()
                invariant
                    indices_not_including@ == excl,
                    0 <= k <= excl.len(),
                    excluded == exists|j: int|
                        0 <= j < k && (#[trigger] excl[j] == o.site_index_start || excl[j]
                            == o.site_index_end),
                decreases excl.len() - k,
            {
                let v: usize = indices_not_including[k];
                if v == o.site_index_start || v == o.site_index_end {
                    excluded = true;
                }
                k = k + 1;
            }
            proof {
                if excluded {
                    assert(excluded_hit(o, excl));
                } else {
                    assert(forall|j: int|
                        0 <= j < excl.len() ==> #[trigger] excl[j] != o.site_index_start && excl[j]
                            != o.site_index_end);
                    assert(!excl.contains(o.site_index_start));
                    assert(!excl.contains(o.site_index_end));
                }
            }

            // squared segment length
            let dx: i128 = (o.site_end.x as i128) - (o.site_start.x as i128);
            let dy: i128 = (o.site_end.y as i128) - (o.site_start.y as i128);
            proof {
                lemma_mul_bound(dx as int, dx as int, 1_000_000, 1_000_000);
                lemma_mul_bound(dy as int, dy as int, 1_000_000, 1_000_000);
            }
            let len2: i128 = dx * dx + dy * dy;
            proof {
                assert(len2 == seg_len2(o));
            }

            if env && !excluded && len2 > 0 {
                // twice the midpoint-to-line numerator
                let sum_x: i128 = (qs.x as i128) + (qe.x as i128);
                let sum_y: i128 = (qs.y as i128) + (qe.y as i128);
                proof {
                    lemma_mul_bound(dy as int, sum_x as int, 1_000_000, 1_000_000);
                    lemma_mul_bound(dx as int, sum_y as int, 1_000_000, 1_000_000);
                    lemma_mul_bound(
                        o.site_end.x as int,
                        o.site_start.y as int,
                        500_000,
                        500_000,
                    );
                    lemma_mul_bound(
                        o.site_end.y as int,
                        o.site_start.x as int,
                        500_000,
                        500_000,
                    );
                }
                let num: i128 = dy * sum_x - dx * sum_y + 2 * ((o.site_end.x as i128) * (
                o.site_start.y as i128) - (o.site_end.y as i128) * (o.site_start.x as i128));
                proof {
                    lemma_mul_bound(num as int, num as int, 3_000_000_000_000, 3_000_000_000_000);
                }
                let num_sq: i128 = num * num;
                proof {
                    assert(num == mid_num2(o, qs, qe));
                    assert(num_sq >= 0) by (nonlinear_arith)
                        requires
                            num_sq == num * num,
                    {}
                }

                let is_better: bool = match best {
                    Option::None => {
                        proof {
                            lemma_mul_bound(d as int, d as int, 1_000_000, 1_000_000);
                        }
                        let dd: i128 = (d as i128) * (d as i128);
                        proof {
                            lemma_mul_bound(
                                4 * dd as int,
                                len2 as int,
                                4_000_000_000_000,
                                2_000_000_000_000,
                            );
                            assert(4 * (dd as int) * (len2 as int) == 4 * (d as int) * (d as int)
                                * (len2 as int)) by (nonlinear_arith)
                                requires
                                    dd == (d as int) * (d as int),
                            {}
                        }
                        num_sq < 4 * dd * len2
                    },
                    Option::Some(_) => {
                        proof {
                            lemma_mul_bound(
                                num_sq as int,
                                best_len2 as int,
                                9_000_000_000_000_000_000_000_000,
                                2_000_000_000_000,
                            );
                            lemma_mul_bound(
                                best_sq as int,
                                len2 as int,
                                9_000_000_000_000_000_000_000_000,
                                2_000_000_000_000,
                            );
                        }
                        num_sq * best_len2 < best_sq * len2
                    },
                };
                proof {
                    assert(is_better == beats(o, prev_best, qs, qe, d as int));
                }
                if is_better {
                    best = Option::Some(o);
                    best_sq = num_sq;
                    best_len2 = len2;
                }
            }
            proof {
                assert(scan_best(s.take(i + 1), qs, qe, d as int, excl) == best);
            }
            i = i + 1;
        }
        proof {
            assert(s.take(s.len() as int) =~= s);
        }

        match best {
            Option::None => PathTreeQuery::Nothing,
            Option::Some(b) => {
                proof {
                    lemma_mul_bound(
                        (qe.x - b.site_start.x) as int,
                        (qe.x - b.site_start.x) as int,
                        1_000_000,
                        1_000_000,
                    );
                    lemma_mul_bound(
                        (qe.y - b.site_start.y) as int,
                        (qe.y - b.site_start.y) as int,
                        1_000_000,
                        1_000_000,
                    );
                    lemma_mul_bound(
                        (qe.x - b.site_end.x) as int,
                        (qe.x - b.site_end.x) as int,
                        1_000_000,
                        1_000_000,
                    );
                    lemma_mul_bound(
                        (qe.y - b.site_end.y) as int,
                        (qe.y - b.site_end.y) as int,
                        1_000_000,
                        1_000_000,
                    );
                    lemma_mul_bound(d as int, d as int, 1_000_000, 1_000_000);
                }
                let ds_x: i128 = (qe.x as i128) - (b.site_start.x as i128);
                let ds_y: i128 = (qe.y as i128) - (b.site_start.y as i128);
                let dd: i128 = (d as i128) * (d as i128);
                if ds_x * ds_x + ds_y * ds_y < dd {
                    PathTreeQuery::Site(b.site_index_start)
                } else {
                    let de_x: i128 = (qe.x as i128) - (b.site_end.x as i128);
                    let de_y: i128 = (qe.y as i128) - (b.site_end.y as i128);
                    if de_x * de_x + de_y * de_y < dd {
                        PathTreeQuery::Site(b.site_index_end)
                    } else {
                        PathTreeQuery::Path(b)
                    }
                }
            },
        }
    }
}

} // verus!
