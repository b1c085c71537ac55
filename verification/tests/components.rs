use transport_network::queue::{Candidate, CandidateQueue};
use transport_network::random::RandomStream;
use transport_network::terrain_field::TerrainField;
use transport_network::transport::TransportNetworkBuilder;
use transport_network::treeobj::{PathTree, PathTreeQuery};
use transport_network::{PathAttr, Site2D};

fn site(x: i64, y: i64) -> Site2D {
    Site2D::new(x, y)
}

fn attr(is_highway: bool, is_even: bool) -> PathAttr {
    PathAttr { is_highway, is_even }
}

fn candidate(cost: i64, angle: u64) -> Candidate {
    Candidate {
        start: 0,
        end_site: site(0, 0),
        end_elevation: 1,
        angle,
        cost,
        path_attr: attr(false, false),
    }
}

#[test]
fn queue_pops_cheapest_first_with_fifo_ties() {
    let mut q = CandidateQueue::new();
    q.push(candidate(5, 1));
    q.push(candidate(3, 2));
    q.push(candidate(3, 3));
    q.push(candidate(7, 4));
    assert_eq!(q.pop_min().unwrap().angle, 2);
    assert_eq!(q.pop_min().unwrap().angle, 3);
    assert_eq!(q.pop_min().unwrap().angle, 1);
    assert_eq!(q.pop_min().unwrap().angle, 4);
    assert!(q.pop_min().is_none());
}

#[test]
fn random_stream_is_reproducible() {
    let mut a = RandomStream::new(42);
    let mut b = RandomStream::new(42);
    for _ in 0..32 {
        assert_eq!(a.next_value(), b.next_value());
    }
    let mut c = RandomStream::new(43);
    let mut differs = false;
    for _ in 0..8 {
        if a.next_value() != c.next_value() {
            differs = true;
        }
    }
    assert!(differs);
    for _ in 0..100 {
        assert!(a.gen_range(7) < 7);
    }
}

fn flat_field(elevation: i64) -> TerrainField {
    let cells = vec![Some(elevation); 10_000];
    TerrainField::new(-500_000, -500_000, 10_000, 100, 100, cells).expect("valid field")
}

#[test]
fn terrain_field_answers_inside_and_outside() {
    let cells = vec![Some(10), Some(20), Some(30), None];
    let t = TerrainField::new(0, 0, 1000, 2, 2, cells).expect("valid field");
    assert_eq!(t.at(0, 0), Some(10));
    assert_eq!(t.at(1500, 500), Some(20));
    assert_eq!(t.at(999, 1999), Some(30));
    assert_eq!(t.at(1000, 1000), None); // the hole in the grid
    assert_eq!(t.at(-1, 0), None);
    assert_eq!(t.at(0, 2000), None);
    assert_eq!(t.at(2_000_000, 0), None);
}

#[test]
fn terrain_field_rejects_bad_grids() {
    assert!(TerrainField::new(0, 0, 0, 2, 2, vec![Some(1); 4]).is_none());
    assert!(TerrainField::new(0, 0, 1000, 2, 2, vec![Some(1); 3]).is_none());
    assert!(TerrainField::new(0, 0, 1000, 0, 2, vec![]).is_none());
    assert!(TerrainField::new(499_000, 0, 1000, 2, 1, vec![Some(1); 2]).is_none());
    assert!(TerrainField::new(0, 0, 1000, 1, 1, vec![Some(2_000_000)]).is_none());
    assert!(flat_field(1000).at(0, 0) == Some(1000));
}

#[test]
fn path_tree_split_replaces_the_edge() {
    let mut pt = PathTree::new();
    pt.insert(0, 1, site(0, 0), site(10_000, 0), attr(true, false));
    let original = pt.segments()[0];
    assert_eq!(original.path_index, 0);
    pt.split(original, &site(5_000, 0), 2);
    assert_eq!(pt.segments().len(), 2);
    assert!(pt.segments().iter().all(|o| o.path_index != original.path_index));
    let first = pt.segments()[0];
    let second = pt.segments()[1];
    assert_eq!(first.site_index_start, 0);
    assert_eq!(first.site_index_end, 2);
    assert_eq!(first.site_start, site(0, 0));
    assert_eq!(first.site_end, site(5_000, 0));
    assert!(first.path_attr.is_highway);
    assert_eq!(second.site_index_start, 2);
    assert_eq!(second.site_index_end, 1);
    assert_eq!(second.site_start, site(5_000, 0));
    assert_eq!(second.site_end, site(10_000, 0));
    assert!(second.path_attr.is_highway);
}

#[test]
fn path_tree_find_classifies_queries() {
    let mut pt = PathTree::new();
    pt.insert(0, 1, site(0, 0), site(10_000, 0), attr(false, false));

    // too far from the segment's line
    let far = pt.find(&site(5_000, -8_000), &site(5_000, -7_000), 2_000, &vec![]);
    assert_eq!(far, PathTreeQuery::Nothing);

    // close to the line, far from both endpoints
    let mid = pt.find(&site(5_000, -1_500), &site(5_000, -500), 2_000, &vec![]);
    assert_eq!(mid, PathTreeQuery::Path(pt.segments()[0]));

    // close to the line and to the end site
    let near_end = pt.find(&site(9_800, -1_500), &site(9_800, -500), 2_000, &vec![]);
    assert_eq!(near_end, PathTreeQuery::Site(1));

    // the excluded indices suppress the hit
    let excluded = pt.find(&site(5_000, -1_500), &site(5_000, -500), 2_000, &vec![1]);
    assert_eq!(excluded, PathTreeQuery::Nothing);
}

#[test]
fn cost_model_exact_values() {
    let b = TransportNetworkBuilder::new()
        .set_start(0, 0)
        .set_branch_length(10_000)
        .set_branch_angle_deviation(1_043)
        .set_branch_max_angle(10_430)
        .set_highway_rotation_probability(0)
        .set_normal_rotation_probability(0)
        .set_highway_construction_priority(1_000)
        .set_even_path_length_weight(1_000)
        .set_highway_path_length_weight(1_000)
        .set_iterations(0);
    assert!(b.validate().is_ok());
    // |1000 - 0| * 1000 * (1000 + 1000) / 1_000_000
    assert_eq!(b.evaluate_cost(0, 1_000, PathAttr { is_highway: false, is_even: false }), Some(2_000));
    // highway branches drop the +1 term: |1000| * 1000 * 1000 / 1_000_000
    assert_eq!(b.evaluate_cost(0, 1_000, PathAttr { is_highway: true, is_even: false }), Some(1_000));
    // below sea level is rejected, never scored
    assert_eq!(b.evaluate_cost(500, 0, PathAttr { is_highway: false, is_even: false }), None);
    // flat terrain costs nothing
    assert_eq!(b.evaluate_cost(1_000, 1_000, PathAttr { is_highway: false, is_even: false }), Some(0));
}
