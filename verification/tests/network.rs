use transport_network::terrain_field::TerrainField;
use transport_network::transport::{ConfigError, TransportNetworkBuilder};

fn flat_field(elevation: i64) -> TerrainField {
    let cells = vec![Some(elevation); 10_000];
    TerrainField::new(-500_000, -500_000, 10_000, 100, 100, cells).expect("valid field")
}

fn base_builder() -> TransportNetworkBuilder {
    TransportNetworkBuilder::new()
        .set_start(0, 0)
        .set_branch_length(10_000)
        .set_branch_angle_deviation(1_043)
        .set_branch_max_angle(10_430)
        .set_highway_rotation_probability(200_000)
        .set_normal_rotation_probability(400_000)
        .set_highway_construction_priority(1_000)
        .set_even_path_length_weight(1_000)
        .set_highway_path_length_weight(1_000)
}

#[test]
fn zero_iterations_leave_a_single_node() {
    let t = flat_field(1_000);
    let net = base_builder().set_iterations(0).build(1, &t).expect("valid config");
    assert_eq!(net.num_nodes(), 1);
    assert_eq!(net.get_site(0), transport_network::Site2D::new(0, 0));
    assert_eq!(net.get_elevation(0), 1_000);
    assert!(net.get_neighbors(0).is_empty());
}

#[test]
fn one_iteration_commits_one_highway_edge() {
    let t = flat_field(1_000);
    let net = base_builder().set_iterations(1).build(1, &t).expect("valid config");
    assert_eq!(net.num_nodes(), 2);
    let n0 = net.get_neighbors(0);
    assert_eq!(n0.len(), 1);
    assert_eq!(n0[0].index, 1);
    assert!(n0[0].is_highway);
    assert!(!n0[0].is_even);
    let n1 = net.get_neighbors(1);
    assert_eq!(n1.len(), 1);
    assert_eq!(n1[0].index, 0);
    assert!(n1[0].is_highway);
}

#[test]
fn highway_lateral_is_attempted_even_when_its_draw_fails() {
    // With both rotation probabilities at zero, a highway parent's lateral
    // directions must still be attempted (the single draw only decides the
    // highway flag), so local, even-generation edges appear; a local
    // parent's lateral draw always fails, so no second-generation lateral
    // branches grow from them.
    let t = flat_field(1_000);
    let net = base_builder()
        .set_highway_rotation_probability(0)
        .set_normal_rotation_probability(0)
        .set_iterations(12)
        .build(1, &t)
        .expect("valid config");
    let mut saw_local_even = false;
    for i in 0..net.num_nodes() {
        for n in net.get_neighbors(i) {
            if !n.is_highway {
                assert!(n.is_even);
                saw_local_even = true;
            }
        }
    }
    assert!(saw_local_even);
}

#[test]
fn build_is_deterministic() {
    let t = flat_field(1_000);
    let a = base_builder().set_iterations(60).build(7, &t).expect("valid config");
    let b = base_builder().set_iterations(60).build(7, &t).expect("valid config");
    assert_eq!(a.num_nodes(), b.num_nodes());
    for i in 0..a.num_nodes() {
        assert_eq!(a.get_site(i), b.get_site(i));
        assert_eq!(a.get_elevation(i), b.get_elevation(i));
        assert_eq!(a.get_neighbors(i), b.get_neighbors(i));
    }
    assert!(a.num_nodes() > 2);
}

#[test]
fn no_duplicate_edges_between_any_pair() {
    let t = flat_field(1_000);
    let net = base_builder().set_iterations(120).build(3, &t).expect("valid config");
    for i in 0..net.num_nodes() {
        let neighbors = net.get_neighbors(i);
        for a in 0..neighbors.len() {
            for b in (a + 1)..neighbors.len() {
                assert_ne!(neighbors[a].index, neighbors[b].index);
            }
        }
    }
}

#[test]
fn no_site_below_sea_level_once_growth_happens() {
    let t = flat_field(1_000);
    let net = base_builder().set_iterations(80).build(9, &t).expect("valid config");
    assert!(net.num_nodes() > 1);
    for i in 0..net.num_nodes() {
        assert!(net.get_elevation(i) >= 1);
    }
}

#[test]
fn start_outside_the_terrain_gives_an_empty_network() {
    let cells = vec![Some(1_000); 4];
    let t = TerrainField::new(100_000, 100_000, 1_000, 2, 2, cells).expect("valid field");
    let net = base_builder().set_iterations(10).build(1, &t).expect("valid config");
    assert_eq!(net.num_nodes(), 0);
}

#[test]
fn start_below_sea_level_never_grows() {
    let t = flat_field(0);
    let net = base_builder().set_iterations(10).build(1, &t).expect("valid config");
    assert_eq!(net.num_nodes(), 1);
    assert!(net.get_neighbors(0).is_empty());
    assert_eq!(net.get_elevation(0), 0);
}

#[test]
fn configuration_mistakes_are_rejected_eagerly() {
    let t = flat_field(1_000);
    let ok = base_builder().set_iterations(0);
    assert!(ok.build(1, &t).is_ok());
    assert_eq!(
        TransportNetworkBuilder::new().build(1, &t).err().unwrap(),
        ConfigError::ZeroAngleDeviation
    );
    assert_eq!(
        ok.set_branch_max_angle(40_000).build(1, &t).err().unwrap(),
        ConfigError::ExcessiveMaxAngle
    );
    assert_eq!(
        ok.set_branch_length(0).build(1, &t).err().unwrap(),
        ConfigError::InvalidBranchLength
    );
    assert_eq!(
        ok.set_branch_length(300_000).build(1, &t).err().unwrap(),
        ConfigError::InvalidBranchLength
    );
    assert_eq!(
        ok.set_normal_rotation_probability(2_000_000).build(1, &t).err().unwrap(),
        ConfigError::InvalidProbability
    );
    assert_eq!(
        ok.set_highway_construction_priority(0).build(1, &t).err().unwrap(),
        ConfigError::InvalidPriority
    );
    assert_eq!(
        ok.set_even_path_length_weight(-1).build(1, &t).err().unwrap(),
        ConfigError::InvalidWeight
    );
    assert_eq!(
        ok.set_highway_path_length_weight(5_000).build(1, &t).err().unwrap(),
        ConfigError::InvalidWeight
    );
    assert_eq!(
        ok.set_iterations(200_000_000).build(1, &t).err().unwrap(),
        ConfigError::ExcessiveIterations
    );
    assert_eq!(
        ok.set_start(600_000, 0).build(1, &t).err().unwrap(),
        ConfigError::StartOutOfBounds
    );
}

#[test]
fn varied_terrain_grows_a_connected_looking_network() {
    // a sloped terrain with a sea in one corner
    let mut cells = Vec::new();
    for row in 0..100 {
        for col in 0..100 {
            if row < 10 && col < 10 {
                cells.push(Some(0));
            } else {
                cells.push(Some((row + col) as i64 * 10));
            }
        }
    }
    let t = TerrainField::new(-500_000, -500_000, 10_000, 100, 100, cells).expect("valid field");
    let net = base_builder().set_iterations(200).build(11, &t).expect("valid config");
    assert!(net.num_nodes() > 1);
    let mut edge_ends = 0usize;
    for i in 0..net.num_nodes() {
        assert!(net.get_elevation(i) >= 1);
        edge_ends += net.get_neighbors(i).len();
        // every registered site carries the terrain's own elevation
        let site = net.get_site(i);
        assert_eq!(t.at(site.x, site.y), Some(net.get_elevation(i)));
    }
    // an undirected edge is seen from both endpoints
    assert!(edge_ends >= 2 && edge_ends % 2 == 0);
}
