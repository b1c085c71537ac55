use transport_network::math::get_cross;
use transport_network::trig::{add_angle, cos_fp, sin_fp, sub_angle};
use transport_network::Site2D;

fn site(x: i64, y: i64) -> Site2D {
    Site2D::new(x, y)
}

#[test]
fn cross_of_perpendicular_segments() {
    let r = get_cross(site(0, 0), site(10, 0), site(5, -5), site(5, 5));
    let (p, passing) = r.expect("lines are not parallel");
    assert_eq!(p.x, 5);
    assert_eq!(p.y, 0);
    assert!(passing);
}

#[test]
fn cross_outside_segments_is_not_passing() {
    let r = get_cross(site(0, 0), site(10, 0), site(20, -5), site(20, 5));
    let (p, passing) = r.expect("lines are not parallel");
    assert_eq!(p.x, 20);
    assert_eq!(p.y, 0);
    assert!(!passing);
}

#[test]
fn cross_of_parallel_segments_is_none() {
    let r = get_cross(site(0, 0), site(10, 0), site(0, 5), site(10, 5));
    assert!(r.is_none());
    let r2 = get_cross(site(0, 0), site(4, 4), site(1, 0), site(5, 4));
    assert!(r2.is_none());
    // a segment is parallel to itself
    let r3 = get_cross(site(3, 7), site(9, 1), site(3, 7), site(9, 1));
    assert!(r3.is_none());
}

#[test]
fn cross_is_symmetric_in_the_segments() {
    let cases = [
        (site(0, 0), site(10, 0), site(5, -5), site(5, 5)),
        (site(0, 0), site(10, 0), site(20, -5), site(20, 5)),
        (site(-7, 3), site(8, -2), site(1, 9), site(2, -11)),
        (site(0, 0), site(10, 0), site(0, 5), site(10, 5)),
        (site(100, 200), site(-300, 50), site(40, -60), site(40, 700)),
    ];
    for (a, b, c, d) in cases {
        assert_eq!(get_cross(a, b, c, d), get_cross(c, d, a, b));
    }
}

#[test]
fn fixed_point_sine_hits_the_cardinal_points() {
    assert_eq!(sin_fp(0), 0);
    assert_eq!(sin_fp(16384), 65536);
    assert_eq!(sin_fp(32768), 0);
    assert_eq!(sin_fp(49152), -65536);
    assert_eq!(cos_fp(0), 65536);
    assert_eq!(cos_fp(16384), 0);
    assert_eq!(cos_fp(32768), -65536);
}

#[test]
fn angles_wrap_around_a_full_turn() {
    assert_eq!(add_angle(60000, 10000), 4464);
    assert_eq!(sub_angle(100, 200), 65436);
    assert_eq!(add_angle(0, 0), 0);
    assert_eq!(sub_angle(0, 65536 + 100), 65436);
}
