use raytracer::geometry::{visible_root, Root};
use raytracer::scene::closest_hit;

#[test]
fn closest_hit_of_no_objects_is_none() {
    assert_eq!(closest_hit(&vec![]), None);
}

#[test]
fn closest_hit_when_every_object_is_missed() {
    assert_eq!(closest_hit(&vec![None, None, None]), None);
}

#[test]
fn closest_hit_picks_smallest_distance() {
    let candidates = vec![Some(9), None, Some(4), Some(7)];
    assert_eq!(closest_hit(&candidates), Some(2));
}

#[test]
fn closest_hit_breaks_ties_by_list_order() {
    let candidates = vec![None, Some(5), Some(3), Some(3), Some(8)];
    assert_eq!(closest_hit(&candidates), Some(2));
}

#[test]
fn closest_hit_orders_float_distances_by_their_bits() {
    let distances = [Some(2.5f64), Some(1.5f64), None, Some(1e6f64)];
    let keys: Vec<Option<u64>> = distances.iter().map(|d| d.map(f64::to_bits)).collect();
    assert_eq!(closest_hit(&keys), Some(1));
}

#[test]
fn near_root_is_reported_first() {
    assert_eq!(visible_root(true, true, true), Some(Root::Near));
    assert_eq!(visible_root(true, true, false), Some(Root::Near));
}

#[test]
fn far_root_when_near_root_is_outside_window() {
    assert_eq!(visible_root(true, false, true), Some(Root::Far));
}

#[test]
fn no_root_when_both_outside_window() {
    assert_eq!(visible_root(true, false, false), None);
}

#[test]
fn no_root_for_tangent_or_missing_ray() {
    assert_eq!(visible_root(false, true, true), None);
    assert_eq!(visible_root(false, false, false), None);
}
