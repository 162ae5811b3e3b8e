use raytracer::nearest::nearest_hit;

fn key(t: f64) -> Option<u64> {
    Some(t.to_bits())
}

#[test]
fn nearest_of_two_overlapping_spheres_is_the_smaller_t() {
    let keys = vec![key(0.8), key(0.5)];
    assert_eq!(nearest_hit(&keys), Some(1));
    let keys = vec![key(0.5), key(0.8)];
    assert_eq!(nearest_hit(&keys), Some(0));
}

#[test]
fn nearest_skips_members_not_hit() {
    let keys = vec![None, key(3.0), None, key(2.25), key(7.0)];
    assert_eq!(nearest_hit(&keys), Some(3));
}

#[test]
fn nearest_of_empty_scene_is_none() {
    assert_eq!(nearest_hit(&Vec::new()), None);
}

#[test]
fn nearest_when_nothing_is_hit_is_none() {
    assert_eq!(nearest_hit(&vec![None, None, None]), None);
}

#[test]
fn nearest_keeps_the_first_of_equal_hits() {
    let keys = vec![key(4.0), key(1.5), key(1.5)];
    assert_eq!(nearest_hit(&keys), Some(1));
}

#[test]
fn nearest_with_largest_keys() {
    let keys = vec![Some(u64::MAX), Some(u64::MAX - 1), Some(u64::MAX)];
    assert_eq!(nearest_hit(&keys), Some(1));
}
