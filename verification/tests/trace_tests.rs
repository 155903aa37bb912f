use raytracer::trace::nearest_hit;

#[test]
fn empty_scene_misses() {
    let keys: Vec<Option<u64>> = Vec::new();
    assert_eq!(nearest_hit(&keys), None);
}

#[test]
fn all_misses_is_a_miss() {
    let keys: Vec<Option<u64>> = vec![None, None, None];
    assert_eq!(nearest_hit(&keys), None);
}

#[test]
fn single_hit_wins() {
    let keys: Vec<Option<u64>> = vec![None, Some(42), None];
    assert_eq!(nearest_hit(&keys), Some(1));
}

#[test]
fn smallest_key_wins() {
    let keys: Vec<Option<u64>> = vec![Some(9), None, Some(3), Some(7)];
    assert_eq!(nearest_hit(&keys), Some(2));
}

#[test]
fn tie_prefers_earlier_index() {
    let keys: Vec<Option<u64>> = vec![None, Some(5), Some(5), Some(5)];
    assert_eq!(nearest_hit(&keys), Some(1));
}

#[test]
fn later_smaller_hit_overtakes() {
    let keys: Vec<Option<u64>> = vec![Some(8), Some(6), Some(2)];
    assert_eq!(nearest_hit(&keys), Some(2));
}

#[test]
fn float_bit_patterns_order_like_distances() {
    // Finite non-negative doubles compare like their bit patterns, which is
    // what lets the renderer hand distances to the verified search.
    let distances = [0.0f64, 0.5, 1.0, 1.5, 2.0, 1e9, 1e-9];
    let keys: Vec<Option<u64>> = distances.iter().map(|d| Some(d.to_bits())).collect();
    assert_eq!(nearest_hit(&keys), Some(0));

    let keys: Vec<Option<u64>> = vec![
        Some(2.5f64.to_bits()),
        Some(0.25f64.to_bits()),
        None,
        Some(1e-12f64.to_bits()),
    ];
    assert_eq!(nearest_hit(&keys), Some(3));
}
