use ray_tracer_rs::nearest::{hit, hit_world, key_of_bits, Hit, Roots};

/// The key of a number; adding zero first gives both zeros one bit pattern.
fn key(t: f64) -> i64 {
    key_of_bits((t + 0.0).to_bits())
}

/// The crossings of the ray from `origin` along `direction` with the sphere
/// round `centre`.
fn crossings(origin: [f64; 3], direction: [f64; 3], centre: [f64; 3], radius: f64) -> Option<Roots> {
    let oc = [origin[0] - centre[0], origin[1] - centre[1], origin[2] - centre[2]];
    let dot = |a: [f64; 3], b: [f64; 3]| a[0] * b[0] + a[1] * b[1] + a[2] * b[2];
    let a = dot(direction, direction);
    let half_b = dot(oc, direction);
    let c = dot(oc, oc) - radius * radius;
    let discriminant = half_b * half_b - a * c;
    if discriminant < 0.0 {
        return None;
    }
    let root = discriminant.sqrt();
    Some(Roots::new(key((-half_b - root) / a), key((-half_b + root) / a)))
}

#[test]
fn key_of_a_pattern_without_the_sign_bit_is_its_magnitude() {
    assert_eq!(key_of_bits(0), 0);
    assert_eq!(key_of_bits(1), 1);
    assert_eq!(key_of_bits(0x3FF0_0000_0000_0000), 0x3FF0_0000_0000_0000);
    assert_eq!(key_of_bits(0x7FFF_FFFF_FFFF_FFFF), i64::MAX);
}

#[test]
fn key_of_a_pattern_with_the_sign_bit_falls_with_its_magnitude() {
    assert_eq!(key_of_bits(0x8000_0000_0000_0000), -1);
    assert_eq!(key_of_bits(0x8000_0000_0000_0001), -2);
    assert_eq!(key_of_bits(0x8000_0000_0000_0005), -6);
    assert_eq!(key_of_bits(0xBFF0_0000_0000_0000), -1 - 0x3FF0_0000_0000_0000);
    assert_eq!(key_of_bits(u64::MAX), i64::MIN);
}

#[test]
fn keys_are_ordered_as_the_numbers_are() {
    let numbers = [
        f64::NEG_INFINITY,
        -1.0e300,
        -2.5,
        -1.0e-300,
        0.0,
        1.0e-300,
        0.001,
        0.5,
        1.5,
        f64::MAX,
        f64::INFINITY,
    ];
    for pair in numbers.windows(2) {
        assert!(key(pair[0]) < key(pair[1]));
    }
    assert_eq!(key(-0.0), key(0.0));
    assert_eq!(key(0.0), 0);
    assert_eq!(key(1.0), 0x3FF0_0000_0000_0000);
}

#[test]
fn new_orders_the_two_crossings() {
    let a = Roots::new(5, 15);
    assert_eq!((a.nearer(), a.farther()), (5, 15));
    let b = Roots::new(15, 5);
    assert_eq!((b.nearer(), b.farther()), (5, 15));
    let c = Roots::new(-3, -3);
    assert_eq!((c.nearer(), c.farther()), (-3, -3));
}

#[test]
fn negative_discriminant_is_no_hit() {
    assert_eq!(hit(&None, i64::MIN, i64::MAX), None);
    assert_eq!(hit(&None, 0, 100), None);
}

#[test]
fn nearer_crossing_is_taken_first() {
    assert_eq!(hit(&Some(Roots::new(5, 15)), 1, 100), Some(5));
}

#[test]
fn farther_crossing_is_taken_where_the_nearer_lies_outside() {
    assert_eq!(hit(&Some(Roots::new(-5, 15)), 1, 100), Some(15));
    assert_eq!(hit(&Some(Roots::new(1, 15)), 1, 100), Some(15));
}

#[test]
fn both_crossings_outside_is_no_hit() {
    assert_eq!(hit(&Some(Roots::new(-15, -5)), 1, 100), None);
    assert_eq!(hit(&Some(Roots::new(200, 300)), 1, 100), None);
    assert_eq!(hit(&Some(Roots::new(-5, 300)), 1, 100), None);
}

#[test]
fn the_interval_is_open_at_both_ends() {
    assert_eq!(hit(&Some(Roots::new(1, 100)), 1, 100), None);
    assert_eq!(hit(&Some(Roots::new(2, 100)), 1, 100), Some(2));
    assert_eq!(hit(&Some(Roots::new(1, 99)), 1, 100), Some(99));
    assert_eq!(hit(&Some(Roots::new(50, 50)), 50, 51), None);
    assert_eq!(hit(&Some(Roots::new(50, 50)), 49, 50), None);
    assert_eq!(hit(&Some(Roots::new(50, 50)), 49, 51), Some(50));
}

#[test]
fn an_empty_interval_holds_no_hit() {
    assert_eq!(hit(&Some(Roots::new(5, 15)), 20, 10), None);
    assert_eq!(hit(&Some(Roots::new(5, 15)), 5, 5), None);
}

#[test]
fn empty_scene_has_no_hit() {
    let world: Vec<Option<Roots>> = Vec::new();
    assert_eq!(hit_world(&world, key(0.001), key(f64::INFINITY)), None);
}

#[test]
fn scene_of_misses_has_no_hit() {
    let world = vec![None, Some(Roots::new(-9, -2)), None, Some(Roots::new(500, 600))];
    assert_eq!(hit_world(&world, 0, 100), None);
}

#[test]
fn nearest_of_two_overlapping_spheres_wins() {
    let world = vec![Some(Roots::new(20, 40)), Some(Roots::new(10, 30))];
    assert_eq!(hit_world(&world, 0, 1000), Some(Hit { sphere: 1, t: 10 }));
    let turned = vec![Some(Roots::new(10, 30)), Some(Roots::new(20, 40))];
    assert_eq!(hit_world(&turned, 0, 1000), Some(Hit { sphere: 0, t: 10 }));
}

#[test]
fn nearest_hit_is_the_least_of_the_single_hits() {
    let world = vec![
        Some(Roots::new(70, 90)),
        None,
        Some(Roots::new(-10, 35)),
        Some(Roots::new(40, 41)),
        Some(Roots::new(36, 1000)),
        Some(Roots::new(-8, -1)),
    ];
    let found = hit_world(&world, 0, 100).unwrap();
    assert_eq!(found, Hit { sphere: 2, t: 35 });
    for (i, sphere) in world.iter().enumerate() {
        if let Some(t) = hit(sphere, 0, 100) {
            assert!(found.t <= t);
            if i < found.sphere {
                assert!(found.t < t);
            }
        }
    }
    assert_eq!(hit(&world[found.sphere], 0, 100), Some(found.t));
}

#[test]
fn first_sphere_wins_among_equal_hits() {
    let world = vec![Some(Roots::new(30, 50)), Some(Roots::new(10, 20)), Some(Roots::new(10, 90))];
    assert_eq!(hit_world(&world, 0, 100), Some(Hit { sphere: 1, t: 10 }));
}

#[test]
fn order_of_the_spheres_does_not_move_the_hit() {
    let spheres = [Some(Roots::new(25, 60)), None, Some(Roots::new(-4, 12)), Some(Roots::new(12, 13))];
    let orders: [[usize; 4]; 4] = [[0, 1, 2, 3], [3, 2, 1, 0], [2, 0, 3, 1], [1, 3, 0, 2]];
    for order in orders.iter() {
        let world: Vec<Option<Roots>> = order.iter().map(|&i| spheres[i]).collect();
        assert_eq!(hit_world(&world, 0, 100).map(|h| h.t), Some(12));
    }
}

#[test]
fn a_sphere_behind_the_lower_end_is_passed_over() {
    let world = vec![Some(Roots::new(-30, -10)), Some(Roots::new(40, 60))];
    assert_eq!(hit_world(&world, 0, 100), Some(Hit { sphere: 1, t: 40 }));
}

#[test]
fn hits_beyond_the_upper_end_do_not_count() {
    let world = vec![Some(Roots::new(40, 60)), Some(Roots::new(10, 20))];
    assert_eq!(hit_world(&world, 0, 10), None);
    assert_eq!(hit_world(&world, 0, 11), Some(Hit { sphere: 1, t: 10 }));
}

#[test]
fn ray_towards_the_small_sphere_hits_its_front() {
    let origin = [0.0, 0.0, 0.0];
    let direction = [0.0, 0.0, -1.0];
    let world = vec![
        crossings(origin, direction, [0.0, 0.0, -1.0], 0.5),
        crossings(origin, direction, [0.0, -100.5, -1.0], 100.0),
    ];
    assert!(world[1].is_none());
    assert_eq!(
        hit_world(&world, key(0.001), key(f64::INFINITY)),
        Some(Hit { sphere: 0, t: key(0.5) })
    );
}

#[test]
fn ray_towards_the_ground_hits_the_large_sphere() {
    let origin = [0.0, 0.0, 0.0];
    let direction = [0.0, -1.0, 0.0];
    let world = vec![
        crossings(origin, direction, [0.0, 0.0, -1.0], 0.5),
        crossings(origin, direction, [0.0, -100.5, -1.0], 100.0),
    ];
    assert!(world[0].is_none());
    let found = hit_world(&world, key(0.001), key(f64::INFINITY)).unwrap();
    assert_eq!(found.sphere, 1);
    assert!(key(0.49) < found.t && found.t < key(0.51));
}

#[test]
fn ray_through_two_overlapping_spheres_hits_the_nearer() {
    let origin = [0.0, 0.0, 0.0];
    let direction = [0.0, 0.0, -1.0];
    let front = crossings(origin, direction, [0.0, 0.0, -1.0], 0.5);
    let back = crossings(origin, direction, [0.0, 0.0, -1.25], 0.5);
    assert_eq!(hit(&front, key(0.001), key(f64::INFINITY)), Some(key(0.5)));
    assert_eq!(hit(&back, key(0.001), key(f64::INFINITY)), Some(key(0.75)));
    assert_eq!(
        hit_world(&vec![front, back], key(0.001), key(f64::INFINITY)),
        Some(Hit { sphere: 0, t: key(0.5) })
    );
    assert_eq!(
        hit_world(&vec![back, front], key(0.001), key(f64::INFINITY)),
        Some(Hit { sphere: 1, t: key(0.5) })
    );
}

#[test]
fn ray_from_inside_a_sphere_hits_its_far_side() {
    let inside = crossings([0.0, 0.0, -1.0], [0.0, 0.0, -1.0], [0.0, 0.0, -1.0], 0.5);
    assert_eq!(hit(&inside, key(0.001), key(f64::INFINITY)), Some(key(0.5)));
    assert_eq!(
        hit_world(&vec![inside], key(0.001), key(f64::INFINITY)),
        Some(Hit { sphere: 0, t: key(0.5) })
    );
}

#[test]
fn ray_that_misses_to_the_side_has_no_hit() {
    let world = vec![crossings([0.0, 0.0, 0.0], [1.0, 0.0, 0.0], [0.0, 0.0, -1.0], 0.5)];
    assert!(world[0].is_none());
    assert_eq!(hit_world(&world, key(0.001), key(f64::INFINITY)), None);
}
