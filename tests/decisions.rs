use ray_tracer::material::checker_tile;
use ray_tracer::material::Tile;
use ray_tracer::reflection::next_reflection;
use ray_tracer::reflection::Reflection;
use ray_tracer::search::in_shadow;
use ray_tracer::search::nearest_hit;

fn key(dist: f32) -> Option<u32> {
    if dist >= 0.0 && dist.is_finite() {
        Some(if dist == 0.0 { 0 } else { dist.to_bits() })
    } else {
        None
    }
}

#[test]
fn checker_tile_odd_is_light() {
    assert_eq!(checker_tile(1), Tile::Light);
    assert_eq!(checker_tile(3), Tile::Light);
    assert_eq!(checker_tile(-1), Tile::Light);
    assert_eq!(checker_tile(-3), Tile::Light);
    assert_eq!(checker_tile(i32::MAX), Tile::Light);
}

#[test]
fn checker_tile_even_is_dark() {
    assert_eq!(checker_tile(0), Tile::Dark);
    assert_eq!(checker_tile(2), Tile::Dark);
    assert_eq!(checker_tile(-2), Tile::Dark);
    assert_eq!(checker_tile(i32::MIN), Tile::Dark);
}

#[test]
fn checker_neighbours_along_x_differ() {
    // z fixed at 2.0, x at 0.25 and 1.25: floor sums 2 and 3.
    let z: f32 = 2.0;
    let (x0, x1): (f32, f32) = (0.25, 1.25);
    let a = checker_tile((z.floor() + x0.floor()) as i32);
    let b = checker_tile((z.floor() + x1.floor()) as i32);
    assert_ne!(a, b);
    for k in [-5, -1, 0, 1, 41, i32::MAX - 1, i32::MIN] {
        assert_ne!(checker_tile(k), checker_tile(k + 1));
    }
}

#[test]
fn nearest_hit_none_without_hits() {
    assert_eq!(nearest_hit(&vec![]), None);
    assert_eq!(nearest_hit(&vec![None, None, None]), None);
}

#[test]
fn nearest_hit_takes_strictly_smaller_distance() {
    // Two overlapping spheres along one ray: the nearer surface wins,
    // whichever was inserted first.
    assert_eq!(nearest_hit(&vec![key(3.5), key(2.0)]), Some(1));
    assert_eq!(nearest_hit(&vec![key(2.0), key(3.5)]), Some(0));
    assert_eq!(nearest_hit(&vec![None, key(7.0), None, key(0.5), key(0.75)]), Some(3));
}

#[test]
fn nearest_hit_ties_go_to_first_inserted() {
    assert_eq!(nearest_hit(&vec![key(4.0), key(1.0), key(1.0)]), Some(1));
    assert_eq!(nearest_hit(&vec![Some(9), Some(9)]), Some(0));
    assert_eq!(nearest_hit(&vec![key(0.0), key(-0.0)]), Some(0));
}

#[test]
fn nearest_hit_ignores_unusable_distances() {
    // A negative distance and a grazing plane's non-finite one have no key.
    assert_eq!(nearest_hit(&vec![key(-1.0), key(f32::INFINITY), key(f32::NAN), key(5.0)]), Some(3));
}

#[test]
fn shadow_when_occluder_before_light() {
    assert!(in_shadow(key(1.0), key(2.5).unwrap()));
    assert!(in_shadow(Some(10), 10));
}

#[test]
fn no_shadow_when_hit_beyond_light_or_missing() {
    assert!(!in_shadow(key(3.0), key(2.5).unwrap()));
    assert!(!in_shadow(None, 0));
    assert!(!in_shadow(None, u32::MAX));
}

#[test]
fn reflection_traces_one_level_deeper_below_limit() {
    assert_eq!(next_reflection(0, 5), Reflection::Trace(1));
    assert_eq!(next_reflection(4, 5), Reflection::Trace(5));
    assert_eq!(next_reflection(-3, 5), Reflection::Trace(-2));
}

#[test]
fn reflection_falls_back_at_limit() {
    assert_eq!(next_reflection(5, 5), Reflection::Fallback);
    assert_eq!(next_reflection(9, 5), Reflection::Fallback);
    assert_eq!(next_reflection(0, 0), Reflection::Fallback);
    assert_eq!(next_reflection(i32::MAX, i32::MAX), Reflection::Fallback);
}

#[test]
fn reflection_chain_stops_after_max_depth_steps() {
    let mut depth: i32 = 0;
    let mut traced = 0;
    while let Reflection::Trace(next) = next_reflection(depth, 5) {
        depth = next;
        traced += 1;
        assert!(traced <= 5);
    }
    assert_eq!(traced, 5);
    assert_eq!(depth, 5);
}
