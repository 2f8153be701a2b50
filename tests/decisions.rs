use raytracer::intersectable::{closest_hit, nearest_hit, select_root, NanDistance};
use raytracer::order::{is_nan, order_key};
use raytracer::rendering::{light_contribution, light_contributions, Contribution, ShadowHit};
use raytracer::scene::{light_indices, Object};

fn key(x: f32) -> i64 {
    order_key(x.to_bits())
}

#[test]
fn order_key_exact_values() {
    assert_eq!(key(0.0), 0);
    assert_eq!(key(1.0), 0x3f80_0000);
    assert_eq!(key(-1.0), -0x3f80_0000);
    assert_eq!(key(f32::INFINITY), 0x7f80_0000);
}

#[test]
fn order_key_both_zeros_are_equal() {
    assert_eq!(key(-0.0), key(0.0));
}

#[test]
fn order_key_keeps_float_order() {
    let values: [f32; 9] = [f32::NEG_INFINITY, -3.5, -1.0, -1e-30, 0.0, 1e-30, 0.5, 2.0, f32::INFINITY];
    for i in 0..values.len() {
        for j in 0..values.len() {
            assert_eq!(values[i] < values[j], key(values[i]) < key(values[j]));
            assert_eq!(values[i] == values[j], key(values[i]) == key(values[j]));
        }
    }
}

#[test]
fn select_root_both_behind_origin() {
    assert_eq!(select_root(key(-3.0), key(-1.0)), None);
    assert_eq!(select_root(key(-1.0), key(-3.0)), None);
}

#[test]
fn select_root_prefers_smaller_non_negative() {
    assert_eq!(select_root(key(2.0), key(5.0)), Some(0));
    assert_eq!(select_root(key(5.0), key(2.0)), Some(1));
    assert_eq!(select_root(key(0.0), key(4.0)), Some(0));
}

#[test]
fn select_root_falls_back_to_larger() {
    assert_eq!(select_root(key(-1.0), key(4.0)), Some(1));
    assert_eq!(select_root(key(4.0), key(-1.0)), Some(0));
}

#[test]
fn select_root_double_root_takes_first() {
    assert_eq!(select_root(key(3.0), key(3.0)), Some(0));
}

#[test]
fn closest_hit_empty_scene() {
    assert_eq!(closest_hit(&vec![]), None);
}

#[test]
fn closest_hit_ray_missing_everything() {
    assert_eq!(closest_hit(&vec![None, None, None]), None);
}

#[test]
fn closest_hit_picks_nearest() {
    let dists = vec![Some(key(4.0)), None, Some(key(1.5)), Some(key(9.0))];
    assert_eq!(closest_hit(&dists), Some(2));
}

#[test]
fn closest_hit_first_of_equal_distances() {
    let dists = vec![None, Some(key(5.0)), Some(key(3.0)), Some(key(3.0))];
    assert_eq!(closest_hit(&dists), Some(2));
}

#[test]
fn light_indices_selects_emitters_in_order() {
    assert_eq!(light_indices(&vec![false, true, false, true, true]), vec![1, 3, 4]);
}

#[test]
fn light_indices_without_emitters() {
    assert_eq!(light_indices(&vec![false, false]), Vec::<usize>::new());
    assert_eq!(light_indices(&vec![]), Vec::<usize>::new());
}

#[test]
fn light_contribution_each_case() {
    assert_eq!(light_contribution(None), Contribution::Nothing);
    let seen = ShadowHit { hit_light: true, same_color: true };
    assert_eq!(light_contribution(Some(seen)), Contribution::AmbientAndDirect);
    let blocked = ShadowHit { hit_light: false, same_color: false };
    assert_eq!(light_contribution(Some(blocked)), Contribution::Ambient);
    let other_light = ShadowHit { hit_light: true, same_color: false };
    assert_eq!(light_contribution(Some(other_light)), Contribution::Ambient);
    let same_color_surface = ShadowHit { hit_light: false, same_color: true };
    assert_eq!(light_contribution(Some(same_color_surface)), Contribution::Ambient);
}

#[test]
fn light_contributions_per_light() {
    let hits = vec![
        None,
        Some(ShadowHit { hit_light: true, same_color: true }),
        Some(ShadowHit { hit_light: false, same_color: false }),
    ];
    assert_eq!(
        light_contributions(&hits),
        vec![Contribution::Nothing, Contribution::AmbientAndDirect, Contribution::Ambient]
    );
}

#[test]
fn dark_scene_has_no_contributions() {
    let lights = light_indices(&vec![false]);
    assert!(lights.is_empty());
    let hits: Vec<Option<ShadowHit>> = lights.iter().map(|_| None).collect();
    assert!(light_contributions(&hits).is_empty());
}

#[test]
fn decisions_repeat_identically() {
    let dists = vec![Some(key(2.0)), Some(key(1.0)), None];
    assert_eq!(closest_hit(&dists), closest_hit(&dists));
    let emits = vec![true, false, true];
    assert_eq!(light_indices(&emits), light_indices(&emits));
    let hits = vec![Some(ShadowHit { hit_light: true, same_color: true }), None];
    assert_eq!(light_contributions(&hits), light_contributions(&hits));
}

#[test]
fn object_holds_its_surface() {
    let objects: Vec<Object<u8, char>> = vec![Object::Sphere(1), Object::Plane('p')];
    assert!(matches!(objects[0], Object::Sphere(1)));
    assert!(matches!(objects[1], Object::Plane('p')));
}

#[test]
fn nearest_hit_picks_nearest_distance() {
    let dists = vec![Some(4.0f32.to_bits()), None, Some(1.5f32.to_bits()), Some(1.5f32.to_bits())];
    assert_eq!(nearest_hit(&dists), Ok(Some(2)));
}

#[test]
fn nearest_hit_ray_missing_everything() {
    assert_eq!(nearest_hit(&vec![None, None]), Ok(None));
    assert_eq!(nearest_hit(&vec![]), Ok(None));
}

#[test]
fn nearest_hit_zero_distance_is_nearest() {
    let dists = vec![Some(0.25f32.to_bits()), Some((-0.0f32).to_bits()), Some(0.0f32.to_bits())];
    assert_eq!(nearest_hit(&dists), Ok(Some(1)));
}

#[test]
fn nearest_hit_nan_distance_is_an_error() {
    let dists = vec![Some(1.0f32.to_bits()), None, Some(f32::NAN.to_bits()), Some((-f32::NAN).to_bits())];
    assert_eq!(nearest_hit(&dists), Err(NanDistance { object: 2 }));
}

#[test]
fn nearest_hit_infinite_distance_is_not_nan() {
    let dists = vec![Some(f32::INFINITY.to_bits()), None];
    assert_eq!(nearest_hit(&dists), Ok(Some(0)));
}

#[test]
fn is_nan_matches_float_classification() {
    let values: [f32; 7] = [0.0, -0.0, 1.0, f32::INFINITY, f32::NEG_INFINITY, f32::NAN, -f32::NAN];
    for v in values {
        assert_eq!(is_nan(v.to_bits()), v.is_nan());
    }
    assert!(is_nan(0x7f80_0001));
    assert!(!is_nan(0x7f80_0000));
}
