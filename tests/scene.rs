use tinyraytracer::ieee32::Ieee32;
use tinyraytracer::scene::{in_shadow, intersect_limit_value, nearest_hit};

fn v(x: f32) -> Ieee32 {
    Ieee32::from_bits(x.to_bits())
}

fn hits(ts: &[Option<f32>]) -> Vec<Option<Ieee32>> {
    ts.iter().map(|t| t.map(v)).collect()
}

#[test]
fn intersect_limit_is_one_thousand() {
    assert_eq!(f32::from_bits(intersect_limit_value().to_bits()), 1000.0);
}

#[test]
fn nearest_hit_takes_smallest_positive_distance() {
    let h = hits(&[Some(7.0), None, Some(3.5), Some(4.0)]);
    assert_eq!(nearest_hit(&h), Some((v(3.5), 2)));
}

#[test]
fn nearest_hit_prefers_first_on_ties() {
    let h = hits(&[None, Some(2.0), Some(2.0), Some(9.0)]);
    assert_eq!(nearest_hit(&h), Some((v(2.0), 1)));
}

#[test]
fn nearest_hit_ignores_distances_behind_or_beyond_limit() {
    let h = hits(&[Some(-1.0), Some(0.0), Some(1000.0), Some(5000.0), Some(f32::NAN)]);
    assert_eq!(nearest_hit(&h), None);
    let h = hits(&[Some(-1.0), Some(999.5), Some(1000.0)]);
    assert_eq!(nearest_hit(&h), Some((v(999.5), 1)));
}

#[test]
fn nearest_hit_of_empty_scene_is_none() {
    assert_eq!(nearest_hit(&Vec::new()), None);
    assert_eq!(nearest_hit(&hits(&[None, None])), None);
}

#[test]
fn occluder_between_point_and_light_shadows() {
    let light_distance = v(10.0);
    assert!(in_shadow(&hits(&[None, Some(4.0)]), light_distance));
    assert!(!in_shadow(&hits(&[None, Some(12.0)]), light_distance));
    assert!(!in_shadow(&hits(&[Some(10.0)]), light_distance));
    assert!(!in_shadow(&hits(&[Some(-3.0), None]), light_distance));
    assert!(!in_shadow(&Vec::new(), light_distance));
}

#[test]
fn occlusion_is_per_light() {
    // One sphere at distance 4 along the ray toward a light 10 away, and
    // nothing along the ray toward a second light.
    let toward_first = hits(&[Some(4.0), None]);
    let toward_second = hits(&[None, None]);
    assert!(in_shadow(&toward_first, v(10.0)));
    assert!(!in_shadow(&toward_second, v(10.0)));
}
