use tinyraytracer::color::Rgba8;
use tinyraytracer::ieee32::Ieee32;
use tinyraytracer::material::{Material, PlainMaterial};
use tinyraytracer::shading::{
    child_depth, incidence, offset_along_normal, refracts, secondary_rays, traces_geometry,
    SecondaryRays, MAX_DEPTH,
};

fn v(x: f32) -> Ieee32 {
    Ieee32::from_bits(x.to_bits())
}

fn f(x: Ieee32) -> f32 {
    f32::from_bits(x.to_bits())
}

#[test]
fn max_depth_is_four() {
    assert_eq!(MAX_DEPTH, 4);
}

#[test]
fn mirror_path_stops_after_max_depth_bounces() {
    let mut depth: u8 = 0;
    let mut bounces = 0;
    while traces_geometry(depth) {
        depth = child_depth(depth);
        bounces += 1;
        assert!(bounces <= 4);
    }
    assert_eq!(bounces, 4);
    assert_eq!(depth, 4);
    assert!(!traces_geometry(5));
}

#[test]
fn offset_follows_the_outgoing_side() {
    assert!(offset_along_normal(v(0.3)));
    assert!(!offset_along_normal(v(-0.3)));
    assert!(!offset_along_normal(v(0.0)));
}

#[test]
fn entering_ray_keeps_the_normal() {
    let i = incidence(v(-0.5));
    assert!(!i.exiting);
    assert_eq!(f(i.cosine), 0.5);
}

#[test]
fn exiting_ray_flips_the_normal() {
    let i = incidence(v(0.5));
    assert!(i.exiting);
    assert_eq!(f(i.cosine), 0.5);
}

#[test]
fn incidence_cosine_is_clamped() {
    let i = incidence(v(-1.5));
    assert!(!i.exiting);
    assert_eq!(f(i.cosine), 1.0);
    let i = incidence(v(3.0));
    assert!(i.exiting);
    assert_eq!(f(i.cosine), 1.0);
    let i = incidence(v(f32::NAN));
    assert!(i.exiting);
    assert_eq!(f(i.cosine), 1.0);
}

#[test]
fn total_internal_reflection_when_k_not_positive() {
    assert!(refracts(v(0.25)));
    assert!(!refracts(v(0.0)));
    assert!(!refracts(v(-0.0)));
    assert!(!refracts(v(-0.4)));
}

fn material(albedo: [f32; 4]) -> Material {
    Material::Plain(PlainMaterial {
        color: Rgba8::new(255, 255, 255, 255),
        albedo: [v(albedo[0]), v(albedo[1]), v(albedo[2]), v(albedo[3])],
        spec_exponent: v(125.0),
        refr_ratio: v(1.5),
    })
}

#[test]
fn secondary_rays_go_one_level_deeper() {
    let glass = secondary_rays(1, &material([0.0, 0.5, 0.1, 0.8]));
    assert_eq!(glass, SecondaryRays { reflection: Some(2), refraction: Some(2) });
    let mirror = secondary_rays(3, &material([0.0, 10.0, 0.8, 0.0]));
    assert_eq!(mirror, SecondaryRays { reflection: Some(4), refraction: None });
    let matte = secondary_rays(0, &material([0.6, 0.3, 0.0, 0.0]));
    assert_eq!(matte, SecondaryRays { reflection: None, refraction: None });
}

#[test]
fn facing_mirrors_bounce_exactly_max_depth_times() {
    let mirror = material([0.0, 10.0, 0.8, 0.0]);
    let mut depth: u8 = 0;
    let mut bounces = 0;
    while traces_geometry(depth) {
        let plan = secondary_rays(depth, &mirror);
        assert_eq!(plan.refraction, None);
        depth = plan.reflection.unwrap();
        bounces += 1;
    }
    assert_eq!(bounces, MAX_DEPTH);
    assert!(!traces_geometry(depth));
}
