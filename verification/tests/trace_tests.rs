use raytracer::color::Color;
use raytracer::material::Material;
use raytracer::objects::{closest_hit, no_hit, HitInfo, T_NONE};
use raytracer::ray::Ray;
use raytracer::trace::{bounce_step, trace_path, BounceEvent, BounceStep};
use raytracer::vec3::Vec3;

fn ray() -> Ray {
    Ray::new(Vec3::new(0, 0, 0), Vec3::new(0, 0, -1))
}

fn hit_with(material: Material, t: i64) -> HitInfo {
    HitInfo {
        has_hit: true,
        t,
        pos: Vec3::new(0, 0, -t as i32),
        sent_ray: ray(),
        normal: Vec3::new(0, 0, 1),
        material,
    }
}

fn event(material: Material) -> BounceEvent {
    BounceEvent { info: hit_with(material, 1000), specular_weight: 1000, diffuse_weight: 1000 }
}

fn black_material() -> Material {
    Material::new(Color::black(), 1000, 0, 0)
}

#[test]
fn miss_terminates_black() {
    let ev = BounceEvent { info: no_hit(&ray(), Material::default()), specular_weight: 0, diffuse_weight: 0 };
    match bounce_step(&ev, Color::white(), 0) {
        BounceStep::Terminate { color } => assert_eq!(color, Color::black()),
        _ => panic!("a miss must terminate"),
    }
}

#[test]
fn emissive_hit_terminates_with_weighted_light() {
    let albedo = Color::new(900, 500, 100);
    let ev = event(Material::new(albedo, 0, 0, 2000));
    match bounce_step(&ev, Color::white(), 0) {
        BounceStep::Terminate { color } => {
            // white * albedo * emission, emission = 2.0.
            assert_eq!(color, Color::new(1800, 1000, 200));
        }
        _ => panic!("an emissive hit must terminate"),
    }
}

#[test]
fn bounce_cap_terminates_black() {
    let ev = event(Material::new(Color::white(), 1000, 0, 0));
    match bounce_step(&ev, Color::white(), 5) {
        BounceStep::Terminate { color } => assert_eq!(color, Color::black()),
        _ => panic!("the bounce cap must terminate"),
    }
}

#[test]
fn diffuse_bounce_updates_throughput() {
    // metallic 0, diffuse weight 0.5: throughput * albedo * 0.5.
    let ev = BounceEvent {
        info: hit_with(Material::new(Color::new(800, 800, 800), 1000, 0, 0), 1000),
        specular_weight: 1000,
        diffuse_weight: 500,
    };
    match bounce_step(&ev, Color::white(), 0) {
        BounceStep::Bounce { throughput } => assert_eq!(throughput, Color::new(400, 400, 400)),
        _ => panic!("a plain hit below the cap must bounce"),
    }
}

#[test]
fn metallic_bounce_blends_weights() {
    // metallic 0.25: weight = 0.25 * 0.8 + 0.75 * 0.4 = 0.5.
    let ev = BounceEvent {
        info: hit_with(Material::new(Color::white(), 0, 250, 0), 1000),
        specular_weight: 800,
        diffuse_weight: 400,
    };
    match bounce_step(&ev, Color::white(), 0) {
        BounceStep::Bounce { throughput } => assert_eq!(throughput, Color::new(500, 500, 500)),
        _ => panic!("a plain hit below the cap must bounce"),
    }
}

#[test]
fn black_scene_traces_black() {
    // Every surface black and dark: whatever the path, the answer is black.
    let events = vec![event(black_material()); 10];
    assert_eq!(trace_path(&events, Color::white()), Color::black());
}

#[test]
fn directly_visible_emitter_returns_albedo_times_emission() {
    let albedo = Color::new(1000, 1000, 1000);
    let events = vec![event(Material::new(albedo, 0, 0, 1000))];
    // albedo * emission with emission 1.0 is the albedo itself.
    assert_eq!(trace_path(&events, Color::white()), albedo);
}

#[test]
fn one_bounce_then_emitter() {
    // A half-gray diffuse wall (weight 1.0), then the light.
    let wall = BounceEvent {
        info: hit_with(Material::new(Color::new(500, 500, 500), 1000, 0, 0), 1000),
        specular_weight: 1000,
        diffuse_weight: 1000,
    };
    let light = event(Material::new(Color::white(), 0, 0, 1000));
    assert_eq!(trace_path(&vec![wall, light], Color::white()), Color::new(500, 500, 500));
}

#[test]
fn path_past_the_cap_is_black() {
    // Six bounceable surfaces and then a light: the cap cuts it off first.
    let wall = event(Material::new(Color::white(), 1000, 0, 0));
    let light = event(Material::new(Color::white(), 0, 0, 1000));
    let mut events = vec![wall; 6];
    events.push(light);
    assert_eq!(trace_path(&events, Color::white()), Color::black());
}

#[test]
fn exhausted_events_are_black() {
    assert_eq!(trace_path(&Vec::new(), Color::white()), Color::black());
}

#[test]
fn closest_hit_takes_the_smallest_t() {
    let far = hit_with(Material::default(), 5000);
    let near = hit_with(Material::default(), 1000);
    let miss = no_hit(&ray(), Material::default());
    let hits = vec![miss, far, near];
    let best = closest_hit(&hits).expect("two real hits are present");
    assert_eq!(best.t, 1000);
}

#[test]
fn closest_hit_prefers_the_earlier_on_ties() {
    let a = hit_with(Material::new(Color::new(1, 0, 0), 0, 0, 0), 1000);
    let b = hit_with(Material::new(Color::new(2, 0, 0), 0, 0, 0), 1000);
    let best = closest_hit(&vec![a, b]).expect("hits are present");
    assert_eq!(best.material.albedo, Color::new(1, 0, 0));
}

#[test]
fn closest_hit_of_misses_is_none() {
    let miss = no_hit(&ray(), Material::default());
    assert!(closest_hit(&vec![miss, miss]).is_none());
    assert!(closest_hit(&Vec::new()).is_none());
}

#[test]
fn no_hit_is_the_canonical_miss() {
    let h = no_hit(&ray(), Material::default());
    assert!(!h.has_hit);
    assert_eq!(h.t, T_NONE);
    assert_eq!(h.pos, Vec3::new(0, 0, 0));
    assert_eq!(h.normal, Vec3::new(0, 0, 0));
}
