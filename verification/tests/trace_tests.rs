use raytrace::obj::{select_root, HitRecord, Material, Root, CHANNEL_MAX};
use raytrace::trace::{shadow, trace_step, Light, Step};

fn record(t: i64, material: Material) -> Option<HitRecord> {
    Some(HitRecord { t, material })
}

#[test]
fn channel_max_is_255() {
    assert_eq!(CHANNEL_MAX, 255);
}

#[test]
fn material_validity() {
    assert!(Material::Specular.is_valid());
    assert!(Material::Diffuse(0, 128, 255).is_valid());
    assert!(!Material::Diffuse(-1, 0, 0).is_valid());
    assert!(!Material::Diffuse(0, 256, 0).is_valid());
    assert!(!Material::Diffuse(0, 0, i32::MAX).is_valid());
}

#[test]
fn select_root_takes_the_near_crossing_from_outside() {
    assert_eq!(select_root(8, 12), Some(Root::Near));
    assert_eq!(select_root(0, 4), Some(Root::Near));
}

#[test]
fn select_root_takes_the_far_crossing_from_inside() {
    assert_eq!(select_root(-3, 5), Some(Root::Far));
    assert_eq!(select_root(-1, 0), Some(Root::Far));
}

#[test]
fn select_root_rejects_a_sphere_behind_the_ray() {
    assert_eq!(select_root(-12, -8), None);
    assert_eq!(select_root(-2, -1), None);
}

#[test]
fn trace_without_depth_is_black() {
    assert_eq!(trace_step(0, None), Step::Black);
    assert_eq!(trace_step(0, record(5, Material::Specular)), Step::Black);
    assert_eq!(trace_step(0, record(5, Material::Diffuse(255, 255, 255))), Step::Black);
    assert_eq!(trace_step(-4, record(5, Material::Diffuse(255, 255, 255))), Step::Black);
    assert_eq!(trace_step(i32::MIN, record(5, Material::Specular)), Step::Black);
}

#[test]
fn trace_of_a_miss_is_black() {
    assert_eq!(trace_step(5, None), Step::Black);
    assert_eq!(trace_step(i32::MAX, None), Step::Black);
}

#[test]
fn trace_reflects_on_a_mirror_with_one_depth_less() {
    assert_eq!(trace_step(5, record(9, Material::Specular)), Step::Reflect { depth: 4 });
    assert_eq!(trace_step(1, record(9, Material::Specular)), Step::Reflect { depth: 0 });
    assert_eq!(
        trace_step(i32::MAX, record(9, Material::Specular)),
        Step::Reflect { depth: i32::MAX - 1 }
    );
}

#[test]
fn trace_shades_a_matte_surface_with_its_channels() {
    assert_eq!(
        trace_step(5, record(9, Material::Diffuse(255, 128, 100))),
        Step::Shade { r: 255, g: 128, b: 100 }
    );
    assert_eq!(
        trace_step(1, record(0, Material::Diffuse(1, 2, 3))),
        Step::Shade { r: 1, g: 2, b: 3 }
    );
}

#[test]
fn trace_between_mirrors_ends_in_black_after_depth_reflections() {
    let mut depth = 5;
    let mut reflections = 0;
    let last = loop {
        match trace_step(depth, record(3, Material::Specular)) {
            Step::Reflect { depth: left } => {
                assert_eq!(left, depth - 1);
                depth = left;
                reflections += 1;
            }
            last => break last,
        }
    };
    assert_eq!(last, Step::Black);
    assert_eq!(reflections, 5);
}

#[test]
fn trace_ends_at_the_first_matte_surface() {
    let path = [Material::Specular, Material::Specular, Material::Diffuse(9, 8, 7)];
    let mut depth = 5;
    let mut at = 0;
    let last = loop {
        match trace_step(depth, record(3, path[at])) {
            Step::Reflect { depth: left } => {
                depth = left;
                at += 1;
            }
            last => break last,
        }
    };
    assert_eq!(last, Step::Shade { r: 9, g: 8, b: 7 });
    assert_eq!(at, 2);
    assert_eq!(depth, 3);
}

#[test]
fn shadow_without_a_blocker_is_lit() {
    assert_eq!(shadow(None, 100), Light::Lit);
}

#[test]
fn shadow_with_a_surface_beyond_the_light_is_lit() {
    assert_eq!(shadow(record(101, Material::Specular), 100), Light::Lit);
}

#[test]
fn shadow_with_a_surface_before_the_light_is_occluded() {
    assert_eq!(shadow(record(40, Material::Diffuse(1, 1, 1)), 100), Light::Occluded);
    assert_eq!(shadow(record(0, Material::Specular), 100), Light::Occluded);
}

#[test]
fn shadow_with_a_surface_at_the_light_is_occluded() {
    assert_eq!(shadow(record(100, Material::Specular), 100), Light::Occluded);
}

#[test]
fn coefficient_is_one_when_lit_and_a_fifth_when_occluded() {
    assert_eq!(Light::Lit.coefficient(), (1, 1));
    assert_eq!(Light::Occluded.coefficient(), (1, 5));
    let (n, d) = Light::Occluded.coefficient();
    assert_eq!(n as f64 / d as f64, 0.2);
}

#[test]
fn point_is_lit_exactly_when_no_surface_lies_at_or_before_the_light() {
    let lists = vec![
        vec![],
        vec![None, None],
        vec![record(52, Material::Specular), None, record(51, Material::Specular)],
        vec![record(60, Material::Specular), record(50, Material::Diffuse(1, 1, 1))],
        vec![record(49, Material::Specular), record(70, Material::Specular)],
        vec![None, record(70, Material::Specular), record(3, Material::Specular)],
    ];
    let expected =
        [Light::Lit, Light::Lit, Light::Lit, Light::Occluded, Light::Occluded, Light::Occluded];
    for (hits, want) in lists.iter().zip(expected) {
        let nearest = raytrace::scene::nearest(hits).and_then(|i| hits[i]);
        let clear = hits.iter().flatten().all(|h| h.t > 50);
        assert_eq!(shadow(nearest, 50), want);
        assert_eq!(shadow(nearest, 50) == Light::Lit, clear);
    }
}
