use raytracer::integrator::{Event, Path, Step, MAX_DEPTH};
use raytracer::material::{glass_bounce, hit_event, GlassBounce, MaterialKind};

#[test]
fn new_path_has_no_bounces() {
    let p = Path::new();
    assert_eq!(p.depth, 0);
    assert!(!p.is_capped());
}

#[test]
fn escaped_ray_sees_background() {
    assert_eq!(Path::new().next(Event::Escaped), Step::Background);
}

#[test]
fn absorbed_ray_is_black() {
    assert_eq!(Path { depth: 7 }.next(Event::Absorbed), Step::Black);
}

#[test]
fn scattered_ray_goes_one_bounce_deeper() {
    assert_eq!(Path { depth: 7 }.next(Event::Scattered), Step::Bounce(Path { depth: 8 }));
}

#[test]
fn path_at_cap_is_black_whatever_happens() {
    let p = Path { depth: 50 };
    assert_eq!(MAX_DEPTH, 50);
    assert!(p.is_capped());
    assert_eq!(p.next(Event::Escaped), Step::Black);
    assert_eq!(p.next(Event::Scattered), Step::Black);
    assert_eq!(p.next(Event::Absorbed), Step::Black);
}

#[test]
fn last_bounce_below_cap_still_sees_background() {
    assert_eq!(Path { depth: 49 }.next(Event::Escaped), Step::Background);
    assert_eq!(Path { depth: 49 }.next(Event::Scattered), Step::Bounce(Path { depth: 50 }));
}

#[test]
fn enclosing_mirrors_end_black_after_fifty_bounces() {
    let mut path = Path::new();
    let mut bounces = 0u64;
    let ending = loop {
        match path.next(Event::Scattered) {
            Step::Bounce(p) => {
                path = p;
                bounces += 1;
                assert!(bounces <= 50);
            }
            other => break other,
        }
    };
    assert_eq!(ending, Step::Black);
    assert_eq!(bounces, 50);
    assert_eq!(path.depth, 50);
}

#[test]
fn diffuse_and_glass_always_scatter() {
    assert_eq!(hit_event(MaterialKind::Lambertian, false), Event::Scattered);
    assert_eq!(hit_event(MaterialKind::Lambertian, true), Event::Scattered);
    assert_eq!(hit_event(MaterialKind::Dielectric, false), Event::Scattered);
    assert_eq!(hit_event(MaterialKind::Dielectric, true), Event::Scattered);
}

#[test]
fn metal_absorbs_reflections_into_surface() {
    assert_eq!(hit_event(MaterialKind::Metal, true), Event::Scattered);
    assert_eq!(hit_event(MaterialKind::Metal, false), Event::Absorbed);
}

#[test]
fn total_internal_reflection_always_reflects() {
    assert_eq!(glass_bounce(false, false), GlassBounce::Reflect);
    assert_eq!(glass_bounce(false, true), GlassBounce::Reflect);
}

#[test]
fn glass_reflects_when_draw_is_below_reflectance() {
    assert_eq!(glass_bounce(true, true), GlassBounce::Reflect);
    assert_eq!(glass_bounce(true, false), GlassBounce::Refract);
}
