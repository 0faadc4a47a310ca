use ray_tracer_challenge::sphere::intersection_ts;
use ray_tracer_challenge::world::is_shadowed;

fn b(v: f32) -> u32 {
    v.to_bits()
}

#[test]
fn a_negative_discriminant_misses() {
    assert!(intersection_ts(b(-4.0), b(f32::NAN), b(f32::NAN)).is_empty());
    assert!(intersection_ts(b(-0.001), b(1.0), b(2.0)).is_empty());
}

#[test]
fn roots_come_lowest_first() {
    assert_eq!(intersection_ts(b(16.0), b(4.0), b(6.0)), vec![b(4.0), b(6.0)]);
    assert_eq!(intersection_ts(b(16.0), b(6.0), b(4.0)), vec![b(4.0), b(6.0)]);
    assert_eq!(intersection_ts(b(0.0), b(5.0), b(5.0)), vec![b(5.0), b(5.0)]);
    assert_eq!(intersection_ts(b(-0.0), b(-6.0), b(-4.0)), vec![b(-6.0), b(-4.0)]);
}

#[test]
fn shadowed_when_the_hit_is_before_the_light() {
    let d = b(17.320508);
    assert!(is_shadowed(&vec![b(15.0), b(16.0)], d));
    assert!(!is_shadowed(&vec![b(-3.0), b(-1.0)], d));
    assert!(!is_shadowed(&vec![], d));
    assert!(!is_shadowed(&vec![b(20.0), b(21.0)], d));
    assert!(is_shadowed(&vec![b(20.0), b(-1.0), b(0.0)], d));
    assert!(!is_shadowed(&vec![b(17.320508)], d));
}
