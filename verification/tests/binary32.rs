use ray_tracer_challenge::binary32::{eq, is_nan_bits, le, lt};

fn b(v: f32) -> u32 {
    v.to_bits()
}

const SAMPLES: [f32; 16] = [
    0.0,
    -0.0,
    1.0,
    -1.0,
    0.5,
    -0.5,
    3.25,
    -1e30,
    1e30,
    1e-45,
    -1e-45,
    1.17549435e-38,
    f32::MAX,
    f32::MIN,
    f32::INFINITY,
    f32::NEG_INFINITY,
];

#[test]
fn comparisons_agree_with_f32() {
    for &x in SAMPLES.iter() {
        for &y in SAMPLES.iter() {
            assert_eq!(lt(b(x), b(y)), x < y, "{} < {}", x, y);
            assert_eq!(le(b(x), b(y)), x <= y, "{} <= {}", x, y);
            assert_eq!(eq(b(x), b(y)), x == y, "{} == {}", x, y);
        }
    }
}

#[test]
fn nan_is_unordered() {
    let nan = b(f32::NAN);
    let other_nan = 0xffc0_0001u32;
    assert!(is_nan_bits(nan));
    assert!(is_nan_bits(other_nan));
    assert!(!is_nan_bits(b(f32::INFINITY)));
    for &x in SAMPLES.iter() {
        assert!(!lt(nan, b(x)));
        assert!(!lt(b(x), nan));
        assert!(!le(b(x), other_nan));
        assert!(!eq(nan, b(x)));
    }
    assert!(!eq(nan, nan));
}

#[test]
fn zeros_are_equal() {
    assert!(eq(b(0.0), b(-0.0)));
    assert!(!lt(b(-0.0), b(0.0)));
    assert!(le(b(-0.0), b(0.0)));
    assert!(le(b(0.0), b(-0.0)));
}

#[test]
fn subnormals_and_normals_are_ordered() {
    assert!(lt(b(1e-45), b(1.17549435e-38)));
    assert!(lt(b(1.1754942e-38), b(1.17549435e-38)));
    assert!(lt(b(-1.17549435e-38), b(-1e-45)));
    assert!(lt(b(f32::MAX), b(f32::INFINITY)));
    assert!(!lt(b(f32::INFINITY), b(f32::INFINITY)));
}
