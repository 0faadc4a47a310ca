use ray_tracer_challenge::intersection::{compare_t, find_hit};
use std::cmp::Ordering;

fn b(v: f32) -> u32 {
    v.to_bits()
}

#[test]
fn test_the_hit_when_all_intersections_have_positive_t() {
    let i1 = b(1.0);
    let i2 = b(2.0);
    let xs = vec![i2, i1];
    let i = find_hit(&xs);
    assert!(i.is_some());
    assert_eq!(xs[i.unwrap()], i1);
    assert_eq!(i, Some(1));
}

#[test]
fn test_the_hit_when_some_intersections_have_negative_t() {
    let i1 = b(-1.0);
    let i2 = b(1.0);
    let xs = vec![i2, i1];
    let i = find_hit(&xs);
    assert!(i.is_some());
    assert_eq!(xs[i.unwrap()], i2);
    assert_eq!(i, Some(0));
}

#[test]
fn test_the_hit_when_all_intersections_have_negative_t() {
    let i1 = b(-2.0);
    let i2 = b(-1.0);
    let xs = vec![i2, i1];
    let i = find_hit(&xs);
    assert!(i.is_none());
}

#[test]
fn test_the_hit_is_always_the_lowest_nonnegative_intersection() {
    let i1 = b(5.0);
    let i2 = b(7.0);
    let i3 = b(-3.0);
    let i4 = b(2.0);
    let xs = vec![i1, i2, i3, i4];
    let i = find_hit(&xs);
    assert!(i.is_some());
    assert_eq!(xs[i.unwrap()], i4);
    assert_eq!(i, Some(3));
}

#[test]
fn no_intersections_no_hit() {
    assert_eq!(find_hit(&vec![]), None);
}

#[test]
fn zero_is_a_hit_and_the_first_of_equal_ts_wins() {
    assert_eq!(find_hit(&vec![b(3.0), b(0.0), b(-0.0)]), Some(1));
    assert_eq!(find_hit(&vec![b(3.0), b(-0.0), b(0.0)]), Some(1));
    assert_eq!(find_hit(&vec![b(4.0), b(2.0), b(2.0)]), Some(1));
}

#[test]
fn nan_and_infinite_ts() {
    assert_eq!(find_hit(&vec![b(f32::NAN)]), None);
    assert_eq!(find_hit(&vec![b(f32::NAN), b(f32::INFINITY)]), Some(1));
    assert_eq!(find_hit(&vec![b(f32::INFINITY), b(9.0)]), Some(1));
    assert_eq!(find_hit(&vec![b(f32::NEG_INFINITY), b(f32::NAN)]), None);
}

#[test]
fn comparing_intersections_by_t() {
    assert_eq!(compare_t(b(1.0), b(2.0)), Ordering::Less);
    assert_eq!(compare_t(b(2.0), b(1.0)), Ordering::Greater);
    assert_eq!(compare_t(b(2.0), b(2.0)), Ordering::Equal);
    assert_eq!(compare_t(b(0.0), b(-0.0)), Ordering::Equal);
    assert_eq!(compare_t(b(f32::NAN), b(1.0)), Ordering::Equal);
    assert_eq!(compare_t(b(-4.0), b(-3.5)), Ordering::Less);
}

const SAMPLE_TS: [f32; 9] = [0.0, -0.0, 1.0, -1.0, 2.5, 1e-40, f32::INFINITY, f32::NEG_INFINITY, 7.0];

#[test]
fn comparing_by_t_is_a_total_order_without_nans() {
    for &a in SAMPLE_TS.iter() {
        assert_eq!(compare_t(b(a), b(a)), Ordering::Equal);
        for &c in SAMPLE_TS.iter() {
            let ab = compare_t(b(a), b(c));
            assert_eq!(ab, compare_t(b(c), b(a)).reverse());
            assert_eq!(ab == Ordering::Equal, a == c);
            for &d in SAMPLE_TS.iter() {
                let cd = compare_t(b(c), b(d));
                if ab == cd {
                    assert_eq!(compare_t(b(a), b(d)), ab);
                }
            }
        }
    }
}

#[test]
fn a_nan_t_breaks_transitivity() {
    assert_eq!(compare_t(b(1.0), b(f32::NAN)), Ordering::Equal);
    assert_eq!(compare_t(b(f32::NAN), b(2.0)), Ordering::Equal);
    assert_eq!(compare_t(b(1.0), b(2.0)), Ordering::Less);
}
