use platform_sim::fixedpoint::{div_trunc, isqrt, SCALE, SQRT2_FIXED};
use platform_sim::vec2::{collision_point_line, create_normal, distance, vec_len, Vec2};

#[test]
fn isqrt_small_values() {
    assert_eq!(isqrt(0), 0);
    assert_eq!(isqrt(1), 1);
    assert_eq!(isqrt(2), 1);
    assert_eq!(isqrt(3), 1);
    assert_eq!(isqrt(4), 2);
    assert_eq!(isqrt(24), 4);
    assert_eq!(isqrt(25), 5);
    assert_eq!(isqrt(26), 5);
}

#[test]
fn isqrt_large_values() {
    assert_eq!(isqrt(u64::MAX), 4294967295);
    assert_eq!(isqrt(4294967295 * 4294967295), 4294967295);
    assert_eq!(isqrt(1_000_000), 1000);
    assert_eq!(isqrt(999_999), 999);
}

#[test]
fn isqrt_of_two_at_scale_matches_constant() {
    // sqrt(2) in fixed-point: the square root of 2 * SCALE * SCALE.
    assert_eq!(isqrt((2 * SCALE * SCALE) as u64), SQRT2_FIXED as u64);
}

#[test]
fn div_trunc_rounds_toward_zero() {
    assert_eq!(div_trunc(7, 2), 3);
    assert_eq!(div_trunc(-7, 2), -3);
    assert_eq!(div_trunc(7, -2), -3);
    assert_eq!(div_trunc(-7, -2), 3);
    assert_eq!(div_trunc(0, 5), 0);
    assert_eq!(div_trunc(999, 1000), 0);
    assert_eq!(div_trunc(-999, 1000), 0);
}

#[test]
fn vec_len_of_pythagorean_triple() {
    assert_eq!(vec_len(Vec2 { x: 3, y: 4 }), 5);
    assert_eq!(vec_len(Vec2 { x: -3, y: 4 }), 5);
    assert_eq!(vec_len(Vec2 { x: 3000, y: -4000 }), 5000);
    assert_eq!(vec_len(Vec2 { x: 0, y: 0 }), 0);
}

#[test]
fn vec_len_rounds_down() {
    // |(1, 1)| = 1.414..., so the fixed-point length rounds to 1.
    assert_eq!(vec_len(Vec2 { x: 1, y: 1 }), 1);
    assert_eq!(vec_len(Vec2 { x: 1000, y: 1000 }), 1414);
}

#[test]
fn distance_between_points() {
    let a = Vec2 { x: 0, y: 0 };
    let b = Vec2 { x: 3000, y: 4000 };
    assert_eq!(distance(a, b), 5000);
    assert_eq!(distance(b, a), 5000);
    assert_eq!(distance(a, a), 0);
}

#[test]
fn point_on_segment_is_detected() {
    let l0 = Vec2 { x: 0, y: 0 };
    let l1 = Vec2 { x: 10000, y: 0 };
    assert!(collision_point_line(Vec2 { x: 5000, y: 0 }, l0, l1));
    assert!(collision_point_line(l0, l0, l1));
    assert!(collision_point_line(l1, l0, l1));
}

#[test]
fn point_off_segment_is_rejected() {
    let l0 = Vec2 { x: 0, y: 0 };
    let l1 = Vec2 { x: 10000, y: 0 };
    assert!(!collision_point_line(Vec2 { x: 5000, y: 5000 }, l0, l1));
    assert!(!collision_point_line(Vec2 { x: -5000, y: 0 }, l0, l1));
}

#[test]
fn point_near_segment_respects_epsilon() {
    let l0 = Vec2 { x: 0, y: 0 };
    let l1 = Vec2 { x: 10000, y: 0 };
    // 500 off the line: endpoint distances sum to 10048, inside the slack.
    assert!(collision_point_line(Vec2 { x: 5000, y: 500 }, l0, l1));
    // 700 off the line: endpoint distances sum to 10096, outside it.
    assert!(!collision_point_line(Vec2 { x: 5000, y: 700 }, l0, l1));
}

#[test]
fn normal_of_ground_segment() {
    // The first ground segment of the demo scene, in fixed-point units.
    let v0 = Vec2 { x: 0, y: 240000 };
    let v1 = Vec2 { x: 200000, y: 300000 };
    let n = create_normal(v0, v1);
    assert_eq!(n, Vec2 { x: 287, y: -957 });
    // The normal has unit length at the fixed-point scale, rounded down.
    assert_eq!(vec_len(n), 999);
}

#[test]
fn normal_of_axis_aligned_segments() {
    // A segment running right gets a normal pointing straight up (-y).
    let n = create_normal(Vec2 { x: 0, y: 0 }, Vec2 { x: 5000, y: 0 });
    assert_eq!(n, Vec2 { x: 0, y: -1000 });
    // A segment running down gets a normal pointing right.
    let n = create_normal(Vec2 { x: 0, y: 0 }, Vec2 { x: 0, y: 5000 });
    assert_eq!(n, Vec2 { x: 1000, y: 0 });
}
