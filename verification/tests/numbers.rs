//! The scalars against the machine's own single-precision arithmetic, and the
//! geometry that is built on them.

use gameui::affine::Affine2;
use gameui::angles::{corner_angle, disc_angle, rim_half_angle, ring_angle, turn};
use gameui::geometry::{Color, Point, Rect};
use gameui::scalar::{ratio, whole, Scalar};
use std::f32::consts::{FRAC_PI_2, PI, TAU};

fn s(x: f32) -> Scalar {
    Scalar { bits: x.to_bits() }
}

fn f(x: Scalar) -> f32 {
    f32::from_bits(x.bits)
}

/// Bit patterns of every kind: zeros, subnormals, normals, infinities and NaNs,
/// then a long pseudorandom sequence.
fn samples(n: usize) -> Vec<u32> {
    let mut out = vec![
        0x0000_0000,
        0x8000_0000,
        0x0000_0001,
        0x8000_0001,
        0x007f_ffff,
        0x0080_0000,
        0x0080_0001,
        0x3380_0000,
        0x33ff_ffff,
        0x3f7f_ffff,
        0x3f80_0000,
        0x3f80_0001,
        0xbf80_0000,
        0x4000_0000,
        0x4b7f_ffff,
        0x4b80_0000,
        0x4b80_0001,
        0x7f7f_ffff,
        0xff7f_ffff,
        0x7f80_0000,
        0xff80_0000,
        0x7fc0_0000,
        0x7f80_0001,
        0xffc0_0000,
    ];
    let mut state = 0x1234_5678_9abc_def0u64;
    while out.len() < n {
        state = state.wrapping_mul(6364136223846793005).wrapping_add(1442695040888963407);
        out.push((state >> 32) as u32);
    }
    out
}

fn assert_same(op: &str, a: u32, b: u32, got: Scalar, want: f32) {
    if want.is_nan() {
        assert!(got.is_nan(), "{op}({a:#x}, {b:#x}) = {:#x}, not a NaN", got.bits);
    } else {
        assert_eq!(got.bits, want.to_bits(), "{op}({a:#x}, {b:#x})");
    }
}

/// Numbers near each other, so that sums cancel and products meet their edges.
fn partner(a: u32, i: u32) -> u32 {
    match i % 4 {
        0 => a ^ 0x8000_0000,
        1 => (a ^ 0x8000_0000).wrapping_add(i),
        2 => a.wrapping_sub(i << 20),
        _ => 0x3f80_0000 ^ i,
    }
}

#[test]
fn sums_and_differences_are_the_machines() {
    let v = samples(300);
    for &a in &v {
        for &b in &v {
            let (x, y) = (f32::from_bits(a), f32::from_bits(b));
            assert_same("+", a, b, s(x).plus(s(y)), x + y);
            assert_same("-", a, b, s(x).minus(s(y)), x - y);
        }
    }
    for (i, &a) in samples(20000).iter().enumerate() {
        let b = partner(a, i as u32);
        let (x, y) = (f32::from_bits(a), f32::from_bits(b));
        assert_same("+", a, b, s(x).plus(s(y)), x + y);
    }
}

#[test]
fn products_and_quotients_are_the_machines() {
    let v = samples(300);
    for &a in &v {
        for &b in &v {
            let (x, y) = (f32::from_bits(a), f32::from_bits(b));
            assert_same("*", a, b, s(x).times(s(y)), x * y);
            assert_same("/", a, b, s(x).over(s(y)), x / y);
        }
    }
    for (i, &a) in samples(20000).iter().enumerate() {
        let b = partner(a, i as u32);
        let (x, y) = (f32::from_bits(a), f32::from_bits(b));
        assert_same("*", a, b, s(x).times(s(y)), x * y);
        assert_same("/", a, b, s(x).over(s(y)), x / y);
    }
}

#[test]
fn roots_are_the_machines() {
    for &a in &samples(20000) {
        let x = f32::from_bits(a);
        assert_same("sqrt", a, a, s(x).sqrt(), x.sqrt());
    }
}

#[test]
fn comparisons_are_the_machines() {
    let v = samples(300);
    for &a in &v {
        for &b in &v {
            let (x, y) = (f32::from_bits(a), f32::from_bits(b));
            assert_eq!(s(x).lt(s(y)), x < y);
            assert_eq!(s(x).le(s(y)), x <= y);
            assert_eq!(s(x).same(s(y)), x == y);
            if x != y {
                assert_same("min", a, b, s(x).at_most(s(y)), x.min(y));
                assert_same("max", a, b, s(x).at_least(s(y)), x.max(y));
            }
        }
    }
}

#[test]
fn single_number_operations_are_the_machines() {
    for &a in &samples(20000) {
        let x = f32::from_bits(a);
        assert_eq!(s(x).is_nan(), x.is_nan());
        assert_eq!(s(x).is_finite(), x.is_finite());
        assert_eq!(s(x).is_infinite(), x.is_infinite());
        assert_same("ceil", a, a, s(x).ceil(), x.ceil());
        assert_same("abs", a, a, s(x).size(), x.abs());
        assert_same("rem_euclid", a, a, s(x).wrapped(), x.rem_euclid(1.0));
        assert_same("neg", a, a, s(x).negate(), -x);
        assert_eq!(s(x).truncated(u64::MAX), x as u64);
        assert_eq!(s(x).truncated(64), (x as u64).min(64));
        assert_eq!(s(x).ceiled(64), (x.ceil() as u64).min(64));
        assert_eq!(s(x).nearest_byte(), x.round() as u8);
        assert_same("clamp", a, a, s(x).clamped(s(-1.5), s(7.0)), x.clamp(-1.5, 7.0));
    }
}

#[test]
fn small_numbers_round_to_bytes_as_the_machines() {
    for i in 0..2600u32 {
        let x = i as f32 / 10.0 - 2.0;
        assert_eq!(s(x).nearest_byte(), x.round() as u8, "{x}");
        assert_eq!(s(x).truncated(u64::MAX), x as u64, "{x}");
    }
}

#[test]
fn literals_are_the_machines() {
    for n in [0u64, 1, 2, 7, 255, 16_777_215, 16_777_216, 16_777_217, 123_456_789, u64::MAX] {
        assert_eq!(whole(n).bits, (n as f32).to_bits());
    }
    assert_eq!(f(ratio(1, 10)), 0.1);
    assert_eq!(f(ratio(35, 100)), 0.35);
    assert_eq!(f(ratio(1647, 10000)), 0.1647);
    assert_eq!(f(ratio(12, 100)), 0.12);
    assert_eq!(f(ratio(1, 1_000_000)), 1e-6);
    for a in 0..=200u64 {
        assert_eq!(ratio(a, 100).bits, format!("{}.{:02}", a / 100, a % 100).parse::<f32>().expect("a number").to_bits());
    }
}

#[test]
fn whole_numbers_add_exactly() {
    for a in [0u64, 1, 1000, 8_388_607] {
        for b in [0u64, 3, 8_388_608] {
            assert_eq!(whole(a).plus(whole(b)), whole(a + b));
        }
    }
    assert_eq!(s(0.3).plus(s(0.7)), s(0.7).plus(s(0.3)));
    assert_eq!(s(0.3).minus(s(0.3)), whole(0));
    assert_eq!(s(0.3).times(whole(1)), s(0.3));
    assert!(s(0.3).le(s(0.3).plus(s(1e-20))));
}

fn rc(x: f32, y: f32, w: f32, h: f32) -> Rect {
    Rect { x: s(x), y: s(y), width: s(w), height: s(h) }
}

#[test]
fn rectangles_contain_their_near_edges_only() {
    let r = rc(10.0, 20.0, 30.0, 40.0);
    assert!(r.contains(s(10.0), s(20.0)));
    assert!(!r.contains(s(40.0), s(20.0)));
    assert!(!r.contains(s(10.0), s(60.0)));
    assert!(!rc(10.0, 20.0, 0.0, 40.0).contains(s(10.0), s(20.0)));
    assert_eq!(f(r.right()), 40.0);
    assert_eq!(f(r.bottom()), 60.0);
    assert_eq!(r.inset(s(5.0)), rc(15.0, 25.0, 20.0, 30.0));
    assert_eq!(r.inset(s(50.0)), rc(60.0, 70.0, 0.0, 0.0));
}

#[test]
fn rectangles_meet_in_their_common_part() {
    let a = rc(0.0, 0.0, 10.0, 10.0);
    assert_eq!(a.intersection(rc(5.0, 6.0, 10.0, 10.0)), Some(rc(5.0, 6.0, 5.0, 4.0)));
    assert_eq!(a.intersection(rc(20.0, 0.0, 5.0, 5.0)), None);
}

#[test]
fn transforms_apply_from_the_inside_out() {
    let t = Affine2::translation(s(10.0), s(20.0)).compose(Affine2::scaling(s(2.0), s(3.0)));
    let p = t.apply(Point { x: s(1.0), y: s(1.0) });
    assert_eq!((f(p.x), f(p.y)), (12.0, 23.0));
    assert!(!t.is_translate_only());
    assert!(Affine2::translation(s(1.0), s(2.0)).is_translate_only());
    let quarter = Affine2::rotation(s(0.0), s(1.0));
    let q = quarter.apply(Point { x: s(1.0), y: s(0.0) });
    assert_eq!((f(q.x), f(q.y)), (0.0, 1.0));
    assert_eq!(f(Affine2::scaling(s(2.0), s(2.0)).uniform_scale()), 2.0);
    assert_eq!(quarter.aabb(rc(0.0, 0.0, 4.0, 2.0)), rc(-2.0, 0.0, 2.0, 4.0));
}

#[test]
fn colors_mix_and_multiply() {
    let a = Color::new(s(0.0), s(0.5), s(1.0), s(1.0));
    let b = Color::new(s(1.0), s(0.5), s(0.0), s(0.0));
    let m = a.mix(b, s(0.25));
    assert_eq!([f(m.r), f(m.g), f(m.b), f(m.a)], [0.25, 0.5, 0.75, 0.75]);
    let t = a.times(b);
    assert_eq!([f(t.r), f(t.g), f(t.b), f(t.a)], [0.0, 0.25, 0.0, 0.0]);
    assert_eq!(f(a.with_alpha(s(0.5)).a), 0.5);
}

#[test]
fn angles_are_the_machines() {
    let spans = [(PI, PI * 1.5), (PI * 1.5, TAU), (0.0, FRAC_PI_2), (FRAC_PI_2, PI)];
    for (corner, (start, end)) in spans.iter().enumerate() {
        for i in 0..=8u64 {
            let a = start + (end - start) * (i as f32 / 8.0);
            assert_eq!(f(corner_angle(corner as u64, i)), a);
        }
    }
    for n in 16..=64u64 {
        assert_eq!(f(rim_half_angle(n)), PI / n as f32);
        for i in 0..=n {
            assert_eq!(f(disc_angle(n, i)), TAU * i as f32 / n as f32);
            assert_eq!(f(ring_angle(n, i)), 0.0 + (TAU - 0.0) * (i as f32 / n as f32));
        }
    }
    assert_eq!(f(turn(s(0.3))), 2.0 * PI * 0.3);
}
