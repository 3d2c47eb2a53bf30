use sculptfield::mathx::{wrap_coord, isqrt, clamp64};
use sculptfield::sdf::{SDF, EditKind};

#[test]
fn wrap_stays_in_window() {
    // For many coordinates the wrapped value lies in [-w/2, w/2).
    let w = 256i64;
    let coords = [0i64, 1, -1, 127, 128, 129, -127, -128, -129, 255, 256, 300, -300, 100000, -100000];
    for &p in coords.iter() {
        let r = wrap_coord(p, w);
        assert!(-128 <= r && r < 128);
        // Idempotence: wrapping a wrapped value changes nothing.
        assert_eq!(wrap_coord(r, w), r);
        // Congruence: the result differs from the input by a multiple of w.
        assert_eq!((p - r) % w, 0);
    }
}

#[test]
fn wrap_exact_values() {
    assert_eq!(wrap_coord(300, 256), 44);
    assert_eq!(wrap_coord(-129, 256), 127);
    assert_eq!(wrap_coord(128, 256), -128);
    assert_eq!(wrap_coord(127, 256), 127);
    assert_eq!(wrap_coord(0, 256), 0);
}

#[test]
fn isqrt_exact_values() {
    assert_eq!(isqrt(0), 0);
    assert_eq!(isqrt(1), 1);
    assert_eq!(isqrt(3), 1);
    assert_eq!(isqrt(4), 2);
    assert_eq!(isqrt(15), 3);
    assert_eq!(isqrt(16), 4);
    assert_eq!(isqrt(8192), 90);
    assert_eq!(isqrt(1 << 40), 1 << 20);
}

#[test]
fn clamp_exact_values() {
    assert_eq!(clamp64(5, 0, 10), 5);
    assert_eq!(clamp64(-5, 0, 10), 0);
    assert_eq!(clamp64(15, 0, 10), 10);
}

#[test]
fn field_starts_solid_above_diagonal() {
    let sdf = SDF::new(64, 64);
    // The initial value is one above the floor of the diagonal of 64x64.
    assert_eq!(sdf.sample(0, 0), 91);
    assert_eq!(sdf.sample(31, -32), 91);
    // Sampling wraps: one world away is the same texel.
    assert_eq!(sdf.sample(64, 64), sdf.sample(0, 0));
}

#[test]
fn carve_and_verify() {
    // Start uniform solid, carve at the origin, and check the cavity and
    // the untouched far texels.
    let mut sdf = SDF::new(64, 64);
    sdf.add(0, 0, 40); // radius 10, smoothness margin 10
    assert!(sdf.sample(0, 0) <= 0);
    assert_eq!(sdf.sample(0, 0), -10);
    // Distance 42 from the stamp: far outside its reach of 20, unchanged.
    assert_eq!(sdf.sample(30, 30), 91);
    // Distance 15: inside the reach, lowered to dist - radius.
    assert_eq!(sdf.sample(15, 0), 5);
}

#[test]
fn edit_monotonicity() {
    let mut sdf = SDF::new(64, 64);
    sdf.add(0, 0, 40);
    let carved: Vec<i64> = (0..16).map(|i| sdf.sample(i, 0)).collect();
    let before: Vec<i64> = (0..16).map(|_| 91i64).collect();
    for i in 0..16 {
        assert!(carved[i] <= before[i]);
    }
    sdf.subtract(0, 0, 40);
    for i in 0..16i64 {
        assert!(sdf.sample(i, 0) >= carved[i as usize]);
    }
}

#[test]
fn edit_round_trip() {
    let mut sdf = SDF::new(64, 64);
    sdf.add(7, -3, 24); // radius 6, reach 12
    let v15 = sdf.sample(7 + 9, -3); // dist 9, within reach
    assert_eq!(v15, 3);
    sdf.subtract(7, -3, 24);
    // Within the reach the round trip clamps to the stamp band; at dist 9
    // with radius 6 the band is [-3, 3] and the carved value 3 stays.
    assert_eq!(sdf.sample(7 + 9, -3), 3);
    // At the stamp center the fill leaves the radius.
    assert_eq!(sdf.sample(7, -3), 6);
    // Outside the reach everything is exactly restored.
    assert_eq!(sdf.sample(7 + 30, -3), 91);
    assert_eq!(sdf.sample(7, -3 + 25), 91);
}

#[test]
fn edit_dispatch_and_ping_pong() {
    let mut sdf = SDF::new(64, 64);
    assert_eq!(sdf.texture_index, 0);
    sdf.edit(EditKind::Add, 0, 0, 40);
    assert_eq!(sdf.texture_index, 1);
    sdf.edit(EditKind::Subtract, 0, 0, 40);
    assert_eq!(sdf.texture_index, 0);
    // The idle buffer still holds the previous state.
    assert_eq!(sdf.tex1[32 * 64 + 32], -10);
}
