use audio_visualizer::math::isqrt;

#[test]
fn isqrt_small_values() {
    assert_eq!(isqrt(0), 0);
    assert_eq!(isqrt(1), 1);
    assert_eq!(isqrt(2), 1);
    assert_eq!(isqrt(3), 1);
    assert_eq!(isqrt(4), 2);
    assert_eq!(isqrt(8), 2);
    assert_eq!(isqrt(9), 3);
}

#[test]
fn isqrt_large_values() {
    assert_eq!(isqrt(999_999), 999);
    assert_eq!(isqrt(1_000_000), 1000);
    assert_eq!(isqrt(1_000_000_000_000), 1_000_000);
    assert_eq!(isqrt(u64::MAX), 4_294_967_295);
    assert_eq!(isqrt(4_294_967_295u64 * 4_294_967_295u64), 4_294_967_295);
}

#[test]
fn isqrt_matches_float_sqrt() {
    for x in [10u64, 123, 5000, 250_000, 123_456_789] {
        let expected = (x as f64).sqrt().floor() as u64;
        assert_eq!(isqrt(x), expected);
    }
}
