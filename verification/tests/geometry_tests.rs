use tag_simulator::geometry::{clip, isqrt, stride};

#[test]
fn clip_keeps_values_on_the_field() {
    assert_eq!(clip(-5, 10), 0);
    assert_eq!(clip(5, 10), 5);
    assert_eq!(clip(15, 10), 10);
    assert_eq!(clip(15, -1), 0);
}

#[test]
fn isqrt_rounds_down() {
    assert_eq!(isqrt(0), 0);
    assert_eq!(isqrt(1), 1);
    assert_eq!(isqrt(500_000), 707);
    assert_eq!(isqrt(u128::MAX), u64::MAX);
}

#[test]
fn stride_along_the_diagonal() {
    assert_eq!(stride(1000, 2000, 2000), 707);
    assert_eq!(stride(1000, -2000, 2000), 707);
    assert_eq!(stride(1000, 3, 0), 1000);
    assert_eq!(stride(1000, 0, 3), 0);
}
