use voxmux::fbits::clamped_volume;
use voxmux::fbits::sample_add;
use voxmux::fbits::sample_max;
use voxmux::fbits::sample_min;
use voxmux::fbits::sample_mul;
use voxmux::fbits::sample_neg;
use voxmux::fbits::sample_sub;

fn check_add(a: f32, b: f32) {
    let got = sample_add(a.to_bits(), b.to_bits());
    let want = (a + b).to_bits();
    assert_eq!(
        got, want,
        "add {a} + {b}: got {:#010x}, want {:#010x}",
        got, want
    );
}

fn check_mul(a: f32, b: f32) {
    let got = sample_mul(a.to_bits(), b.to_bits());
    let want = (a * b).to_bits();
    assert_eq!(
        got, want,
        "mul {a} * {b}: got {:#010x}, want {:#010x}",
        got, want
    );
}

#[test]
fn test_sample_add_matches_hardware() {
    let values = [
        0.0f32, -0.0, 1.0, -1.0, 0.5, 0.25, 0.05, 0.1, 0.2, 0.3, 0.75, 2.5, 1e-6, -1e-6, 1e20,
        -1e20, 3.4e38, 1.1754944e-38, 1e-40, 123.456, -98.7654, 0.001, 1e-44,
    ];
    for &a in &values {
        for &b in &values {
            check_add(a, b);
            check_mul(a, b);
        }
    }
}

#[test]
fn test_sample_add_exact_cases() {
    assert_eq!(sample_add(0.5f32.to_bits(), 0.05f32.to_bits()), 0.55f32.to_bits());
    assert_eq!(sample_add(0.2f32.to_bits(), 0.3f32.to_bits()), 0.5f32.to_bits());
    assert_eq!(sample_add(0.3f32.to_bits(), 0.4f32.to_bits()), (0.3f32 + 0.4f32).to_bits());
    assert_eq!(sample_mul(1.0f32.to_bits(), 0.5f32.to_bits()), 0.5f32.to_bits());
}

#[test]
fn test_sample_specials() {
    let inf = f32::INFINITY.to_bits();
    let ninf = f32::NEG_INFINITY.to_bits();
    // inf + -inf and inf * 0 have no numeric value
    assert!(f32::from_bits(sample_add(inf, ninf)).is_nan());
    assert!(f32::from_bits(sample_mul(inf, 0.0f32.to_bits())).is_nan());
    // inf propagates
    assert_eq!(sample_add(inf, 1.0f32.to_bits()), inf);
    assert_eq!(sample_mul(ninf, 2.0f32.to_bits()), ninf);
    // NaN propagates as the canonical quiet NaN
    assert!(f32::from_bits(sample_add(f32::NAN.to_bits(), 1.0f32.to_bits())).is_nan());
    // signed zeros
    assert_eq!(sample_add(0.0f32.to_bits(), (-0.0f32).to_bits()), 0.0f32.to_bits());
    assert_eq!(
        sample_add((-0.0f32).to_bits(), (-0.0f32).to_bits()),
        (-0.0f32).to_bits()
    );
    // exact cancellation gives positive zero
    assert_eq!(sample_add(1.5f32.to_bits(), (-1.5f32).to_bits()), 0.0f32.to_bits());
}

#[test]
fn test_sample_sub_and_neg() {
    assert_eq!(sample_neg(1.0f32.to_bits()), (-1.0f32).to_bits());
    assert_eq!(
        sample_sub(0.5f32.to_bits(), 0.05f32.to_bits()),
        (0.5f32 - 0.05f32).to_bits()
    );
    assert_eq!(
        sample_sub(0.2f32.to_bits(), 0.7f32.to_bits()),
        (0.2f32 - 0.7f32).to_bits()
    );
}

#[test]
fn test_sample_min_max() {
    assert_eq!(sample_min(0.55f32.to_bits(), 1.0f32.to_bits()), 0.55f32.to_bits());
    assert_eq!(sample_min(1.2f32.to_bits(), 1.0f32.to_bits()), 1.0f32.to_bits());
    assert_eq!(sample_max((-0.1f32).to_bits(), 0.0f32.to_bits()), 0.0f32.to_bits());
    assert_eq!(sample_max(0.45f32.to_bits(), 0.0f32.to_bits()), 0.45f32.to_bits());
    // a NaN argument yields the other argument
    assert_eq!(sample_min(f32::NAN.to_bits(), 1.0f32.to_bits()), 1.0f32.to_bits());
    assert_eq!(sample_max(f32::NAN.to_bits(), 0.0f32.to_bits()), 0.0f32.to_bits());
}

#[test]
fn test_clamped_volume() {
    // a negative requested volume reads as silence
    assert_eq!(clamped_volume((-1.0f32).to_bits()), 0.0f32.to_bits());
    assert_eq!(clamped_volume((-0.0f32).to_bits()), 0.0f32.to_bits());
    assert_eq!(clamped_volume(f32::NAN.to_bits()), 0.0f32.to_bits());
    // zero and above pass through; gain above 1.0 is allowed
    assert_eq!(clamped_volume(0.0f32.to_bits()), 0.0f32.to_bits());
    assert_eq!(clamped_volume(0.8f32.to_bits()), 0.8f32.to_bits());
    assert_eq!(clamped_volume(2.5f32.to_bits()), 2.5f32.to_bits());
}
