use wireguard_vanity::matcher::Matcher;
use wireguard_vanity::output::{dec_string, format_match_line, format_rate};
use wireguard_vanity::rate::{compute_rate, measure_rate, RATE_SCALE, SAMPLE_ATTEMPTS};

#[test]
fn zero_elapsed_does_not_divide() {
    let r = compute_rate(1000, 0);
    assert_eq!(r, 1000u128 * RATE_SCALE);
}

#[test]
fn rate_formula_is_exact() {
    // 5 attempts in 2 seconds: 2.5 keys/s, in nano-keys per second
    let r = compute_rate(5, 2_000_000_000);
    assert_eq!(r, 2_500_000_000);
}

#[test]
fn zero_attempts_give_zero_rate() {
    assert_eq!(compute_rate(0, 12345), 0);
}

#[test]
fn measured_rate_is_bounded() {
    let m = Matcher::new("x").ok().unwrap();
    let r = measure_rate(&m);
    assert!(r <= SAMPLE_ATTEMPTS as u128 * RATE_SCALE);
}

#[test]
fn decimal_rendering() {
    assert_eq!(dec_string(0), b"0".to_vec());
    assert_eq!(dec_string(7), b"7".to_vec());
    assert_eq!(dec_string(120034), b"120034".to_vec());
}

#[test]
fn rate_rendering_scales() {
    assert_eq!(format_rate(5_000_000_000_000_000_000), b"5.00e9 keys/s".to_vec());
    assert_eq!(format_rate(5_000_000_000_000_000), b"5.00e6 keys/s".to_vec());
    assert_eq!(format_rate(2_500_000_000_000), b"2.50e3 keys/s".to_vec());
    assert_eq!(format_rate(12_340_000_000), b"12.34 keys/s".to_vec());
    assert_eq!(format_rate(500_000_000), b"500.00e-3 keys/s".to_vec());
    assert_eq!(format_rate(500_000), b"500.00e-6 keys/s".to_vec());
    assert_eq!(format_rate(2), b"2.00e-9 keys/s".to_vec());
    assert_eq!(format_rate(1), b"1000.000e-12 keys/s".to_vec());
    assert_eq!(format_rate(0), b"0.000e-12 keys/s".to_vec());
}

#[test]
fn match_line_is_one_exact_line() {
    let l = format_match_line(&b"AB".to_vec(), &b"CD".to_vec());
    assert_eq!(l, b"public AB  private CD\n".to_vec());
}
