use psu_driver::measure::{
    classify_mode, parse_measurement, power_microwatts, Measurement, PsuMode,
};

#[test]
fn mode_within_band_is_constant_current() {
    // Limit 1.000 A, reading 0.960 A: inside the five-percent band.
    let m = classify_mode(true, 960_000, 1_000_000, 5, 10_000);
    assert_eq!(m, PsuMode::ConstantCurrent);
}

#[test]
fn mode_far_from_limit_is_constant_voltage() {
    let m = classify_mode(true, 500_000, 1_000_000, 5, 10_000);
    assert_eq!(m, PsuMode::ConstantVoltage);
}

#[test]
fn mode_below_noise_floor_is_constant_voltage() {
    // Reading 0.005 A sits at a tiny limit but below the 10 mA floor.
    let m = classify_mode(true, 5_000, 5_000, 5, 10_000);
    assert_eq!(m, PsuMode::ConstantVoltage);
}

#[test]
fn mode_with_output_disabled_is_off() {
    let m = classify_mode(false, 960_000, 1_000_000, 5, 10_000);
    assert_eq!(m, PsuMode::Off);
}

#[test]
fn mode_band_boundary_is_inclusive() {
    // Exactly 0.95 and 1.05 of the limit are still constant-current.
    assert_eq!(classify_mode(true, 950_000, 1_000_000, 5, 10_000), PsuMode::ConstantCurrent);
    assert_eq!(classify_mode(true, 1_050_000, 1_000_000, 5, 10_000), PsuMode::ConstantCurrent);
    assert_eq!(classify_mode(true, 949_999, 1_000_000, 5, 10_000), PsuMode::ConstantVoltage);
    assert_eq!(classify_mode(true, 1_050_001, 1_000_000, 5, 10_000), PsuMode::ConstantVoltage);
}

#[test]
fn measurement_splits_two_fields() {
    let m = parse_measurement(b"5.0000,0.2500");
    assert_eq!(m, Some(Measurement { volt_uv: 5_000_000, curr_ua: 250_000 }));
}

#[test]
fn measurement_strips_framing_glyphs() {
    let noisy = [0xC2u8, 0xAB, b'5', b'.', b'0', b',', b'1', b'.', b'0'];
    let m = parse_measurement(&noisy);
    assert_eq!(m, Some(Measurement { volt_uv: 5_000_000, curr_ua: 1_000_000 }));
}

#[test]
fn measurement_ignores_fields_past_the_second() {
    let m = parse_measurement(b"3.3, 0.1, 9.9");
    assert_eq!(m, Some(Measurement { volt_uv: 3_300_000, curr_ua: 100_000 }));
}

#[test]
fn measurement_without_separator_is_a_mismatch() {
    assert_eq!(parse_measurement(b"5.0"), None);
    assert_eq!(parse_measurement(b""), None);
}

#[test]
fn measurement_reads_malformed_fields_as_zero() {
    let m = parse_measurement(b"garbage,woes");
    assert_eq!(m, Some(Measurement { volt_uv: 0, curr_ua: 0 }));
}

#[test]
fn power_is_the_scaled_product() {
    // 5 V at 0.25 A is 1.25 W.
    assert_eq!(power_microwatts(5_000_000, 250_000), 1_250_000);
    assert_eq!(power_microwatts(-5_000_000, 250_000), -1_250_000);
    assert_eq!(power_microwatts(0, 250_000), 0);
}
