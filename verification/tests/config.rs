use ballistic_solver::cli::{build, parse, ConfigError, ConfigField, DragModel, RawConfig};
use ballistic_solver::num::{centi_of_milli, parse_decimal};

fn raw_ok() -> RawConfig {
    RawConfig {
        velocity: Some("2785".to_string()),
        grains: Some("140".to_string()),
        caliber: Some("0.264".to_string()),
        bc: Some("0.305".to_string()),
        bc_type: Some("G7".to_string()),
        scope_height: Some("1.5".to_string()),
        wind_speed: Some("5".to_string()),
        wind_angle: Some("-45".to_string()),
        zero_wind_speed: Some("0".to_string()),
        zero_wind_angle: Some("0".to_string()),
        temperature: Some("68".to_string()),
        pressure: Some("29.92".to_string()),
        humidity: Some("0.5".to_string()),
        zero_temperature: Some("68".to_string()),
        zero_pressure: Some("29.92".to_string()),
        zero_humidity: Some("0.5".to_string()),
        lattitude: Some("45".to_string()),
        bearing: Some("0".to_string()),
        shot_angle: Some("0".to_string()),
        zero_lattitude: Some("45".to_string()),
        zero_bearing: Some("0".to_string()),
        zero_shot_angle: Some("0".to_string()),
        zero_distance: Some("200".to_string()),
        zero_elevation_offset: Some("0".to_string()),
        zero_windage_offset: Some("-0.5".to_string()),
        zero_tolerance: Some("0.001".to_string()),
        pitch_offset: Some("0".to_string()),
        yaw_offset: Some("0".to_string()),
        table_start: Some("100".to_string()),
        table_end: Some("1000".to_string()),
        table_step: Some("100".to_string()),
        table_tolerance: Some("0.25".to_string()),
        time_step: Some("0.001".to_string()),
        flat: false,
        pretty: true,
    }
}

#[test]
fn build_accepts_a_full_configuration() {
    let c = build(&raw_ok()).expect("well-formed configuration");
    assert_eq!(c.velocity, 2_785_000);
    assert_eq!(c.grains, 140_000);
    assert_eq!(c.caliber, 264);
    assert_eq!(c.bc, 305);
    assert_eq!(c.bc_type, DragModel::G7);
    assert_eq!(c.scope_height, 1_500);
    assert_eq!(c.wind_angle, -45_000);
    assert_eq!(c.pressure, 29_920);
    assert_eq!(c.humidity, 500);
    assert_eq!(c.zero_windage_offset, -500);
    assert_eq!(c.table_start, 100_000);
    assert_eq!(c.table_end, 1_000_000);
    assert_eq!(c.table_tolerance, 250);
    assert_eq!(c.time_step, 1);
    assert!(!c.flat);
    assert!(c.pretty);
}

#[test]
fn zero_velocity_is_rejected() {
    let mut raw = raw_ok();
    raw.velocity = Some("0".to_string());
    assert_eq!(
        build(&raw),
        Err(ConfigError::OutOfRange(ConfigField::Velocity))
    );
}

#[test]
fn negative_velocity_text_is_rejected_as_malformed() {
    // velocity does not admit a leading sign in its external representation
    let mut raw = raw_ok();
    raw.velocity = Some("-100".to_string());
    assert_eq!(
        build(&raw),
        Err(ConfigError::Malformed(ConfigField::Velocity))
    );
}

#[test]
fn excess_humidity_is_rejected() {
    let mut raw = raw_ok();
    raw.humidity = Some("1.5".to_string());
    assert_eq!(
        build(&raw),
        Err(ConfigError::OutOfRange(ConfigField::Humidity))
    );
}

#[test]
fn table_end_before_table_start_is_rejected() {
    let mut raw = raw_ok();
    raw.table_end = Some("50".to_string());
    assert_eq!(
        build(&raw),
        Err(ConfigError::OutOfRange(ConfigField::TableEnd))
    );
}

#[test]
fn missing_field_is_rejected() {
    let mut raw = raw_ok();
    raw.grains = None;
    assert_eq!(build(&raw), Err(ConfigError::Missing(ConfigField::Grains)));
}

#[test]
fn unknown_drag_model_is_rejected() {
    let mut raw = raw_ok();
    raw.bc_type = Some("G9".to_string());
    assert_eq!(build(&raw), Err(ConfigError::Malformed(ConfigField::BcType)));
}

#[test]
fn every_drag_model_tag_is_accepted() {
    for (tag, model) in [
        ("G1", DragModel::G1),
        ("G2", DragModel::G2),
        ("G5", DragModel::G5),
        ("G6", DragModel::G6),
        ("G7", DragModel::G7),
        ("G8", DragModel::G8),
        ("GI", DragModel::GI),
        ("GS", DragModel::GS),
    ] {
        let mut raw = raw_ok();
        raw.bc_type = Some(tag.to_string());
        assert_eq!(build(&raw).expect("accepted").bc_type, model);
    }
}

#[test]
fn zero_time_step_is_rejected() {
    let mut raw = raw_ok();
    raw.time_step = Some("0".to_string());
    assert_eq!(
        build(&raw),
        Err(ConfigError::OutOfRange(ConfigField::TimeStep))
    );
}

#[test]
fn zero_table_step_is_rejected() {
    let mut raw = raw_ok();
    raw.table_step = Some("0".to_string());
    assert_eq!(
        build(&raw),
        Err(ConfigError::OutOfRange(ConfigField::TableStep))
    );
}

#[test]
fn excess_zero_humidity_is_rejected() {
    let mut raw = raw_ok();
    raw.zero_humidity = Some("2".to_string());
    assert_eq!(
        build(&raw),
        Err(ConfigError::OutOfRange(ConfigField::ZeroHumidity))
    );
}

#[test]
fn zero_caliber_and_zero_bc_are_rejected() {
    let mut raw = raw_ok();
    raw.caliber = Some("0".to_string());
    assert_eq!(
        build(&raw),
        Err(ConfigError::OutOfRange(ConfigField::Caliber))
    );
    let mut raw = raw_ok();
    raw.bc = Some("0".to_string());
    assert_eq!(build(&raw), Err(ConfigError::OutOfRange(ConfigField::Bc)));
}

#[test]
fn first_failure_in_declaration_order_wins() {
    // a malformed early field masks a later invariant violation
    let mut raw = raw_ok();
    raw.velocity = Some("abc".to_string());
    raw.humidity = Some("1.5".to_string());
    assert_eq!(
        build(&raw),
        Err(ConfigError::Malformed(ConfigField::Velocity))
    );
    // two invariant violations: the earlier one is reported
    let mut raw = raw_ok();
    raw.velocity = Some("0".to_string());
    raw.humidity = Some("1.5".to_string());
    assert_eq!(
        build(&raw),
        Err(ConfigError::OutOfRange(ConfigField::Velocity))
    );
}

#[test]
fn decimal_parse_exact_values() {
    assert_eq!(parse_decimal("3.14", false), Some(3_140));
    assert_eq!(parse_decimal("-0.5", true), Some(-500));
    assert_eq!(parse_decimal("+2", false), Some(2_000));
    assert_eq!(parse_decimal("1.", false), Some(1_000));
    assert_eq!(parse_decimal(".5", false), Some(500));
    assert_eq!(parse_decimal("0.05", false), Some(50));
    assert_eq!(parse_decimal("29.92", true), Some(29_920));
    assert_eq!(parse_decimal("999999999999999", false), Some(999_999_999_999_999_000));
}

#[test]
fn decimal_parse_rejections() {
    assert_eq!(parse_decimal("", false), None);
    assert_eq!(parse_decimal("-0.5", false), None);
    assert_eq!(parse_decimal("1.2345", false), None);
    assert_eq!(parse_decimal("12a", false), None);
    assert_eq!(parse_decimal("1e3", false), None);
    assert_eq!(parse_decimal(".", false), None);
    assert_eq!(parse_decimal("-", true), None);
    assert_eq!(parse_decimal("1234567890123456", false), None);
    assert_eq!(parse_decimal("1.2.3", false), None);
}

#[test]
fn tolerance_scale_conversion_rounds_half_away_from_zero() {
    assert_eq!(centi_of_milli(250), 25);
    assert_eq!(centi_of_milli(244), 24);
    assert_eq!(centi_of_milli(245), 25);
    assert_eq!(centi_of_milli(-245), -25);
    assert_eq!(centi_of_milli(-244), -24);
    assert_eq!(centi_of_milli(0), 0);
    assert_eq!(centi_of_milli(1000), 100);
}

#[test]
fn flag_table_declares_the_surface() {
    let flags = parse();
    assert_eq!(flags.len(), 35);
    assert_eq!(flags[0].name, "flat");
    assert!(!flags[0].takes_value);
    assert_eq!(flags[1].name, "pretty");
    assert!(!flags[1].takes_value);
    assert_eq!(flags[2].name, "velocity");
    assert!(flags[2].takes_value);
    assert!(!flags[2].allow_negative);
    assert_eq!(flags[7].name, "scope-height");
    assert!(flags[7].allow_negative);
    assert_eq!(flags[34].name, "time-step");
    assert!(flags[34].takes_value);
    // every value-taking flag name is distinct
    for i in 0..flags.len() {
        for j in 0..i {
            assert_ne!(flags[i].name, flags[j].name);
        }
    }
}
