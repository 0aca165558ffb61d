//! The configuration schema: the command-line surface of the range-table
//! program, and the parsing and validation that turn raw flag values into a
//! typed, checked configuration aggregate.
//!
//! Every physical input the external trajectory simulator needs is a named
//! flag carrying a decimal value; the value is parsed into thousandths of its
//! display unit (`crate::num`). Two presence-only switches select the flat
//! drag simplification and the bordered table layout.

use crate::num::{dec_parses, dec_val};
use vstd::prelude::*;

verus! {

/// The drag-coefficient model a ballistic coefficient refers to.
#[derive(Clone, Copy, PartialEq, Eq, Structural, Debug)]
pub enum DragModel {
    G1,
    G2,
    G5,
    G6,
    G7,
    G8,
    GI,
    GS,
}

/// The configuration fields a value-taking flag supplies.
#[derive(Clone, Copy, PartialEq, Eq, Structural, Debug)]
pub enum ConfigField {
    Velocity,
    Grains,
    Caliber,
    Bc,
    BcType,
    ScopeHeight,
    WindSpeed,
    WindAngle,
    ZeroWindSpeed,
    ZeroWindAngle,
    Temperature,
    Pressure,
    Humidity,
    ZeroTemperature,
    ZeroPressure,
    ZeroHumidity,
    Lattitude,
    Bearing,
    ShotAngle,
    ZeroLattitude,
    ZeroBearing,
    ZeroShotAngle,
    ZeroDistance,
    ZeroElevationOffset,
    ZeroWindageOffset,
    ZeroTolerance,
    PitchOffset,
    YawOffset,
    TableStart,
    TableEnd,
    TableStep,
    TableTolerance,
    TimeStep,
}

/// A configuration failure, identifying the field at fault: the flag was
/// absent, its value did not parse into its declared quantity, or a validated
/// invariant was violated.
#[derive(Clone, Copy, PartialEq, Eq, Structural, Debug)]
pub enum ConfigError {
    Missing(ConfigField),
    Malformed(ConfigField),
    OutOfRange(ConfigField),
}

/// The raw external inputs: one optional text value per value-taking flag,
/// in declaration order, and the two presence-only switches.
#[derive(Debug)]
pub struct RawConfig {
    pub velocity: Option<String>,
    pub grains: Option<String>,
    pub caliber: Option<String>,
    pub bc: Option<String>,
    pub bc_type: Option<String>,
    pub scope_height: Option<String>,
    pub wind_speed: Option<String>,
    pub wind_angle: Option<String>,
    pub zero_wind_speed: Option<String>,
    pub zero_wind_angle: Option<String>,
    pub temperature: Option<String>,
    pub pressure: Option<String>,
    pub humidity: Option<String>,
    pub zero_temperature: Option<String>,
    pub zero_pressure: Option<String>,
    pub zero_humidity: Option<String>,
    pub lattitude: Option<String>,
    pub bearing: Option<String>,
    pub shot_angle: Option<String>,
    pub zero_lattitude: Option<String>,
    pub zero_bearing: Option<String>,
    pub zero_shot_angle: Option<String>,
    pub zero_distance: Option<String>,
    pub zero_elevation_offset: Option<String>,
    pub zero_windage_offset: Option<String>,
    pub zero_tolerance: Option<String>,
    pub pitch_offset: Option<String>,
    pub yaw_offset: Option<String>,
    pub table_start: Option<String>,
    pub table_end: Option<String>,
    pub table_step: Option<String>,
    pub table_tolerance: Option<String>,
    pub time_step: Option<String>,
    pub flat: bool,
    pub pretty: bool,
}

/// The typed configuration aggregate, immutable once built. Numeric fields
/// are in thousandths of the unit the matching flag declares (feet per
/// second, grains, inches, decimal degrees, miles per hour, degrees
/// Fahrenheit, inches of mercury, a humidity fraction, yards, minutes of
/// angle, seconds).
#[derive(Clone, Copy, PartialEq, Eq, Structural, Debug)]
pub struct Config {
    pub velocity: i64,
    pub grains: i64,
    pub caliber: i64,
    pub bc: i64,
    pub bc_type: DragModel,
    pub scope_height: i64,
    pub wind_speed: i64,
    pub wind_angle: i64,
    pub zero_wind_speed: i64,
    pub zero_wind_angle: i64,
    pub temperature: i64,
    pub pressure: i64,
    pub humidity: i64,
    pub zero_temperature: i64,
    pub zero_pressure: i64,
    pub zero_humidity: i64,
    pub lattitude: i64,
    pub bearing: i64,
    pub shot_angle: i64,
    pub zero_lattitude: i64,
    pub zero_bearing: i64,
    pub zero_shot_angle: i64,
    pub zero_distance: i64,
    pub zero_elevation_offset: i64,
    pub zero_windage_offset: i64,
    pub zero_tolerance: i64,
    pub pitch_offset: i64,
    pub yaw_offset: i64,
    pub table_start: i64,
    pub table_end: i64,
    pub table_step: i64,
    pub table_tolerance: i64,
    pub time_step: i64,
    pub flat: bool,
    pub pretty: bool,
}

/// One command-line flag of the configuration surface. A value-taking flag
/// is required and supplies one field of `RawConfig`; the two switches
/// (`flat`, `pretty`) are presence-only. `allow_negative` marks the flags
/// whose external representation admits a leading sign.
pub struct FlagSpec {
    pub name: &'static str,
    pub takes_value: bool,
    pub allow_negative: bool,
}

/// Name of the flag at a position of the declaration order.
pub open spec fn flag_name(i: int) -> Seq<char> {
    if i == 0 {
        "flat"@
    } else if i == 1 {
        "pretty"@
    } else if i == 2 {
        "velocity"@
    } else if i == 3 {
        "grains"@
    } else if i == 4 {
        "caliber"@
    } else if i == 5 {
        "bc"@
    } else if i == 6 {
        "bc-type"@
    } else if i == 7 {
        "scope-height"@
    } else if i == 8 {
        "wind-speed"@
    } else if i == 9 {
        "wind-angle"@
    } else if i == 10 {
        "zero-wind-speed"@
    } else if i == 11 {
        "zero-wind-angle"@
    } else if i == 12 {
        "temperature"@
    } else if i == 13 {
        "pressure"@
    } else if i == 14 {
        "humidity"@
    } else if i == 15 {
        "zero-temperature"@
    } else if i == 16 {
        "zero-pressure"@
    } else if i == 17 {
        "zero-humidity"@
    } else if i == 18 {
        "lattitude"@
    } else if i == 19 {
        "bearing"@
    } else if i == 20 {
        "shot-angle"@
    } else if i == 21 {
        "zero-lattitude"@
    } else if i == 22 {
        "zero-bearing"@
    } else if i == 23 {
        "zero-shot-angle"@
    } else if i == 24 {
        "zero-distance"@
    } else if i == 25 {
        "zero-elevation-offset"@
    } else if i == 26 {
        "zero-windage-offset"@
    } else if i == 27 {
        "zero-tolerance"@
    } else if i == 28 {
        "pitch-offset"@
    } else if i == 29 {
        "yaw-offset"@
    } else if i == 30 {
        "table-start"@
    } else if i == 31 {
        "table-end"@
    } else if i == 32 {
        "table-step"@
    } else if i == 33 {
        "table-tolerance"@
    } else {
        "time-step"@
    }
}

/// Whether the flag at a position takes a value; the two switches do not.
pub open spec fn flag_takes_value(i: int) -> bool {
    !(i == 0 || i == 1)
}

/// Whether the flag at a position admits a leading sign.
pub open spec fn flag_allow_negative(i: int) -> bool {
    ||| i == 7
    ||| i == 9
    ||| i == 11
    ||| i == 12
    ||| i == 13
    ||| i == 15
    ||| i == 16
    ||| i == 18
    ||| i == 19
    ||| i == 20
    ||| i == 21
    ||| i == 22
    ||| i == 23
    ||| i == 25
    ||| i == 26
    ||| i == 28
    ||| i == 29
}

/// The command-line surface, in declaration order: the two layout switches,
/// then one required value-taking flag for every configuration field,
/// negative-valued fields marked as admitting a leading sign.
#[verifier::rlimit(100)]
pub fn parse() -> (r: Vec<FlagSpec>)
    ensures
        r@.len() == 35,
        forall|i: int|
            0 <= i < 35 ==> (#[trigger] r@[i]).name@ == flag_name(i) && r@[i].takes_value
                == flag_takes_value(i) && r@[i].allow_negative == flag_allow_negative(i),
{
    let mut r: Vec<FlagSpec> = Vec::new();
    r.push(FlagSpec { name: "flat", takes_value: false, allow_negative: false });
    r.push(FlagSpec { name: "pretty", takes_value: false, allow_negative: false });
    r.push(FlagSpec { name: "velocity", takes_value: true, allow_negative: false });
    r.push(FlagSpec { name: "grains", takes_value: true, allow_negative: false });
    r.push(FlagSpec { name: "caliber", takes_value: true, allow_negative: false });
    r.push(FlagSpec { name: "bc", takes_value: true, allow_negative: false });
    r.push(FlagSpec { name: "bc-type", takes_value: true, allow_negative: false });
    r.push(FlagSpec { name: "scope-height", takes_value: true, allow_negative: true });
    r.push(FlagSpec { name: "wind-speed", takes_value: true, allow_negative: false });
    r.push(FlagSpec { name: "wind-angle", takes_value: true, allow_negative: true });
    r.push(FlagSpec { name: "zero-wind-speed", takes_value: true, allow_negative: false });
    r.push(FlagSpec { name: "zero-wind-angle", takes_value: true, allow_negative: true });
    r.push(FlagSpec { name: "temperature", takes_value: true, allow_negative: true });
    r.push(FlagSpec { name: "pressure", takes_value: true, allow_negative: true });
    r.push(FlagSpec { name: "humidity", takes_value: true, allow_negative: false });
    r.push(FlagSpec { name: "zero-temperature", takes_value: true, allow_negative: true });
    r.push(FlagSpec { name: "zero-pressure", takes_value: true, allow_negative: true });
    r.push(FlagSpec { name: "zero-humidity", takes_value: true, allow_negative: false });
    r.push(FlagSpec { name: "lattitude", takes_value: true, allow_negative: true });
    r.push(FlagSpec { name: "bearing", takes_value: true, allow_negative: true });
    r.push(FlagSpec { name: "shot-angle", takes_value: true, allow_negative: true });
    r.push(FlagSpec { name: "zero-lattitude", takes_value: true, allow_negative: true });
    r.push(FlagSpec { name: "zero-bearing", takes_value: true, allow_negative: true });
    r.push(FlagSpec { name: "zero-shot-angle", takes_value: true, allow_negative: true });
    r.push(FlagSpec { name: "zero-distance", takes_value: true, allow_negative: false });
    r.push(FlagSpec { name: "zero-elevation-offset", takes_value: true, allow_negative: true });
    r.push(FlagSpec { name: "zero-windage-offset", takes_value: true, allow_negative: true });
    r.push(FlagSpec { name: "zero-tolerance", takes_value: true, allow_negative: false });
    r.push(FlagSpec { name: "pitch-offset", takes_value: true, allow_negative: true });
    r.push(FlagSpec { name: "yaw-offset", takes_value: true, allow_negative: true });
    r.push(FlagSpec { name: "table-start", takes_value: true, allow_negative: false });
    r.push(FlagSpec { name: "table-end", takes_value: true, allow_negative: false });
    r.push(FlagSpec { name: "table-step", takes_value: true, allow_negative: false });
    r.push(FlagSpec { name: "table-tolerance", takes_value: true, allow_negative: false });
    r.push(FlagSpec { name: "time-step", takes_value: true, allow_negative: false });
    r
}

/// The drag model a flag value names, if any.
pub open spec fn drag_model_of(s: Seq<char>) -> Option<DragModel> {
    if s == "G1"@ {
        Option::Some(DragModel::G1)
    } else if s == "G2"@ {
        Option::Some(DragModel::G2)
    } else if s == "G5"@ {
        Option::Some(DragModel::G5)
    } else if s == "G6"@ {
        Option::Some(DragModel::G6)
    } else if s == "G7"@ {
        Option::Some(DragModel::G7)
    } else if s == "G8"@ {
        Option::Some(DragModel::G8)
    } else if s == "GI"@ {
        Option::Some(DragModel::GI)
    } else if s == "GS"@ {
        Option::Some(DragModel::GS)
    } else {
        Option::None
    }
}

/// The outcome of parsing one numeric field: absent, malformed, or its value
/// in thousandths.
pub open spec fn field_result(o: Option<String>, allow_neg: bool, f: ConfigField) -> Result<
    i64,
    ConfigError,
> {
    match o {
        Option::None => Result::Err(ConfigError::Missing(f)),
        Option::Some(s) => if dec_parses(s@, allow_neg) {
            Result::Ok(dec_val(s@) as i64)
        } else {
            Result::Err(ConfigError::Malformed(f))
        },
    }
}

/// The outcome of parsing the drag-model field.
pub open spec fn bc_type_result(o: Option<String>) -> Result<DragModel, ConfigError> {
    match o {
        Option::None => Result::Err(ConfigError::Missing(ConfigField::BcType)),
        Option::Some(s) => match drag_model_of(s@) {
            Option::Some(m) => Result::Ok(m),
            Option::None => Result::Err(ConfigError::Malformed(ConfigField::BcType)),
        },
    }
}

/// The error of a parse outcome, if any.
pub open spec fn err_of<T>(r: Result<T, ConfigError>) -> Option<ConfigError> {
    match r {
        Result::Ok(_) => Option::None,
        Result::Err(e) => Option::Some(e),
    }
}

/// The first of two possible errors.
pub open spec fn orelse(a: Option<ConfigError>, b: Option<ConfigError>) -> Option<ConfigError> {
    if a is Some {
        a
    } else {
        b
    }
}

/// The first parse failure over the fields in declaration order, if any.
pub open spec fn parse_error(raw: RawConfig) -> Option<ConfigError> {
    orelse(err_of(field_result(raw.velocity, false, ConfigField::Velocity)),
    orelse(err_of(field_result(raw.grains, false, ConfigField::Grains)),
    orelse(err_of(field_result(raw.caliber, false, ConfigField::Caliber)),
    orelse(err_of(field_result(raw.bc, false, ConfigField::Bc)),
    orelse(err_of(bc_type_result(raw.bc_type)),
    orelse(err_of(field_result(raw.scope_height, true, ConfigField::ScopeHeight)),
    orelse(err_of(field_result(raw.wind_speed, false, ConfigField::WindSpeed)),
    orelse(err_of(field_result(raw.wind_angle, true, ConfigField::WindAngle)),
    orelse(err_of(field_result(raw.zero_wind_speed, false, ConfigField::ZeroWindSpeed)),
    orelse(err_of(field_result(raw.zero_wind_angle, true, ConfigField::ZeroWindAngle)),
    orelse(err_of(field_result(raw.temperature, true, ConfigField::Temperature)),
    orelse(err_of(field_result(raw.pressure, true, ConfigField::Pressure)),
    orelse(err_of(field_result(raw.humidity, false, ConfigField::Humidity)),
    orelse(err_of(field_result(raw.zero_temperature, true, ConfigField::ZeroTemperature)),
    orelse(err_of(field_result(raw.zero_pressure, true, ConfigField::ZeroPressure)),
    orelse(err_of(field_result(raw.zero_humidity, false, ConfigField::ZeroHumidity)),
    orelse(err_of(field_result(raw.lattitude, true, ConfigField::Lattitude)),
    orelse(err_of(field_result(raw.bearing, true, ConfigField::Bearing)),
    orelse(err_of(field_result(raw.shot_angle, true, ConfigField::ShotAngle)),
    orelse(err_of(field_result(raw.zero_lattitude, true, ConfigField::ZeroLattitude)),
    orelse(err_of(field_result(raw.zero_bearing, true, ConfigField::ZeroBearing)),
    orelse(err_of(field_result(raw.zero_shot_angle, true, ConfigField::ZeroShotAngle)),
    orelse(err_of(field_result(raw.zero_distance, false, ConfigField::ZeroDistance)),
    orelse(err_of(field_result(raw.zero_elevation_offset, true, ConfigField::ZeroElevationOffset)),
    orelse(err_of(field_result(raw.zero_windage_offset, true, ConfigField::ZeroWindageOffset)),
    orelse(err_of(field_result(raw.zero_tolerance, false, ConfigField::ZeroTolerance)),
    orelse(err_of(field_result(raw.pitch_offset, true, ConfigField::PitchOffset)),
    orelse(err_of(field_result(raw.yaw_offset, true, ConfigField::YawOffset)),
    orelse(err_of(field_result(raw.table_start, false, ConfigField::TableStart)),
    orelse(err_of(field_result(raw.table_end, false, ConfigField::TableEnd)),
    orelse(err_of(field_result(raw.table_step, false, ConfigField::TableStep)),
    orelse(err_of(field_result(raw.table_tolerance, false, ConfigField::TableTolerance)),
    err_of(field_result(raw.time_step, false, ConfigField::TimeStep))))))))))))))))))))))))))))))))))
}

/// The parsed value of a numeric field, meaningful when it parses.
pub open spec fn field_val(o: Option<String>) -> i64 {
    dec_val(o->0@) as i64
}

/// The configuration the raw inputs denote, meaningful when every field
/// parses.
pub open spec fn config_of(raw: RawConfig) -> Config {
    Config {
        velocity: field_val(raw.velocity),
        grains: field_val(raw.grains),
        caliber: field_val(raw.caliber),
        bc: field_val(raw.bc),
        bc_type: drag_model_of(raw.bc_type->0@)->0,
        scope_height: field_val(raw.scope_height),
        wind_speed: field_val(raw.wind_speed),
        wind_angle: field_val(raw.wind_angle),
        zero_wind_speed: field_val(raw.zero_wind_speed),
        zero_wind_angle: field_val(raw.zero_wind_angle),
        temperature: field_val(raw.temperature),
        pressure: field_val(raw.pressure),
        humidity: field_val(raw.humidity),
        zero_temperature: field_val(raw.zero_temperature),
        zero_pressure: field_val(raw.zero_pressure),
        zero_humidity: field_val(raw.zero_humidity),
        lattitude: field_val(raw.lattitude),
        bearing: field_val(raw.bearing),
        shot_angle: field_val(raw.shot_angle),
        zero_lattitude: field_val(raw.zero_lattitude),
        zero_bearing: field_val(raw.zero_bearing),
        zero_shot_angle: field_val(raw.zero_shot_angle),
        zero_distance: field_val(raw.zero_distance),
        zero_elevation_offset: field_val(raw.zero_elevation_offset),
        zero_windage_offset: field_val(raw.zero_windage_offset),
        zero_tolerance: field_val(raw.zero_tolerance),
        pitch_offset: field_val(raw.pitch_offset),
        yaw_offset: field_val(raw.yaw_offset),
        table_start: field_val(raw.table_start),
        table_end: field_val(raw.table_end),
        table_step: field_val(raw.table_step),
        table_tolerance: field_val(raw.table_tolerance),
        time_step: field_val(raw.time_step),
        flat: raw.flat,
        pretty: raw.pretty,
    }
}

/// The first violated invariant of a configuration, if any: velocity,
/// caliber and ballistic coefficient positive; both humidities within the
/// unit interval; time step and table step positive; table end no nearer
/// than table start.
pub open spec fn invariant_error(c: Config) -> Option<ConfigError> {
    if !(c.velocity > 0) {
        Option::Some(ConfigError::OutOfRange(ConfigField::Velocity))
    } else if !(c.caliber > 0) {
        Option::Some(ConfigError::OutOfRange(ConfigField::Caliber))
    } else if !(c.bc > 0) {
        Option::Some(ConfigError::OutOfRange(ConfigField::Bc))
    } else if !(0 <= c.humidity <= 1000) {
        Option::Some(ConfigError::OutOfRange(ConfigField::Humidity))
    } else if !(0 <= c.zero_humidity <= 1000) {
        Option::Some(ConfigError::OutOfRange(ConfigField::ZeroHumidity))
    } else if !(c.time_step > 0) {
        Option::Some(ConfigError::OutOfRange(ConfigField::TimeStep))
    } else if !(c.table_end >= c.table_start) {
        Option::Some(ConfigError::OutOfRange(ConfigField::TableEnd))
    } else if !(c.table_step > 0) {
        Option::Some(ConfigError::OutOfRange(ConfigField::TableStep))
    } else {
        Option::None
    }
}

/// All invariants of a configuration hold.
pub open spec fn config_ok(c: Config) -> bool {
    &&& c.velocity > 0
    &&& c.caliber > 0
    &&& c.bc > 0
    &&& 0 <= c.humidity <= 1000
    &&& 0 <= c.zero_humidity <= 1000
    &&& c.time_step > 0
    &&& c.table_end >= c.table_start
    &&& c.table_step > 0
}

/// What `build` returns: the first parse failure in declaration order, else
/// the first violated invariant, else the typed configuration.
pub open spec fn build_spec(raw: RawConfig) -> Result<Config, ConfigError> {
    match parse_error(raw) {
        Option::Some(e) => Result::Err(e),
        Option::None => match invariant_error(config_of(raw)) {
            Option::Some(e) => Result::Err(e),
            Option::None => Result::Ok(config_of(raw)),
        },
    }
}

/// Parse one numeric field, identifying the field on failure.
pub fn parse_field(o: &Option<String>, allow_neg: bool, f: ConfigField) -> (r: Result<
    i64,
    ConfigError,
>)
    ensures
        r == field_result(*o, allow_neg, f),
{
    match o {
        Option::None => Result::Err(ConfigError::Missing(f)),
        Option::Some(s) => match crate::num::parse_decimal(s.as_str(), allow_neg) {
            Option::Some(v) => Result::Ok(v),
            Option::None => Result::Err(ConfigError::Malformed(f)),
        },
    }
}

/// Parse the drag-model field.
pub fn parse_bc_type(o: &Option<String>) -> (r: Result<DragModel, ConfigError>)
    ensures
        r == bc_type_result(*o),
{
    match o {
        Option::None => Result::Err(ConfigError::Missing(ConfigField::BcType)),
        Option::Some(s) => {
            if s.eq(&"G1".to_owned()) {
                Result::Ok(DragModel::G1)
            } else if s.eq(&"G2".to_owned()) {
                Result::Ok(DragModel::G2)
            } else if s.eq(&"G5".to_owned()) {
                Result::Ok(DragModel::G5)
            } else if s.eq(&"G6".to_owned()) {
                Result::Ok(DragModel::G6)
            } else if s.eq(&"G7".to_owned()) {
                Result::Ok(DragModel::G7)
            } else if s.eq(&"G8".to_owned()) {
                Result::Ok(DragModel::G8)
            } else if s.eq(&"GI".to_owned()) {
                Result::Ok(DragModel::GI)
            } else if s.eq(&"GS".to_owned()) {
                Result::Ok(DragModel::GS)
            } else {
                Result::Err(ConfigError::Malformed(ConfigField::BcType))
            }
        },
    }
}

/// Enforce the configuration invariants, failing fast with the field at
/// fault; no clamping, no partial recovery.
pub fn validate(c: &Config) -> (r: Result<(), ConfigError>)
    ensures
        r == (match invariant_error(*c) {
            Option::Some(e) => Result::<(), ConfigError>::Err(e),
            Option::None => Result::<(), ConfigError>::Ok(()),
        }),
        r is Ok <==> config_ok(*c),
{
    if !(c.velocity > 0) {
        Result::Err(ConfigError::OutOfRange(ConfigField::Velocity))
    } else if !(c.caliber > 0) {
        Result::Err(ConfigError::OutOfRange(ConfigField::Caliber))
    } else if !(c.bc > 0) {
        Result::Err(ConfigError::OutOfRange(ConfigField::Bc))
    } else if !(0 <= c.humidity && c.humidity <= 1000) {
        Result::Err(ConfigError::OutOfRange(ConfigField::Humidity))
    } else if !(0 <= c.zero_humidity && c.zero_humidity <= 1000) {
        Result::Err(ConfigError::OutOfRange(ConfigField::ZeroHumidity))
    } else if !(c.time_step > 0) {
        Result::Err(ConfigError::OutOfRange(ConfigField::TimeStep))
    } else if !(c.table_end >= c.table_start) {
        Result::Err(ConfigError::OutOfRange(ConfigField::TableEnd))
    } else if !(c.table_step > 0) {
        Result::Err(ConfigError::OutOfRange(ConfigField::TableStep))
    } else {
        Result::Ok(())
    }
}

/// Build the typed configuration from the raw flag values: parse every field
/// in declaration order, then validate the aggregate. Fails with the first
/// error; succeeds exactly when every field is present, parses, and the
/// invariants hold.
#[verifier::rlimit(100)]
pub fn build(raw: &RawConfig) -> (r: Result<Config, ConfigError>)
    ensures
        r == build_spec(*raw),
{
    let velocity = parse_field(&raw.velocity, false, ConfigField::Velocity)?;
    let grains = parse_field(&raw.grains, false, ConfigField::Grains)?;
    let caliber = parse_field(&raw.caliber, false, ConfigField::Caliber)?;
    let bc = parse_field(&raw.bc, false, ConfigField::Bc)?;
    let bc_type = parse_bc_type(&raw.bc_type)?;
    let scope_height = parse_field(&raw.scope_height, true, ConfigField::ScopeHeight)?;
    let wind_speed = parse_field(&raw.wind_speed, false, ConfigField::WindSpeed)?;
    let wind_angle = parse_field(&raw.wind_angle, true, ConfigField::WindAngle)?;
    let zero_wind_speed = parse_field(&raw.zero_wind_speed, false, ConfigField::ZeroWindSpeed)?;
    let zero_wind_angle = parse_field(&raw.zero_wind_angle, true, ConfigField::ZeroWindAngle)?;
    let temperature = parse_field(&raw.temperature, true, ConfigField::Temperature)?;
    let pressure = parse_field(&raw.pressure, true, ConfigField::Pressure)?;
    let humidity = parse_field(&raw.humidity, false, ConfigField::Humidity)?;
    let zero_temperature = parse_field(&raw.zero_temperature, true, ConfigField::ZeroTemperature)?;
    let zero_pressure = parse_field(&raw.zero_pressure, true, ConfigField::ZeroPressure)?;
    let zero_humidity = parse_field(&raw.zero_humidity, false, ConfigField::ZeroHumidity)?;
    let lattitude = parse_field(&raw.lattitude, true, ConfigField::Lattitude)?;
    let bearing = parse_field(&raw.bearing, true, ConfigField::Bearing)?;
    let shot_angle = parse_field(&raw.shot_angle, true, ConfigField::ShotAngle)?;
    let zero_lattitude = parse_field(&raw.zero_lattitude, true, ConfigField::ZeroLattitude)?;
    let zero_bearing = parse_field(&raw.zero_bearing, true, ConfigField::ZeroBearing)?;
    let zero_shot_angle = parse_field(&raw.zero_shot_angle, true, ConfigField::ZeroShotAngle)?;
    let zero_distance = parse_field(&raw.zero_distance, false, ConfigField::ZeroDistance)?;
    let zero_elevation_offset = parse_field(
        &raw.zero_elevation_offset,
        true,
        ConfigField::ZeroElevationOffset,
    )?;
    let zero_windage_offset = parse_field(
        &raw.zero_windage_offset,
        true,
        ConfigField::ZeroWindageOffset,
    )?;
    let zero_tolerance = parse_field(&raw.zero_tolerance, false, ConfigField::ZeroTolerance)?;
    let pitch_offset = parse_field(&raw.pitch_offset, true, ConfigField::PitchOffset)?;
    let yaw_offset = parse_field(&raw.yaw_offset, true, ConfigField::YawOffset)?;
    let table_start = parse_field(&raw.table_start, false, ConfigField::TableStart)?;
    let table_end = parse_field(&raw.table_end, false, ConfigField::TableEnd)?;
    let table_step = parse_field(&raw.table_step, false, ConfigField::TableStep)?;
    let table_tolerance = parse_field(&raw.table_tolerance, false, ConfigField::TableTolerance)?;
    let time_step = parse_field(&raw.time_step, false, ConfigField::TimeStep)?;
    let c = Config {
        velocity,
        grains,
        caliber,
        bc,
        bc_type,
        scope_height,
        wind_speed,
        wind_angle,
        zero_wind_speed,
        zero_wind_angle,
        temperature,
        pressure,
        humidity,
        zero_temperature,
        zero_pressure,
        zero_humidity,
        lattitude,
        bearing,
        shot_angle,
        zero_lattitude,
        zero_bearing,
        zero_shot_angle,
        zero_distance,
        zero_elevation_offset,
        zero_windage_offset,
        zero_tolerance,
        pitch_offset,
        yaw_offset,
        table_start,
        table_end,
        table_step,
        table_tolerance,
        time_step,
        flat: raw.flat,
        pretty: raw.pretty,
    };
    proof {
        assert(parse_error(*raw) is None);
        assert(c == config_of(*raw));
    }
    match validate(&c) {
        Result::Ok(()) => Result::Ok(c),
        Result::Err(e) => Result::Err(e),
    }
}

} // verus!
