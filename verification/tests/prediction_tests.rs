use routee_compass::prediction::{prepare_model_input, ModelType};
use routee_compass::units::{
    EnergyRateUnit, Grade, GradeUnit, Speed, SpeedUnit,
};

#[test]
fn test_build_packages_configuration() {
    let path = String::from("models/vehicle.onnx");
    let config = ModelType::Onnx
        .build(
            &path,
            SpeedUnit::MilesPerHour,
            GradeUnit::Decimal,
            EnergyRateUnit::GallonsGasolinePerMile,
        )
        .unwrap();
    assert_eq!(config.model_type, ModelType::Onnx);
    assert_eq!(config.energy_model_path, path);
    assert_eq!(config.speed_unit, SpeedUnit::MilesPerHour);
    assert_eq!(config.grade_unit, GradeUnit::Decimal);
    assert_eq!(config.energy_rate_unit, EnergyRateUnit::GallonsGasolinePerMile);
}

#[test]
fn test_model_type_names() {
    assert_eq!(ModelType::Smartcore.name(), "smartcore");
    assert_eq!(ModelType::Onnx.name(), "onnx");
}

#[test]
fn test_prepare_model_input_converts_units() {
    // 50 miles per hour is 80.4672 kilometers per hour: 80467 milli-units,
    // rounded down.
    let r = prepare_model_input(
        Speed(50000),
        SpeedUnit::MilesPerHour,
        SpeedUnit::KilometersPerHour,
        Grade(0),
        GradeUnit::Decimal,
        GradeUnit::Decimal,
    )
    .unwrap();
    assert_eq!(r, (Speed(80467), Grade(0)));
}

#[test]
fn test_prepare_model_input_is_deterministic() {
    let call = || {
        prepare_model_input(
            Speed(50000),
            SpeedUnit::MilesPerHour,
            SpeedUnit::MilesPerHour,
            Grade(0),
            GradeUnit::Decimal,
            GradeUnit::Decimal,
        )
        .unwrap()
    };
    let first = call();
    for _ in 0..1000 {
        assert_eq!(call(), first);
    }
    assert_eq!(first, (Speed(50000), Grade(0)));
}

#[test]
fn test_grade_conversion_rounds_toward_negative_infinity() {
    // -1234 milli-percent is -12.34 milli-decimal, which rounds down to -13.
    let g = GradeUnit::Percent.convert(Grade(-1234), GradeUnit::Decimal).unwrap();
    assert_eq!(g, Grade(-13));
    let g = GradeUnit::Decimal.convert(Grade(-13), GradeUnit::Percent).unwrap();
    assert_eq!(g, Grade(-1300));
}

#[test]
fn test_speed_conversion_exact_values() {
    // 1 kilometer per hour (1000 milli-units) is 0.277 meters per second.
    let s = SpeedUnit::KilometersPerHour
        .convert(Speed(1000), SpeedUnit::MetersPerSecond)
        .unwrap();
    assert_eq!(s, Speed(277));
    // 3.6 kilometers per hour is exactly 1 meter per second.
    let s = SpeedUnit::KilometersPerHour
        .convert(Speed(3600), SpeedUnit::MetersPerSecond)
        .unwrap();
    assert_eq!(s, Speed(1000));
}
