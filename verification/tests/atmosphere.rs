//! Atmospheric computations on fixed-point units: temperatures in
//! milli-degrees Celsius, pressures in milli-hectopascals, humidity in
//! milli-percent, vapor pressure in micro-hectopascals, density in
//! micro-kilograms per cubic meter.

use ve_analyzer::atmosphere::{AirDensityCalculator, AtmosphereError};

fn close_u64(value: u64, expected: u64, tolerance: u64) -> bool {
    let diff = if value > expected { value - expected } else { expected - value };
    diff < tolerance
}

fn close_i64(value: i64, expected: i64, tolerance: i64) -> bool {
    (value - expected).abs() < tolerance
}

#[test]
fn test_saturation_vapor_pressure() {
    // At 15 degrees, about 17.04 hPa.
    let es = AirDensityCalculator::saturation_vapor_pressure(15_000);
    assert!(close_u64(es, 17_040_000, 100_000));

    // At 0 degrees, about 6.11 hPa.
    let es = AirDensityCalculator::saturation_vapor_pressure(0);
    assert!(close_u64(es, 6_110_000, 100_000));
}

#[test]
fn test_standard_atmosphere() {
    // Standard sea-level atmosphere: 15 degrees, 1013.25 hPa, dew point 4.7.
    let rho = AirDensityCalculator::calculate_air_density(15_000, 1_013_250, 4_700).unwrap();
    assert!(close_u64(rho as u64, 1_225_000, 10_000));
}

#[test]
fn test_dry_air() {
    let rho = AirDensityCalculator::calculate_air_density(20_000, 1_013_250, -10_000).unwrap();
    assert!(rho > 1_180_000 && rho < 1_220_000);
}

#[test]
fn test_high_humidity() {
    let rho = AirDensityCalculator::calculate_air_density(25_000, 1_013_250, 23_000).unwrap();
    assert!(rho > 1_150_000 && rho < 1_190_000);
}

#[test]
fn test_invalid_dew_point() {
    let result = AirDensityCalculator::calculate_air_density(15_000, 1_013_250, 20_000);
    assert!(result.is_err());
}

#[test]
fn test_invalid_pressure() {
    let result = AirDensityCalculator::calculate_air_density(15_000, 1_500_000, 10_000);
    assert!(result.is_err());

    let result = AirDensityCalculator::calculate_air_density(15_000, -10_000, 10_000);
    assert!(result.is_err());
}

#[test]
fn test_extreme_temperatures() {
    // Cold air is denser.
    let rho = AirDensityCalculator::calculate_air_density(-20_000, 1_013_250, -25_000).unwrap();
    assert!(rho > 1_300_000 && rho < 1_400_000);

    // Hot air is less dense.
    let rho = AirDensityCalculator::calculate_air_density(40_000, 1_013_250, 20_000).unwrap();
    assert!(rho > 1_000_000 && rho < 1_150_000);
}

#[test]
fn test_high_altitude() {
    // About 700 hPa near three thousand meters.
    let rho = AirDensityCalculator::calculate_air_density(10_000, 700_000, 0).unwrap();
    assert!(rho > 800_000 && rho < 900_000);
}

#[test]
fn test_dew_point_calculation() {
    // At 20 degrees and 50 percent, about 9.3 degrees.
    let dp = AirDensityCalculator::calculate_dew_point(20_000, 50_000).unwrap();
    assert!(
        close_i64(dp, 9_300, 500),
        "dew point at 20 C, 50 percent should be near 9.3 C, got {} milli",
        dp
    );

    // At 25 degrees and 60 percent, about 16.7 degrees.
    let dp = AirDensityCalculator::calculate_dew_point(25_000, 60_000).unwrap();
    assert!(
        close_i64(dp, 16_700, 500),
        "dew point at 25 C, 60 percent should be near 16.7 C, got {} milli",
        dp
    );

    // At full saturation the dew point equals the temperature.
    let dp = AirDensityCalculator::calculate_dew_point(15_000, 100_000).unwrap();
    assert!(close_i64(dp, 15_000, 100), "dew point at saturation should equal temperature");
}

#[test]
fn test_dew_point_edge_cases() {
    // Very dry air: dew point below freezing.
    let dp = AirDensityCalculator::calculate_dew_point(20_000, 10_000).unwrap();
    assert!(dp < 0, "dew point at 20 C, 10 percent should be below 0 C");

    let result = AirDensityCalculator::calculate_dew_point(20_000, 150_000);
    assert!(result.is_err());

    let result = AirDensityCalculator::calculate_dew_point(20_000, -10_000);
    assert!(result.is_err());
}

#[test]
fn test_air_density_from_humidity() {
    // Standard conditions through the convenience chain.
    let rho =
        AirDensityCalculator::calculate_air_density_from_humidity(15_000, 1_013_250, 50_000)
            .unwrap();
    assert!(
        close_u64(rho as u64, 1_225_000, 10_000),
        "density at standard conditions should be near 1.225 kg per cubic meter"
    );

    // Hot and humid air is less dense.
    let rho = AirDensityCalculator::calculate_air_density_from_humidity(30_000, 1_013_000, 80_000)
        .unwrap();
    assert!(rho > 1_100_000 && rho < 1_180_000, "hot humid air should be less dense");

    // Cold and dry air is more dense.
    let rho = AirDensityCalculator::calculate_air_density_from_humidity(0, 1_013_000, 30_000)
        .unwrap();
    assert!(rho > 1_250_000 && rho < 1_300_000, "cold dry air should be more dense");
}

#[test]
fn test_density_error_kinds() {
    assert_eq!(
        AirDensityCalculator::calculate_air_density(15_000, 0, 10_000),
        Err(AtmosphereError::InvalidPressure)
    );
    assert_eq!(
        AirDensityCalculator::calculate_air_density(70_000, 1_000_000, 10_000),
        Err(AtmosphereError::InvalidTemperature)
    );
    assert_eq!(
        AirDensityCalculator::calculate_air_density(15_000, 1_013_250, 15_500),
        Err(AtmosphereError::DewPointAboveTemperature)
    );
    // A near-vacuum pressure gives a density under half a kilogram.
    assert_eq!(
        AirDensityCalculator::calculate_air_density(15_000, 100_000, -40_000),
        Err(AtmosphereError::DensityOutOfRange)
    );
    assert_eq!(
        AirDensityCalculator::calculate_dew_point(20_000, 0),
        Err(AtmosphereError::DewPointNotComputable)
    );
    assert_eq!(
        AirDensityCalculator::calculate_dew_point(-150_000, 50_000),
        Err(AtmosphereError::InvalidTemperature)
    );
    assert_eq!(
        AirDensityCalculator::calculate_dew_point(20_000, 100_001),
        Err(AtmosphereError::InvalidHumidity)
    );
}
