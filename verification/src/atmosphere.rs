//! Atmospheric quantities in exact fixed-point units: temperatures in
//! milli-degrees Celsius, pressures in milli-hectopascals, relative
//! humidity in milli-percent, vapor pressure in micro-hectopascals, and
//! air density in micro-kilograms per cubic meter.
//!
//! The formulas are Tetens for saturation vapor pressure, Magnus-Tetens
//! for the dew point, and the two-component ideal gas law for density,
//! with the gas constants 287.0531 and 461.4964 joules per kilogram
//! kelvin for dry air and water vapor.

use vstd::prelude::*;
use vstd::arithmetic::div_mod::{lemma_div_is_ordered, lemma_multiply_divide_le};
use vstd::arithmetic::mul::lemma_mul_inequality;

use crate::fixed::{exp_q32, ln_ratio_micro, spec_exp_q32, spec_ln_ratio_micro, Q32};

verus! {

/// Why an atmospheric computation rejected its inputs or its result.
#[derive(Clone, Copy, Debug, PartialEq, Eq, Structural)]
pub enum AtmosphereError {
    /// Relative humidity outside zero to one hundred percent.
    InvalidHumidity,
    /// A temperature outside minus one hundred to sixty degrees Celsius.
    InvalidTemperature,
    /// Pressure outside the interval from zero (exclusive) to eleven
    /// hundred hectopascals.
    InvalidPressure,
    /// A dew point above the air temperature.
    DewPointAboveTemperature,
    /// The dew point formula has no finite value here (dry air at zero
    /// percent relative humidity).
    DewPointNotComputable,
    /// The computed density fell outside half to two kilograms per
    /// cubic meter.
    DensityOutOfRange,
}

/// The Tetens exponent 17.27 T / (T + 237.3) in micro-units, for T given
/// in milli-degrees Celsius.
pub open spec fn spec_tetens_exponent(t: int) -> int {
    if t >= 0 {
        17_270_000 * t / (t + 237_300)
    } else {
        -(17_270_000 * (-t) / (237_300 + t))
    }
}

/// Saturation vapor pressure 6.1078 exp(17.27 T / (T + 237.3)) in
/// micro-hectopascals.
pub open spec fn spec_saturation_vapor_pressure(t: int) -> int {
    6_107_800 * spec_exp_q32(spec_tetens_exponent(t)) / (Q32 as int)
}

/// The Magnus-Tetens dew point in milli-degrees Celsius: with
/// gamma = ln(RH / 100) + 17.27 T / (237.3 + T), the dew point is
/// 237.3 gamma / (17.27 - gamma).
pub open spec fn spec_dew_point(t: int, rh: int) -> int {
    let gamma = spec_tetens_exponent(t) - spec_ln_ratio_micro(100_000, rh);
    if gamma >= 0 {
        237_300 * gamma / (17_270_000 - gamma)
    } else {
        -(237_300 * (-gamma) / (17_270_000 + (-gamma)))
    }
}

/// The exact outcome of the dew point computation, validation included.
pub open spec fn spec_calculate_dew_point(t: int, rh: int) -> Result<i64, AtmosphereError> {
    if rh < 0 || rh > 100_000 {
        Err(AtmosphereError::InvalidHumidity)
    } else if t < -100_000 || t > 60_000 {
        Err(AtmosphereError::InvalidTemperature)
    } else if rh == 0 {
        Err(AtmosphereError::DewPointNotComputable)
    } else if spec_dew_point(t, rh) > t + 100 {
        Err(AtmosphereError::DewPointAboveTemperature)
    } else {
        Ok(spec_dew_point(t, rh) as i64)
    }
}

/// Air density in micro-kilograms per cubic meter from temperature,
/// pressure, and dew point: the dry-air and vapor partial pressures each
/// contribute through the ideal gas law.
pub open spec fn spec_air_density(t: int, p: int, dew: int) -> int {
    let tk = t + 273_150;
    let pv = spec_saturation_vapor_pressure(dew);
    let pd = p * 1000 - pv;
    let rho_d = if pd >= 0 {
        pd * 1_000_000_000 / (2_870_531 * tk)
    } else {
        -((-pd) * 1_000_000_000 / (2_870_531 * tk))
    };
    let rho_v = pv * 1_000_000_000 / (4_614_964 * tk);
    rho_d + rho_v
}

/// The exact outcome of the density computation, validation included.
pub open spec fn spec_calculate_air_density(t: int, p: int, dew: int) -> Result<
    u32,
    AtmosphereError,
> {
    if p <= 0 || p > 1_100_000 {
        Err(AtmosphereError::InvalidPressure)
    } else if t < -100_000 || t > 60_000 {
        Err(AtmosphereError::InvalidTemperature)
    } else if dew > t {
        Err(AtmosphereError::DewPointAboveTemperature)
    } else if dew < -100_000 {
        Err(AtmosphereError::InvalidTemperature)
    } else {
        let rho = spec_air_density(t, p, dew);
        if rho < 500_000 || rho > 2_000_000 {
            Err(AtmosphereError::DensityOutOfRange)
        } else {
            Ok(rho as u32)
        }
    }
}

/// The exact outcome of the density-from-humidity convenience chain.
pub open spec fn spec_air_density_from_humidity(t: int, p: int, rh: int) -> Result<
    u32,
    AtmosphereError,
> {
    match spec_calculate_dew_point(t, rh) {
        Ok(dew) => spec_calculate_air_density(t, p, dew as int),
        Err(e) => Err(e),
    }
}

/// The Tetens exponent in micro-units, with its range.
fn tetens_exponent_micro(t: i64) -> (r: i64)
    requires
        -100_000 <= t <= 60_000,
    ensures
        r == spec_tetens_exponent(t as int),
        -12_600_000 <= r <= 3_500_000,
{
    if t >= 0 {
        let tu = t as u64;
        let num = 17_270_000 * tu;
        let den = tu + 237_300;
        let q = num / den;
        proof {
            assert(num as int <= 3_490_000 * den as int) by (nonlinear_arith)
                requires
                    num == 17_270_000 * tu,
                    den == tu + 237_300,
                    tu <= 60_000,
            ;
            lemma_multiply_divide_le(num as int, den as int, 3_490_000);
        }
        q as i64
    } else {
        let m = (-t) as u64;
        let num = 17_270_000 * m;
        let den = 237_300 - m;
        let q = num / den;
        proof {
            assert(num as int <= 12_600_000 * den as int) by (nonlinear_arith)
                requires
                    num == 17_270_000 * m,
                    den == 237_300 - m,
                    m <= 100_000,
            ;
            lemma_multiply_divide_le(num as int, den as int, 12_600_000);
        }
        -(q as i64)
    }
}

/// Computes saturation vapor pressure, dew point, and air density in
/// fixed-point units.
pub struct AirDensityCalculator;

impl AirDensityCalculator {
    /// Saturation vapor pressure by the Tetens formula, in
    /// micro-hectopascals, for a temperature in milli-degrees Celsius
    /// within the validated range.
    pub fn saturation_vapor_pressure(temp_milli_c: i64) -> (r: u64)
        requires
            -100_000 <= temp_milli_c <= 60_000,
        ensures
            r == spec_saturation_vapor_pressure(temp_milli_c as int),
            r <= 500_000_000,
    {
        let y = tetens_exponent_micro(temp_milli_c);
        let e = exp_q32(y);
        proof {
            lemma_mul_inequality(e as int, 300_000_000_000int, 6_107_800);
            lemma_div_is_ordered(
                6_107_800 * e as int,
                6_107_800 * 300_000_000_000int,
                Q32 as int,
            );
            assert(e as int * 6_107_800 == 6_107_800 * e as int);
        }
        6_107_800 * e / Q32
    }

    /// The Magnus-Tetens dew point in milli-degrees Celsius.  Rejects
    /// humidity outside zero to one hundred percent, temperature outside
    /// minus one hundred to sixty degrees, perfectly dry air, and a
    /// computed dew point more than a tenth of a degree above the
    /// temperature; accepts everything else.
    pub fn calculate_dew_point(temp_milli_c: i64, humidity_milli_pct: i64) -> (r: Result<
        i64,
        AtmosphereError,
    >)
        ensures
            r == spec_calculate_dew_point(temp_milli_c as int, humidity_milli_pct as int),
            r is Err <==> {
                ||| humidity_milli_pct < 0
                ||| humidity_milli_pct > 100_000
                ||| temp_milli_c < -100_000
                ||| temp_milli_c > 60_000
                ||| humidity_milli_pct == 0
                ||| spec_dew_point(temp_milli_c as int, humidity_milli_pct as int)
                    > temp_milli_c + 100
            },
            r is Ok ==> r->Ok_0 <= temp_milli_c + 100,
    {
        if humidity_milli_pct < 0 || humidity_milli_pct > 100_000 {
            return Err(AtmosphereError::InvalidHumidity);
        }
        if temp_milli_c < -100_000 || temp_milli_c > 60_000 {
            return Err(AtmosphereError::InvalidTemperature);
        }
        if humidity_milli_pct == 0 {
            return Err(AtmosphereError::DewPointNotComputable);
        }
        let y = tetens_exponent_micro(temp_milli_c);
        let l = ln_ratio_micro(100_000, humidity_milli_pct as u64);
        let gamma: i64 = y - l as i64;
        let dew_point: i64 = if gamma >= 0 {
            let g = gamma as u64;
            let num = 237_300 * g;
            let den = 17_270_000 - g;
            let q = num / den;
            proof {
                assert(num as int <= 61_000 * den as int) by (nonlinear_arith)
                    requires
                        num == 237_300 * g,
                        den == 17_270_000 - g,
                        g <= 3_500_000,
                ;
                lemma_multiply_divide_le(num as int, den as int, 61_000);
            }
            q as i64
        } else {
            let mg = (-gamma) as u64;
            let num: u128 = 237_300u128 * (mg as u128);
            let den: u128 = 17_270_000u128 + (mg as u128);
            let q = num / den;
            proof {
                lemma_mul_inequality(237_300int, den as int, mg as int);
                assert(237_300int * mg as int == mg as int * 237_300int);
                assert(den as int * mg as int == mg as int * den as int);
                lemma_multiply_divide_le(num as int, den as int, mg as int);
                lemma_multiply_divide_le(num as int, den as int, 237_300int);
            }
            -((q as u64) as i64)
        };
        if dew_point > temp_milli_c + 100 {
            return Err(AtmosphereError::DewPointAboveTemperature);
        }
        Ok(dew_point)
    }

    /// Air density in micro-kilograms per cubic meter from temperature
    /// (milli-degrees Celsius), pressure (milli-hectopascals), and dew
    /// point (milli-degrees Celsius).  Rejects pressure outside zero
    /// (exclusive) to eleven hundred hectopascals, either temperature
    /// outside minus one hundred to sixty degrees, a dew point above the
    /// temperature, and a result outside half to two kilograms per cubic
    /// meter; accepts everything else.
    pub fn calculate_air_density(
        temp_milli_c: i64,
        pressure_milli_hpa: i64,
        dew_point_milli_c: i64,
    ) -> (r: Result<u32, AtmosphereError>)
        ensures
            r == spec_calculate_air_density(
                temp_milli_c as int,
                pressure_milli_hpa as int,
                dew_point_milli_c as int,
            ),
            r is Err <==> {
                ||| pressure_milli_hpa <= 0
                ||| pressure_milli_hpa > 1_100_000
                ||| temp_milli_c < -100_000
                ||| temp_milli_c > 60_000
                ||| dew_point_milli_c > temp_milli_c
                ||| dew_point_milli_c < -100_000
                ||| !(500_000 <= spec_air_density(
                    temp_milli_c as int,
                    pressure_milli_hpa as int,
                    dew_point_milli_c as int,
                ) <= 2_000_000)
            },
            r is Ok ==> 500_000 <= r->Ok_0 <= 2_000_000,
    {
        if pressure_milli_hpa <= 0 || pressure_milli_hpa > 1_100_000 {
            return Err(AtmosphereError::InvalidPressure);
        }
        if temp_milli_c < -100_000 || temp_milli_c > 60_000 {
            return Err(AtmosphereError::InvalidTemperature);
        }
        if dew_point_milli_c > temp_milli_c {
            return Err(AtmosphereError::DewPointAboveTemperature);
        }
        if dew_point_milli_c < -100_000 {
            return Err(AtmosphereError::InvalidTemperature);
        }
        let tk = (temp_milli_c + 273_150) as u64;
        let pv = Self::saturation_vapor_pressure(dew_point_milli_c);
        let pd: i64 = pressure_milli_hpa * 1000 - pv as i64;
        let den_d: u64 = 2_870_531 * tk;
        let den_v: u64 = 4_614_964 * tk;
        let rho_d: i64 = if pd >= 0 {
            let num = (pd as u64) * 1_000_000_000;
            let q = num / den_d;
            proof {
                lemma_div_is_ordered(num as int, 1_100_000_000_000_000_000int, den_d as int);
                lemma_div_is_ordered_by_denominator_wrap(num as int, den_d as int);
            }
            q as i64
        } else {
            let num = ((-pd) as u64) * 1_000_000_000;
            let q = num / den_d;
            proof {
                lemma_div_is_ordered(num as int, 1_100_000_000_000_000_000int, den_d as int);
                lemma_div_is_ordered_by_denominator_wrap(num as int, den_d as int);
            }
            -(q as i64)
        };
        let num_v = pv * 1_000_000_000;
        let q_v = num_v / den_v;
        proof {
            lemma_div_is_ordered(num_v as int, 500_000_000_000_000_000int, den_v as int);
            lemma_div_is_ordered_by_denominator_wrap(num_v as int, den_v as int);
        }
        let rho_v = q_v as i64;
        let rho = rho_d + rho_v;
        if rho < 500_000 || rho > 2_000_000 {
            return Err(AtmosphereError::DensityOutOfRange);
        }
        Ok(rho as u32)
    }

    /// The convenience chain: dew point from humidity, then density.
    pub fn calculate_air_density_from_humidity(
        temp_milli_c: i64,
        pressure_milli_hpa: i64,
        humidity_milli_pct: i64,
    ) -> (r: Result<u32, AtmosphereError>)
        ensures
            r == spec_air_density_from_humidity(
                temp_milli_c as int,
                pressure_milli_hpa as int,
                humidity_milli_pct as int,
            ),
    {
        match Self::calculate_dew_point(temp_milli_c, humidity_milli_pct) {
            Ok(dew) => Self::calculate_air_density(temp_milli_c, pressure_milli_hpa, dew),
            Err(e) => Err(e),
        }
    }
}

/// A quotient never exceeds its dividend when the divisor is at least
/// one.
proof fn lemma_div_is_ordered_by_denominator_wrap(x: int, d: int)
    requires
        x >= 0,
        d >= 1,
    ensures
        x / d <= x,
{
    vstd::arithmetic::div_mod::lemma_div_is_ordered_by_denominator(x, 1, d);
    vstd::arithmetic::div_mod::lemma_div_basics(x);
}

} // verus!
