//! Units of measure and exact fixed-point conversions between them.
//!
//! Quantities are integers counting thousandths of their unit (milli-units).
//! Conversions go through an exact integer rational factor and round toward
//! negative infinity on the final division, so every conversion is a pure
//! function of its integer arguments.

use vstd::prelude::*;

verus! {

/// Unit of a distance quantity. The road network stores edge distances in
/// the base unit, whole meters.
#[derive(Clone, Copy, Debug, PartialEq, Eq, Structural)]
pub enum DistanceUnit {
    Meters,
    Kilometers,
    Miles,
}

/// Unit of a speed quantity.
#[derive(Clone, Copy, Debug, PartialEq, Eq, Structural)]
pub enum SpeedUnit {
    KilometersPerHour,
    MilesPerHour,
    MetersPerSecond,
}

/// Unit of a road-grade quantity.
#[derive(Clone, Copy, Debug, PartialEq, Eq, Structural)]
pub enum GradeUnit {
    /// Rise over run as a plain ratio.
    Decimal,
    /// Rise over run in percent.
    Percent,
    /// Rise over run in thousandths.
    Millis,
}

/// Unit of an energy-consumption rate reported by a prediction model.
#[derive(Clone, Copy, Debug, PartialEq, Eq, Structural)]
pub enum EnergyRateUnit {
    GallonsGasolinePerMile,
    KilowattHoursPerMile,
}

/// A speed in milli-units of some `SpeedUnit`.
#[derive(Clone, Copy, Debug, PartialEq, Eq, Structural)]
pub struct Speed(pub u64);

/// A signed road grade in milli-units of some `GradeUnit`.
#[derive(Clone, Copy, Debug, PartialEq, Eq, Structural)]
pub struct Grade(pub i64);

/// An energy-consumption rate in milli-units of some `EnergyRateUnit`.
#[derive(Clone, Copy, Debug, PartialEq, Eq, Structural)]
pub struct EnergyRate(pub u64);

/// Numerator of the exact ratio of milli-`unit`s to whole meters. One mile
/// is exactly 1609.344 meters, so one meter is 1000000/1609344 milli-miles.
pub open spec fn distance_factor_num(unit: DistanceUnit) -> int {
    match unit {
        DistanceUnit::Meters => 1000,
        DistanceUnit::Kilometers => 1,
        DistanceUnit::Miles => 1000000,
    }
}

/// Denominator of the exact ratio of milli-`unit`s to whole meters.
pub open spec fn distance_factor_den(unit: DistanceUnit) -> int {
    match unit {
        DistanceUnit::Meters => 1,
        DistanceUnit::Kilometers => 1,
        DistanceUnit::Miles => 1609344,
    }
}

/// A distance of `meters` base units expressed in milli-`unit`s, rounded
/// down.
pub open spec fn milli_units_from_base(unit: DistanceUnit, meters: int) -> int {
    meters * distance_factor_num(unit) / distance_factor_den(unit)
}

/// Micrometers per hour counted by one milli-`unit` of speed; exact for all
/// three units (one milli-mile per hour is exactly 1609344 micrometers per
/// hour).
pub open spec fn speed_canonical_factor(unit: SpeedUnit) -> int {
    match unit {
        SpeedUnit::KilometersPerHour => 1000000,
        SpeedUnit::MilesPerHour => 1609344,
        SpeedUnit::MetersPerSecond => 3600000,
    }
}

/// A speed of `value` milli-`from`s expressed in milli-`to`s, rounded down.
pub open spec fn convert_speed_value(value: int, from: SpeedUnit, to: SpeedUnit) -> int {
    value * speed_canonical_factor(from) / speed_canonical_factor(to)
}

/// Millionths of plain ratio counted by one milli-`unit` of grade.
pub open spec fn grade_canonical_factor(unit: GradeUnit) -> int {
    match unit {
        GradeUnit::Decimal => 1000,
        GradeUnit::Percent => 10,
        GradeUnit::Millis => 1,
    }
}

/// A grade of `value` milli-`from`s expressed in milli-`to`s, rounded toward
/// negative infinity.
pub open spec fn convert_grade_value(value: int, from: GradeUnit, to: GradeUnit) -> int {
    value * grade_canonical_factor(from) / grade_canonical_factor(to)
}

impl DistanceUnit {
    /// Converts a distance given in whole meters (the base unit of the road
    /// network) into milli-units of `self`. `None` when the result does not
    /// fit the fixed-point range.
    pub fn convert_from_base(&self, meters: u64) -> (r: Option<i64>)
        ensures
            milli_units_from_base(*self, meters as int) <= i64::MAX ==> r == Some(
                milli_units_from_base(*self, meters as int) as i64,
            ),
            milli_units_from_base(*self, meters as int) > i64::MAX ==> r is None,
    {
        let num: u64 = match self {
            DistanceUnit::Meters => 1000,
            DistanceUnit::Kilometers => 1,
            DistanceUnit::Miles => 1000000,
        };
        let den: u64 = match self {
            DistanceUnit::Meters => 1,
            DistanceUnit::Kilometers => 1,
            DistanceUnit::Miles => 1609344,
        };
        proof {
            assert((meters as int) * (num as int) <= u128::MAX) by (nonlinear_arith)
                requires
                    meters <= u64::MAX,
                    num <= u64::MAX,
            ;
        }
        let wide: u128 = (meters as u128) * (num as u128);
        let scaled: u128 = wide / (den as u128);
        proof {
            assert(scaled == milli_units_from_base(*self, meters as int)) by (nonlinear_arith)
                requires
                    wide == (meters as int) * (num as int),
                    scaled == (wide as int) / (den as int),
                    num == distance_factor_num(*self),
                    den == distance_factor_den(*self),
                    den > 0,
                    meters >= 0,
            ;
        }
        if scaled <= i64::MAX as u128 {
            Some(scaled as i64)
        } else {
            None
        }
    }

    /// The lower-case name of the unit.
    pub open spec fn name_spec(&self) -> Seq<char> {
        match *self {
            DistanceUnit::Meters => "meters"@,
            DistanceUnit::Kilometers => "kilometers"@,
            DistanceUnit::Miles => "miles"@,
        }
    }

    /// The lower-case name of the unit, for user-facing summaries.
    pub fn name(&self) -> (r: String)
        ensures
            r@ == self.name_spec(),
    {
        match self {
            DistanceUnit::Meters => "meters".to_owned(),
            DistanceUnit::Kilometers => "kilometers".to_owned(),
            DistanceUnit::Miles => "miles".to_owned(),
        }
    }
}

impl SpeedUnit {
    /// Converts a speed in milli-units of `self` into milli-units of `to`.
    /// `None` when the result does not fit the fixed-point range.
    pub fn convert(&self, speed: Speed, to: SpeedUnit) -> (r: Option<Speed>)
        ensures
            convert_speed_value(speed.0 as int, *self, to) <= u64::MAX ==> r == Some(Speed(
                convert_speed_value(speed.0 as int, *self, to) as u64,
            )),
            convert_speed_value(speed.0 as int, *self, to) > u64::MAX ==> r is None,
    {
        let from_factor: u64 = match self {
            SpeedUnit::KilometersPerHour => 1000000,
            SpeedUnit::MilesPerHour => 1609344,
            SpeedUnit::MetersPerSecond => 3600000,
        };
        let to_factor: u64 = match to {
            SpeedUnit::KilometersPerHour => 1000000,
            SpeedUnit::MilesPerHour => 1609344,
            SpeedUnit::MetersPerSecond => 3600000,
        };
        proof {
            assert((speed.0 as int) * (from_factor as int) <= u128::MAX) by (nonlinear_arith)
                requires
                    speed.0 <= u64::MAX,
                    from_factor <= u64::MAX,
            ;
        }
        let wide: u128 = (speed.0 as u128) * (from_factor as u128);
        let scaled: u128 = wide / (to_factor as u128);
        proof {
            assert(scaled == convert_speed_value(speed.0 as int, *self, to)) by (nonlinear_arith)
                requires
                    wide == (speed.0 as int) * (from_factor as int),
                    scaled == (wide as int) / (to_factor as int),
                    from_factor == speed_canonical_factor(*self),
                    to_factor == speed_canonical_factor(to),
                    to_factor > 0,
                    speed.0 >= 0,
            ;
        }
        if scaled <= u64::MAX as u128 {
            Some(Speed(scaled as u64))
        } else {
            None
        }
    }
}

impl GradeUnit {
    /// Converts a signed grade in milli-units of `self` into milli-units of
    /// `to`, rounding toward negative infinity. `None` when the result does
    /// not fit the fixed-point range.
    pub fn convert(&self, grade: Grade, to: GradeUnit) -> (r: Option<Grade>)
        ensures
            i64::MIN <= convert_grade_value(grade.0 as int, *self, to) <= i64::MAX ==> r == Some(
                Grade(convert_grade_value(grade.0 as int, *self, to) as i64),
            ),
            !(i64::MIN <= convert_grade_value(grade.0 as int, *self, to) <= i64::MAX) ==> r
                is None,
    {
        let from_factor: u64 = match self {
            GradeUnit::Decimal => 1000,
            GradeUnit::Percent => 10,
            GradeUnit::Millis => 1,
        };
        let to_factor: u64 = match to {
            GradeUnit::Decimal => 1000,
            GradeUnit::Percent => 10,
            GradeUnit::Millis => 1,
        };
        // Work on the magnitude in unsigned arithmetic; a negative quantity
        // rounds toward negative infinity, so its magnitude rounds up.
        let negative: bool = grade.0 < 0;
        let magnitude: u64 = if grade.0 < 0 {
            (0i128 - (grade.0 as i128)) as u64
        } else {
            grade.0 as u64
        };
        proof {
            assert((magnitude as int) * (from_factor as int) <= u128::MAX) by (nonlinear_arith)
                requires
                    magnitude <= u64::MAX,
                    from_factor <= u64::MAX,
            ;
        }
        let wide: u128 = (magnitude as u128) * (from_factor as u128);
        let scaled_mag: u128 = if negative {
            (wide + (to_factor as u128) - 1) / (to_factor as u128)
        } else {
            wide / (to_factor as u128)
        };
        proof {
            let v: int = grade.0 as int;
            let f: int = from_factor as int;
            let t: int = to_factor as int;
            let m: int = magnitude as int;
            let w: int = wide as int;
            let s: int = scaled_mag as int;
            assert((if negative {
                s * -1 == v * f / t
            } else {
                s == v * f / t
            })) by (nonlinear_arith)
                requires
                    m == if v < 0 {
                        v * -1
                    } else {
                        v
                    },
                    negative == (v < 0),
                    w == m * f,
                    s == if negative {
                        (w + t - 1) / t
                    } else {
                        w / t
                    },
                    t > 0,
                    f >= 0,
            ;
            assert(convert_grade_value(v, *self, to) == v * f / t);
        }
        if negative {
            if scaled_mag <= 9223372036854775808u128 {
                Some(Grade((0i128 - scaled_mag as i128) as i64))
            } else {
                None
            }
        } else {
            if scaled_mag <= i64::MAX as u128 {
                Some(Grade(scaled_mag as i64))
            } else {
                None
            }
        }
    }
}

impl EnergyRateUnit {
    /// The lower-case name of the unit, for user-facing summaries.
    pub fn name(&self) -> (r: String)
        ensures
            r@ == match *self {
                EnergyRateUnit::GallonsGasolinePerMile => "gallons_gasoline_per_mile"@,
                EnergyRateUnit::KilowattHoursPerMile => "kilowatt_hours_per_mile"@,
            },
    {
        match self {
            EnergyRateUnit::GallonsGasolinePerMile => "gallons_gasoline_per_mile".to_owned(),
            EnergyRateUnit::KilowattHoursPerMile => "kilowatt_hours_per_mile".to_owned(),
        }
    }
}

} // verus!
