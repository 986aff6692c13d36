//! Weather value types: temperatures, wind, condition codes and the forecast
//! that bundles them.
//!
//! Measurements are fixed-point: a temperature is a whole number of
//! thousandths of a degree Celsius, a wind speed a whole number of thousandths
//! of its unit.

use chrono::Datelike;
use vstd::prelude::*;

verus! {

/// A temperature in thousandths of a degree Celsius (`20_500` is 20.5 °C).
#[derive(Debug, Clone, Copy, PartialEq, Eq, Hash, Structural)]
pub struct CelsiusTemperature(pub i32);

impl Default for CelsiusTemperature {
    fn default() -> (r: Self)
        ensures
            r == CelsiusTemperature(0),
    {
        CelsiusTemperature(0)
    }
}

/// The unit a wind speed is given in.
#[derive(Debug, Clone, Copy, PartialEq, Eq, Hash, Structural)]
pub enum WindSpeedUnit {
    MetersPerSecond,
    KilometersPerHour,
    MilesPerHour,
}

/// A wind speed: `value` thousandths of `unit`.
#[derive(Debug, Clone, Copy, PartialEq, Eq, Hash, Structural)]
pub struct WindSpeed {
    pub value: i32,
    pub unit: WindSpeedUnit,
}

/// The eight compass directions a wind can come from.
#[derive(Debug, Clone, Copy, PartialEq, Eq, Hash, Structural)]
pub enum WindDirection {
    North,
    NorthEast,
    East,
    SouthEast,
    South,
    SouthWest,
    West,
    NorthWest,
}

/// Weather conditions, one variant per WMO weather code in use.
#[derive(Debug, Clone, Copy, PartialEq, Eq, Hash, Structural)]
pub enum WeatherCode {
    ClearSky,
    MainlyClear,
    PartlyCloudy,
    Overcast,
    Fog,
    DepositingRimeFog,
    LightDrizzle,
    ModerateDrizzle,
    DenseDrizzle,
    LightFreezingDrizzle,
    DenseFreezingDrizzle,
    LightRain,
    ModerateRain,
    HeavyRain,
    LightFreezingRain,
    HeavyFreezingRain,
    LightSnow,
    ModerateSnow,
    HeavySnow,
    SnowGrains,
    LightRainShowers,
    ModerateRainShowers,
    HeavyRainShowers,
    LightSnowShowers,
    HeavySnowShowers,
    Thunderstorm,
    LightHailThunderstorm,
    HeavyHailThunderstorm,
}

impl WeatherCode {
    /// The WMO number of each condition.
    pub open spec fn spec_wmo_code(self) -> u8 {
        match self {
            WeatherCode::ClearSky => 0,
            WeatherCode::MainlyClear => 1,
            WeatherCode::PartlyCloudy => 2,
            WeatherCode::Overcast => 3,
            WeatherCode::Fog => 45,
            WeatherCode::DepositingRimeFog => 48,
            WeatherCode::LightDrizzle => 51,
            WeatherCode::ModerateDrizzle => 53,
            WeatherCode::DenseDrizzle => 55,
            WeatherCode::LightFreezingDrizzle => 56,
            WeatherCode::DenseFreezingDrizzle => 57,
            WeatherCode::LightRain => 61,
            WeatherCode::ModerateRain => 63,
            WeatherCode::HeavyRain => 65,
            WeatherCode::LightFreezingRain => 66,
            WeatherCode::HeavyFreezingRain => 67,
            WeatherCode::LightSnow => 71,
            WeatherCode::ModerateSnow => 73,
            WeatherCode::HeavySnow => 75,
            WeatherCode::SnowGrains => 77,
            WeatherCode::LightRainShowers => 80,
            WeatherCode::ModerateRainShowers => 81,
            WeatherCode::HeavyRainShowers => 82,
            WeatherCode::LightSnowShowers => 85,
            WeatherCode::HeavySnowShowers => 86,
            WeatherCode::Thunderstorm => 95,
            WeatherCode::LightHailThunderstorm => 96,
            WeatherCode::HeavyHailThunderstorm => 99,
        }
    }

    /// The WMO number of this condition.
    #[verifier::when_used_as_spec(spec_wmo_code)]
    pub fn wmo_code(self) -> (code: u8)
        ensures
            code == self.spec_wmo_code(),
    {
        match self {
            WeatherCode::ClearSky => 0,
            WeatherCode::MainlyClear => 1,
            WeatherCode::PartlyCloudy => 2,
            WeatherCode::Overcast => 3,
            WeatherCode::Fog => 45,
            WeatherCode::DepositingRimeFog => 48,
            WeatherCode::LightDrizzle => 51,
            WeatherCode::ModerateDrizzle => 53,
            WeatherCode::DenseDrizzle => 55,
            WeatherCode::LightFreezingDrizzle => 56,
            WeatherCode::DenseFreezingDrizzle => 57,
            WeatherCode::LightRain => 61,
            WeatherCode::ModerateRain => 63,
            WeatherCode::HeavyRain => 65,
            WeatherCode::LightFreezingRain => 66,
            WeatherCode::HeavyFreezingRain => 67,
            WeatherCode::LightSnow => 71,
            WeatherCode::ModerateSnow => 73,
            WeatherCode::HeavySnow => 75,
            WeatherCode::SnowGrains => 77,
            WeatherCode::LightRainShowers => 80,
            WeatherCode::ModerateRainShowers => 81,
            WeatherCode::HeavyRainShowers => 82,
            WeatherCode::LightSnowShowers => 85,
            WeatherCode::HeavySnowShowers => 86,
            WeatherCode::Thunderstorm => 95,
            WeatherCode::LightHailThunderstorm => 96,
            WeatherCode::HeavyHailThunderstorm => 99,
        }
    }
}

impl Default for WeatherCode {
    fn default() -> (r: Self)
        ensures
            r == WeatherCode::ClearSky,
    {
        WeatherCode::ClearSky
    }
}

/// A calendar day, counted in days from the start of the Common Era
/// (day 1 is 1 January of year 1 in the proleptic Gregorian calendar).
#[derive(Debug, Clone, Copy, PartialEq, Eq, Hash, Structural)]
pub struct ForecastDate {
    pub days_from_ce: i32,
}

/// A forecast for one day.
#[derive(Debug, Clone, Copy, PartialEq, Structural)]
pub struct WeatherForecast {
    pub date: ForecastDate,
    pub minimum_temperature: CelsiusTemperature,
    pub maximum_temperature: CelsiusTemperature,
    pub minimum_apparent_temperature: Option<CelsiusTemperature>,
    pub maximum_apparent_temperature: Option<CelsiusTemperature>,
    pub maximum_wind_speed: Option<WindSpeed>,
    pub dominant_wind_direction: Option<WindDirection>,
    pub weather_code: Option<WeatherCode>,
}

/// Today's date in UTC. Calls chrono's `Utc::now`, takes the calendar day of
/// that instant with `DateTime::date_naive` and counts its days with
/// `Datelike::num_days_from_ce`.
///
/// The answer depends on the clock. `Utc::now` measures the time that has
/// passed since the start of 1970 and gives up on a clock that is set
/// earlier, so whatever it returns is day 719 163 (1 January 1970) or later;
/// no more is claimed.
#[verifier::external_body]
fn utc_today() -> (date: ForecastDate)
    ensures
        date.days_from_ce >= 719_163,
{
    ForecastDate { days_from_ce: chrono::Utc::now().date_naive().num_days_from_ce() }
}

impl WeatherForecast {
    /// The forecast that says nothing yet about `date`: both temperatures at
    /// zero and every optional reading absent.
    pub open spec fn blank(date: ForecastDate) -> WeatherForecast {
        WeatherForecast {
            date,
            minimum_temperature: CelsiusTemperature(0),
            maximum_temperature: CelsiusTemperature(0),
            minimum_apparent_temperature: None,
            maximum_apparent_temperature: None,
            maximum_wind_speed: None,
            dominant_wind_direction: None,
            weather_code: None,
        }
    }

    /// The blank forecast for `date`.
    pub fn for_date(date: ForecastDate) -> (r: Self)
        ensures
            r == Self::blank(date),
    {
        WeatherForecast {
            date,
            minimum_temperature: CelsiusTemperature(0),
            maximum_temperature: CelsiusTemperature(0),
            minimum_apparent_temperature: None,
            maximum_apparent_temperature: None,
            maximum_wind_speed: None,
            dominant_wind_direction: None,
            weather_code: None,
        }
    }
}

impl Default for WeatherForecast {
    /// The blank forecast for today's date in UTC, which is no day before
    /// 1 January 1970.
    fn default() -> (r: Self)
        ensures
            r == WeatherForecast::blank(r.date),
            r.date.days_from_ce >= 719_163,
    {
        WeatherForecast::for_date(utc_today())
    }
}

} // verus!
