//! Team weather tracking: an event-sourced team aggregate and the read-side
//! view that is folded from its events, with the contracts of both proved.
//!
//! A team takes commands (`commands`), checks them against its state and
//! answers each with the events that record it or with the reason for which
//! it is rejected (`aggregate`, `events`, `error`). The state is nothing but
//! the events applied in their order. A view (`view`) is folded from the
//! same events and carries statistics over the latest forecasts
//! (`statistics`, `forecasts`). What holds of all of this whatever the
//! commands and events is stated and proved in `laws`.

pub mod aggregate;
pub mod commands;
pub mod error;
pub mod events;
pub mod forecasts;
pub mod laws;
pub mod statistics;
pub mod team;
pub mod view;
pub mod weather;

pub use team::{Member, MemberId, MemberView, Team, TeamId};
pub use view::TeamView;
pub use weather::{
    CelsiusTemperature, ForecastDate, WeatherCode, WeatherForecast, WindDirection, WindSpeed,
    WindSpeedUnit,
};
