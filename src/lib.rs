//! Conversion of Gregorian dates into the Japanese lunisolar (Tempo) calendar,
//! with the six-day rokuyo cycle derived from the result.

pub mod error;
pub mod rokuyo;

pub use error::TempoError;
pub use rokuyo::Rokuyo;
pub mod julian;
pub mod ephemeris;
pub mod locate;
pub mod tempo;

pub use julian::{from_julian_date, julian_century, to_julian_date, DateTime};
pub use locate::{calculate_leading_24sekki, calculate_leading_saku};
pub use tempo::{LunarMonth, TempoDate, ZonedDate};
