//! Calculator core for properties of celestial objects.
//!
//! Given an object (the Sun, the Moon, or a planet), a reference frame (an
//! instant, and optionally an observer latitude/longitude), and a requested
//! property, the library resolves the property to a typed value and renders
//! it as text.  It also parses the heterogeneous textual literals (dates,
//! angles, time steps, locations) that queries are made of, and steps dates
//! for ephemeris tables.
//!
//! All quantities are carried as scaled integers: instants as microseconds
//! since the Unix epoch, angles as microdegrees, distances as micro
//! astronomical units, magnitudes and illuminated fractions in
//! millionths.  The astronomical formulas themselves (positions, rise/set
//! solving, phase angles) are supplied by the `pracstro` crate and calendar
//! month arithmetic by `chrono`; both are reached only through the trusted
//! declarations in `astro` and `date`.

pub mod astro;
pub mod calendar;
pub mod date;
pub mod errors;
pub mod fmt;
pub mod laws;
pub mod num;
pub mod parse;
pub mod query;
pub mod render;
pub mod value;
