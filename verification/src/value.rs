//! The typed values a query resolves to, and their views.
//!
//! A `Value` pairs a computed quantity with a view tag saying how it is
//! rendered; the resolver, not the caller, assigns the view.  Angles are
//! microdegrees, distances micro astronomical units, dimensionless
//! numbers millionths, and phase values carry the phase angle in
//! microdegrees.

use vstd::prelude::*;
use crate::date::Date;

verus! {

/// A planet of the solar system (the observing site's own planet is not
/// in the catalog).
#[derive(Clone, Copy, Debug, PartialEq, Eq, Structural)]
pub enum Planet {
    Mercury,
    Venus,
    Mars,
    Jupiter,
    Saturn,
    Uranus,
    Neptune,
    Pluto,
}

/// A celestial object the catalog can name.
#[derive(Clone, Copy, Debug, PartialEq, Eq, Structural)]
pub enum CelObj {
    Sun,
    Moon,
    Planet(Planet),
}

/// An observer location: latitude and longitude in microdegrees.
#[derive(Clone, Copy, Debug, PartialEq, Eq, Structural)]
pub struct LatLong {
    pub lat: i64,
    pub long: i64,
}

/// The context a property is evaluated against: an instant, and
/// optionally an observer location.
#[derive(Clone, Copy, Debug, PartialEq, Eq, Structural)]
pub struct RefFrame {
    pub date: Date,
    pub latlong: Option<LatLong>,
}

/// A pair of equatorial angles: right ascension and declination, in
/// microdegrees.
#[derive(Clone, Copy, Debug, PartialEq, Eq, Structural)]
pub struct Coord {
    pub ra: i64,
    pub dec: i64,
}

/// How a coordinate pair is to be shown: as it stands, through the
/// horizon of a carried frame, or on the ecliptic of a carried date.
#[derive(Clone, Copy, Debug, PartialEq, Eq, Structural)]
pub enum CrdView {
    Equatorial,
    Horizontal(RefFrame),
    Ecliptic(Date),
}

/// How an angle is to be shown: unsigned degrees-minutes-seconds, a
/// signed latitude, raw decimal degrees, or a clock-style hour angle.
#[derive(Clone, Copy, Debug, PartialEq, Eq, Structural)]
pub enum AngView {
    Angle,
    Latitude,
    Raw,
    Time,
}

/// How a phase angle is to be shown.  The flag on `Default` and `Emoji`
/// is true for a northern-hemisphere observer.
#[derive(Clone, Copy, Debug, PartialEq, Eq, Structural)]
pub enum PhaseView {
    Default(bool),
    Emoji(bool),
    PhaseName,
    Illumfrac,
}

/// A resolved property value together with its view.
#[derive(Clone, Copy, Debug, PartialEq, Eq, Structural)]
pub enum Value {
    /// An equatorial coordinate pair and the system to show it in.
    Crd(Coord, CrdView),
    /// An angle in microdegrees.
    Ang(i64, AngView),
    /// A distance in micro astronomical units.
    Dist(i64),
    /// A dimensionless number in millionths.
    Num(i64),
    /// A phase angle in microdegrees.
    Phase(i64, PhaseView),
    /// The instant of a rise or set; nothing when the object never
    /// crosses the horizon that day.
    RsTime(Option<Date>),
}

} // verus!
