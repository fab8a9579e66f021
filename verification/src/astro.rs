//! The trusted boundary to the `pracstro` astronomy library.
//!
//! Every astronomical formula — positions, distances, magnitudes, phase
//! angles, coordinate transforms, rise/set solving — is pracstro's; this
//! module never restates one.  Values cross the boundary as decimal text:
//! the verified side renders its scaled integers with `fmt::fixed6_string`
//! and reads the answers back with `fmt::text_to_micro`, so each trusted
//! body is one pracstro call between plain conversions.  Each answer is a
//! fixed function of the argument text, so it is given a name that the
//! callers' contracts speak of.
//!
//! Units on the verified side: angles in microdegrees (pracstro
//! normalizes angles into [0°, 360°)), instants in microseconds from the
//! Unix epoch, distances in micro astronomical units, magnitudes and
//! cosines in millionths, times of day in microhours.  The text forms
//! carry the same quantities at whole scale with six fraction digits.

use vstd::prelude::*;
use crate::date::{Date, date_ok};
use crate::fmt::{fixed6, fixed6_string, micro_of_text, text_to_micro};
use crate::value::{Coord, Planet};

verus! {

/// A planet's number in the contracts' naming of pracstro results.
pub open spec fn planet_code(p: Planet) -> int {
    match p {
        Planet::Mercury => 0,
        Planet::Venus => 1,
        Planet::Mars => 2,
        Planet::Jupiter => 3,
        Planet::Saturn => 4,
        Planet::Uranus => 5,
        Planet::Neptune => 6,
        Planet::Pluto => 7,
    }
}

/// Equatorial (right ascension, declination) of a planet, as degree
/// text, at the instant the second text names.
pub uninterp spec fn planet_equ_text_of(p: int, t: Seq<char>) -> (Seq<char>, Seq<char>);

/// Equatorial (right ascension, declination) of the Sun, as degree text.
pub uninterp spec fn sun_equ_text_of(t: Seq<char>) -> (Seq<char>, Seq<char>);

/// Equatorial (right ascension, declination) of the Moon, as degree text.
pub uninterp spec fn moon_equ_text_of(t: Seq<char>) -> (Seq<char>, Seq<char>);

/// Distance of a planet in astronomical units, as text.
pub uninterp spec fn planet_dist_text_of(p: int, t: Seq<char>) -> Seq<char>;

/// Distance of the Sun in astronomical units, as text.
pub uninterp spec fn sun_dist_text_of(t: Seq<char>) -> Seq<char>;

/// Distance of the Moon in astronomical units, as text.
pub uninterp spec fn moon_dist_text_of(t: Seq<char>) -> Seq<char>;

/// Apparent magnitude of a planet, as text.
pub uninterp spec fn planet_mag_text_of(p: int, t: Seq<char>) -> Seq<char>;

/// Apparent magnitude of the Sun, as text.
pub uninterp spec fn sun_mag_text_of(t: Seq<char>) -> Seq<char>;

/// Apparent magnitude of the Moon, as text.
pub uninterp spec fn moon_mag_text_of(t: Seq<char>) -> Seq<char>;

/// Phase angle of a planet in degrees, as text.
pub uninterp spec fn planet_phase_text_of(p: int, t: Seq<char>) -> Seq<char>;

/// Phase angle of the Moon in degrees, as text.
pub uninterp spec fn moon_phase_text_of(t: Seq<char>) -> Seq<char>;

/// Angular diameter of a planet in degrees, as text.
pub uninterp spec fn planet_angdia_text_of(p: int, t: Seq<char>) -> Seq<char>;

/// Angular diameter of the Sun in degrees, as text.
pub uninterp spec fn sun_angdia_text_of(t: Seq<char>) -> Seq<char>;

/// Angular diameter of the Moon in degrees, as text.
pub uninterp spec fn moon_angdia_text_of(t: Seq<char>) -> Seq<char>;

/// (Azimuth, altitude) in degrees of an equatorial coordinate over an
/// observer, as text, from (ra, dec, instant, latitude, longitude) text.
pub uninterp spec fn horizontal_text_of(
    ra: Seq<char>,
    dec: Seq<char>,
    t: Seq<char>,
    lat: Seq<char>,
    long: Seq<char>,
) -> (Seq<char>, Seq<char>);

/// (Ecliptic longitude, ecliptic latitude) in degrees of an equatorial
/// coordinate at a date, as text.
pub uninterp spec fn ecliptic_text_of(ra: Seq<char>, dec: Seq<char>, t: Seq<char>) -> (
    Seq<char>,
    Seq<char>,
);

/// The (rise, set) times of day, in hours, of an equatorial coordinate
/// over an observer, as text; nothing where the coordinate never crosses
/// that horizon.
pub uninterp spec fn riseset_text_of(
    ra: Seq<char>,
    dec: Seq<char>,
    t: Seq<char>,
    lat: Seq<char>,
    long: Seq<char>,
) -> Option<(Seq<char>, Seq<char>)>;

/// The cosine of an angle given as degree text, as text.
pub uninterp spec fn cos_text_of(deg: Seq<char>) -> Seq<char>;

/// Radian text reduced into [0, 2π) and read back as degree text.
pub uninterp spec fn deg_of_rad_text(rad: Seq<char>) -> Seq<char>;

/// Relies on `pracstro::sol::Planet::location` (`time::Date::from_unix`
/// and `Angle::degrees` converting): the planet's equatorial coordinates.
#[verifier::external_body]
fn planet_location_raw(p: &Planet, t: &str) -> (r: (String, String))
    ensures
        r.0@ == planet_equ_text_of(planet_code(*p), t@).0,
        r.1@ == planet_equ_text_of(planet_code(*p), t@).1,
{
    let pl = match p {
        Planet::Mercury => &pracstro::sol::MERCURY, Planet::Venus => &pracstro::sol::VENUS,
        Planet::Mars => &pracstro::sol::MARS, Planet::Jupiter => &pracstro::sol::JUPITER,
        Planet::Saturn => &pracstro::sol::SATURN, Planet::Uranus => &pracstro::sol::URANUS,
        Planet::Neptune => &pracstro::sol::NEPTUNE, Planet::Pluto => &pracstro::sol::PLUTO,
    };
    let d = pracstro::time::Date::from_unix(t.parse().unwrap_or_default());
    let (ra, de) = pl.location(d).equatorial();
    (format!("{:.6}", ra.degrees()), format!("{:.6}", de.degrees()))
}

/// Relies on `pracstro::sol::Sun::location`: the Sun's equatorial
/// coordinates.
#[verifier::external_body]
fn sun_location_raw(t: &str) -> (r: (String, String))
    ensures
        r.0@ == sun_equ_text_of(t@).0,
        r.1@ == sun_equ_text_of(t@).1,
{
    let d = pracstro::time::Date::from_unix(t.parse().unwrap_or_default());
    let (ra, de) = pracstro::sol::SUN.location(d).equatorial();
    (format!("{:.6}", ra.degrees()), format!("{:.6}", de.degrees()))
}

/// Relies on `pracstro::moon::Moon::location`: the Moon's equatorial
/// coordinates.
#[verifier::external_body]
fn moon_location_raw(t: &str) -> (r: (String, String))
    ensures
        r.0@ == moon_equ_text_of(t@).0,
        r.1@ == moon_equ_text_of(t@).1,
{
    let d = pracstro::time::Date::from_unix(t.parse().unwrap_or_default());
    let (ra, de) = pracstro::moon::MOON.location(d).equatorial();
    (format!("{:.6}", ra.degrees()), format!("{:.6}", de.degrees()))
}

/// Relies on `pracstro::sol::Planet::distance`: astronomical units.
#[verifier::external_body]
fn planet_distance_raw(p: &Planet, t: &str) -> (r: String)
    ensures
        r@ == planet_dist_text_of(planet_code(*p), t@),
{
    let pl = match p {
        Planet::Mercury => &pracstro::sol::MERCURY, Planet::Venus => &pracstro::sol::VENUS,
        Planet::Mars => &pracstro::sol::MARS, Planet::Jupiter => &pracstro::sol::JUPITER,
        Planet::Saturn => &pracstro::sol::SATURN, Planet::Uranus => &pracstro::sol::URANUS,
        Planet::Neptune => &pracstro::sol::NEPTUNE, Planet::Pluto => &pracstro::sol::PLUTO,
    };
    let d = pracstro::time::Date::from_unix(t.parse().unwrap_or_default());
    format!("{:.6}", pl.distance(d))
}

/// Relies on `pracstro::sol::Sun::distance`: astronomical units.
#[verifier::external_body]
fn sun_distance_raw(t: &str) -> (r: String)
    ensures
        r@ == sun_dist_text_of(t@),
{
    let d = pracstro::time::Date::from_unix(t.parse().unwrap_or_default());
    format!("{:.6}", pracstro::sol::SUN.distance(d))
}

/// Relies on `pracstro::moon::Moon::distance`: astronomical units.
#[verifier::external_body]
fn moon_distance_raw(t: &str) -> (r: String)
    ensures
        r@ == moon_dist_text_of(t@),
{
    let d = pracstro::time::Date::from_unix(t.parse().unwrap_or_default());
    format!("{:.6}", pracstro::moon::MOON.distance(d))
}

/// Relies on `pracstro::sol::Planet::magnitude`: apparent magnitude.
#[verifier::external_body]
fn planet_magnitude_raw(p: &Planet, t: &str) -> (r: String)
    ensures
        r@ == planet_mag_text_of(planet_code(*p), t@),
{
    let pl = match p {
        Planet::Mercury => &pracstro::sol::MERCURY, Planet::Venus => &pracstro::sol::VENUS,
        Planet::Mars => &pracstro::sol::MARS, Planet::Jupiter => &pracstro::sol::JUPITER,
        Planet::Saturn => &pracstro::sol::SATURN, Planet::Uranus => &pracstro::sol::URANUS,
        Planet::Neptune => &pracstro::sol::NEPTUNE, Planet::Pluto => &pracstro::sol::PLUTO,
    };
    let d = pracstro::time::Date::from_unix(t.parse().unwrap_or_default());
    format!("{:.6}", pl.magnitude(d))
}

/// Relies on `pracstro::sol::Sun::magnitude`: apparent magnitude.
#[verifier::external_body]
fn sun_magnitude_raw(t: &str) -> (r: String)
    ensures
        r@ == sun_mag_text_of(t@),
{
    let d = pracstro::time::Date::from_unix(t.parse().unwrap_or_default());
    format!("{:.6}", pracstro::sol::SUN.magnitude(d))
}

/// Relies on `pracstro::moon::Moon::magnitude`: apparent magnitude.
#[verifier::external_body]
fn moon_magnitude_raw(t: &str) -> (r: String)
    ensures
        r@ == moon_mag_text_of(t@),
{
    let d = pracstro::time::Date::from_unix(t.parse().unwrap_or_default());
    format!("{:.6}", pracstro::moon::MOON.magnitude(d))
}

/// Relies on `pracstro::sol::Planet::phaseangle`: the phase angle.
#[verifier::external_body]
fn planet_phaseangle_raw(p: &Planet, t: &str) -> (r: String)
    ensures
        r@ == planet_phase_text_of(planet_code(*p), t@),
{
    let pl = match p {
        Planet::Mercury => &pracstro::sol::MERCURY, Planet::Venus => &pracstro::sol::VENUS,
        Planet::Mars => &pracstro::sol::MARS, Planet::Jupiter => &pracstro::sol::JUPITER,
        Planet::Saturn => &pracstro::sol::SATURN, Planet::Uranus => &pracstro::sol::URANUS,
        Planet::Neptune => &pracstro::sol::NEPTUNE, Planet::Pluto => &pracstro::sol::PLUTO,
    };
    let d = pracstro::time::Date::from_unix(t.parse().unwrap_or_default());
    format!("{:.6}", pl.phaseangle(d).degrees())
}

/// Relies on `pracstro::moon::Moon::phaseangle`: the phase angle.
#[verifier::external_body]
fn moon_phaseangle_raw(t: &str) -> (r: String)
    ensures
        r@ == moon_phase_text_of(t@),
{
    let d = pracstro::time::Date::from_unix(t.parse().unwrap_or_default());
    format!("{:.6}", pracstro::moon::MOON.phaseangle(d).degrees())
}

/// Relies on `pracstro::sol::Planet::angdia`: the angular diameter.
#[verifier::external_body]
fn planet_angdia_raw(p: &Planet, t: &str) -> (r: String)
    ensures
        r@ == planet_angdia_text_of(planet_code(*p), t@),
{
    let pl = match p {
        Planet::Mercury => &pracstro::sol::MERCURY, Planet::Venus => &pracstro::sol::VENUS,
        Planet::Mars => &pracstro::sol::MARS, Planet::Jupiter => &pracstro::sol::JUPITER,
        Planet::Saturn => &pracstro::sol::SATURN, Planet::Uranus => &pracstro::sol::URANUS,
        Planet::Neptune => &pracstro::sol::NEPTUNE, Planet::Pluto => &pracstro::sol::PLUTO,
    };
    let d = pracstro::time::Date::from_unix(t.parse().unwrap_or_default());
    format!("{:.6}", pl.angdia(d).degrees())
}

/// Relies on `pracstro::sol::Sun::angdia`: the angular diameter.
#[verifier::external_body]
fn sun_angdia_raw(t: &str) -> (r: String)
    ensures
        r@ == sun_angdia_text_of(t@),
{
    let d = pracstro::time::Date::from_unix(t.parse().unwrap_or_default());
    format!("{:.6}", pracstro::sol::SUN.angdia(d).degrees())
}

/// Relies on `pracstro::moon::Moon::angdia`: the angular diameter.
#[verifier::external_body]
fn moon_angdia_raw(t: &str) -> (r: String)
    ensures
        r@ == moon_angdia_text_of(t@),
{
    let d = pracstro::time::Date::from_unix(t.parse().unwrap_or_default());
    format!("{:.6}", pracstro::moon::MOON.angdia(d).degrees())
}

/// Relies on `pracstro::coord::Coord::horizon` (`Coord::from_equatorial`
/// building its argument): azimuth and altitude for an observer.
#[verifier::external_body]
fn horizon_raw(ra: &str, dec: &str, t: &str, lat: &str, long: &str) -> (r: (String, String))
    ensures
        r.0@ == horizontal_text_of(ra@, dec@, t@, lat@, long@).0,
        r.1@ == horizontal_text_of(ra@, dec@, t@, lat@, long@).1,
{
    let c = pracstro::coord::Coord::from_equatorial(
        pracstro::time::Angle::from_degrees(ra.parse().unwrap_or_default()),
        pracstro::time::Angle::from_degrees(dec.parse().unwrap_or_default()),
    );
    let (azi, alt) = c.horizon(
        pracstro::time::Date::from_unix(t.parse().unwrap_or_default()),
        pracstro::time::Angle::from_degrees(lat.parse().unwrap_or_default()),
        pracstro::time::Angle::from_degrees(long.parse().unwrap_or_default()),
    );
    (format!("{:.6}", azi.degrees()), format!("{:.6}", alt.degrees()))
}

/// Relies on `pracstro::coord::Coord::ecliptic` (`Coord::from_equatorial`
/// building its argument): ecliptic longitude and latitude at a date.
#[verifier::external_body]
fn ecliptic_raw(ra: &str, dec: &str, t: &str) -> (r: (String, String))
    ensures
        r.0@ == ecliptic_text_of(ra@, dec@, t@).0,
        r.1@ == ecliptic_text_of(ra@, dec@, t@).1,
{
    let c = pracstro::coord::Coord::from_equatorial(
        pracstro::time::Angle::from_degrees(ra.parse().unwrap_or_default()),
        pracstro::time::Angle::from_degrees(dec.parse().unwrap_or_default()),
    );
    let (lambda, beta) = c.ecliptic(pracstro::time::Date::from_unix(t.parse().unwrap_or_default()));
    (format!("{:.6}", lambda.degrees()), format!("{:.6}", beta.degrees()))
}

/// Relies on `pracstro::coord::Coord::riseset` (`Coord::from_equatorial`
/// building its argument, `Angle::decimal` reading hours out): the rise
/// and set times of day, or nothing when the coordinate never crosses
/// the observer's horizon.
#[verifier::external_body]
fn riseset_raw(ra: &str, dec: &str, t: &str, lat: &str, long: &str) -> (r: Option<
    (String, String),
>)
    ensures
        r matches Some(p) ==> {
            &&& riseset_text_of(ra@, dec@, t@, lat@, long@) matches Some(q)
            &&& p.0@ == q.0
            &&& p.1@ == q.1
        },
        r is None ==> riseset_text_of(ra@, dec@, t@, lat@, long@) is None,
{
    let c = pracstro::coord::Coord::from_equatorial(
        pracstro::time::Angle::from_degrees(ra.parse().unwrap_or_default()),
        pracstro::time::Angle::from_degrees(dec.parse().unwrap_or_default()),
    );
    c.riseset(
        pracstro::time::Date::from_unix(t.parse().unwrap_or_default()),
        pracstro::time::Angle::from_degrees(lat.parse().unwrap_or_default()),
        pracstro::time::Angle::from_degrees(long.parse().unwrap_or_default()),
    ).map(|(up, down)| (format!("{:.6}", up.decimal()), format!("{:.6}", down.decimal())))
}

/// Relies on `pracstro::time::Angle::cos` (`Angle::from_degrees` building
/// its argument): the cosine of an angle.
#[verifier::external_body]
fn cos_raw(deg: &str) -> (r: String)
    ensures
        r@ == cos_text_of(deg@),
{
    format!("{:.6}", pracstro::time::Angle::from_degrees(deg.parse().unwrap_or_default()).cos())
}

/// Relies on `pracstro::time::Angle::from_radians` (`Angle::degrees`
/// reading the result): radians reduced into [0, 2π), as degrees.
#[verifier::external_body]
fn deg_of_rad_raw(rad: &str) -> (r: String)
    ensures
        r@ == deg_of_rad_text(rad@),
{
    format!(
        "{:.6}",
        pracstro::time::Angle::from_radians(rad.parse().unwrap_or_default()).degrees(),
    )
}

/// The instant as the text handed to pracstro: seconds from the Unix
/// epoch with six fraction digits.
pub open spec fn time_text(d: Date) -> Seq<char> {
    fixed6(d.micros as int)
}

/// Equatorial coordinates of a planet, microdegrees.
pub open spec fn spec_planet_equ(p: Planet, d: Date) -> Coord {
    let txt = planet_equ_text_of(planet_code(p), time_text(d));
    Coord { ra: micro_of_text(txt.0) as i64, dec: micro_of_text(txt.1) as i64 }
}

/// Equatorial coordinates of the Sun, microdegrees.
pub open spec fn spec_sun_equ(d: Date) -> Coord {
    let txt = sun_equ_text_of(time_text(d));
    Coord { ra: micro_of_text(txt.0) as i64, dec: micro_of_text(txt.1) as i64 }
}

/// Equatorial coordinates of the Moon, microdegrees.
pub open spec fn spec_moon_equ(d: Date) -> Coord {
    let txt = moon_equ_text_of(time_text(d));
    Coord { ra: micro_of_text(txt.0) as i64, dec: micro_of_text(txt.1) as i64 }
}

/// Distance of a planet, micro astronomical units.
pub open spec fn spec_planet_dist(p: Planet, d: Date) -> i64 {
    micro_of_text(planet_dist_text_of(planet_code(p), time_text(d))) as i64
}

/// Distance of the Sun, micro astronomical units.
pub open spec fn spec_sun_dist(d: Date) -> i64 {
    micro_of_text(sun_dist_text_of(time_text(d))) as i64
}

/// Distance of the Moon, micro astronomical units.
pub open spec fn spec_moon_dist(d: Date) -> i64 {
    micro_of_text(moon_dist_text_of(time_text(d))) as i64
}

/// Magnitude of a planet, millionths.
pub open spec fn spec_planet_mag(p: Planet, d: Date) -> i64 {
    micro_of_text(planet_mag_text_of(planet_code(p), time_text(d))) as i64
}

/// Magnitude of the Sun, millionths.
pub open spec fn spec_sun_mag(d: Date) -> i64 {
    micro_of_text(sun_mag_text_of(time_text(d))) as i64
}

/// Magnitude of the Moon, millionths.
pub open spec fn spec_moon_mag(d: Date) -> i64 {
    micro_of_text(moon_mag_text_of(time_text(d))) as i64
}

/// Phase angle of a planet, microdegrees.
pub open spec fn spec_planet_phase(p: Planet, d: Date) -> i64 {
    micro_of_text(planet_phase_text_of(planet_code(p), time_text(d))) as i64
}

/// Phase angle of the Moon, microdegrees.
pub open spec fn spec_moon_phase(d: Date) -> i64 {
    micro_of_text(moon_phase_text_of(time_text(d))) as i64
}

/// Angular diameter of a planet, microdegrees.
pub open spec fn spec_planet_angdia(p: Planet, d: Date) -> i64 {
    micro_of_text(planet_angdia_text_of(planet_code(p), time_text(d))) as i64
}

/// Angular diameter of the Sun, microdegrees.
pub open spec fn spec_sun_angdia(d: Date) -> i64 {
    micro_of_text(sun_angdia_text_of(time_text(d))) as i64
}

/// Angular diameter of the Moon, microdegrees.
pub open spec fn spec_moon_angdia(d: Date) -> i64 {
    micro_of_text(moon_angdia_text_of(time_text(d))) as i64
}

/// (Azimuth, altitude) of a coordinate over an observer, microdegrees.
pub open spec fn spec_horizontal(c: Coord, d: Date, lat: i64, long: i64) -> (i64, i64) {
    let txt = horizontal_text_of(
        fixed6(c.ra as int),
        fixed6(c.dec as int),
        time_text(d),
        fixed6(lat as int),
        fixed6(long as int),
    );
    (micro_of_text(txt.0) as i64, micro_of_text(txt.1) as i64)
}

/// (Ecliptic longitude, latitude) of a coordinate, microdegrees.
pub open spec fn spec_ecliptic(c: Coord, d: Date) -> (i64, i64) {
    let txt = ecliptic_text_of(fixed6(c.ra as int), fixed6(c.dec as int), time_text(d));
    (micro_of_text(txt.0) as i64, micro_of_text(txt.1) as i64)
}

/// The (rise, set) times of day of a coordinate over an observer, in
/// microhours; nothing where it never crosses that horizon.
pub open spec fn spec_riseset(c: Coord, d: Date, lat: i64, long: i64) -> Option<(i64, i64)> {
    match riseset_text_of(
        fixed6(c.ra as int),
        fixed6(c.dec as int),
        time_text(d),
        fixed6(lat as int),
        fixed6(long as int),
    ) {
        Some(p) => Some((micro_of_text(p.0) as i64, micro_of_text(p.1) as i64)),
        None => None,
    }
}

/// The cosine of an angle, millionths.
pub open spec fn spec_cos(microdeg: i64) -> i64 {
    micro_of_text(cos_text_of(fixed6(microdeg as int))) as i64
}

/// Microradians as microdegrees, normalized into [0°, 360°).
pub open spec fn spec_deg_of_rad(microrad: i64) -> i64 {
    micro_of_text(deg_of_rad_text(fixed6(microrad as int))) as i64
}

/// Equatorial coordinates of a planet at an instant.
pub fn planet_equatorial(p: &Planet, d: Date) -> (r: Coord)
    requires
        date_ok(d),
    ensures
        r == spec_planet_equ(*p, d),
        -1000000000000000000 < r.ra < 1000000000000000000,
        -1000000000000000000 < r.dec < 1000000000000000000,
{
    let ts = fixed6_string(d.micros);
    let (ra_s, dec_s) = planet_location_raw(p, ts.as_str());
    Coord { ra: text_to_micro(ra_s.as_str()), dec: text_to_micro(dec_s.as_str()) }
}

/// Equatorial coordinates of the Sun at an instant.
pub fn sun_equatorial(d: Date) -> (r: Coord)
    requires
        date_ok(d),
    ensures
        r == spec_sun_equ(d),
        -1000000000000000000 < r.ra < 1000000000000000000,
        -1000000000000000000 < r.dec < 1000000000000000000,
{
    let ts = fixed6_string(d.micros);
    let (ra_s, dec_s) = sun_location_raw(ts.as_str());
    Coord { ra: text_to_micro(ra_s.as_str()), dec: text_to_micro(dec_s.as_str()) }
}

/// Equatorial coordinates of the Moon at an instant.
pub fn moon_equatorial(d: Date) -> (r: Coord)
    requires
        date_ok(d),
    ensures
        r == spec_moon_equ(d),
        -1000000000000000000 < r.ra < 1000000000000000000,
        -1000000000000000000 < r.dec < 1000000000000000000,
{
    let ts = fixed6_string(d.micros);
    let (ra_s, dec_s) = moon_location_raw(ts.as_str());
    Coord { ra: text_to_micro(ra_s.as_str()), dec: text_to_micro(dec_s.as_str()) }
}

/// Distance of a planet at an instant, micro astronomical units.
pub fn planet_dist(p: &Planet, d: Date) -> (r: i64)
    requires
        date_ok(d),
    ensures
        r == spec_planet_dist(*p, d),
{
    let ts = fixed6_string(d.micros);
    let s = planet_distance_raw(p, ts.as_str());
    text_to_micro(s.as_str())
}

/// Distance of the Sun at an instant, micro astronomical units.
pub fn sun_dist(d: Date) -> (r: i64)
    requires
        date_ok(d),
    ensures
        r == spec_sun_dist(d),
{
    let ts = fixed6_string(d.micros);
    let s = sun_distance_raw(ts.as_str());
    text_to_micro(s.as_str())
}

/// Distance of the Moon at an instant, micro astronomical units.
pub fn moon_dist(d: Date) -> (r: i64)
    requires
        date_ok(d),
    ensures
        r == spec_moon_dist(d),
{
    let ts = fixed6_string(d.micros);
    let s = moon_distance_raw(ts.as_str());
    text_to_micro(s.as_str())
}

/// Magnitude of a planet at an instant, millionths.
pub fn planet_mag(p: &Planet, d: Date) -> (r: i64)
    requires
        date_ok(d),
    ensures
        r == spec_planet_mag(*p, d),
{
    let ts = fixed6_string(d.micros);
    let s = planet_magnitude_raw(p, ts.as_str());
    text_to_micro(s.as_str())
}

/// Magnitude of the Sun at an instant, millionths.
pub fn sun_mag(d: Date) -> (r: i64)
    requires
        date_ok(d),
    ensures
        r == spec_sun_mag(d),
{
    let ts = fixed6_string(d.micros);
    let s = sun_magnitude_raw(ts.as_str());
    text_to_micro(s.as_str())
}

/// Magnitude of the Moon at an instant, millionths.
pub fn moon_mag(d: Date) -> (r: i64)
    requires
        date_ok(d),
    ensures
        r == spec_moon_mag(d),
{
    let ts = fixed6_string(d.micros);
    let s = moon_magnitude_raw(ts.as_str());
    text_to_micro(s.as_str())
}

/// Phase angle of a planet at an instant, microdegrees.
pub fn planet_phase(p: &Planet, d: Date) -> (r: i64)
    requires
        date_ok(d),
    ensures
        r == spec_planet_phase(*p, d),
{
    let ts = fixed6_string(d.micros);
    let s = planet_phaseangle_raw(p, ts.as_str());
    text_to_micro(s.as_str())
}

/// Phase angle of the Moon at an instant, microdegrees.
pub fn moon_phase(d: Date) -> (r: i64)
    requires
        date_ok(d),
    ensures
        r == spec_moon_phase(d),
{
    let ts = fixed6_string(d.micros);
    let s = moon_phaseangle_raw(ts.as_str());
    text_to_micro(s.as_str())
}

/// Angular diameter of a planet at an instant, microdegrees.
pub fn planet_angular_diameter(p: &Planet, d: Date) -> (r: i64)
    requires
        date_ok(d),
    ensures
        r == spec_planet_angdia(*p, d),
{
    let ts = fixed6_string(d.micros);
    let s = planet_angdia_raw(p, ts.as_str());
    text_to_micro(s.as_str())
}

/// Angular diameter of the Sun at an instant, microdegrees.
pub fn sun_angular_diameter(d: Date) -> (r: i64)
    requires
        date_ok(d),
    ensures
        r == spec_sun_angdia(d),
{
    let ts = fixed6_string(d.micros);
    let s = sun_angdia_raw(ts.as_str());
    text_to_micro(s.as_str())
}

/// Angular diameter of the Moon at an instant, microdegrees.
pub fn moon_angular_diameter(d: Date) -> (r: i64)
    requires
        date_ok(d),
    ensures
        r == spec_moon_angdia(d),
{
    let ts = fixed6_string(d.micros);
    let s = moon_angdia_raw(ts.as_str());
    text_to_micro(s.as_str())
}

/// Azimuth and altitude of a coordinate over an observer, microdegrees.
pub fn horizontal(c: Coord, d: Date, lat: i64, long: i64) -> (r: (i64, i64))
    requires
        date_ok(d),
        -1000000000000000000 <= c.ra <= 1000000000000000000,
        -1000000000000000000 <= c.dec <= 1000000000000000000,
        -1000000000000000000 <= lat <= 1000000000000000000,
        -1000000000000000000 <= long <= 1000000000000000000,
    ensures
        r == spec_horizontal(c, d, lat, long),
{
    let ras = fixed6_string(c.ra);
    let decs = fixed6_string(c.dec);
    let ts = fixed6_string(d.micros);
    let lats = fixed6_string(lat);
    let longs = fixed6_string(long);
    let (a, b) = horizon_raw(ras.as_str(), decs.as_str(), ts.as_str(), lats.as_str(),
        longs.as_str());
    (text_to_micro(a.as_str()), text_to_micro(b.as_str()))
}

/// Ecliptic longitude and latitude of a coordinate, microdegrees.
pub fn ecliptic(c: Coord, d: Date) -> (r: (i64, i64))
    requires
        date_ok(d),
        -1000000000000000000 <= c.ra <= 1000000000000000000,
        -1000000000000000000 <= c.dec <= 1000000000000000000,
    ensures
        r == spec_ecliptic(c, d),
{
    let ras = fixed6_string(c.ra);
    let decs = fixed6_string(c.dec);
    let ts = fixed6_string(d.micros);
    let (a, b) = ecliptic_raw(ras.as_str(), decs.as_str(), ts.as_str());
    (text_to_micro(a.as_str()), text_to_micro(b.as_str()))
}

/// Rise and set times of day of a coordinate over an observer, in
/// microhours; nothing where it never crosses that horizon.
pub fn riseset(c: Coord, d: Date, lat: i64, long: i64) -> (r: Option<(i64, i64)>)
    requires
        date_ok(d),
        -1000000000000000000 <= c.ra <= 1000000000000000000,
        -1000000000000000000 <= c.dec <= 1000000000000000000,
        -1000000000000000000 <= lat <= 1000000000000000000,
        -1000000000000000000 <= long <= 1000000000000000000,
    ensures
        r == spec_riseset(c, d, lat, long),
        r matches Some(p) ==> -1000000000000000000 < p.0 < 1000000000000000000
            && -1000000000000000000 < p.1 < 1000000000000000000,
{
    let ras = fixed6_string(c.ra);
    let decs = fixed6_string(c.dec);
    let ts = fixed6_string(d.micros);
    let lats = fixed6_string(lat);
    let longs = fixed6_string(long);
    match riseset_raw(ras.as_str(), decs.as_str(), ts.as_str(), lats.as_str(), longs.as_str()) {
        Some((a, b)) => Some((text_to_micro(a.as_str()), text_to_micro(b.as_str()))),
        None => None,
    }
}

/// The cosine of an angle, millionths.
pub fn cos_micro(microdeg: i64) -> (r: i64)
    requires
        -1000000000000000000 <= microdeg <= 1000000000000000000,
    ensures
        r == spec_cos(microdeg),
        -1000000000000000000 < r < 1000000000000000000,
{
    let s = fixed6_string(microdeg);
    let c = cos_raw(s.as_str());
    text_to_micro(c.as_str())
}

/// Microradians as microdegrees, normalized into [0°, 360°).
pub fn rad_to_microdeg(microrad: i64) -> (r: i64)
    requires
        -1000000000000000000 <= microrad <= 1000000000000000000,
    ensures
        r == spec_deg_of_rad(microrad),
        -1000000000000000000 < r < 1000000000000000000,
{
    let s = fixed6_string(microrad);
    let d = deg_of_rad_raw(s.as_str());
    text_to_micro(d.as_str())
}

} // verus!
