use astroq::date::{Date, Step};
use astroq::errors::Error;
use astroq::parse::{angle, date, ephemq, latlong, object, property, step};
use astroq::query::Property;
use astroq::value::{CelObj, LatLong, Planet};

fn epoch() -> Date {
    Date { micros: 0 }
}

#[test]
fn date_unix_forms_agree() {
    let a = date(b"@86400", epoch()).unwrap();
    let b = date(b"86400u", epoch()).unwrap();
    let c = date(b"1970-01-02", epoch()).unwrap();
    assert_eq!(a.micros, 86400_000_000);
    assert_eq!(a, b);
    assert_eq!(a, c);
}

#[test]
fn date_fractional_unix() {
    assert_eq!(date(b"@86400.5", epoch()).unwrap().micros, 86400_500_000);
    assert_eq!(date(b"0.25u", epoch()).unwrap().micros, 250_000);
}

#[test]
fn date_julian_is_not_unix() {
    let jd = date(b"86400jd", epoch()).unwrap();
    assert_eq!(jd.micros, -203_401_800_000_000_000);
    assert_ne!(jd.micros, 86400_000_000);
    assert_eq!(date(b"86400j", epoch()).unwrap(), jd);
}

#[test]
fn date_calendar_forms() {
    assert_eq!(date(b"2000-01-06", epoch()).unwrap().micros, 947_116_800_000_000);
    assert_eq!(
        date(b"2000-01-06t12:30", epoch()).unwrap().micros,
        947_161_800_000_000
    );
    assert_eq!(
        date(b"2000-01-06T12:30:15", epoch()).unwrap().micros,
        947_161_815_000_000
    );
    assert_eq!(
        date(b"2000-01-06t12:30:15z", epoch()).unwrap().micros,
        947_161_815_000_000
    );
    assert_eq!(
        date(b"2000-01-06T12:30:15.5Z", epoch()).unwrap().micros,
        947_161_815_000_000
    );
    assert_eq!(
        date(b"2000-01-06t12:30:15+01:00", epoch()).unwrap().micros,
        947_158_215_000_000
    );
    assert_eq!(
        date(b"2000-01-06t12:30:15-01:30", epoch()).unwrap().micros,
        947_167_215_000_000
    );
}

#[test]
fn date_calendar_validates_fields() {
    assert_eq!(date(b"2000-13-01", epoch()), Err(Error::InvalidDate));
    assert_eq!(date(b"2000-02-30", epoch()), Err(Error::InvalidDate));
    assert_eq!(date(b"2001-02-29", epoch()), Err(Error::InvalidDate));
    assert!(date(b"2000-02-29", epoch()).is_ok());
    assert_eq!(date(b"2000-01-06t24:00", epoch()), Err(Error::InvalidDate));
    assert_eq!(date(b"2000-01-06t12:61", epoch()), Err(Error::InvalidDate));
    assert_eq!(date(b"2000-01-06t12:30:61", epoch()), Err(Error::InvalidDate));
    assert_eq!(date(b"gibberish", epoch()), Err(Error::InvalidDate));
    assert_eq!(date(b"", epoch()), Err(Error::InvalidDate));
}

#[test]
fn date_now_and_relative() {
    let now = Date { micros: 1_000_000_000_000 };
    assert_eq!(date(b"now", now).unwrap(), now);
    assert_eq!(date(b"NOW", now).unwrap(), now);
    assert_eq!(date(b"+1d", now).unwrap().micros, 1_000_000_000_000 + 86_400_000_000);
    assert_eq!(date(b"-1d", now).unwrap().micros, 1_000_000_000_000 - 86_400_000_000);
    // a sign inside the span sets no direction: stepping moves by the
    // magnitude, the leading sign alone picks the direction
    assert_eq!(date(b"+-3d", now).unwrap().micros, 1_000_000_000_000 + 259_200_000_000);
    assert_eq!(date(b"-junk", now), Err(Error::BadInterval));
}

#[test]
fn step_units() {
    assert_eq!(step(b"10s").unwrap(), Step::S(10_000_000));
    assert_eq!(step(b"1min").unwrap(), Step::S(60_000_000));
    assert_eq!(step(b"2.5h").unwrap(), Step::S(9_000_000_000));
    assert_eq!(step(b"1d").unwrap(), Step::S(86_400_000_000));
    assert_eq!(step(b"1w").unwrap(), Step::S(604_800_000_000));
    assert_eq!(step(b"-3d").unwrap(), Step::S(-259_200_000_000));
    assert_eq!(step(b"2mon").unwrap(), Step::M(2));
    assert_eq!(step(b"1y").unwrap(), Step::M(12));
    // fractional or negative calendar counts truncate toward zero months
    assert_eq!(step(b"1.5y").unwrap(), Step::M(12));
    assert_eq!(step(b"1.5mon").unwrap(), Step::M(1));
    assert_eq!(step(b"-3mon").unwrap(), Step::M(0));
    assert_eq!(step(b"-2y").unwrap(), Step::M(0));
    assert_eq!(step(b"5q"), Err(Error::BadInterval));
    assert_eq!(step(b""), Err(Error::BadInterval));
}

#[test]
fn angle_suffixes() {
    assert_eq!(angle(b"10e").unwrap(), 10_000_000);
    assert_eq!(angle(b"10w").unwrap(), -10_000_000);
    assert_eq!(angle(b"10n").unwrap(), 10_000_000);
    assert_eq!(angle(b"10s").unwrap(), -10_000_000);
    assert_eq!(angle(b"10.5d").unwrap(), 10_500_000);
    assert_eq!(angle(b"10deg").unwrap(), 10_000_000);
    assert_eq!(angle("10°".as_bytes()).unwrap(), 10_000_000);
    assert_eq!(angle(b"10D").unwrap(), 10_000_000);
    assert_eq!(angle(b"10x"), Err(Error::InvalidAngle));
    assert_eq!(angle(b"e"), Err(Error::InvalidAngle));
}

#[test]
fn angle_sign_symmetry() {
    for body in ["10", "0.5", "123.456789", "90"] {
        let e = angle(format!("{body}e").as_bytes()).unwrap();
        let w = angle(format!("{body}w").as_bytes()).unwrap();
        let n = angle(format!("{body}n").as_bytes()).unwrap();
        let s = angle(format!("{body}s").as_bytes()).unwrap();
        assert_eq!(w, -e);
        assert_eq!(s, -n);
        assert_eq!(e, n);
    }
}

#[test]
fn angle_radians_go_through_the_library() {
    // one radian is 57.295780° to the boundary's six digits; an
    // unconverted reading would give 1°
    assert_eq!(angle(b"1rad").unwrap(), 57_295_780);
}

#[test]
fn latlong_forms() {
    assert_eq!(latlong(b"none").unwrap(), None);
    assert_eq!(latlong(b"NONE").unwrap(), None);
    assert_eq!(
        latlong(b"40,-70").unwrap(),
        Some(LatLong { lat: 40_000_000, long: -70_000_000 })
    );
    assert_eq!(
        latlong(b"40n,70w").unwrap(),
        Some(LatLong { lat: 40_000_000, long: -70_000_000 })
    );
    assert_eq!(
        latlong(b"10s,20e").unwrap(),
        Some(LatLong { lat: -10_000_000, long: 20_000_000 })
    );
    assert_eq!(latlong(b"90,0").unwrap().unwrap().lat, 90_000_000);
    assert_eq!(latlong(b"-90,0").unwrap().unwrap().lat, -90_000_000);
}

#[test]
fn latitude_rejects_over_ninety_for_every_suffix() {
    for tok in ["91,0", "-91,0", "90.000001,0", "91n,0", "91s,0", "100d,0", "350n,0"] {
        assert_eq!(latlong(tok.as_bytes()), Err(Error::LatitudeOutOfRange), "{tok}");
    }
}

#[test]
fn latlong_errors() {
    assert_eq!(latlong(b"40"), Err(Error::BadCsv));
    assert_eq!(latlong(b"1,2,3"), Err(Error::BadCsv));
    assert_eq!(latlong(b"x,0"), Err(Error::InvalidAngle));
    assert_eq!(latlong(b"0,x"), Err(Error::InvalidAngle));
}

#[test]
fn property_aliases() {
    for (names, p) in [
        (vec!["equ", "equa", "equatorial", "EQU"], Property::Equatorial),
        (vec!["horiz", "horizontal"], Property::Horizontal),
        (vec!["ecl", "ecliptic"], Property::Ecliptic),
        (vec!["dist", "distance"], Property::Distance),
        (vec!["mag", "magnitude", "brightness"], Property::Magnitude),
        (vec!["phase"], Property::PhaseDefault),
        (vec!["phaseemoji"], Property::PhaseEmoji),
        (vec!["phasename"], Property::PhaseName),
        (vec!["angdia"], Property::AngDia),
        (vec!["phaseprecent", "illumfrac"], Property::IllumFrac),
        (vec!["rise"], Property::Rise),
        (vec!["set", "SET"], Property::SetTime),
    ] {
        for name in names {
            assert_eq!(property(name.as_bytes()).unwrap(), p, "{name}");
        }
    }
    assert_eq!(property(b"unknown"), Err(Error::UnknownProperty));
}

#[test]
fn object_names() {
    assert_eq!(object(b"sun").unwrap(), CelObj::Sun);
    assert_eq!(object(b"Moon").unwrap(), CelObj::Moon);
    assert_eq!(object(b"mercury").unwrap(), CelObj::Planet(Planet::Mercury));
    assert_eq!(object(b"pluto").unwrap(), CelObj::Planet(Planet::Pluto));
    assert_eq!(object(b"earth"), Err(Error::UnknownObject));
    assert_eq!(object(b"vega"), Err(Error::UnknownObject));
}

#[test]
fn ephemq_fields() {
    let (start, st, end) = ephemq(b"@0,1d,@259200", epoch()).unwrap();
    assert_eq!(start.micros, 0);
    assert_eq!(st, Step::S(86_400_000_000));
    assert_eq!(end.micros, 259_200_000_000);
    assert_eq!(ephemq(b"@0,1d", epoch()), Err(Error::BadCsv));
    assert_eq!(ephemq(b"@0,1d,@1,@2", epoch()), Err(Error::BadCsv));
    assert_eq!(ephemq(b"bad,1d,@1", epoch()), Err(Error::InvalidDate));
    assert_eq!(ephemq(b"@0,bad,@1", epoch()), Err(Error::BadInterval));
    assert_eq!(ephemq(b"@0,1d,bad", epoch()), Err(Error::InvalidDate));
}

#[test]
fn error_messages_are_stable() {
    assert_eq!(Error::InvalidDate.message(), "Invalid Date");
    assert_eq!(Error::LatitudeOutOfRange.message(), "Latitude over 90 degrees");
    assert_eq!(Error::MissingLocation.message(), "Need to specify a lat/long with -l");
    assert_eq!(Error::UndefinedForObject.message(), "Can't get phase of the Sun");
}
