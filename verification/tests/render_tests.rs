use astroq::date::Date;
use astroq::render::render;
use astroq::value::{AngView, Coord, CrdView, PhaseView, Value};

#[test]
fn renders_rise_set_dates() {
    let v = Value::RsTime(Some(Date { micros: 947_161_815_000_000 }));
    assert_eq!(render(&v), "2000-01-06T12:30:15");
    let epoch = Value::RsTime(Some(Date { micros: 0 }));
    assert_eq!(render(&epoch), "1970-01-01T00:00:00");
    let pre = Value::RsTime(Some(Date { micros: -1_000_000 }));
    assert_eq!(render(&pre), "1969-12-31T23:59:59");
}

#[test]
fn never_sentinel_for_missing_events() {
    assert_eq!(render(&Value::RsTime(None)), "never");
}

#[test]
fn renders_angles() {
    assert_eq!(render(&Value::Ang(10_500_000, AngView::Angle)), "10°30′0.0″");
    assert_eq!(render(&Value::Ang(0, AngView::Angle)), "0°0′0.0″");
    // angles wrap into [0°, 360°)
    assert_eq!(render(&Value::Ang(-10_000_000, AngView::Angle)), "350°0′0.0″");
    assert_eq!(render(&Value::Ang(10_000_000, AngView::Latitude)), "+10°0′0.0″");
    assert_eq!(render(&Value::Ang(-10_000_000, AngView::Latitude)), "-10°0′0.0″");
    assert_eq!(render(&Value::Ang(187_500_000, AngView::Time)), "12h30m00s");
    assert_eq!(render(&Value::Ang(0, AngView::Time)), "00h00m00s");
    assert_eq!(render(&Value::Ang(123_456_789, AngView::Raw)), "123.45678");
}

#[test]
fn renders_distance_and_numbers() {
    assert_eq!(render(&Value::Dist(1_234_567)), "1.234567 AU");
    assert_eq!(render(&Value::Num(-1_234_567)), "-1.23");
    assert_eq!(render(&Value::Num(5_000_000)), "5.00");
}

#[test]
fn phase_names_from_angles() {
    // cosine of the phase angle drives the illuminated fraction
    assert_eq!(render(&Value::Phase(0, PhaseView::PhaseName)), "New");
    assert_eq!(render(&Value::Phase(90_000_000, PhaseView::PhaseName)), "First Quarter");
    assert_eq!(render(&Value::Phase(180_000_000, PhaseView::PhaseName)), "Full");
    assert_eq!(render(&Value::Phase(270_000_000, PhaseView::PhaseName)), "Last Quarter");
    assert_eq!(render(&Value::Phase(60_000_000, PhaseView::PhaseName)), "Waxing Crescent");
    // past 90° the waning half of the table is taken
    assert_eq!(render(&Value::Phase(120_000_000, PhaseView::PhaseName)), "Waning Gibbous");
    assert_eq!(render(&Value::Phase(240_000_000, PhaseView::PhaseName)), "Waning Gibbous");
    assert_eq!(render(&Value::Phase(300_000_000, PhaseView::PhaseName)), "Waning Crescent");
}

#[test]
fn all_eight_phases_have_names_and_emoji() {
    let names: Vec<&str> = (0..8).map(astroq::render::phase_name).collect();
    assert_eq!(
        names,
        vec![
            "New",
            "Waxing Crescent",
            "First Quarter",
            "Waxing Gibbous",
            "Full",
            "Waning Gibbous",
            "Last Quarter",
            "Waning Crescent"
        ]
    );
    let north: Vec<&str> = (0..8).map(|i| astroq::render::phase_emoji(i, true)).collect();
    assert_eq!(north, vec!["🌑", "🌒", "🌓", "🌔", "🌕", "🌖", "🌗", "🌘"]);
    let south: Vec<&str> = (0..8).map(|i| astroq::render::phase_emoji(i, false)).collect();
    assert_eq!(south, vec!["🌑", "🌘", "🌗", "🌖", "🌕", "🌔", "🌓", "🌒"]);
}

#[test]
fn phase_emoji_tables_mirror() {
    assert_eq!(render(&Value::Phase(0, PhaseView::Emoji(true))), "🌑");
    assert_eq!(render(&Value::Phase(0, PhaseView::Emoji(false))), "🌑");
    assert_eq!(render(&Value::Phase(60_000_000, PhaseView::Emoji(true))), "🌒");
    assert_eq!(render(&Value::Phase(60_000_000, PhaseView::Emoji(false))), "🌘");
    assert_eq!(render(&Value::Phase(180_000_000, PhaseView::Emoji(true))), "🌕");
    assert_eq!(render(&Value::Phase(180_000_000, PhaseView::Emoji(false))), "🌕");
}

#[test]
fn phase_fraction_and_default() {
    assert_eq!(render(&Value::Phase(0, PhaseView::Illumfrac)), "0.0");
    assert_eq!(render(&Value::Phase(180_000_000, PhaseView::Illumfrac)), "100.0");
    assert_eq!(render(&Value::Phase(90_000_000, PhaseView::Illumfrac)), "50.0");
    assert_eq!(render(&Value::Phase(0, PhaseView::Default(true))), "🌑 New (0%)");
    assert_eq!(render(&Value::Phase(180_000_000, PhaseView::Default(true))), "🌕 Full (100%)");
}

#[test]
fn renders_equatorial_coordinates() {
    let c = Coord { ra: 187_500_000, dec: -10_000_000 };
    assert_eq!(render(&Value::Crd(c, CrdView::Equatorial)), "12h30m00s -10°0′0.0″");
}

#[test]
fn ecliptic_view_transforms_through_the_library() {
    // the Sun sits on the ecliptic: its ecliptic latitude is near zero,
    // while its declination at this date is near -22.5°; an untransformed
    // pair would keep the declination
    let d = Date { micros: 947_116_800_000_000 };
    let sun = pracstro::sol::SUN.location(pracstro::time::Date::from_unix(947_116_800.0));
    let (ra, de) = sun.equatorial();
    let c = Coord {
        ra: (ra.degrees() * 1e6) as i64,
        dec: (de.degrees() * 1e6) as i64,
    };
    let text = render(&Value::Crd(c, CrdView::Ecliptic(d)));
    let lat_part = text.split(' ').nth(1).unwrap();
    assert!(
        lat_part.starts_with("+0°") || lat_part.starts_with("-0°"),
        "ecliptic latitude of the Sun should be near zero: {text}"
    );
    assert_ne!(text, render(&Value::Crd(c, CrdView::Equatorial)));
}
