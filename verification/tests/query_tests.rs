use astroq::date::{Date, Step, step_forward_date};
use astroq::errors::Error;
use astroq::query::{ephemeris, property_of, run, Property};
use astroq::render::render;
use astroq::value::{CelObj, CrdView, LatLong, RefFrame, Value};

fn frame_at(micros: i64, latlong: Option<LatLong>) -> RefFrame {
    RefFrame { date: Date { micros }, latlong }
}

fn near_new_moon() -> RefFrame {
    // 2000-01-06, a known near-new-moon date
    frame_at(947_116_800_000_000, None)
}

#[test]
fn phase_of_the_sun_always_fails() {
    for micros in [0i64, 947_116_800_000_000, -5_000_000_000_000] {
        for p in [
            Property::PhaseDefault,
            Property::PhaseName,
            Property::PhaseEmoji,
            Property::IllumFrac,
        ] {
            assert_eq!(
                property_of(&CelObj::Sun, p, &frame_at(micros, None)),
                Err(Error::UndefinedForObject)
            );
        }
    }
}

#[test]
fn horizon_properties_need_a_location() {
    for obj in [CelObj::Sun, CelObj::Moon] {
        for p in [Property::Horizontal, Property::Rise, Property::SetTime] {
            assert_eq!(
                property_of(&obj, p, &near_new_moon()),
                Err(Error::MissingLocation)
            );
        }
    }
    let located = frame_at(947_116_800_000_000, Some(LatLong { lat: 40_000_000, long: 0 }));
    assert!(property_of(&CelObj::Moon, Property::Horizontal, &located).is_ok());
}

#[test]
fn equatorial_matches_the_astronomy_library() {
    let v = property_of(&CelObj::Sun, Property::Equatorial, &near_new_moon()).unwrap();
    let Value::Crd(c, CrdView::Equatorial) = v else {
        panic!("expected an equatorial coordinate, got {v:?}");
    };
    let sun = pracstro::sol::SUN.location(pracstro::time::Date::from_unix(947_116_800.0));
    let (ra, de) = sun.equatorial();
    assert!((c.ra as f64 / 1e6 - ra.degrees()).abs() < 1e-5);
    assert!((c.dec as f64 / 1e6 - de.degrees()).abs() < 1e-5);
}

#[test]
fn distance_and_magnitude_are_sane() {
    let v = property_of(&CelObj::Sun, Property::Distance, &near_new_moon()).unwrap();
    let Value::Dist(d) = v else {
        panic!("expected a distance, got {v:?}");
    };
    let au = d as f64 / 1e6;
    assert!(au > 0.9 && au < 1.1, "Sun distance should be near one AU: {au}");
    let m = property_of(&CelObj::Sun, Property::Magnitude, &near_new_moon()).unwrap();
    assert!(render(&m).starts_with("-26."), "Sun magnitude: {}", render(&m));
}

#[test]
fn angular_diameter_of_the_sun() {
    let v = property_of(&CelObj::Sun, Property::AngDia, &near_new_moon()).unwrap();
    let text = render(&v);
    assert!(text.starts_with("0°3"), "about half a degree: {text}");
}

#[test]
fn near_new_moon_phase() {
    let v = property_of(&CelObj::Moon, Property::IllumFrac, &near_new_moon()).unwrap();
    let pct: f64 = render(&v).parse().unwrap();
    assert!(pct < 4.0, "illuminated fraction near zero, got {pct}%");
    let name = property_of(&CelObj::Moon, Property::PhaseName, &near_new_moon()).unwrap();
    assert_eq!(render(&name), "New");
    let emoji = property_of(&CelObj::Moon, Property::PhaseEmoji, &near_new_moon()).unwrap();
    assert_eq!(render(&emoji), "🌑");
}

#[test]
fn rise_and_set_fall_on_the_frame_day() {
    let located = frame_at(947_116_800_000_000, Some(LatLong { lat: 40_000_000, long: 0 }));
    let rise = property_of(&CelObj::Sun, Property::Rise, &located).unwrap();
    let Value::RsTime(Some(d)) = rise else {
        panic!("the Sun rises at latitude 40: {rise:?}");
    };
    assert!(render(&Value::RsTime(Some(d))).starts_with("2000-01-06T"));
    let set = property_of(&CelObj::Sun, Property::SetTime, &located).unwrap();
    assert!(matches!(set, Value::RsTime(Some(_))));
    assert_ne!(rise, set);
}

#[test]
fn run_keeps_order_and_stops_at_the_first_failure() {
    let rf = near_new_moon();
    let props = [Property::Distance, Property::Magnitude];
    let vals = run(&CelObj::Moon, &props, &rf).unwrap();
    assert_eq!(vals.len(), 2);
    assert_eq!(Ok(vals[0]), property_of(&CelObj::Moon, Property::Distance, &rf));
    assert_eq!(Ok(vals[1]), property_of(&CelObj::Moon, Property::Magnitude, &rf));

    let failing = [Property::Distance, Property::PhaseDefault, Property::Magnitude];
    assert_eq!(run(&CelObj::Sun, &failing, &rf), Err(Error::UndefinedForObject));
    assert_eq!(run(&CelObj::Sun, &[], &rf), Ok(vec![]));
}

#[test]
fn ephemeris_fixed_step_is_exact_and_excludes_the_end() {
    let start = Date { micros: 0 };
    let end = Date { micros: 259_200_000_000 };
    let rows = ephemeris(
        &CelObj::Moon,
        &[Property::Distance],
        None,
        start,
        Step::S(86_400_000_000),
        end,
    )
    .unwrap();
    assert_eq!(rows.len(), 3);
    for (i, row) in rows.iter().enumerate() {
        assert_eq!(row.date.micros, i as i64 * 86_400_000_000);
        assert!(row.date.micros < end.micros);
        assert_eq!(row.values.len(), 1);
    }
    // an empty range yields an empty table
    let none = ephemeris(
        &CelObj::Moon,
        &[Property::Distance],
        None,
        end,
        Step::S(86_400_000_000),
        start,
    )
    .unwrap();
    assert_eq!(none.len(), 0);
}

#[test]
fn ephemeris_surfaces_resolution_errors() {
    let r = ephemeris(
        &CelObj::Sun,
        &[Property::PhaseDefault],
        None,
        Date { micros: 0 },
        Step::S(86_400_000_000),
        Date { micros: 86_400_000_000 },
    );
    assert_eq!(r, Err(Error::UndefinedForObject));
}

#[test]
fn month_steps_follow_the_calendar_convention() {
    // stepping a month from January 31st clamps to the leap day, as the
    // calendar library documents
    let jan31 = Date { micros: 949_276_800_000_000 };
    let feb29 = step_forward_date(jan31, Step::M(1));
    assert_eq!(feb29.micros, 951_782_400_000_000);
    let expected = chrono::DateTime::from_timestamp(949_276_800, 0)
        .unwrap()
        .checked_add_months(chrono::Months::new(1))
        .unwrap()
        .timestamp();
    assert_eq!(feb29.micros, expected * 1_000_000);

    let rows = ephemeris(
        &CelObj::Moon,
        &[Property::Distance],
        None,
        jan31,
        Step::M(1),
        Date { micros: 955_000_000_000_000 },
    )
    .unwrap();
    let dates: Vec<i64> = rows.iter().map(|r| r.date.micros).collect();
    assert_eq!(
        dates,
        vec![949_276_800_000_000, 951_782_400_000_000, 954_288_000_000_000]
    );
}

#[test]
fn horizontal_view_carries_the_frame() {
    let located = frame_at(947_116_800_000_000, Some(LatLong { lat: 40_000_000, long: 0 }));
    let h = property_of(&CelObj::Sun, Property::Horizontal, &located).unwrap();
    let Value::Crd(c, CrdView::Horizontal(rf)) = h else {
        panic!("expected a horizontal coordinate, got {h:?}");
    };
    assert_eq!(rf, located);
    let text = render(&h);
    assert_ne!(text, render(&Value::Crd(c, CrdView::Equatorial)));
    assert!(text.contains(' '));
}

#[test]
fn hemisphere_follows_the_latitude_sign() {
    let south = frame_at(
        947_116_800_000_000,
        Some(LatLong { lat: -30_000_000, long: 20_000_000 }),
    );
    let north = frame_at(
        947_116_800_000_000,
        Some(LatLong { lat: 30_000_000, long: 20_000_000 }),
    );
    let vs = property_of(&CelObj::Moon, Property::PhaseEmoji, &south).unwrap();
    let vn = property_of(&CelObj::Moon, Property::PhaseEmoji, &north).unwrap();
    assert!(matches!(vs, Value::Phase(_, astroq::value::PhaseView::Emoji(false))));
    assert!(matches!(vn, Value::Phase(_, astroq::value::PhaseView::Emoji(true))));
}

#[test]
fn planet_properties_match_the_astronomy_library() {
    let v = property_of(
        &CelObj::Planet(astroq::value::Planet::Mars),
        Property::Equatorial,
        &near_new_moon(),
    )
    .unwrap();
    let Value::Crd(c, CrdView::Equatorial) = v else {
        panic!("expected an equatorial coordinate, got {v:?}");
    };
    let mars = pracstro::sol::MARS.location(pracstro::time::Date::from_unix(947_116_800.0));
    let (ra, de) = mars.equatorial();
    assert!((c.ra as f64 / 1e6 - ra.degrees()).abs() < 1e-5);
    assert!((c.dec as f64 / 1e6 - de.degrees()).abs() < 1e-5);

    let d = property_of(
        &CelObj::Planet(astroq::value::Planet::Mars),
        Property::Distance,
        &near_new_moon(),
    )
    .unwrap();
    let Value::Dist(au_micro) = d else {
        panic!("expected a distance, got {d:?}");
    };
    let expect = pracstro::sol::MARS.distance(pracstro::time::Date::from_unix(947_116_800.0));
    assert!((au_micro as f64 / 1e6 - expect).abs() < 1e-5);
}

#[test]
fn moon_location_matches_the_astronomy_library() {
    let v = property_of(&CelObj::Moon, Property::Equatorial, &near_new_moon()).unwrap();
    let Value::Crd(c, CrdView::Equatorial) = v else {
        panic!("expected an equatorial coordinate, got {v:?}");
    };
    let moon = pracstro::moon::MOON.location(pracstro::time::Date::from_unix(947_116_800.0));
    let (ra, de) = moon.equatorial();
    assert!((c.ra as f64 / 1e6 - ra.degrees()).abs() < 1e-5);
    assert!((c.dec as f64 / 1e6 - de.degrees()).abs() < 1e-5);
}

#[test]
fn month_steps_backward_clamp_too() {
    // 2000-03-31 back one month clamps to the leap day
    let mar31 = Date { micros: 954_460_800_000_000 };
    let back = astroq::date::step_back_date(mar31, Step::M(1));
    assert_eq!(back.micros, 951_782_400_000_000);
    let parsed = astroq::parse::date(b"-1mon", mar31).unwrap();
    assert_eq!(parsed, back);
}
