//! Property resolution: from an object, a property and a reference frame
//! to a typed value, one query or a time-stepped table of them.

use vstd::prelude::*;
use crate::astro;
use crate::astro::{
    spec_planet_equ, spec_sun_equ, spec_moon_equ, spec_planet_dist, spec_sun_dist,
    spec_moon_dist, spec_planet_mag, spec_sun_mag, spec_moon_mag, spec_planet_phase,
    spec_moon_phase, spec_planet_angdia, spec_sun_angdia, spec_moon_angdia, spec_riseset,
};
use crate::date::{
    Date, Step, date_ok, step_ok, step_progresses, spec_step_forward, step_forward_date,
    MAX_DATE_MICROS, MICROS_PER_DAY,
};
use crate::errors::Error;
use crate::num::div_floor;
use crate::value::{CelObj, Coord, CrdView, LatLong, PhaseView, RefFrame, Value};

verus! {

/// A property a query may ask of an object.
#[derive(Clone, Copy, Debug, PartialEq, Eq, Structural)]
pub enum Property {
    Equatorial,
    Horizontal,
    Ecliptic,
    Distance,
    Magnitude,
    PhaseDefault,
    PhaseName,
    PhaseEmoji,
    AngDia,
    IllumFrac,
    Rise,
    SetTime,
}

impl Property {
    /// The property's table heading.
    pub fn label(&self) -> (r: &'static str)
        ensures
            r@ == self.spec_label(),
    {
        match self {
            Property::Equatorial => "Coordinates (RA/De)",
            Property::Horizontal => "Coordinates (Azi/Alt)",
            Property::Ecliptic => "Coordinates (Ecliptic)",
            Property::Distance => "Distance",
            Property::Magnitude => "Magnitude",
            Property::PhaseDefault => "Phase",
            Property::PhaseEmoji => "Phase Emoji",
            Property::PhaseName => "Phase Name",
            Property::IllumFrac => "Illuminated Frac.",
            Property::AngDia => "Angular Diameter",
            Property::Rise => "Rise Time",
            Property::SetTime => "Set Time",
        }
    }

    /// The text `label` returns, for use in contracts.
    pub open spec fn spec_label(&self) -> Seq<char> {
        match self {
            Property::Equatorial => "Coordinates (RA/De)"@,
            Property::Horizontal => "Coordinates (Azi/Alt)"@,
            Property::Ecliptic => "Coordinates (Ecliptic)"@,
            Property::Distance => "Distance"@,
            Property::Magnitude => "Magnitude"@,
            Property::PhaseDefault => "Phase"@,
            Property::PhaseEmoji => "Phase Emoji"@,
            Property::PhaseName => "Phase Name"@,
            Property::IllumFrac => "Illuminated Frac."@,
            Property::AngDia => "Angular Diameter"@,
            Property::Rise => "Rise Time"@,
            Property::SetTime => "Set Time"@,
        }
    }
}

/// The observer is on the northern hemisphere; an absent location counts
/// as northern.
pub open spec fn spec_hemisphere(ll: Option<LatLong>) -> bool {
    match ll {
        Some(l) => l.lat >= 0,
        None => true,
    }
}

/// An observer location the library can hand to the astronomy boundary.
pub open spec fn latlong_ok(ll: Option<LatLong>) -> bool {
    match ll {
        Some(l) => {
            &&& -1000000000000000000 <= l.lat <= 1000000000000000000
            &&& -1000000000000000000 <= l.long <= 1000000000000000000
        },
        None => true,
    }
}

/// A reference frame resolution accepts.
pub open spec fn frame_ok(rf: RefFrame) -> bool {
    date_ok(rf.date) && latlong_ok(rf.latlong)
}

/// The equatorial coordinates of an object at an instant.
pub open spec fn spec_equ_coord(obj: CelObj, d: Date) -> Coord {
    match obj {
        CelObj::Sun => spec_sun_equ(d),
        CelObj::Moon => spec_moon_equ(d),
        CelObj::Planet(p) => spec_planet_equ(p, d),
    }
}

/// The instant of a rise or set event: the frame's day (midnight UT) plus
/// the event's time of day.  A time of day outside one day — which the
/// rise/set solver never produces — counts as midnight.
pub open spec fn spec_event_date(d: Date, microhours: int) -> Date {
    let day_start = (d.micros as int / (MICROS_PER_DAY as int)) * (MICROS_PER_DAY as int);
    let mh = if 0 <= microhours <= 24000000 {
        microhours
    } else {
        0
    };
    Date { micros: (day_start + mh * 3600) as i64 }
}

/// What resolving a property answers: the value, or exactly the error
/// owed for the input.
pub open spec fn spec_resolve(obj: CelObj, q: Property, rf: RefFrame) -> Result<Value, Error> {
    match q {
        Property::Equatorial => Ok(Value::Crd(spec_equ_coord(obj, rf.date), CrdView::Equatorial)),
        Property::Horizontal => match rf.latlong {
            None => Err(Error::MissingLocation),
            Some(_) => Ok(Value::Crd(spec_equ_coord(obj, rf.date), CrdView::Horizontal(rf))),
        },
        Property::Ecliptic => Ok(
            Value::Crd(spec_equ_coord(obj, rf.date), CrdView::Ecliptic(rf.date)),
        ),
        Property::Rise => match rf.latlong {
            None => Err(Error::MissingLocation),
            Some(l) => match spec_riseset(spec_equ_coord(obj, rf.date), rf.date, l.lat, l.long) {
                Some(times) => Ok(Value::RsTime(Some(spec_event_date(rf.date, times.0 as int)))),
                None => Ok(Value::RsTime(None)),
            },
        },
        Property::SetTime => match rf.latlong {
            None => Err(Error::MissingLocation),
            Some(l) => match spec_riseset(spec_equ_coord(obj, rf.date), rf.date, l.lat, l.long) {
                Some(times) => Ok(Value::RsTime(Some(spec_event_date(rf.date, times.1 as int)))),
                None => Ok(Value::RsTime(None)),
            },
        },
        Property::Distance => Ok(Value::Dist(match obj {
            CelObj::Sun => spec_sun_dist(rf.date),
            CelObj::Moon => spec_moon_dist(rf.date),
            CelObj::Planet(p) => spec_planet_dist(p, rf.date),
        })),
        Property::Magnitude => Ok(Value::Num(match obj {
            CelObj::Sun => spec_sun_mag(rf.date),
            CelObj::Moon => spec_moon_mag(rf.date),
            CelObj::Planet(p) => spec_planet_mag(p, rf.date),
        })),
        Property::PhaseDefault => match obj {
            CelObj::Sun => Err(Error::UndefinedForObject),
            CelObj::Moon => Ok(
                Value::Phase(spec_moon_phase(rf.date), PhaseView::Default(spec_hemisphere(rf.latlong))),
            ),
            CelObj::Planet(p) => Ok(
                Value::Phase(spec_planet_phase(p, rf.date), PhaseView::Default(spec_hemisphere(rf.latlong))),
            ),
        },
        Property::PhaseEmoji => match obj {
            CelObj::Sun => Err(Error::UndefinedForObject),
            CelObj::Moon => Ok(
                Value::Phase(spec_moon_phase(rf.date), PhaseView::Emoji(spec_hemisphere(rf.latlong))),
            ),
            CelObj::Planet(p) => Ok(
                Value::Phase(spec_planet_phase(p, rf.date), PhaseView::Emoji(spec_hemisphere(rf.latlong))),
            ),
        },
        Property::PhaseName => match obj {
            CelObj::Sun => Err(Error::UndefinedForObject),
            CelObj::Moon => Ok(Value::Phase(spec_moon_phase(rf.date), PhaseView::PhaseName)),
            CelObj::Planet(p) => Ok(
                Value::Phase(spec_planet_phase(p, rf.date), PhaseView::PhaseName),
            ),
        },
        Property::IllumFrac => match obj {
            CelObj::Sun => Err(Error::UndefinedForObject),
            CelObj::Moon => Ok(Value::Phase(spec_moon_phase(rf.date), PhaseView::Illumfrac)),
            CelObj::Planet(p) => Ok(
                Value::Phase(spec_planet_phase(p, rf.date), PhaseView::Illumfrac),
            ),
        },
        Property::AngDia => Ok(Value::Ang(match obj {
            CelObj::Sun => spec_sun_angdia(rf.date),
            CelObj::Moon => spec_moon_angdia(rf.date),
            CelObj::Planet(p) => spec_planet_angdia(p, rf.date),
        }, crate::value::AngView::Angle)),
    }
}

/// The object's equatorial coordinates at the frame's instant.
fn equ_coord(obj: &CelObj, d: Date) -> (r: Coord)
    requires
        date_ok(d),
    ensures
        r == spec_equ_coord(*obj, d),
        -1000000000000000000 < r.ra < 1000000000000000000,
        -1000000000000000000 < r.dec < 1000000000000000000,
{
    match obj {
        CelObj::Sun => astro::sun_equatorial(d),
        CelObj::Moon => astro::moon_equatorial(d),
        CelObj::Planet(p) => astro::planet_equatorial(p, d),
    }
}

/// The instant of a rise or set event on the frame's day.
fn event_date(d: Date, microhours: i64) -> (r: Date)
    requires
        date_ok(d),
        -1000000000000000000 <= microhours <= 1000000000000000000,
    ensures
        r == spec_event_date(d, microhours as int),
{
    let day: i64 = div_floor(d.micros, MICROS_PER_DAY);
    proof {
        vstd::arithmetic::div_mod::lemma_fundamental_div_mod(d.micros as int, MICROS_PER_DAY as int);
        vstd::arithmetic::div_mod::lemma_mod_bound(d.micros as int, MICROS_PER_DAY as int);
        assert((MICROS_PER_DAY as int) * (d.micros as int / (MICROS_PER_DAY as int))
            == (d.micros as int / (MICROS_PER_DAY as int)) * (MICROS_PER_DAY as int))
            by (nonlinear_arith);
    }
    let day_start: i64 = day * MICROS_PER_DAY;
    let mh: i64 = if 0 <= microhours && microhours <= 24000000 {
        microhours
    } else {
        0
    };
    Date { micros: day_start + mh * 3600 }
}

/// Resolves one property of one object in one frame.  Base properties go
/// straight to the astronomy boundary; derived ones reuse the equatorial
/// coordinates or the phase angle and rewrap them under their own view.
/// Asking the phase of the Sun, or a horizon-dependent property without
/// an observer location, is answered with the owed error.
pub fn property_of(obj: &CelObj, q: Property, rf: &RefFrame) -> (r: Result<Value, Error>)
    requires
        frame_ok(*rf),
    ensures
        r == spec_resolve(*obj, q, *rf),
        q == Property::PhaseDefault && *obj == CelObj::Sun ==> r == Err::<Value, Error>(
            Error::UndefinedForObject,
        ),
        (q == Property::Horizontal || q == Property::Rise || q == Property::SetTime)
            && rf.latlong is None ==> r == Err::<Value, Error>(Error::MissingLocation),
{
    let hemi: bool = match rf.latlong {
        Some(l) => l.lat >= 0,
        None => true,
    };
    match q {
        Property::Equatorial => Ok(Value::Crd(equ_coord(obj, rf.date), CrdView::Equatorial)),
        Property::Horizontal => match rf.latlong {
            None => Err(Error::MissingLocation),
            Some(_) => Ok(Value::Crd(equ_coord(obj, rf.date), CrdView::Horizontal(*rf))),
        },
        Property::Ecliptic => Ok(Value::Crd(equ_coord(obj, rf.date), CrdView::Ecliptic(rf.date))),
        Property::Rise => match rf.latlong {
            None => Err(Error::MissingLocation),
            Some(l) => {
                let c = equ_coord(obj, rf.date);
                match astro::riseset(c, rf.date, l.lat, l.long) {
                    Some((up, _down)) => Ok(Value::RsTime(Some(event_date(rf.date, up)))),
                    None => Ok(Value::RsTime(None)),
                }
            },
        },
        Property::SetTime => match rf.latlong {
            None => Err(Error::MissingLocation),
            Some(l) => {
                let c = equ_coord(obj, rf.date);
                match astro::riseset(c, rf.date, l.lat, l.long) {
                    Some((_up, down)) => Ok(Value::RsTime(Some(event_date(rf.date, down)))),
                    None => Ok(Value::RsTime(None)),
                }
            },
        },
        Property::Distance => Ok(Value::Dist(match obj {
            CelObj::Sun => astro::sun_dist(rf.date),
            CelObj::Moon => astro::moon_dist(rf.date),
            CelObj::Planet(p) => astro::planet_dist(p, rf.date),
        })),
        Property::Magnitude => Ok(Value::Num(match obj {
            CelObj::Sun => astro::sun_mag(rf.date),
            CelObj::Moon => astro::moon_mag(rf.date),
            CelObj::Planet(p) => astro::planet_mag(p, rf.date),
        })),
        Property::PhaseDefault => match obj {
            CelObj::Sun => Err(Error::UndefinedForObject),
            CelObj::Moon => Ok(Value::Phase(astro::moon_phase(rf.date), PhaseView::Default(hemi))),
            CelObj::Planet(p) => Ok(
                Value::Phase(astro::planet_phase(p, rf.date), PhaseView::Default(hemi)),
            ),
        },
        Property::PhaseEmoji => match obj {
            CelObj::Sun => Err(Error::UndefinedForObject),
            CelObj::Moon => Ok(Value::Phase(astro::moon_phase(rf.date), PhaseView::Emoji(hemi))),
            CelObj::Planet(p) => Ok(
                Value::Phase(astro::planet_phase(p, rf.date), PhaseView::Emoji(hemi)),
            ),
        },
        Property::PhaseName => match obj {
            CelObj::Sun => Err(Error::UndefinedForObject),
            CelObj::Moon => Ok(Value::Phase(astro::moon_phase(rf.date), PhaseView::PhaseName)),
            CelObj::Planet(p) => Ok(
                Value::Phase(astro::planet_phase(p, rf.date), PhaseView::PhaseName),
            ),
        },
        Property::IllumFrac => match obj {
            CelObj::Sun => Err(Error::UndefinedForObject),
            CelObj::Moon => Ok(Value::Phase(astro::moon_phase(rf.date), PhaseView::Illumfrac)),
            CelObj::Planet(p) => Ok(
                Value::Phase(astro::planet_phase(p, rf.date), PhaseView::Illumfrac),
            ),
        },
        Property::AngDia => Ok(Value::Ang(match obj {
            CelObj::Sun => astro::sun_angular_diameter(rf.date),
            CelObj::Moon => astro::moon_angular_diameter(rf.date),
            CelObj::Planet(p) => astro::planet_angular_diameter(p, rf.date),
        }, crate::value::AngView::Angle)),
    }
}

/// What a whole query answers: the values of the properties in the
/// caller's order, or the first failing property's error with nothing
/// else.
pub open spec fn spec_run(obj: CelObj, props: Seq<Property>, rf: RefFrame) -> Result<
    Seq<Value>,
    Error,
>
    decreases props.len(),
{
    if props.len() == 0 {
        Ok(Seq::empty())
    } else {
        match spec_resolve(obj, props[0], rf) {
            Err(e) => Err(e),
            Ok(v) => match spec_run(obj, props.drop_first(), rf) {
                Ok(rest) => Ok(seq![v] + rest),
                Err(e) => Err(e),
            },
        }
    }
}

/// Resolves an ordered list of properties for one object and frame,
/// stopping at the first failure.
#[verifier::loop_isolation(false)]
pub fn run(object: &CelObj, proplist: &[Property], rf: &RefFrame) -> (r: Result<Vec<Value>, Error>)
    requires
        frame_ok(*rf),
    ensures
        (match r {
            Ok(vals) => spec_run(*object, proplist@, *rf) == Ok::<Seq<Value>, Error>(vals@),
            Err(e) => spec_run(*object, proplist@, *rf) == Err::<Seq<Value>, Error>(e),
        }),
{
    let mut vals: Vec<Value> = Vec::new();
    let mut i: usize = 0;
    proof {
        assert(proplist@.skip(0) =~= proplist@);
        assert forall|rest: Seq<Value>| #[trigger] (vals@ + rest) == rest by {
            assert((vals@ + rest) =~= rest);
        }
    }
    while i < proplist.len()
        invariant
            0 <= i <= proplist@.len(),
            vals@.len() == i,
            spec_run(*object, proplist@, *rf) == (match spec_run(
                *object,
                proplist@.skip(i as int),
                *rf,
            ) {
                Ok(rest) => Ok::<Seq<Value>, Error>(vals@ + rest),
                Err(e) => Err::<Seq<Value>, Error>(e),
            }),
        decreases proplist@.len() - i,
    {
        let ghost pre = proplist@.skip(i as int);
        proof {
            assert(pre[0] == proplist@[i as int]);
            assert(pre.drop_first() =~= proplist@.skip(i as int + 1));
        }
        match property_of(object, proplist[i], rf) {
            Ok(v) => {
                proof {
                    assert(spec_run(*object, pre, *rf) == (match spec_run(
                        *object,
                        pre.drop_first(),
                        *rf,
                    ) {
                        Ok(rest) => Ok::<Seq<Value>, Error>(seq![v] + rest),
                        Err(e) => Err::<Seq<Value>, Error>(e),
                    }));
                }
                let ghost vprev = vals@;
                vals.push(v);
                proof {
                    assert(vals@ =~= vprev.push(v));
                    assert forall|rest: Seq<Value>| #[trigger] (vals@ + rest) == (vprev + (
                    seq![v] + rest)) by {
                        assert((vals@ + rest) =~= (vprev + (seq![v] + rest)));
                    }
                }
            },
            Err(e) => {
                proof {
                    assert(spec_run(*object, pre, *rf) == Err::<Seq<Value>, Error>(e));
                }
                return Err(e);
            },
        }
        i = i + 1;
    }
    proof {
        assert(proplist@.skip(i as int) =~= Seq::<Property>::empty());
        assert(vals@ + Seq::<Value>::empty() =~= vals@);
    }
    Ok(vals)
}

/// One line of an ephemeris table: a date and the values resolved there.
#[derive(Debug, PartialEq)]
pub struct EphemRow {
    pub date: Date,
    pub values: Vec<Value>,
}

/// Runs the query at `start`, then at each date stepping forward by
/// `step`, while the date stays strictly before `end`.  The first failing
/// step's error aborts the table.
#[verifier::loop_isolation(false)]
#[verifier::rlimit(100)]
pub fn ephemeris(
    object: &CelObj,
    proplist: &[Property],
    latlong: Option<LatLong>,
    start: Date,
    step: Step,
    end: Date,
) -> (r: Result<Vec<EphemRow>, Error>)
    requires
        date_ok(start),
        date_ok(end),
        step_ok(step),
        step_progresses(step),
        latlong_ok(latlong),
    ensures
        (match r {
            Ok(rows) => {
                &&& forall|i: int|
                    0 <= i < rows@.len() ==> (#[trigger] rows@[i]).date.micros < end.micros
                &&& (rows@.len() > 0 <==> start.micros < end.micros)
                &&& rows@.len() > 0 ==> rows@[0].date == start
                &&& forall|i: int|
                    0 <= i < rows@.len() - 1 ==> (#[trigger] rows@[i + 1]).date.micros
                        == spec_step_forward(rows@[i].date, step)
                &&& forall|i: int|
                    0 <= i < rows@.len() ==> spec_run(
                        *object,
                        proplist@,
                        RefFrame { date: (#[trigger] rows@[i]).date, latlong },
                    ) == Ok::<Seq<Value>, Error>(rows@[i].values@)
                &&& rows@.len() > 0 ==> spec_step_forward(rows@[rows@.len() - 1].date, step)
                    >= end.micros
            },
            Err(e) => exists|d: Date|
                start.micros <= d.micros < end.micros && spec_run(
                    *object,
                    proplist@,
                    RefFrame { date: d, latlong },
                ) == Err::<Seq<Value>, Error>(e),
        }),
{
    let mut rows: Vec<EphemRow> = Vec::new();
    let mut d: Date = start;
    while d.micros < end.micros
        invariant
            date_ok(d),
            start.micros <= d.micros,
            rows@.len() > 0 ==> rows@[0].date == start,
            rows@.len() == 0 ==> d == start,
            forall|i: int| 0 <= i < rows@.len() ==> (#[trigger] rows@[i]).date.micros < end.micros,
            forall|i: int|
                0 <= i < rows@.len() - 1 ==> (#[trigger] rows@[i + 1]).date.micros
                    == spec_step_forward(rows@[i].date, step),
            forall|i: int|
                0 <= i < rows@.len() ==> spec_run(
                    *object,
                    proplist@,
                    RefFrame { date: (#[trigger] rows@[i]).date, latlong },
                ) == Ok::<Seq<Value>, Error>(rows@[i].values@),
            rows@.len() > 0 ==> d.micros == spec_step_forward(rows@[rows@.len() - 1].date, step),
        decreases (if d.micros <= end.micros { end.micros - d.micros } else { 0int }),
    {
        let rf = RefFrame { date: d, latlong };
        match run(object, proplist, &rf) {
            Ok(vals) => {
                rows.push(EphemRow { date: d, values: vals });
            },
            Err(e) => {
                return Err(e);
            },
        }
        let d2: Date = step_forward_date(d, step);
        proof {
            assert(d2.micros > d.micros);
            assert(end.micros - d2.micros < end.micros - d.micros);
            assert(end.micros - d.micros >= 0);
        }
        d = d2;
    }
    Ok(rows)
}

} // verus!
