//! The closed set of failures a query can end in.
//!
//! Every failure is caused by unsatisfiable input; none is transient.

use vstd::prelude::*;

verus! {

/// Everything that can go wrong while parsing literals or resolving a
/// property.
#[derive(Clone, Copy, Debug, PartialEq, Eq, Structural)]
pub enum Error {
    /// A date literal matched none of the accepted forms.
    InvalidDate,
    /// An angle literal had no recognised suffix or no number before it.
    InvalidAngle,
    /// A time-step literal had no recognised unit suffix, or its size is
    /// beyond what the library represents.
    BadInterval,
    /// A comma-separated field list had the wrong number of fields.
    BadCsv,
    /// A property name matched no property and no alias.
    UnknownProperty,
    /// An object name matched no catalog entry.
    UnknownObject,
    /// A property needing an observer location was asked without one.
    MissingLocation,
    /// The property is not defined for the object (phase of the Sun).
    UndefinedForObject,
    /// A latitude whose magnitude exceeds 90 degrees.
    LatitudeOutOfRange,
}

impl Error {
    /// A short human-readable description of the failure.
    pub fn message(&self) -> (r: &'static str)
        ensures
            r@ == self.spec_message(),
    {
        match self {
            Error::InvalidDate => "Invalid Date",
            Error::InvalidAngle => "Invalid Angle",
            Error::BadInterval => "Bad interval",
            Error::BadCsv => "Bad CSV",
            Error::UnknownProperty => "Unknown Property",
            Error::UnknownObject => "Unknown Object",
            Error::MissingLocation => "Need to specify a lat/long with -l",
            Error::UndefinedForObject => "Can't get phase of the Sun",
            Error::LatitudeOutOfRange => "Latitude over 90 degrees",
        }
    }

    /// The text `message` returns, for use in contracts.
    pub open spec fn spec_message(&self) -> Seq<char> {
        match self {
            Error::InvalidDate => "Invalid Date"@,
            Error::InvalidAngle => "Invalid Angle"@,
            Error::BadInterval => "Bad interval"@,
            Error::BadCsv => "Bad CSV"@,
            Error::UnknownProperty => "Unknown Property"@,
            Error::UnknownObject => "Unknown Object"@,
            Error::MissingLocation => "Need to specify a lat/long with -l"@,
            Error::UndefinedForObject => "Can't get phase of the Sun"@,
            Error::LatitudeOutOfRange => "Latitude over 90 degrees"@,
        }
    }
}

} // verus!
