//! The error taxonomy used to normalize provider-specific failures.

use vstd::prelude::*;

verus! {

/// Error variants.
#[derive(Debug, Clone, Copy, PartialEq, Eq, Structural)]
pub enum ErrorKind {
    /// The error if the data source was not able to provide
    /// weather forecast for the given location.
    InvalidLocation,
    /// The error if the data source returns "invalid api key" type of error.
    InvalidApiKey,
    /// The error if we were not able to connect to the data source.
    FailedConnection,
    /// The error if we were not able to parse the returned JSON.
    InvalidJSON,
}

impl ErrorKind {
    /// The fixed human-readable description of each variant.
    pub fn description(&self) -> (r: &'static str)
        ensures
            *self is InvalidLocation ==> r@ == "Requested location is invalid or unknown."@,
            *self is InvalidApiKey ==> r@ == "Api key for the given data source is invalid."@,
            *self is FailedConnection ==> r@ == "Failed connecting to the data source."@,
            *self is InvalidJSON ==> r@ == "Could not parse returned JSON."@,
    {
        match *self {
            ErrorKind::InvalidLocation => "Requested location is invalid or unknown.",
            ErrorKind::InvalidApiKey => "Api key for the given data source is invalid.",
            ErrorKind::FailedConnection => "Failed connecting to the data source.",
            ErrorKind::InvalidJSON => "Could not parse returned JSON.",
        }
    }
}

/// Api Error type.
#[derive(Debug, Clone, Copy, PartialEq)]
pub struct ApiError {
    /// Indicates the origin of the error, e.g. MetaWeather, WeatherBit, etc.
    pub origin: &'static str,
    /// Indicates the type of the error.
    pub kind: ErrorKind,
}

impl ApiError {
    pub fn new(origin: &'static str, kind: ErrorKind) -> (r: Self)
        ensures
            r.origin == origin,
            r.kind == kind,
    {
        Self { origin, kind }
    }
}

} // verus!
