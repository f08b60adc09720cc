//! MetaWeather adapter: normalizes that backend's answers — a location
//! search resolving a name to a "where on Earth" id, then a forecast
//! request for that id — into the common sample and error shapes.

use vstd::prelude::*;
use crate::api_error::ApiError;
use crate::api_error::ErrorKind;
use crate::data_source::BackendAnswer;
use crate::data_source::collect_range;
use crate::data_source::outcome_matches;
use crate::data_source::samples_of;
use crate::data_source::skip_at_most;
use crate::data_source::take_at_most;
use crate::weather_data::WeatherData;

verus! {

/// MetaWeather API adapter.  The backend itself needs no credential.
pub struct MetaWeather;

impl MetaWeather {
    pub fn new() -> Self {
        MetaWeather
    }

    /// Resolves the answer of the location-search request to the first
    /// returned where-on-Earth id, or normalizes the failure.
    ///
    /// MetaWeather signals an unknown location by an empty result set
    /// under a successful status, so the status code plays no part here.
    pub fn resolve_location(&self, answer: &BackendAnswer) -> (r: Result<i64, ApiError>)
        ensures
            (r is Ok <==> location_outcome(*answer) is Ok),
            r is Ok ==> r->Ok_0 == location_outcome(*answer)->Ok_0,
            r is Err ==> r->Err_0.kind == location_outcome(*answer)->Err_0 && r->Err_0.origin@
                == "MetaWeather"@,
    {
        match answer {
            BackendAnswer::ConnectionFailed => Err(
                ApiError::new("MetaWeather", ErrorKind::FailedConnection),
            ),
            BackendAnswer::Response { values: None, .. } => Err(
                ApiError::new("MetaWeather", ErrorKind::InvalidJSON),
            ),
            BackendAnswer::Response { values: Some(ids), .. } => {
                if ids.len() == 0 {
                    Err(ApiError::new("MetaWeather", ErrorKind::InvalidLocation))
                } else {
                    Ok(ids[0])
                }
            },
        }
    }

    /// Interprets the answer of the forecast request for a window of
    /// `days` entries of which the first `skip_days` are discarded.
    pub fn forecast_n_days(&self, answer: &BackendAnswer, days: u32, skip_days: u32) -> (r: Result<
        Vec<WeatherData>,
        ApiError,
    >)
        ensures
            outcome_matches(r, forecast_outcome(*answer, days as int, skip_days as int),
            "MetaWeather"@),
    {
        match answer {
            BackendAnswer::ConnectionFailed => Err(
                ApiError::new("MetaWeather", ErrorKind::FailedConnection),
            ),
            BackendAnswer::Response { values: None, .. } => Err(
                ApiError::new("MetaWeather", ErrorKind::InvalidJSON),
            ),
            BackendAnswer::Response { values: Some(temps), .. } => {
                let end = if (days as usize) < temps.len() {
                    days as usize
                } else {
                    temps.len()
                };
                proof {
                    assert(temps@.take(end as int) =~= take_at_most(temps@, days as int));
                }
                Ok(collect_range(temps, skip_days as usize, end))
            },
        }
    }
}

/// The modelled outcome of MetaWeather's location search: the first
/// where-on-Earth id when the lookup succeeded and found anything; an
/// empty result set means the location is unknown.
pub open spec fn location_outcome(answer: BackendAnswer) -> Result<i64, ErrorKind> {
    match answer {
        BackendAnswer::ConnectionFailed => Err(ErrorKind::FailedConnection),
        BackendAnswer::Response { values, .. } => match values {
            None => Err(ErrorKind::InvalidJSON),
            Some(ids) => if ids@.len() == 0 {
                Err(ErrorKind::InvalidLocation)
            } else {
                Ok(ids@[0])
            },
        },
    }
}

/// The modelled outcome of MetaWeather's forecast request: the first
/// `days` consolidated entries, without the first `skip_days` of them.
pub open spec fn forecast_outcome(answer: BackendAnswer, days: int, skip_days: int) -> Result<
    Seq<WeatherData>,
    ErrorKind,
> {
    match answer {
        BackendAnswer::ConnectionFailed => Err(ErrorKind::FailedConnection),
        BackendAnswer::Response { values, .. } => match values {
            None => Err(ErrorKind::InvalidJSON),
            Some(temps) => Ok(samples_of(skip_at_most(take_at_most(temps@, days), skip_days))),
        },
    }
}

/// Tomorrow equivalence: interpreting one backend answer under the
/// tomorrow window (two days requested, day zero discarded) yields the
/// two-day window's forecast with its first sample dropped — exactly the
/// second element whenever the two-day forecast is full; failures agree.
pub proof fn lemma_tomorrow_equivalence(answer: BackendAnswer)
    ensures
        forecast_outcome(answer, 2, 0) is Ok <==> forecast_outcome(answer, 2, 1) is Ok,
        forecast_outcome(answer, 2, 0) matches Err(k) ==> forecast_outcome(answer, 2, 1) == Err::<
            Seq<WeatherData>,
            ErrorKind,
        >(k),
        forecast_outcome(answer, 2, 0) matches Ok(w) ==> forecast_outcome(answer, 2, 1) == Ok::<
            Seq<WeatherData>,
            ErrorKind,
        >(
            if w.len() == 0 {
                w
            } else {
                w.subrange(1, w.len() as int)
            },
        ),
        forecast_outcome(answer, 2, 0) matches Ok(w) ==> (w.len() == 2 ==> forecast_outcome(
            answer,
            2,
            1,
        )->Ok_0.len() == 1 && forecast_outcome(answer, 2, 1)->Ok_0[0] == w[1]),
{
    match answer {
        BackendAnswer::ConnectionFailed => {
        },
        BackendAnswer::Response { values, .. } => match values {
            None => {
            },
            Some(temps) => {
                let prefix = take_at_most(temps@, 2);
                let w = samples_of(skip_at_most(prefix, 0));
                assert(skip_at_most(prefix, 0) =~= prefix);
                assert(w.len() == prefix.len());
                if w.len() == 0 {
                    assert(samples_of(skip_at_most(prefix, 1)) =~= w);
                } else {
                    assert(samples_of(skip_at_most(prefix, 1)) =~= w.subrange(
                        1,
                        w.len() as int,
                    ));
                    if w.len() == 2 {
                        assert(w.subrange(1, 2) =~= seq![w[1]]);
                    }
                }
            },
        },
    }
}

} // verus!
