//! WeatherBit adapter: normalizes that backend's answers — one forecast
//! request whose status code distinguishes unknown locations and rejected
//! credentials — into the common sample and error shapes.

use vstd::prelude::*;
use crate::api_error::ApiError;
use crate::api_error::ErrorKind;
use crate::data_source::BackendAnswer;
use crate::data_source::collect_range;
use crate::data_source::outcome_matches;
use crate::data_source::samples_of;
use crate::data_source::skip_at_most;
use crate::weather_data::WeatherData;

verus! {

/// WeatherBit API adapter.  The backend wants an api key with every
/// request; an absent key is the typed "unconfigured" state, on which
/// every forecast fails fast with `InvalidApiKey`.
pub struct WeatherBit {
    pub api_key: Option<String>,
}

impl WeatherBit {
    /// A provider with an explicitly injected credential.
    pub fn new(api_key: Option<String>) -> (r: Self)
        ensures
            r.api_key == api_key,
    {
        WeatherBit { api_key }
    }

    /// The credential to put in a request, or the typed failure of an
    /// unconfigured provider, before any request is made.
    pub fn credential(&self) -> (r: Result<&String, ApiError>)
        ensures
            (r is Ok <==> self.api_key is Some),
            r is Ok ==> *r->Ok_0 == self.api_key->Some_0,
            r is Err ==> r->Err_0.kind == ErrorKind::InvalidApiKey && r->Err_0.origin@
                == "WeatherBit"@,
    {
        match &self.api_key {
            Some(key) => Ok(key),
            None => Err(ApiError::new("WeatherBit", ErrorKind::InvalidApiKey)),
        }
    }

    /// Interprets the answer of the forecast request: the backend caps
    /// the number of returned days itself, so only the first `skip_days`
    /// entries are discarded here.  Status 204 is the backend's "unknown
    /// location" signal and 403 its "bad credentials" signal.
    pub fn forecast_n_days(&self, answer: &BackendAnswer, skip_days: u32) -> (r: Result<
        Vec<WeatherData>,
        ApiError,
    >)
        ensures
            outcome_matches(r, forecast_outcome(*answer, skip_days as int), "WeatherBit"@),
    {
        match answer {
            BackendAnswer::ConnectionFailed => Err(
                ApiError::new("WeatherBit", ErrorKind::FailedConnection),
            ),
            BackendAnswer::Response { status, values } => {
                if *status == 204 {
                    Err(ApiError::new("WeatherBit", ErrorKind::InvalidLocation))
                } else if *status == 403 {
                    Err(ApiError::new("WeatherBit", ErrorKind::InvalidApiKey))
                } else {
                    match values {
                        None => Err(ApiError::new("WeatherBit", ErrorKind::InvalidJSON)),
                        Some(temps) => {
                            proof {
                                assert(temps@.take(temps@.len() as int) =~= temps@);
                            }
                            Ok(collect_range(temps, skip_days as usize, temps.len()))
                        },
                    }
                }
            },
        }
    }
}

/// The modelled outcome of WeatherBit's forecast request: the decoded
/// entries without the first `skip_days` of them; status 204 means an
/// unknown location, 403 a rejected api key.
pub open spec fn forecast_outcome(answer: BackendAnswer, skip_days: int) -> Result<
    Seq<WeatherData>,
    ErrorKind,
> {
    match answer {
        BackendAnswer::ConnectionFailed => Err(ErrorKind::FailedConnection),
        BackendAnswer::Response { status, values } => if status == 204 {
            Err(ErrorKind::InvalidLocation)
        } else if status == 403 {
            Err(ErrorKind::InvalidApiKey)
        } else {
            match values {
                None => Err(ErrorKind::InvalidJSON),
                Some(temps) => Ok(samples_of(skip_at_most(temps@, skip_days))),
            }
        },
    }
}

/// Tomorrow equivalence: interpreting one backend answer under the
/// tomorrow window (day zero discarded) yields the undiscarded forecast
/// with its first sample dropped — exactly the second element whenever
/// two or more entries came back; failures agree.
pub proof fn lemma_tomorrow_equivalence(answer: BackendAnswer)
    ensures
        forecast_outcome(answer, 0) is Ok <==> forecast_outcome(answer, 1) is Ok,
        forecast_outcome(answer, 0) matches Err(k) ==> forecast_outcome(answer, 1) == Err::<
            Seq<WeatherData>,
            ErrorKind,
        >(k),
        forecast_outcome(answer, 0) matches Ok(w) ==> forecast_outcome(answer, 1) == Ok::<
            Seq<WeatherData>,
            ErrorKind,
        >(
            if w.len() == 0 {
                w
            } else {
                w.subrange(1, w.len() as int)
            },
        ),
        forecast_outcome(answer, 0) matches Ok(w) ==> (w.len() >= 2 ==> forecast_outcome(
            answer,
            1,
        )->Ok_0[0] == w[1]),
{
    match answer {
        BackendAnswer::ConnectionFailed => {
        },
        BackendAnswer::Response { status, values } => match values {
            None => {
            },
            Some(temps) => {
                let w = samples_of(skip_at_most(temps@, 0));
                assert(skip_at_most(temps@, 0) =~= temps@);
                if w.len() == 0 {
                    assert(samples_of(skip_at_most(temps@, 1)) =~= w);
                } else {
                    assert(samples_of(skip_at_most(temps@, 1)) =~= w.subrange(1, w.len() as int));
                }
            },
        },
    }
}

} // verus!
