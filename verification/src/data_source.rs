//! The provider capability: the day-window arithmetic shared by every
//! weather backend, and the common shape into which a backend's answer is
//! reduced before the verified interpretation runs.

use vstd::prelude::*;
use crate::api_error::ApiError;
use crate::api_error::ErrorKind;
use crate::weather_data::WeatherData;

verus! {

/// A contiguous forecast window: request `days` entries starting at the
/// current day, then discard the first `skip_days` of them.
///
/// None of the known backends accepts a start offset, so "tomorrow" can
/// only be expressed backend-agnostically by requesting a two-day window
/// and discarding day zero.
#[derive(Debug, Clone, Copy, PartialEq, Eq, Structural)]
pub struct DayWindow {
    pub days: u32,
    pub skip_days: u32,
}

impl DayWindow {
    /// Forecast for the current day.
    pub fn today() -> (w: DayWindow)
        ensures
            w.days == 1,
            w.skip_days == 0,
    {
        DayWindow { days: 1, skip_days: 0 }
    }

    /// Forecast for the next day: a two-day window with day zero discarded.
    pub fn tomorrow() -> (w: DayWindow)
        ensures
            w.days == 2,
            w.skip_days == 1,
    {
        DayWindow { days: 2, skip_days: 1 }
    }

    /// Forecast for the next five days.
    pub fn five_days() -> (w: DayWindow)
        ensures
            w.days == 5,
            w.skip_days == 0,
    {
        DayWindow { days: 5, skip_days: 0 }
    }
}

/// What one exchange with a backend produced, reduced to plain values:
/// either the transport failed, or the backend answered with a status
/// code and a body that either decoded to a list of integers (a list of
/// location ids, or of fixed-point temperatures) or could not be decoded.
pub enum BackendAnswer {
    /// Transport-level failure: DNS, timeout, refused connection.
    ConnectionFailed,
    /// The backend answered.  `values` is `None` when the body could not
    /// be decoded into the expected shape.
    Response { status: u16, values: Option<Vec<i64>> },
}

/// The first `n` entries of `s`, or all of `s` when it is shorter.
pub open spec fn take_at_most(s: Seq<i64>, n: int) -> Seq<i64> {
    if n < 0 {
        Seq::empty()
    } else if n >= s.len() {
        s
    } else {
        s.take(n)
    }
}

/// `s` without its first `n` entries; empty when `s` is no longer than `n`.
pub open spec fn skip_at_most(s: Seq<i64>, n: int) -> Seq<i64> {
    if n < 0 {
        s
    } else if n >= s.len() {
        Seq::empty()
    } else {
        s.skip(n)
    }
}

/// Fixed-point temperatures wrapped as samples.
pub open spec fn samples_of(temps: Seq<i64>) -> Seq<WeatherData> {
    temps.map_values(|t: i64| WeatherData { temperature: t })
}

/// Whether the executable result `r` carries the modelled outcome `o`,
/// with every error attributed to the provider named `origin`.
pub open spec fn outcome_matches(
    r: Result<Vec<WeatherData>, ApiError>,
    o: Result<Seq<WeatherData>, ErrorKind>,
    origin: Seq<char>,
) -> bool {
    match r {
        Ok(v) => o is Ok && v@ == o->Ok_0,
        Err(e) => o is Err && e.kind == o->Err_0 && e.origin@ == origin,
    }
}

/// Wraps `temps[skip..end]` as samples; none when `skip >= end`.
pub(crate) fn collect_range(temps: &Vec<i64>, skip: usize, end: usize) -> (out: Vec<WeatherData>)
    requires
        end <= temps@.len(),
    ensures
        out@ == samples_of(skip_at_most(temps@.take(end as int), skip as int)),
{
    let lo = if skip < end {
        skip
    } else {
        end
    };
    let mut out: Vec<WeatherData> = Vec::new();
    let mut i = lo;
    while i < end
        invariant
            lo <= i <= end,
            end <= temps@.len(),
            out@ == samples_of(temps@.subrange(lo as int, i as int)),
        decreases end - i,
    {
        proof {
            assert(temps@.subrange(lo as int, i as int + 1) =~= temps@.subrange(
                lo as int,
                i as int,
            ).push(temps@[i as int]));
            assert(samples_of(temps@.subrange(lo as int, i as int).push(temps@[i as int]))
                =~= samples_of(temps@.subrange(lo as int, i as int)).push(
                WeatherData { temperature: temps@[i as int] },
            ));
        }
        out.push(WeatherData::new(temps[i]));
        i = 1 + i;
    }
    proof {
        if skip < end {
            assert(temps@.subrange(lo as int, end as int) =~= skip_at_most(
                temps@.take(end as int),
                skip as int,
            ));
        } else {
            assert(temps@.subrange(lo as int, end as int) =~= skip_at_most(
                temps@.take(end as int),
                skip as int,
            ));
        }
    }
    out
}

} // verus!
