//! Response assembly: the sole success/failure decision point.

use vstd::prelude::*;
use crate::api_error::ApiError;
use crate::weather_data::WeatherData;

verus! {

/// Api Response Status.
#[derive(Debug, Clone, Copy, PartialEq, Eq, Structural)]
pub enum Status {
    /// Success is returned if at least one data source returns a weather forecast.
    Success,
    /// Fail is returned if none of the data sources returned a weather forecast.
    Fail,
}

/// Api Response.
/// Contains a response status, data, and possible errors.
#[derive(Debug)]
pub struct ApiResponse {
    pub status: Status,
    pub data: Vec<WeatherData>,
    pub errors: Vec<ApiError>,
}

impl ApiResponse {
    /// Wraps averaged data and collected errors, deciding the overall
    /// status: `Success` exactly when `data` is non-empty, oblivious to
    /// which providers failed or why.
    pub fn new(data: Vec<WeatherData>, errors: Vec<ApiError>) -> (r: Self)
        ensures
            r.status == (if data@.len() == 0 { Status::Fail } else { Status::Success }),
            r.data == data,
            r.errors == errors,
    {
        let status = match data.len() {
            0 => Status::Fail,
            _ => Status::Success,
        };

        Self { status, data, errors }
    }

    /// The HTTP status code under which this response travels:
    /// 200 for `Success`, 400 for `Fail`.
    pub fn http_status(&self) -> (code: u16)
        ensures
            code == (if self.status is Success {
                200u16
            } else {
                400u16
            }),
    {
        match self.status {
            Status::Success => 200,
            Status::Fail => 400,
        }
    }
}

} // verus!
