//! Average weather: a forecast-aggregation engine.
//!
//! Several independent weather backends answer a forecast request; this
//! library normalizes their answers into a common shape, partitions the
//! per-provider outcomes into successes and failures, and returns the
//! elementwise average of the successful forecasts together with every
//! provider error, under a single success/fail status.

pub mod aggregate;
pub mod api_error;
pub mod api_response;
pub mod constants;
pub mod data_source;
pub mod metaweather;
pub mod weather_data;
pub mod weatherbit;

pub use api_error::ApiError;
pub use api_error::ErrorKind;
pub use api_response::ApiResponse;
pub use api_response::Status;
pub use weather_data::WeatherData;
