use average_weather::api_error::ApiError;
use average_weather::api_error::ErrorKind;
use average_weather::data_source::BackendAnswer;
use average_weather::data_source::DayWindow;
use average_weather::metaweather::MetaWeather;
use average_weather::weather_data::WeatherData;
use average_weather::weatherbit::WeatherBit;

fn answer_with(values: Vec<i64>) -> BackendAnswer {
    BackendAnswer::Response {
        status: 200,
        values: Some(values),
    }
}

#[test]
fn test_day_windows() {
    assert_eq!(DayWindow::today(), DayWindow { days: 1, skip_days: 0 });
    assert_eq!(DayWindow::tomorrow(), DayWindow { days: 2, skip_days: 1 });
    assert_eq!(DayWindow::five_days(), DayWindow { days: 5, skip_days: 0 });
}

#[test]
fn test_metaweather_resolve_location() {
    let mw = MetaWeather::new();

    let found = mw.resolve_location(&answer_with(vec![2122265, 44418]));
    assert_eq!(found, Ok(2122265));

    let unknown = mw.resolve_location(&answer_with(Vec::new()));
    assert_eq!(
        unknown,
        Err(ApiError::new("MetaWeather", ErrorKind::InvalidLocation))
    );

    let garbled = mw.resolve_location(&BackendAnswer::Response {
        status: 200,
        values: None,
    });
    assert_eq!(
        garbled,
        Err(ApiError::new("MetaWeather", ErrorKind::InvalidJSON))
    );

    let unreachable_backend = mw.resolve_location(&BackendAnswer::ConnectionFailed);
    assert_eq!(
        unreachable_backend,
        Err(ApiError::new("MetaWeather", ErrorKind::FailedConnection))
    );
}

#[test]
fn test_metaweather_window_lengths() {
    let mw = MetaWeather::new();
    // The backend always answers with its full consolidated list.
    let consolidated = vec![10000, 11000, 12000, 13000, 14000, 15000];

    let today = DayWindow::today();
    let tomorrow = DayWindow::tomorrow();
    let five_days = DayWindow::five_days();

    let today_data = mw
        .forecast_n_days(&answer_with(consolidated.clone()), today.days, today.skip_days)
        .unwrap();
    let tomorrow_data = mw
        .forecast_n_days(
            &answer_with(consolidated.clone()),
            tomorrow.days,
            tomorrow.skip_days,
        )
        .unwrap();
    let five_days_data = mw
        .forecast_n_days(
            &answer_with(consolidated.clone()),
            five_days.days,
            five_days.skip_days,
        )
        .unwrap();

    assert_eq!(today_data, vec![WeatherData::new(10000)]);
    assert_eq!(tomorrow_data, vec![WeatherData::new(11000)]);
    assert_eq!(five_days_data.len(), 5);
    assert_eq!(
        five_days_data,
        vec![
            WeatherData::new(10000),
            WeatherData::new(11000),
            WeatherData::new(12000),
            WeatherData::new(13000),
            WeatherData::new(14000),
        ]
    );
}

#[test]
fn test_metaweather_errors() {
    let mw = MetaWeather::new();

    let unreachable_backend = mw.forecast_n_days(&BackendAnswer::ConnectionFailed, 1, 0);
    assert_eq!(
        unreachable_backend,
        Err(ApiError::new("MetaWeather", ErrorKind::FailedConnection))
    );

    let garbled = mw.forecast_n_days(
        &BackendAnswer::Response {
            status: 200,
            values: None,
        },
        1,
        0,
    );
    assert_eq!(
        garbled,
        Err(ApiError::new("MetaWeather", ErrorKind::InvalidJSON))
    );
}

#[test]
fn test_metaweather_tomorrow_is_second_of_window() {
    let mw = MetaWeather::new();
    let consolidated = vec![10000, 11000, 12000];

    let window = mw
        .forecast_n_days(&answer_with(consolidated.clone()), 2, 0)
        .unwrap();
    let tomorrow = mw
        .forecast_n_days(&answer_with(consolidated.clone()), 2, 1)
        .unwrap();

    assert_eq!(window.len(), 2);
    assert_eq!(tomorrow, vec![window[1]]);
}

#[test]
fn test_weatherbit_window_lengths() {
    let wb = WeatherBit::new(Some(String::from("test-api-key")));
    // The backend caps the returned days itself, so each window's answer
    // already has `days` entries.

    let today = wb.forecast_n_days(&answer_with(vec![21000]), 0).unwrap();
    let tomorrow = wb
        .forecast_n_days(&answer_with(vec![21000, 22000]), 1)
        .unwrap();
    let five_days = wb
        .forecast_n_days(&answer_with(vec![21000, 22000, 23000, 24000, 25000]), 0)
        .unwrap();

    assert_eq!(today, vec![WeatherData::new(21000)]);
    assert_eq!(tomorrow, vec![WeatherData::new(22000)]);
    assert_eq!(five_days.len(), 5);
}

#[test]
fn test_weatherbit_status_codes() {
    let wb = WeatherBit::new(Some(String::from("test-api-key")));

    let unknown_location = wb.forecast_n_days(
        &BackendAnswer::Response {
            status: 204,
            values: Some(Vec::new()),
        },
        0,
    );
    assert_eq!(
        unknown_location,
        Err(ApiError::new("WeatherBit", ErrorKind::InvalidLocation))
    );

    let rejected_key = wb.forecast_n_days(
        &BackendAnswer::Response {
            status: 403,
            values: None,
        },
        0,
    );
    assert_eq!(
        rejected_key,
        Err(ApiError::new("WeatherBit", ErrorKind::InvalidApiKey))
    );

    let garbled = wb.forecast_n_days(
        &BackendAnswer::Response {
            status: 200,
            values: None,
        },
        0,
    );
    assert_eq!(
        garbled,
        Err(ApiError::new("WeatherBit", ErrorKind::InvalidJSON))
    );

    let unreachable_backend = wb.forecast_n_days(&BackendAnswer::ConnectionFailed, 0);
    assert_eq!(
        unreachable_backend,
        Err(ApiError::new("WeatherBit", ErrorKind::FailedConnection))
    );
}

#[test]
fn test_weatherbit_credential() {
    let unconfigured = WeatherBit::new(None);
    assert_eq!(
        unconfigured.credential(),
        Err(ApiError::new("WeatherBit", ErrorKind::InvalidApiKey))
    );

    let key = String::from("test-api-key");
    let configured = WeatherBit::new(Some(key.clone()));
    assert_eq!(configured.credential(), Ok(&key));
}

#[test]
fn test_weatherbit_tomorrow_is_second_of_window() {
    let wb = WeatherBit::new(Some(String::from("test-api-key")));
    let two_days = vec![21000, 22000];

    let window = wb.forecast_n_days(&answer_with(two_days.clone()), 0).unwrap();
    let tomorrow = wb.forecast_n_days(&answer_with(two_days.clone()), 1).unwrap();

    assert_eq!(window.len(), 2);
    assert_eq!(tomorrow, vec![window[1]]);
}
