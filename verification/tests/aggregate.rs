use average_weather::aggregate::compute_average_data;
use average_weather::aggregate::partition_data;
use average_weather::aggregate::response_handler;
use average_weather::api_error::ApiError;
use average_weather::api_error::ErrorKind;
use average_weather::api_response::ApiResponse;
use average_weather::api_response::Status;
use average_weather::weather_data::WeatherData;

#[test]
fn test_partition_data() {
    let error = ApiError::new("test", ErrorKind::InvalidLocation);
    let error_cloned = error.clone();

    let response_data_source1 = Ok(vec![WeatherData::new(1000), WeatherData::new(2000)]);
    let response_data_source2 = Err(error);

    let responses = vec![response_data_source1, response_data_source2];

    let expected_data = vec![vec![WeatherData::new(1000), WeatherData::new(2000)]];
    let expected_errors = vec![error_cloned];

    assert_eq!(partition_data(responses), (expected_data, expected_errors));
}

#[test]
fn test_average_data() {
    let data1 = vec![1000, 2000, 3000]
        .into_iter()
        .map(WeatherData::new)
        .collect();
    let data2 = vec![5000, 4000, 9000]
        .into_iter()
        .map(WeatherData::new)
        .collect();
    let data = vec![data1, data2];

    let expected_average = vec![(1000 + 5000) / 2, (2000 + 4000) / 2, (3000 + 9000) / 2]
        .into_iter()
        .map(WeatherData::new)
        .collect::<Vec<_>>();

    assert_eq!(compute_average_data(data), expected_average);
}

#[test]
fn test_average_data_empty() {
    let data = vec![];

    assert_eq!(compute_average_data(data), vec![]);
}

#[test]
fn test_average_truncates_to_shortest_row() {
    // Rows of unequal length (a violated provider contract) are paired
    // positionally up to the shortest row.
    let data1 = vec![WeatherData::new(1000), WeatherData::new(2000), WeatherData::new(3000)];
    let data2 = vec![WeatherData::new(3000)];

    let average = compute_average_data(vec![data1, data2]);

    assert_eq!(average, vec![WeatherData::new(2000)]);
}

#[test]
fn test_average_rounds_toward_zero() {
    let below = compute_average_data(vec![
        vec![WeatherData::new(-3)],
        vec![WeatherData::new(-4)],
    ]);
    let above = compute_average_data(vec![vec![WeatherData::new(3)], vec![WeatherData::new(4)]]);

    assert_eq!(below, vec![WeatherData::new(-3)]);
    assert_eq!(above, vec![WeatherData::new(3)]);
}

#[test]
fn test_weather_data_arithmetic() {
    let sum = WeatherData::new(1500).add(WeatherData::new(2500));
    assert_eq!(sum, WeatherData::new(4000));

    assert_eq!(WeatherData::new(7).div(2), WeatherData::new(3));
    assert_eq!(WeatherData::new(-7).div(2), WeatherData::new(-3));
}

#[test]
fn test_build_response_empty_data_fails() {
    let errors = vec![ApiError::new("test", ErrorKind::FailedConnection)];
    let response = ApiResponse::new(Vec::new(), errors);

    assert_eq!(response.status, Status::Fail);
    assert_eq!(response.data, Vec::<WeatherData>::new());
    assert_eq!(
        response.errors,
        vec![ApiError::new("test", ErrorKind::FailedConnection)]
    );
}

#[test]
fn test_aggregate_two_successful_providers() {
    // Provider X answers 10.0 degrees for today, provider Y answers 20.0.
    let responses = vec![
        Ok(vec![WeatherData::new(10000)]),
        Ok(vec![WeatherData::new(20000)]),
    ];

    let response = response_handler(responses);

    assert_eq!(response.status, Status::Success);
    assert_eq!(response.data, vec![WeatherData::new(15000)]);
    assert_eq!(response.errors, Vec::<ApiError>::new());
}

#[test]
fn test_aggregate_partial_success() {
    // Provider X cannot be reached; provider Y answers 20.0 for today.
    let responses = vec![
        Err(ApiError::new("X", ErrorKind::FailedConnection)),
        Ok(vec![WeatherData::new(20000)]),
    ];

    let response = response_handler(responses);

    assert_eq!(response.status, Status::Success);
    assert_eq!(response.data, vec![WeatherData::new(20000)]);
    assert_eq!(
        response.errors,
        vec![ApiError::new("X", ErrorKind::FailedConnection)]
    );
}

#[test]
fn test_aggregate_total_failure() {
    // Both providers fail; errors keep the provider iteration order.
    let responses = vec![
        Err(ApiError::new("X", ErrorKind::InvalidLocation)),
        Err(ApiError::new("Y", ErrorKind::FailedConnection)),
    ];

    let response = response_handler(responses);

    assert_eq!(response.status, Status::Fail);
    assert_eq!(response.data, Vec::<WeatherData>::new());
    assert_eq!(response.errors.len(), 2);
    assert_eq!(
        response.errors,
        vec![
            ApiError::new("X", ErrorKind::InvalidLocation),
            ApiError::new("Y", ErrorKind::FailedConnection),
        ]
    );
}

#[test]
fn test_aggregate_sole_provider_propagates_unmodified() {
    // A five-day forecast from the only configured provider comes back
    // unmodified and in order.
    let five_days = vec![
        WeatherData::new(1000),
        WeatherData::new(-2000),
        WeatherData::new(3000),
        WeatherData::new(4000),
        WeatherData::new(5000),
    ];
    let responses = vec![Ok(five_days.clone())];

    let response = response_handler(responses);

    assert_eq!(response.status, Status::Success);
    assert_eq!(response.data, five_days);
    assert_eq!(response.errors, Vec::<ApiError>::new());
}

#[test]
fn test_aggregate_no_providers() {
    let response = response_handler(Vec::new());

    assert_eq!(response.status, Status::Fail);
    assert_eq!(response.data, Vec::<WeatherData>::new());
    assert_eq!(response.errors, Vec::<ApiError>::new());
}

#[test]
fn test_aggregate_average_is_order_insensitive() {
    let forward = vec![
        Ok(vec![WeatherData::new(10000), WeatherData::new(0)]),
        Ok(vec![WeatherData::new(20000), WeatherData::new(-5000)]),
        Ok(vec![WeatherData::new(-5999), WeatherData::new(2500)]),
    ];
    let backward = vec![
        Ok(vec![WeatherData::new(-5999), WeatherData::new(2500)]),
        Ok(vec![WeatherData::new(20000), WeatherData::new(-5000)]),
        Ok(vec![WeatherData::new(10000), WeatherData::new(0)]),
    ];

    let a = response_handler(forward);
    let b = response_handler(backward);

    assert_eq!(a.data, b.data);
    assert_eq!(a.data, vec![WeatherData::new(8000), WeatherData::new(-833)]);
}

#[test]
fn test_http_status_codes() {
    let success = ApiResponse::new(vec![WeatherData::new(1000)], Vec::new());
    assert_eq!(success.http_status(), 200);

    let failure = ApiResponse::new(Vec::new(), Vec::new());
    assert_eq!(failure.http_status(), 400);
}

#[test]
fn test_error_descriptions() {
    assert_eq!(
        ErrorKind::InvalidLocation.description(),
        "Requested location is invalid or unknown."
    );
    assert_eq!(
        ErrorKind::InvalidApiKey.description(),
        "Api key for the given data source is invalid."
    );
    assert_eq!(
        ErrorKind::FailedConnection.description(),
        "Failed connecting to the data source."
    );
    assert_eq!(
        ErrorKind::InvalidJSON.description(),
        "Could not parse returned JSON."
    );
}
