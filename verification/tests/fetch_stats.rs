use quotestats::dec::{i64_to_string, u64_to_string};
use quotestats::fetch::{
    build_series, build_url, chart_to_series, current_lookback_window, day_of_timestamp,
    lookback_window, LOOKBACK_SECONDS,
};
use quotestats::stats::{log_return_pairs, volatility_prep, TRADING_DAYS_PER_YEAR};
use quotestats::{Series, ServiceError, Token};

#[test]
fn decimal_rendering() {
    assert_eq!(u64_to_string(0), "0");
    assert_eq!(u64_to_string(7), "7");
    assert_eq!(u64_to_string(1234567890), "1234567890");
    assert_eq!(i64_to_string(0), "0");
    assert_eq!(i64_to_string(42), "42");
    assert_eq!(i64_to_string(-42), "-42");
    assert_eq!(i64_to_string(i64::MIN), "-9223372036854775808");
    assert_eq!(i64_to_string(i64::MAX), "9223372036854775807");
}

#[test]
fn timestamps_truncate_to_their_utc_day() {
    assert_eq!(day_of_timestamp(0), 0);
    assert_eq!(day_of_timestamp(86399), 0);
    assert_eq!(day_of_timestamp(86400), 1);
    assert_eq!(day_of_timestamp(1_725_167_265), 19_967);
    assert_eq!(day_of_timestamp(-1), -1);
    assert_eq!(day_of_timestamp(-86400), -1);
    assert_eq!(day_of_timestamp(-86401), -2);
}

#[test]
fn lookback_window_spans_a_year() {
    let (start, end) = lookback_window(1_725_167_265);
    assert_eq!(end, 1_725_167_265);
    assert_eq!(end - start, 365 * 86400);
    assert_eq!(LOOKBACK_SECONDS, 365 * 86400);
    let (start, end) = current_lookback_window();
    assert_eq!(end - start, 365 * 86400);
    assert!(end >= 0);
}

#[test]
fn the_chart_url_embeds_symbol_and_window() {
    let url = build_url(&Token::Bitcoin, 1_693_631_265, 1_725_167_265);
    assert_eq!(
        url,
        "https://query1.finance.yahoo.com/v8/finance/chart/BTC-USD?period1=1693631265&period2=1725167265&interval=1d&includePrePost=true&events=div%7Csplit%7Cearn&&lang=en-US&region=US"
    );
    let url = build_url(&Token::Snp500, 0, 1);
    assert_eq!(
        url,
        "https://query1.finance.yahoo.com/v8/finance/chart/%5EGSPC?period1=0&period2=1&interval=1d&includePrePost=true&events=div%7Csplit%7Cearn&&lang=en-US&region=US"
    );
}

#[test]
fn null_closes_are_discarded_and_survivors_zip_positionally() {
    // Days 0, 1, 2 with a null close on the second entry: the survivors
    // pair with the first timestamps, as the upstream arrays are taken
    // to be index-aligned after filtering.
    let timestamps = vec![0, 86400, 2 * 86400];
    let closes = vec![
        Some(10.0f64.to_bits()),
        None,
        Some(30.0f64.to_bits()),
    ];
    let series = build_series(&timestamps, &closes);
    assert_eq!(series.len(), 2);
    assert_eq!(series.get(0), Some(10.0f64.to_bits()));
    assert_eq!(series.get(1), Some(30.0f64.to_bits()));
    assert_eq!(series.get(2), None);
}

#[test]
fn duplicate_dates_keep_the_last_write() {
    // Two timestamps inside the same UTC day: the later write survives.
    let timestamps = vec![100, 200];
    let closes = vec![Some(1.0f64.to_bits()), Some(2.0f64.to_bits())];
    let series = build_series(&timestamps, &closes);
    assert_eq!(series.len(), 1);
    assert_eq!(series.get(0), Some(2.0f64.to_bits()));
}

#[test]
fn charts_without_both_arrays_are_malformed() {
    let err = chart_to_series(Token::Bitcoin, &None, &Some(vec![])).unwrap_err();
    assert!(matches!(&err, ServiceError::MalformedUpstreamData { token: Token::Bitcoin }));
    assert_eq!(err.message(), "Not possible to fetch yearly token<Bitcoin> data.");

    let err = chart_to_series(Token::Solana, &Some(vec![]), &None).unwrap_err();
    assert!(matches!(&err, ServiceError::MalformedUpstreamData { token: Token::Solana }));

    let series =
        chart_to_series(Token::Ethereum, &Some(vec![86400]), &Some(vec![Some(5.0f64.to_bits())]))
            .unwrap();
    assert_eq!(series.len(), 1);
    assert_eq!(series.get(1), Some(5.0f64.to_bits()));
}

#[test]
fn log_returns_need_at_least_two_prices() {
    let empty: Vec<u64> = vec![];
    let err = log_return_pairs(&empty).unwrap_err();
    assert!(matches!(&err, ServiceError::InsufficientSamples));
    assert_eq!(err.message(), "Not enough price points to calculate log returns.");

    let one = vec![4.0f64.to_bits()];
    assert!(matches!(
        &log_return_pairs(&one).unwrap_err(),
        ServiceError::InsufficientSamples
    ));
}

#[test]
fn two_prices_yield_exactly_one_return_pair() {
    let p1 = 100.0f64;
    let p2 = 110.0f64;
    let prices = vec![p1.to_bits(), p2.to_bits()];
    let pairs = log_return_pairs(&prices).unwrap();
    assert_eq!(pairs.len(), 1);
    assert_eq!(pairs[0], (p1.to_bits(), p2.to_bits()));
    // The pair carries exactly the operands of ln(p2 / p1).
    let log_return = (f64::from_bits(pairs[0].1) / f64::from_bits(pairs[0].0)).ln();
    assert!((log_return - (p2 / p1).ln()).abs() < 1e-15);
}

#[test]
fn return_pairs_are_adjacent_and_chronological() {
    let prices: Vec<u64> = [1.0f64, 2.0, 4.0, 8.0].iter().map(|p| p.to_bits()).collect();
    let pairs = log_return_pairs(&prices).unwrap();
    assert_eq!(pairs.len(), 3);
    for (i, pair) in pairs.iter().enumerate() {
        assert_eq!(pair.0, prices[i]);
        assert_eq!(pair.1, prices[i + 1]);
    }
}

#[test]
fn volatility_prep_rejects_empty_and_single_point_series() {
    let empty = Series::new();
    let err = volatility_prep(&empty).unwrap_err();
    assert!(matches!(&err, ServiceError::EmptySeries));
    assert_eq!(err.message(), "No price data available for the specified token.");

    let mut single = Series::new();
    single.insert(1, 9.0f64.to_bits());
    assert!(matches!(
        &volatility_prep(&single).unwrap_err(),
        ServiceError::InsufficientSamples
    ));
}

#[test]
fn volatility_prep_walks_prices_in_date_order() {
    let mut series = Series::new();
    series.insert(3, 8.0f64.to_bits());
    series.insert(1, 2.0f64.to_bits());
    series.insert(2, 4.0f64.to_bits());
    let pairs = volatility_prep(&series).unwrap();
    assert_eq!(pairs.len(), 2);
    assert_eq!(f64::from_bits(pairs[0].0), 2.0);
    assert_eq!(f64::from_bits(pairs[0].1), 4.0);
    assert_eq!(f64::from_bits(pairs[1].0), 4.0);
    assert_eq!(f64::from_bits(pairs[1].1), 8.0);
    assert_eq!(TRADING_DAYS_PER_YEAR, 252);
}

#[test]
fn executor_error_messages_name_the_url() {
    let err = ServiceError::FatalHttp { url: String::from("http://x/y"), status: 504 };
    assert_eq!(err.message(), "URL: http://x/y Status: 504 | Can't process request.");
    let err = ServiceError::AttemptsExhausted { url: String::from("http://x/y") };
    assert_eq!(err.message(), "Attempts reached. Check URL: http://x/y");
    let err = ServiceError::UnsupportedMethod { method: quotestats::retry::HttpMethod::Put };
    assert_eq!(err.message(), "The method <PUT> is not supported.");
}
