use stock_trading::market::{
    hourly_points, is_success_status, quote_chart_url, quote_info_url, read_quote, ApiData,
    ApiResponse, ChartPoint, HistoricalPricePoint, MarketDataError, QuoteSnapshot,
};

fn point(date_time: &str, value: &str) -> ChartPoint {
    ChartPoint {
        z: HistoricalPricePoint { dateTime: date_time.to_string(), value: value.to_string() },
    }
}

fn chart(points: Vec<ChartPoint>) -> ApiResponse {
    ApiResponse { data: ApiData { chart: points } }
}

#[test]
fn quote_urls_name_the_symbol() {
    assert_eq!(
        quote_info_url("AAPL"),
        "https://api.nasdaq.com/api/quote/AAPL/info?assetclass=stocks"
    );
    assert_eq!(
        quote_chart_url("MSFT"),
        "https://api.nasdaq.com/api/quote/MSFT/chart?assetclass=stocks"
    );
}

#[test]
fn success_statuses_are_the_2xx_codes() {
    assert!(is_success_status(200));
    assert!(is_success_status(204));
    assert!(is_success_status(299));
    assert!(!is_success_status(199));
    assert!(!is_success_status(300));
    assert!(!is_success_status(404));
    assert!(!is_success_status(500));
}

#[test]
fn market_error_message() {
    assert_eq!(MarketDataError::Unavailable.message(), "Error fetching data from NASDAQ API");
}

#[test]
fn quote_texts_are_read() {
    let q = QuoteSnapshot {
        r_code: Some(200),
        last_sale_price: Some("$189.84".to_string()),
        day_range: Some("187.45 - 190.12".to_string()),
    };
    let t = read_quote(&q).unwrap();
    assert_eq!(t.current_price, "189.84");
    assert_eq!(t.lowest_price, Some("187.45".to_string()));
    assert_eq!(t.highest_price, Some("190.12".to_string()));
}

#[test]
fn quote_with_other_result_code_is_refused() {
    let q = QuoteSnapshot {
        r_code: Some(400),
        last_sale_price: Some("$1".to_string()),
        day_range: Some("1 - 2".to_string()),
    };
    assert_eq!(read_quote(&q).err(), Some(MarketDataError::Unavailable));
    let q = QuoteSnapshot { r_code: None, last_sale_price: None, day_range: None };
    assert_eq!(read_quote(&q).err(), Some(MarketDataError::Unavailable));
}

#[test]
fn quote_without_sale_price_or_range() {
    let q = QuoteSnapshot { r_code: Some(200), last_sale_price: None, day_range: None };
    let t = read_quote(&q).unwrap();
    assert_eq!(t.current_price, "");
    assert_eq!(t.lowest_price, None);
    assert_eq!(t.highest_price, None);
}

#[test]
fn quote_range_without_dash() {
    let q = QuoteSnapshot {
        r_code: Some(200),
        last_sale_price: Some("42".to_string()),
        day_range: Some(" N/A ".to_string()),
    };
    let t = read_quote(&q).unwrap();
    assert_eq!(t.current_price, "42");
    assert_eq!(t.lowest_price, Some("N/A".to_string()));
    assert_eq!(t.highest_price, None);
}

#[test]
fn hourly_points_keep_full_hours_in_order() {
    let r = chart(vec![
        point("9:30 AM", "180.10"),
        point("10:00 AM", "181.00"),
        point("10:30 AM", "181.50"),
        point("11:00 AM", "182.25"),
        point("11:00:30 AM", "182.30"),
    ]);
    let v = hourly_points(&r).unwrap();
    assert_eq!(v.len(), 3);
    assert_eq!(v[0].dateTime, "10:00 AM");
    assert_eq!(v[0].value, "181.00");
    assert_eq!(v[1].dateTime, "11:00 AM");
    assert_eq!(v[1].value, "182.25");
    // Only the field after the first ':' is read, so seconds do not matter.
    assert_eq!(v[2].dateTime, "11:00:30 AM");
}

#[test]
fn hourly_points_skip_blank_times() {
    let r = chart(vec![point("   ", "1"), point("", "2"), point("12:00 PM", "3")]);
    let v = hourly_points(&r).unwrap();
    assert_eq!(v.len(), 1);
    assert_eq!(v[0].value, "3");
}

#[test]
fn hourly_points_of_empty_chart() {
    assert_eq!(hourly_points(&chart(vec![])).unwrap().len(), 0);
}

#[test]
fn time_without_minute_field_cannot_be_read() {
    let r = chart(vec![point("10:00 AM", "1"), point("noon", "2")]);
    assert!(hourly_points(&r).is_none());
}
