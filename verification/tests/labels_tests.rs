use stock_chart::error::{Column, Fault, LoadError};
use stock_chart::labels::{format_price, format_volume, push_decimal};

#[test]
fn volume_below_a_thousand_is_written_out() {
    assert_eq!(format_volume(0), "0");
    assert_eq!(format_volume(7), "7");
    assert_eq!(format_volume(999), "999");
}

#[test]
fn volume_is_abbreviated_from_a_thousand_on() {
    assert_eq!(format_volume(1_000), "1.0K");
    assert_eq!(format_volume(1_500), "1.5K");
    assert_eq!(format_volume(12_345), "12.3K");
    assert_eq!(format_volume(999_999), "999.9K");
}

#[test]
fn volume_is_abbreviated_from_a_million_on() {
    assert_eq!(format_volume(1_000_000), "1.0M");
    assert_eq!(format_volume(1_500_000), "1.5M");
    assert_eq!(format_volume(48_123_456), "48.1M");
    assert_eq!(format_volume(999_999_999), "999.9M");
}

#[test]
fn volume_is_abbreviated_from_a_billion_on() {
    assert_eq!(format_volume(1_000_000_000), "1.0B");
    assert_eq!(format_volume(2_750_000_000), "2.7B");
    assert_eq!(format_volume(u64::MAX), "18446744073.7B");
}

#[test]
fn price_has_two_decimals() {
    assert_eq!(format_price(0), "0.00");
    assert_eq!(format_price(150_250_000), "150.25");
    assert_eq!(format_price(1_000_000), "1.00");
    assert_eq!(format_price(50_000), "0.05");
    assert_eq!(format_price(1_234_560_000), "1234.56");
}

#[test]
fn price_is_rounded_to_the_nearest_hundredth() {
    assert_eq!(format_price(1_004_999), "1.00");
    assert_eq!(format_price(1_005_000), "1.01");
    assert_eq!(format_price(4_999), "0.00");
    assert_eq!(format_price(5_000), "0.01");
    assert_eq!(format_price(999_995_000), "1000.00");
}

#[test]
fn price_below_zero_has_a_sign() {
    assert_eq!(format_price(-150_250_000), "-150.25");
    assert_eq!(format_price(-5_000), "-0.01");
    assert_eq!(format_price(-4_999), "0.00");
    assert_eq!(format_price(-1), "0.00");
}

#[test]
fn price_at_the_limits() {
    assert_eq!(format_price(i64::MAX), "9223372036854.78");
    assert_eq!(format_price(i64::MIN), "-9223372036854.78");
}

#[test]
fn decimal_is_appended() {
    let mut out = String::from("n=");
    push_decimal(&mut out, 0);
    push_decimal(&mut out, 907);
    assert_eq!(out, "n=0907");
    let mut out = String::new();
    push_decimal(&mut out, u128::MAX);
    assert_eq!(out, "340282366920938463463374607431768211455");
}

#[test]
fn missing_resource_names_the_ticker() {
    assert_eq!(
        LoadError::ResourceNotFound.message("AAPL"),
        "Data file not found for ticker: AAPL"
    );
}

#[test]
fn parse_error_names_the_line_and_the_fault() {
    let message = |line, fault| LoadError::Parse { line, fault }.message("AAPL");
    assert_eq!(message(0, Fault::MissingColumn(Column::Volume)), "line 0: missing column Volume");
    assert_eq!(message(0, Fault::RepeatedColumn(Column::Date)), "line 0: repeated column Date");
    assert_eq!(message(12, Fault::Malformed), "line 12: malformed record");
    assert_eq!(message(3, Fault::Timestamp), "line 3: invalid timestamp");
    assert_eq!(message(250, Fault::Number(Column::Close)), "line 250: invalid number in column Close");
}

#[test]
fn columns_have_their_names() {
    let names: Vec<&str> = [
        Column::Date,
        Column::Open,
        Column::High,
        Column::Low,
        Column::Close,
        Column::Volume,
    ]
    .iter()
    .map(|column| column.label())
    .collect();
    assert_eq!(names, vec!["Date", "Open", "High", "Low", "Close", "Volume"]);
    assert_eq!(Fault::Number(Column::Open).describe(), "invalid number in column Open");
}
