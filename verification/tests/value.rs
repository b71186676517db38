use tabl::app::parse_value;
use tabl::value::{
    datetime_micros, format_date, format_datetime, parse_date, parse_datetime, DType, TimeUnit,
    Value,
};

#[test]
fn date_round_trips() {
    let days = parse_date("2026-04-14").unwrap();
    assert_eq!(format_date(days), "2026-04-14");
    // Pre-epoch dates work too.
    let old = parse_date("1965-02-01").unwrap();
    assert!(old < 0);
    assert_eq!(format_date(old), "1965-02-01");
    assert!(parse_date("nope").is_none());
}

#[test]
fn datetime_round_trips() {
    let us = parse_datetime("2026-04-14 13:30:00").unwrap();
    assert_eq!(format_datetime(us), "2026-04-14 13:30:00");
    // `T` separator is accepted.
    assert_eq!(parse_datetime("2026-04-14T13:30:00"), Some(us));
    assert!(parse_datetime("not a datetime").is_none());
}

#[test]
fn epoch_is_day_zero() {
    assert_eq!(parse_date("1970-01-01"), Some(0));
    assert_eq!(parse_date("1970-01-02"), Some(1));
    assert_eq!(parse_datetime("1970-01-01 00:00:01"), Some(1_000_000));
    assert_eq!(format_datetime(0), "1970-01-01 00:00:00");
}

#[test]
fn datetime_accepts_fractional_seconds_and_surrounding_space() {
    assert_eq!(parse_datetime(" 1970-01-01 00:00:00.5 "), Some(500_000));
    assert_eq!(parse_date(" 1970-01-03 "), Some(2));
}

#[test]
fn display_texts() {
    assert_eq!(Value::Null.display(), "");
    assert_eq!(Value::Bool(true).display(), "true");
    assert_eq!(Value::Int(-42).display(), "-42");
    assert_eq!(Value::Int(i64::MIN).display(), "-9223372036854775808");
    assert_eq!(Value::Float("2.5".to_string()).display(), "2.5");
    assert_eq!(Value::Str("hi".to_string()).display(), "hi");
    assert_eq!(Value::Date(0).display(), "1970-01-01");
    assert!(Value::Null.is_null());
    assert!(!Value::Int(0).is_null());
    assert_eq!(DType::Datetime.label(), "datetime");
    assert_eq!(DType::Unknown.label(), "?");
}

#[test]
fn datetime_units_convert_to_micros() {
    assert_eq!(datetime_micros(1_500, TimeUnit::Nanoseconds), 1);
    assert_eq!(datetime_micros(-1_500, TimeUnit::Nanoseconds), -1);
    assert_eq!(datetime_micros(7, TimeUnit::Microseconds), 7);
    assert_eq!(datetime_micros(7, TimeUnit::Milliseconds), 7_000);
}

#[test]
fn typed_text_reads_by_column_type() {
    assert_eq!(parse_value("  ", DType::Int, None), Ok(Value::Null));
    assert_eq!(parse_value(" 42 ", DType::Int, None), Ok(Value::Int(42)));
    assert_eq!(parse_value("-7", DType::Int, None), Ok(Value::Int(-7)));
    assert_eq!(
        parse_value("x", DType::Int, None),
        Err("expected an integer, got `x`".to_string())
    );
    assert_eq!(parse_value("Yes", DType::Bool, None), Ok(Value::Bool(true)));
    assert_eq!(parse_value("0", DType::Bool, None), Ok(Value::Bool(false)));
    assert_eq!(
        parse_value("maybe", DType::Bool, None),
        Err("expected a boolean, got `maybe`".to_string())
    );
    assert_eq!(
        parse_value("1.50", DType::Float, Some("1.5".to_string())),
        Ok(Value::Float("1.5".to_string()))
    );
    assert_eq!(
        parse_value("abc", DType::Float, None),
        Err("expected a number, got `abc`".to_string())
    );
    assert_eq!(parse_value(" a b ", DType::Str, None), Ok(Value::Str(" a b ".to_string())));
    assert_eq!(
        parse_value("2026-07-04", DType::Date, None),
        Ok(Value::Date(parse_date("2026-07-04").unwrap()))
    );
    assert_eq!(
        parse_value("nope", DType::Date, None),
        Err("expected a date YYYY-MM-DD, got `nope`".to_string())
    );
    assert_eq!(
        parse_value("nope", DType::Datetime, None),
        Err("expected a datetime YYYY-MM-DD HH:MM:SS, got `nope`".to_string())
    );
}
