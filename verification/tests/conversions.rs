use chrono::SecondsFormat;
use epoch::date::parse_date;
use epoch::datetime::{datetime_to_timestamp, UtcDateTime};
use epoch::process::process_item;
use epoch::render::format_datetime;
use epoch::timestamp::parse_timestamp;
use epoch::tz::TzConfig;
use epoch::unit::{detect_unit, TimestampUnit};

fn rfc3339_utc(dt: &UtcDateTime) -> String {
    chrono::DateTime::from_timestamp(dt.timestamp(), dt.timestamp_subsec_nanos())
        .unwrap()
        .to_rfc3339_opts(SecondsFormat::AutoSi, true)
}

#[test]
fn test_unit_parsing() {
    assert_eq!("auto".parse::<TimestampUnit>().unwrap(), TimestampUnit::Auto);
    assert_eq!("s".parse::<TimestampUnit>().unwrap(), TimestampUnit::Seconds);
    assert_eq!("ms".parse::<TimestampUnit>().unwrap(), TimestampUnit::Milliseconds);
    assert_eq!("us".parse::<TimestampUnit>().unwrap(), TimestampUnit::Microseconds);
    assert_eq!("ns".parse::<TimestampUnit>().unwrap(), TimestampUnit::Nanoseconds);
}

#[test]
fn test_unit_detection() {
    assert_eq!(detect_unit(1_718_000_000), TimestampUnit::Seconds);
    assert_eq!(detect_unit(1_718_000_000_000), TimestampUnit::Milliseconds);
    assert_eq!(detect_unit(1_718_000_000_000_000), TimestampUnit::Microseconds);
    assert_eq!(detect_unit(1_718_000_000_000_000_000), TimestampUnit::Nanoseconds);
}

#[test]
fn test_parse_timestamp_ms() {
    let dt = parse_timestamp("1718000000000", TimestampUnit::Auto).unwrap();
    assert_eq!(rfc3339_utc(&dt), "2024-06-10T06:13:20Z");
}

#[test]
fn test_parse_timestamp_s() {
    let dt = parse_timestamp("1718000000", TimestampUnit::Auto).unwrap();
    assert_eq!(rfc3339_utc(&dt), "2024-06-10T06:13:20Z");
}

#[test]
fn test_parse_timestamp_us() {
    let dt = parse_timestamp("1718000000123456", TimestampUnit::Auto).unwrap();
    assert_eq!(rfc3339_utc(&dt), "2024-06-10T06:13:20.123456Z");
}

#[test]
fn test_parse_timestamp_float() {
    let dt = parse_timestamp("1718000000.5", TimestampUnit::Auto).unwrap();
    assert_eq!(rfc3339_utc(&dt), "2024-06-10T06:13:20.500Z");
}

#[test]
fn test_timezone_conversion() {
    let dt = parse_timestamp("1718000000000", TimestampUnit::Auto).unwrap();
    let tz_helsinki: TzConfig = "Europe/Helsinki".parse().unwrap();
    let formatted = format_datetime(dt, &tz_helsinki, None);
    assert_eq!(formatted, "2024-06-10T09:13:20+03:00");

    let tz_fixed: TzConfig = "+05:30".parse().unwrap();
    let formatted_fixed = format_datetime(dt, &tz_fixed, None);
    assert_eq!(formatted_fixed, "2024-06-10T11:43:20+05:30");

    let tz_local = TzConfig::Local;
    let formatted_local = format_datetime(dt, &tz_local, None);
    assert!(!formatted_local.is_empty());

    let formatted_rfc2822 = format_datetime(dt, &TzConfig::Utc, Some("rfc2822"));
    assert_eq!(formatted_rfc2822, "Mon, 10 Jun 2024 06:13:20 +0000");
}

#[test]
fn test_custom_format() {
    let dt = parse_timestamp("1718000000000", TimestampUnit::Auto).unwrap();
    let formatted = format_datetime(dt, &TzConfig::Utc, Some("%Y-%m-%d %H:%M:%S"));
    assert_eq!(formatted, "2024-06-10 06:13:20");
}

#[test]
fn test_date_to_timestamp() {
    let tz = TzConfig::Utc;
    let ts = process_item("2024-06-10T06:13:20Z", false, TimestampUnit::Milliseconds, &tz, None).unwrap();
    assert_eq!(ts, "1718000000000");

    let ts_sec = process_item("2024-06-10T06:13:20Z", false, TimestampUnit::Seconds, &tz, None).unwrap();
    assert_eq!(ts_sec, "1718000000");
}

#[test]
fn test_process_item_auto() {
    let tz = TzConfig::Utc;
    let out1 = process_item("1718000000000", false, TimestampUnit::Auto, &tz, None).unwrap();
    assert_eq!(out1, "2024-06-10T06:13:20Z");

    let out2 = process_item("2024-06-10T06:13:20Z", false, TimestampUnit::Milliseconds, &tz, None).unwrap();
    assert_eq!(out2, "1718000000000");
}

#[test]
fn date_only_strings_read_at_midnight_utc() {
    let tz = TzConfig::Utc;
    let dt = parse_date("2024-06-10", &tz, None).unwrap();
    assert_eq!(datetime_to_timestamp(dt, TimestampUnit::Milliseconds), 1_717_977_600_000);
}
