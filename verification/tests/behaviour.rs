use epoch::cli::{is_stdin_requested, process_inputs, report_item, ItemReport};
use epoch::date::{naive_to_utc, parse_date, NaiveLocal};
use epoch::datetime::{datetime_to_timestamp, UtcDateTime};
use epoch::decimal::decimal_string;
use epoch::outcome::Step;
use epoch::process::{is_date_like, process_item, process_item_panics, process_item_step};
use epoch::render::{format_datetime, format_datetime_panics};
use epoch::timestamp::{parse_timestamp, parse_timestamp_panics};
use epoch::tz::{parse_fixed_offset, TzConfig};
use epoch::unit::{detect_unit, TimestampUnit};

fn utc() -> TzConfig {
    TzConfig::Utc
}

#[test]
fn unit_names_ignore_case_and_whitespace() {
    assert_eq!(TimestampUnit::parse("  MS ").unwrap(), TimestampUnit::Milliseconds);
    assert_eq!(TimestampUnit::parse("Seconds").unwrap(), TimestampUnit::Seconds);
    assert_eq!(TimestampUnit::parse("\u{b5}s").unwrap(), TimestampUnit::Microseconds);
    assert_eq!(TimestampUnit::parse("nanos").unwrap(), TimestampUnit::Nanoseconds);
}

#[test]
fn unknown_unit_is_rejected() {
    assert_eq!(
        TimestampUnit::parse("weeks").unwrap_err(),
        "Invalid unit 'weeks'. Supported units: auto, s, ms, us, ns"
    );
}

#[test]
fn detection_thresholds_and_sign() {
    assert_eq!(detect_unit(99_999_999_999), TimestampUnit::Seconds);
    assert_eq!(detect_unit(100_000_000_000), TimestampUnit::Milliseconds);
    assert_eq!(detect_unit(99_999_999_999_999), TimestampUnit::Milliseconds);
    assert_eq!(detect_unit(100_000_000_000_000), TimestampUnit::Microseconds);
    assert_eq!(detect_unit(100_000_000_000_000_000), TimestampUnit::Nanoseconds);
    assert_eq!(detect_unit(-1_718_000_000_000), detect_unit(1_718_000_000_000));
    assert_eq!(detect_unit(0), TimestampUnit::Seconds);
}

#[test]
fn auto_reads_in_detected_unit() {
    let auto = parse_timestamp("1718000000000", TimestampUnit::Auto).unwrap();
    let ms = parse_timestamp("1718000000000", TimestampUnit::Milliseconds).unwrap();
    assert_eq!(auto, ms);
}

#[test]
fn integer_timestamps_convert_back() {
    for (text, unit, value) in [
        ("1718000000", TimestampUnit::Seconds, 1_718_000_000i128),
        ("1718000000123", TimestampUnit::Milliseconds, 1_718_000_000_123),
        ("-1718000000123", TimestampUnit::Milliseconds, -1_718_000_000_123),
        ("1718000000123456", TimestampUnit::Microseconds, 1_718_000_000_123_456),
        ("-1718000000123456789", TimestampUnit::Nanoseconds, -1_718_000_000_123_456_789),
    ] {
        let dt = parse_timestamp(text, unit).unwrap();
        assert_eq!(datetime_to_timestamp(dt, unit), value);
    }
}

#[test]
fn negative_milliseconds_use_floor_division() {
    let dt = parse_timestamp("-1500", TimestampUnit::Milliseconds).unwrap();
    assert_eq!(dt.timestamp(), -2);
    assert_eq!(dt.timestamp_subsec_nanos(), 500_000_000);
}

#[test]
fn decimal_fractions_per_unit() {
    let s = parse_timestamp("1718000000.123456789123", TimestampUnit::Seconds).unwrap();
    assert_eq!((s.timestamp(), s.timestamp_subsec_nanos()), (1_718_000_000, 123_456_789));
    let ms = parse_timestamp("1718000000123.5", TimestampUnit::Milliseconds).unwrap();
    assert_eq!((ms.timestamp(), ms.timestamp_subsec_nanos()), (1_718_000_000, 123_500_000));
    let us = parse_timestamp("1718000000123456.7", TimestampUnit::Microseconds).unwrap();
    assert_eq!((us.timestamp(), us.timestamp_subsec_nanos()), (1_718_000_000, 123_456_700));
    let ns = parse_timestamp("1718000000123456789.9", TimestampUnit::Nanoseconds).unwrap();
    assert_eq!((ns.timestamp(), ns.timestamp_subsec_nanos()), (1_718_000_000, 123_456_789));
    let neg = parse_timestamp("-5.25", TimestampUnit::Seconds).unwrap();
    assert_eq!((neg.timestamp(), neg.timestamp_subsec_nanos()), (-6, 750_000_000));
}

#[test]
fn negative_decimals_read_by_value() {
    let whole = parse_timestamp("-1.0", TimestampUnit::Seconds).unwrap();
    assert_eq!((whole.timestamp(), whole.timestamp_subsec_nanos()), (-1, 0));
    let half = parse_timestamp("-0.5", TimestampUnit::Seconds).unwrap();
    assert_eq!((half.timestamp(), half.timestamp_subsec_nanos()), (-1, 500_000_000));
    let ms = parse_timestamp("-1.5", TimestampUnit::Milliseconds).unwrap();
    assert_eq!((ms.timestamp(), ms.timestamp_subsec_nanos()), (-1, 998_500_000));
    let us = parse_timestamp("-1.5", TimestampUnit::Microseconds).unwrap();
    assert_eq!((us.timestamp(), us.timestamp_subsec_nanos()), (-1, 999_998_500));
    let ns = parse_timestamp("-1.9", TimestampUnit::Nanoseconds).unwrap();
    assert_eq!((ns.timestamp(), ns.timestamp_subsec_nanos()), (-1, 999_999_999));
}

#[test]
fn decimal_integer_parts_beyond_range_are_rejected() {
    assert_eq!(
        parse_timestamp("18446744073709551621.5", TimestampUnit::Seconds).unwrap_err(),
        "Invalid timestamp: 18446744073709551621.5"
    );
    assert_eq!(
        parse_timestamp("-170141183460469231731687303715884105728.5", TimestampUnit::Auto).unwrap_err(),
        "Invalid timestamp: -170141183460469231731687303715884105728.5"
    );
}

#[test]
fn smallest_integer_is_nanoseconds() {
    assert_eq!(detect_unit(i128::MIN), TimestampUnit::Nanoseconds);
    assert_eq!(
        parse_timestamp("-170141183460469231731687303715884105728", TimestampUnit::Auto).unwrap_err(),
        "Timestamp out of range: -170141183460469231731687303715884105728"
    );
}

#[test]
fn timestamp_errors() {
    assert_eq!(
        parse_timestamp("12ab", TimestampUnit::Seconds).unwrap_err(),
        "Failed to parse integer timestamp '12ab': invalid digit found in string"
    );
    assert_eq!(
        parse_timestamp("", TimestampUnit::Seconds).unwrap_err(),
        "Failed to parse integer timestamp '': cannot parse integer from empty string"
    );
    assert_eq!(
        parse_timestamp("99999999999999999999999999999999999999999", TimestampUnit::Seconds).unwrap_err(),
        "Failed to parse integer timestamp '99999999999999999999999999999999999999999': number too large to fit in target type"
    );
    assert_eq!(
        parse_timestamp("99999999999999999999", TimestampUnit::Seconds).unwrap_err(),
        "Timestamp out of range: 99999999999999999999"
    );
    assert_eq!(
        parse_timestamp("9000000000000", TimestampUnit::Seconds).unwrap_err(),
        "Invalid timestamp seconds: 9000000000000"
    );
    assert_eq!(
        parse_timestamp("9000000000000000", TimestampUnit::Milliseconds).unwrap_err(),
        "Invalid timestamp milliseconds: 9000000000000000"
    );
    assert_eq!(parse_timestamp("1.2.3", TimestampUnit::Auto).unwrap_err(), "Invalid decimal timestamp: 1.2.3");
    assert_eq!(
        parse_timestamp("x.5", TimestampUnit::Auto).unwrap_err(),
        "Invalid integer part in timestamp 'x.5': invalid digit found in string"
    );
    assert_eq!(
        parse_timestamp("9000000000000.5", TimestampUnit::Seconds).unwrap_err(),
        "Invalid timestamp: 9000000000000.5"
    );
}

#[test]
fn aborting_inputs_are_reported() {
    assert!(parse_timestamp_panics("1.5\u{e9}", TimestampUnit::Microseconds) == false);
    assert!(parse_timestamp_panics("1.12\u{e9}", TimestampUnit::Microseconds));
    assert!(!parse_timestamp_panics("1718000000", TimestampUnit::Auto));
}

#[test]
fn decimal_writing() {
    assert_eq!(decimal_string(0), "0");
    assert_eq!(decimal_string(-12345), "-12345");
    assert_eq!(decimal_string(i128::MIN), "-170141183460469231731687303715884105728");
    assert_eq!(decimal_string(i128::MAX), i128::MAX.to_string());
}

#[test]
fn nanoseconds_beyond_i64() {
    let dt = parse_timestamp("8000000000000", TimestampUnit::Seconds).unwrap();
    assert_eq!(datetime_to_timestamp(dt, TimestampUnit::Nanoseconds), 8_000_000_000_000_000_000_000);
    let back = parse_timestamp("8000000000000000000000", TimestampUnit::Nanoseconds).unwrap();
    assert_eq!(back, dt);
    assert_eq!(datetime_to_timestamp(dt, TimestampUnit::Microseconds), 8_000_000_000_000_000_000);
}

#[test]
fn date_like_detection() {
    assert!(is_date_like("now"));
    assert!(is_date_like(" NOW "));
    assert!(is_date_like("2024-06-10"));
    assert!(is_date_like("10:00"));
    assert!(is_date_like("Mon, 10 Jun 2024"));
    assert!(is_date_like("20240610T1"));
    assert!(is_date_like("abc"));
    assert!(!is_date_like("-1718000000"));
    assert!(!is_date_like("-1718000000.5"));
    assert!(!is_date_like("1718000000"));
    assert!(!is_date_like("20240610"));
    assert!(!is_date_like(""));
}

#[test]
fn fixed_offsets() {
    assert_eq!(parse_fixed_offset("+05:30"), Some(19800));
    assert_eq!(parse_fixed_offset("-0500"), Some(-18000));
    assert_eq!(parse_fixed_offset("+3"), Some(10800));
    assert_eq!(parse_fixed_offset("+24:00"), None);
    assert_eq!(parse_fixed_offset("+05:60"), None);
    assert_eq!(parse_fixed_offset("05:00"), None);
    assert_eq!(parse_fixed_offset("+1:2:3"), None);
    assert_eq!(parse_fixed_offset("+1\u{e9}1"), None);
}

#[test]
fn tz_settings() {
    assert_eq!(TzConfig::parse(" gmt ").unwrap(), TzConfig::Utc);
    assert_eq!(TzConfig::parse("Z").unwrap(), TzConfig::Utc);
    assert_eq!(TzConfig::parse("Local").unwrap(), TzConfig::Local);
    assert_eq!(TzConfig::parse("-05:00").unwrap(), TzConfig::Fixed(-18000));
    assert_eq!(TzConfig::parse("Europe/Helsinki").unwrap(), TzConfig::Named("Europe/Helsinki".to_string()));
    assert_eq!(TzConfig::parse("america/new york").unwrap(), TzConfig::Named("America/New_York".to_string()));
    assert_eq!(
        TzConfig::parse("Mars/Base").unwrap_err(),
        "Unknown timezone 'Mars/Base'. Examples: UTC, local, Europe/Helsinki, America/New_York, +02:00, -05:00"
    );
    assert_eq!(
        TzConfig::parse("+1\u{e9}1").unwrap_err(),
        "Unknown timezone '+1\u{e9}1'. Examples: UTC, local, Europe/Helsinki, America/New_York, +02:00, -05:00"
    );
    assert_eq!(TzConfig::parse("+0100").unwrap(), TzConfig::Fixed(3600));
    assert!(TzConfig::Named("Europe/Helsinki".to_string()).is_valid());
    assert!(!TzConfig::Named("Mars/Base".to_string()).is_valid());
    assert!(!TzConfig::Fixed(86_400).is_valid());
}

#[test]
fn formats_in_zones() {
    let dt = parse_timestamp("1718000000", TimestampUnit::Seconds).unwrap();
    let helsinki = TzConfig::Named("Europe/Helsinki".to_string());
    assert_eq!(format_datetime(dt, &helsinki, Some("RFC-2822")), "Mon, 10 Jun 2024 09:13:20 +0300");
    assert_eq!(format_datetime(dt, &helsinki, Some("%H:%M %Z")), "09:13 EEST");
    assert_eq!(format_datetime(dt, &TzConfig::Fixed(-18000), Some("iso8601")), "2024-06-10T01:13:20-05:00");
    assert_eq!(format_datetime(dt, &TzConfig::Utc, Some("%s")), "1718000000");
}

#[test]
fn invalid_pattern_aborts() {
    let step = process_item_step("1718000000", false, TimestampUnit::Auto, &utc(), Some("%Q"));
    assert!(matches!(step, Step::Panic));
}

#[test]
fn dates_in_zones() {
    let helsinki = TzConfig::Named("Europe/Helsinki".to_string());
    let summer = parse_date("2024-06-10 09:13:20", &helsinki, None).unwrap();
    assert_eq!(summer.timestamp(), 1_718_000_000);
    let fixed = parse_date("2024-06-10 11:43:20", &TzConfig::Fixed(19800), None).unwrap();
    assert_eq!(fixed.timestamp(), 1_718_000_000);
    let overlap = parse_date("2024-10-27 03:30:00", &helsinki, None).unwrap();
    assert_eq!(overlap.timestamp(), 1_729_989_000);
    assert_eq!(
        parse_date("2024-03-31 03:30:00", &helsinki, None).unwrap_err(),
        "Datetime '2024-03-31 03:30:00' does not exist in timezone 'Europe/Helsinki' due to DST transition"
    );
    let _ = parse_date("2024-06-10 12:00:00", &TzConfig::Local, None);
}

#[test]
fn date_layouts() {
    let tz = utc();
    for text in [
        "2024-06-10T03:00:00Z",
        "Mon, 10 Jun 2024 03:00:00 +0000",
        "2024-06-10T06:00:00.000+03:00",
        "2024-06-10 06:00:00+0300",
        "2024-06-10T03:00:00",
        "2024/06/10 03:00:00",
        "2024-06-10_03:00:00",
        "10.06.2024 03:00:00",
    ] {
        assert_eq!(parse_date(text, &tz, None).unwrap().timestamp(), 1_717_988_400, "{}", text);
    }
    for text in ["2024-06-10", "2024/06/10", "10.06.2024", "20240610"] {
        assert_eq!(parse_date(text, &tz, None).unwrap().timestamp(), 1_717_977_600, "{}", text);
    }
    assert_eq!(
        parse_date(" garbage ", &tz, None).unwrap_err(),
        "Failed to parse date string 'garbage'. Expected RFC3339 (e.g. 2024-06-10T06:13:20Z) or YYYY-MM-DD HH:MM:SS"
    );
    assert!(parse_date("now", &tz, None).is_ok());
}

#[test]
fn custom_patterns_come_first() {
    let tz = utc();
    let dt = parse_date("15/01/2024 10:00", &tz, Some("%d/%m/%Y %H:%M")).unwrap();
    assert_eq!(dt.timestamp(), 1_705_312_800);
    let day = parse_date("15|01|2024", &tz, Some("%d|%m|%Y")).unwrap();
    assert_eq!(day.timestamp(), 1_705_276_800);
    let preset = parse_date("2024-06-10T03:00:00Z", &tz, Some("RFC3339")).unwrap();
    assert_eq!(preset.timestamp(), 1_717_988_400);
}

#[test]
fn naive_readings() {
    let n = NaiveLocal { secs: 1_718_000_000 + 19_800, nanos: 250 };
    let d = naive_to_utc(&n, &TzConfig::Fixed(19_800)).unwrap();
    assert_eq!((d.timestamp(), d.timestamp_subsec_nanos()), (1_718_000_000, 250));
    let u = naive_to_utc(&n, &TzConfig::Utc).unwrap();
    assert_eq!(u.timestamp(), 1_718_019_800);
    let edge = NaiveLocal { secs: -8_334_601_228_800, nanos: 0 };
    assert_eq!(
        naive_to_utc(&edge, &TzConfig::Fixed(3600)).unwrap_err(),
        "Datetime '-262143-01-01 00:00:00' does not exist with offset '+01:00'"
    );
}

#[test]
fn blank_and_trimmed_input() {
    let tz = utc();
    assert_eq!(process_item("   ", false, TimestampUnit::Auto, &tz, None).unwrap(), "");
    assert_eq!(
        process_item("  1718000000000\n", false, TimestampUnit::Auto, &tz, None).unwrap(),
        process_item("1718000000000", false, TimestampUnit::Auto, &tz, None).unwrap()
    );
}

#[test]
fn reverse_forces_date_reading() {
    let tz = utc();
    assert_eq!(
        process_item("20240610", true, TimestampUnit::Seconds, &tz, None).unwrap(),
        "1717977600"
    );
    assert_eq!(
        process_item("20240610", false, TimestampUnit::Seconds, &tz, None).unwrap(),
        "1970-08-23T06:23:30Z"
    );
}

#[test]
fn dates_default_to_milliseconds() {
    let tz = utc();
    assert_eq!(
        process_item("2024-06-10", false, TimestampUnit::Auto, &tz, None).unwrap(),
        process_item("2024-06-10", false, TimestampUnit::Milliseconds, &tz, None).unwrap()
    );
    assert_eq!(process_item("2024-06-10", false, TimestampUnit::Auto, &tz, None).unwrap(), "1717977600000");
}

#[test]
fn date_to_timestamp_and_back() {
    let tz = utc();
    let us = process_item("2024-06-10T06:13:20.123456789Z", false, TimestampUnit::Microseconds, &tz, None).unwrap();
    assert_eq!(us, "1718000000123456");
    let back = process_item(&us, false, TimestampUnit::Microseconds, &tz, None).unwrap();
    assert_eq!(back, "2024-06-10T06:13:20.123456Z");
    let ns = process_item("1969-12-31T23:59:59.5Z", false, TimestampUnit::Nanoseconds, &tz, None).unwrap();
    assert_eq!(ns, "-500000000");
    let ns_back = process_item(&ns, false, TimestampUnit::Nanoseconds, &tz, None).unwrap();
    assert_eq!(ns_back, "1969-12-31T23:59:59.500Z");
}

#[test]
fn command_line_decisions() {
    assert!(is_stdin_requested(&[]));
    assert!(is_stdin_requested(&["-".to_string()]));
    assert!(!is_stdin_requested(&["-".to_string(), "1".to_string()]));
    assert!(!is_stdin_requested(&["1718000000".to_string()]));

    let tz = utc();
    assert!(matches!(report_item("  ", false, TimestampUnit::Auto, &tz, None), ItemReport::Quiet));
    match report_item("1718000000", false, TimestampUnit::Auto, &tz, None) {
        ItemReport::Print(s) => assert_eq!(s, "2024-06-10T06:13:20Z"),
        _ => panic!("expected output"),
    }

    let inputs = vec!["1718000000".to_string(), "nonsense".to_string(), "2024-06-10".to_string()];
    let (reports, ok) = process_inputs(&inputs, false, TimestampUnit::Auto, &tz, None);
    assert!(!ok);
    assert_eq!(reports.len(), 3);
    assert!(matches!(reports[1], ItemReport::Fail(_)));

    let all_good = vec!["1718000000".to_string(), "".to_string()];
    let (reports, ok) = process_inputs(&all_good, false, TimestampUnit::Auto, &tz, None);
    assert!(ok);
    assert_eq!(reports.len(), 2);

    let aborting = vec!["1718000000".to_string(), "1718000001".to_string()];
    let (reports, ok) = process_inputs(&aborting, false, TimestampUnit::Auto, &tz, Some("%Q"));
    assert!(ok);
    assert_eq!(reports.len(), 1);
    assert!(matches!(reports[0], ItemReport::Abort));
}

#[test]
fn offset_text_reads_back() {
    for secs in [0, 19_800, -18_000, 86_340, -86_340] {
        let text = chrono::FixedOffset::east_opt(secs).unwrap().to_string();
        assert_eq!(parse_fixed_offset(&text), Some(secs), "{}", text);
    }
}

#[test]
fn patterns_at_fixed_offsets() {
    let dt = parse_timestamp("1718000000", TimestampUnit::Seconds).unwrap();
    assert_eq!(format_datetime(dt, &TzConfig::Fixed(19_800), Some("%H:%M %z")), "11:43 +0530");
    let tz = utc();
    let with_offset = parse_date("10/06/2024 06:00 +0300", &tz, Some("%d/%m/%Y %H:%M %z")).unwrap();
    assert_eq!(with_offset.timestamp(), 1_717_988_400);
}

#[test]
fn points_from_timestamps() {
    let d = UtcDateTime::from_timestamp(1_718_000_000, 5).unwrap();
    assert_eq!((d.timestamp(), d.timestamp_subsec_nanos()), (1_718_000_000, 5));
    assert!(UtcDateTime::from_timestamp(59, 1_500_000_000).is_some());
    assert!(UtcDateTime::from_timestamp(58, 1_500_000_000).is_none());
    assert!(UtcDateTime::from_timestamp(-8_334_601_228_800, 0).is_some());
    assert!(UtcDateTime::from_timestamp(-8_334_601_228_801, 0).is_none());
    assert!(UtcDateTime::from_timestamp(8_210_266_876_799, 999_999_999).is_some());
    assert!(UtcDateTime::from_timestamp(8_210_266_876_800, 0).is_none());
    assert_eq!(format_datetime(d, &TzConfig::Utc, None), "2024-06-10T06:13:20.000000005Z");
}

#[test]
fn abort_checks_before_writing() {
    let dt = parse_timestamp("1718000000", TimestampUnit::Seconds).unwrap();
    let helsinki = TzConfig::Named("Europe/Helsinki".to_string());
    assert!(!format_datetime_panics(&dt, &TzConfig::Utc, None));
    assert!(format_datetime_panics(&dt, &helsinki, Some("%Q")));
    assert!(!format_datetime_panics(&dt, &helsinki, Some("%H:%M")));
    assert!(!format_datetime_panics(&dt, &TzConfig::Local, Some("rfc2822")));
    let far = parse_timestamp("8210266876799", TimestampUnit::Seconds).unwrap();
    assert!(format_datetime_panics(&far, &TzConfig::Fixed(3600), None));
    assert!(!format_datetime_panics(&far, &TzConfig::Utc, None));
    assert!(format_datetime_panics(&far, &TzConfig::Local, None));
    assert!(format_datetime_panics(&far, &TzConfig::Utc, Some("rfc2822")));

    let tz = utc();
    assert!(process_item_panics("1718000000", false, TimestampUnit::Auto, &tz, Some("%Q")));
    assert!(!process_item_panics("2024-06-10", false, TimestampUnit::Auto, &tz, Some("%Q")));
    assert!(!process_item_panics("1718000000", false, TimestampUnit::Auto, &tz, None));
    assert!(!process_item_panics("1.12\u{e9}", false, TimestampUnit::Microseconds, &tz, None));
    assert!(process_item_panics("1.12\u{20ac}", false, TimestampUnit::Microseconds, &tz, None));
    assert!(!process_item_panics("   ", false, TimestampUnit::Auto, &tz, Some("%Q")));
}

#[test]
fn milliseconds_round_trip_through_dates() {
    for tz in [utc(), TzConfig::Fixed(19_800), TzConfig::Named("America/New_York".to_string())] {
        for v in ["1718000000123", "100000000000", "99999999999999"] {
            let date = process_item(v, false, TimestampUnit::Auto, &tz, None).unwrap();
            assert_eq!(process_item(&date, false, TimestampUnit::Auto, &tz, None).unwrap(), v);
        }
    }
}

#[test]
fn rfc3339_output_parses_back_in_any_zone() {
    let dt = UtcDateTime::from_timestamp(1_718_000_000, 123_456_789).unwrap();
    for tz in [utc(), TzConfig::Fixed(-18_000), TzConfig::Named("Asia/Kolkata".to_string())] {
        let text = format_datetime(dt, &tz, None);
        for tz2 in [utc(), TzConfig::Fixed(3600), TzConfig::Local] {
            assert_eq!(parse_date(&text, &tz2, None).unwrap(), dt);
        }
    }
}
