use tap::octal::parse_octal;
use tap::timestamp::parse_timestamp;

#[test]
fn test_parse_timestamp() {
    let time_str = "2023-05-01 12:00:00";
    let parsed_time = parse_timestamp(time_str);
    assert_eq!(parsed_time, Some(1682942400));
}

#[test]
fn parse_timestamp_midnight() {
    assert_eq!(parse_timestamp("2023-05-01 00:00:00"), Some(1682899200));
}

#[test]
fn parse_timestamp_epoch_start() {
    assert_eq!(parse_timestamp("1970-01-01 00:00:00"), Some(0));
    assert_eq!(parse_timestamp("1970-01-02 00:00:00"), Some(86400));
}

#[test]
fn parse_timestamp_leap_day() {
    assert_eq!(parse_timestamp("2024-02-29 00:00:00"), Some(1709164800));
    assert_eq!(parse_timestamp("2023-02-29 00:00:00"), None);
}

#[test]
fn parse_timestamp_rejects_malformed() {
    assert_eq!(parse_timestamp("not-a-date"), None);
    assert_eq!(parse_timestamp(""), None);
    assert_eq!(parse_timestamp("2023-05-01T12:00:00"), None);
    assert_eq!(parse_timestamp("2023-05-01 12:00"), None);
    assert_eq!(parse_timestamp("2023-05-01 12:00:00 "), None);
    assert_eq!(parse_timestamp("23-05-01 12:00:000"), None);
}

#[test]
fn parse_timestamp_rejects_impossible_fields() {
    assert_eq!(parse_timestamp("2023-13-01 00:00:00"), None);
    assert_eq!(parse_timestamp("2023-00-01 00:00:00"), None);
    assert_eq!(parse_timestamp("2023-04-31 00:00:00"), None);
    assert_eq!(parse_timestamp("2023-05-00 00:00:00"), None);
    assert_eq!(parse_timestamp("2023-05-01 24:00:00"), None);
    assert_eq!(parse_timestamp("2023-05-01 12:60:00"), None);
    assert_eq!(parse_timestamp("2023-05-01 12:00:60"), None);
}

#[test]
fn parse_timestamp_before_epoch_is_negative() {
    assert_eq!(parse_timestamp("1969-12-31 23:59:59"), Some(-1));
    assert_eq!(parse_timestamp("1969-12-31 00:00:00"), Some(-86400));
    assert_eq!(parse_timestamp("1900-01-01 00:00:00"), Some(-2208988800));
}

#[test]
fn parse_octal_common_modes() {
    assert_eq!(parse_octal("644"), Some(0o644));
    assert_eq!(parse_octal("755"), Some(0o755));
    assert_eq!(parse_octal("0"), Some(0));
    assert_eq!(parse_octal("000"), Some(0));
    assert_eq!(parse_octal("7777"), Some(0o7777));
}

#[test]
fn parse_octal_rejects_invalid() {
    assert_eq!(parse_octal("89a"), None);
    assert_eq!(parse_octal(""), None);
    assert_eq!(parse_octal("8"), None);
    assert_eq!(parse_octal("+644"), None);
    assert_eq!(parse_octal("-644"), None);
    assert_eq!(parse_octal("64 4"), None);
}

#[test]
fn parse_octal_rejects_overflow() {
    assert_eq!(parse_octal("37777777777"), Some(u32::MAX));
    assert_eq!(parse_octal("40000000000"), None);
    assert_eq!(parse_octal("77777777777777"), None);
}
