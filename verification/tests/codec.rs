use runrs::{seconds_to_time, time_to_seconds};

#[test]
fn format_zero() {
    assert_eq!(seconds_to_time(0), "00:00:00".to_owned());
}

#[test]
fn format_one_minute() {
    assert_eq!(seconds_to_time(60), "00:01:00".to_owned());
}

#[test]
fn format_mixed_fields() {
    assert_eq!(seconds_to_time(3661), "01:01:01".to_owned());
}

#[test]
fn format_hours_beyond_two_digits() {
    assert_eq!(seconds_to_time(360000), "100:00:00".to_owned());
    assert_eq!(seconds_to_time(360000 * 10 + 59), "1000:00:59".to_owned());
}

#[test]
fn parse_padded_time() {
    assert_eq!(time_to_seconds("3:45:00"), Ok(13500));
}

#[test]
fn parse_unpadded_fields() {
    assert_eq!(time_to_seconds("1:2:3"), Ok(3723));
}

#[test]
fn parse_out_of_range_minutes_and_seconds() {
    assert_eq!(time_to_seconds("1:99:99"), Ok(3600 + 99 * 60 + 99));
}

#[test]
fn parse_two_fields_is_an_error() {
    assert_eq!(time_to_seconds("1:2"), Err("Invalid format".to_string()));
}

#[test]
fn parse_non_numeric_is_an_error() {
    assert_eq!(time_to_seconds("a:b:c"), Err("Invalid format".to_string()));
}

#[test]
fn parse_empty_is_an_error() {
    assert_eq!(time_to_seconds(""), Err("Invalid format".to_string()));
}

#[test]
fn parse_four_numeric_fields_is_an_error() {
    assert_eq!(time_to_seconds("1:2:3:4"), Err("Invalid format".to_string()));
}

#[test]
fn parse_drops_fields_that_do_not_read_as_numbers() {
    assert_eq!(time_to_seconds("a:1:2:3"), Ok(3723));
    assert_eq!(time_to_seconds("1::2:3"), Ok(3723));
    assert_eq!(time_to_seconds("99999999999999999999:1:2:3"), Ok(3723));
}

#[test]
fn round_trip_samples() {
    for s in [0u64, 1, 59, 60, 3599, 3600, 3661, 86399, 86400, 359999, 360000, 123456789] {
        assert_eq!(time_to_seconds(&seconds_to_time(s)), Ok(s));
    }
}
