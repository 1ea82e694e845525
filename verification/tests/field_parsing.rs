use vessel_routing::errors::IngestionError;
use vessel_routing::parsing::{parse_coordinate, parse_location_field, parse_time_window_field};

#[test]
fn time_window_field_parses_parenthesised_pair() {
    assert_eq!(parse_time_window_field(b"(10, 20)"), Ok((10, 20)));
    assert_eq!(parse_time_window_field(b"(0,24)"), Ok((0, 24)));
}

#[test]
fn time_window_field_accepts_bare_pair() {
    assert_eq!(parse_time_window_field(b"8 , 16"), Ok((8, 16)));
}

#[test]
fn time_window_field_accepts_leading_zeros() {
    assert_eq!(parse_time_window_field(b"(08, 016)"), Ok((8, 16)));
}

#[test]
fn time_window_field_rejects_wrong_shapes() {
    assert_eq!(parse_time_window_field(b""), Err(IngestionError::MalformedField));
    assert_eq!(parse_time_window_field(b"(10; 20)"), Err(IngestionError::MalformedField));
    assert_eq!(parse_time_window_field(b"(10, 20, 30)"), Err(IngestionError::MalformedField));
    assert_eq!(parse_time_window_field(b"(, 20)"), Err(IngestionError::MalformedField));
    assert_eq!(parse_time_window_field(b"(10, 2x)"), Err(IngestionError::MalformedField));
}

#[test]
fn time_window_field_rejects_values_beyond_u32() {
    assert_eq!(parse_time_window_field(b"(4294967295, 0)"), Ok((4294967295, 0)));
    assert_eq!(parse_time_window_field(b"(4294967296, 0)"), Err(IngestionError::MalformedField));
}

#[test]
fn coordinate_parses_whole_degrees() {
    assert_eq!(parse_coordinate(b"58"), Ok(58_000_000));
    assert_eq!(parse_coordinate(b"0"), Ok(0));
    assert_eq!(parse_coordinate(b"-3"), Ok(-3_000_000));
    assert_eq!(parse_coordinate(b"+7"), Ok(7_000_000));
}

#[test]
fn coordinate_parses_fractions() {
    assert_eq!(parse_coordinate(b"58.5"), Ok(58_500_000));
    assert_eq!(parse_coordinate(b"-3.25"), Ok(-3_250_000));
    assert_eq!(parse_coordinate(b".5"), Ok(500_000));
    assert_eq!(parse_coordinate(b"5."), Ok(5_000_000));
    assert_eq!(parse_coordinate(b"0.000001"), Ok(1));
}

#[test]
fn coordinate_ignores_fraction_digits_beyond_the_sixth() {
    assert_eq!(parse_coordinate(b"0.1234567"), Ok(123_456));
    assert_eq!(parse_coordinate(b"1.9999999"), Ok(1_999_999));
}

#[test]
fn coordinate_rejects_wrong_shapes() {
    assert_eq!(parse_coordinate(b""), Err(IngestionError::MalformedField));
    assert_eq!(parse_coordinate(b"-"), Err(IngestionError::MalformedField));
    assert_eq!(parse_coordinate(b"."), Err(IngestionError::MalformedField));
    assert_eq!(parse_coordinate(b"1.2.3"), Err(IngestionError::MalformedField));
    assert_eq!(parse_coordinate(b"12a"), Err(IngestionError::MalformedField));
    assert_eq!(parse_coordinate(b"--5"), Err(IngestionError::MalformedField));
}

#[test]
fn location_field_parses_bracketed_pair() {
    assert_eq!(parse_location_field(b"[58.5, -3.25]"), Ok((58_500_000, -3_250_000)));
    assert_eq!(parse_location_field(b"[0, 1]"), Ok((0, 1_000_000)));
}

#[test]
fn location_field_rejects_wrong_shapes() {
    assert_eq!(parse_location_field(b"[58.5]"), Err(IngestionError::MalformedField));
    assert_eq!(parse_location_field(b"[1, 2, 3]"), Err(IngestionError::MalformedField));
    assert_eq!(parse_location_field(b"[a, b]"), Err(IngestionError::MalformedField));
    assert_eq!(parse_location_field(b""), Err(IngestionError::MalformedField));
}
