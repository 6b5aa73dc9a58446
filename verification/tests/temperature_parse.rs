use argononed::temperature::{parse_reading, Temperature};

fn millis(bytes: &[u8]) -> Option<i64> {
    parse_reading(bytes).map(|t| t.millidegrees)
}

#[test]
fn parses_the_tool_output() {
    assert_eq!(millis(b"temp=42.8'C\n"), Some(42_800));
    assert_eq!(millis(b"temp=42.8'C"), Some(42_800));
    assert_eq!(millis(b"temp=0.0'C\n"), Some(0));
    assert_eq!(millis(b"temp=100'C\n"), Some(100_000));
}

#[test]
fn parses_negative_readings() {
    assert_eq!(millis(b"temp=-3.25'C\n"), Some(-3_250));
    assert_eq!(millis(b"temp=-0.5'C"), Some(-500));
}

#[test]
fn keeps_three_fraction_digits() {
    assert_eq!(millis(b"temp=1.2345'C"), Some(1_234));
    assert_eq!(millis(b"temp=1.2'C"), Some(1_200));
    assert_eq!(millis(b"temp=1.23'C"), Some(1_230));
    assert_eq!(millis(b"temp=1.234'C"), Some(1_234));
    assert_eq!(millis(b"temp=-1.2345'C"), Some(-1_234));
}

#[test]
fn tolerates_trailing_whitespace_only() {
    assert_eq!(millis(b"temp=42.8'C \t\r\n"), Some(42_800));
    assert_eq!(millis(b"temp=42.8'C x"), None);
    assert_eq!(millis(b"temp=42.8'Cx"), None);
}

#[test]
fn parses_a_minimal_reading() {
    assert_eq!(millis(b"temp=5'C"), Some(5_000));
}

#[test]
fn rejects_near_misses() {
    assert_eq!(millis(b"temp=+5'C"), None);
    assert_eq!(millis(b"temp=temp=5'C"), None);
    assert_eq!(millis(b"temp=5 'C"), None);
    assert_eq!(millis(b"temp=1e3'C"), None);
    assert_eq!(millis(b"temp=5'c"), None);
}

#[test]
fn rejects_malformed_readings() {
    assert_eq!(millis(b""), None);
    assert_eq!(millis(b"temp="), None);
    assert_eq!(millis(b"tem=42.8'C"), None);
    assert_eq!(millis(b"temp='C"), None);
    assert_eq!(millis(b"temp=42.8C"), None);
    assert_eq!(millis(b"temp=42.8"), None);
    assert_eq!(millis(b"temp=42.'C"), None);
    assert_eq!(millis(b"temp=-'C"), None);
    assert_eq!(millis(b"temp=4 2.8'C"), None);
    assert_eq!(millis(b"12345=42.8'C"), None);
}

#[test]
fn rejects_an_oversized_whole_part() {
    assert_eq!(millis(b"temp=9999999'C"), Some(9_999_999_000));
    assert_eq!(millis(b"temp=12345678'C"), None);
}

#[test]
fn whole_degrees_scale_to_millidegrees() {
    assert_eq!(Temperature::from_degrees(42).millidegrees, 42_000);
    assert_eq!(Temperature::from_degrees(-7).millidegrees, -7_000);
    assert_eq!(Temperature::from_degrees(0).millidegrees, 0);
}
