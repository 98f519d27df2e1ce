use fast_json_gen::size::{get_size_info, parse_size};

#[test]
fn parse_size_mb() {
    let si = parse_size("16mb").unwrap();
    assert_eq!(si.total_size, 16 * 1024 * 1024);
    assert_eq!(si.multiplier, 1024 * 1024);
    assert_eq!(si.unit, "mb");
}

#[test]
fn parse_size_case_insensitive() {
    let si = parse_size("5Kb").unwrap();
    assert_eq!(si.total_size, 5 * 1024);
    assert_eq!(si.unit, "kb");
    let si = parse_size("3GB").unwrap();
    assert_eq!(si.total_size, 3 * 1024 * 1024 * 1024);
    assert_eq!(si.unit, "gb");
}

#[test]
fn parse_size_plain_bytes() {
    let si = parse_size("123b").unwrap();
    assert_eq!(si.total_size, 123);
    assert_eq!(si.multiplier, 1);
    assert_eq!(si.unit, "b");
}

#[test]
fn parse_size_tb() {
    let si = parse_size("1tb").unwrap();
    assert_eq!(si.total_size, 1024u64 * 1024 * 1024 * 1024);
}

#[test]
fn parse_size_no_unit_is_invalid_format() {
    assert_eq!(parse_size("123").unwrap_err(), "Invalid format");
    assert_eq!(parse_size("").unwrap_err(), "Invalid format");
}

#[test]
fn parse_size_missing_number() {
    assert_eq!(parse_size("mb").unwrap_err(), "Invalid number");
    assert_eq!(parse_size("xmb").unwrap_err(), "Invalid number");
}

#[test]
fn parse_size_unknown_unit() {
    assert_eq!(parse_size("10xy").unwrap_err(), "Invalid unit");
    assert_eq!(parse_size("10mbx").unwrap_err(), "Invalid unit");
    assert_eq!(parse_size("10pb").unwrap_err(), "Invalid unit");
}

#[test]
fn parse_size_number_overflow() {
    // Twenty-one nines cannot fit a 64-bit count.
    assert_eq!(parse_size("999999999999999999999b").unwrap_err(), "Invalid number");
    // The number fits, the byte count does not.
    assert_eq!(parse_size("999999999999tb").unwrap_err(), "Invalid number");
}

#[test]
fn get_size_info_defaults_to_one_mebibyte() {
    let si = get_size_info(None);
    assert_eq!(si.total_size, 1024 * 1024);
    assert_eq!(si.multiplier, 1024 * 1024);
    assert_eq!(si.unit, "mb");

    let bogus = String::from("many bytes please");
    let si = get_size_info(Some(&bogus));
    assert_eq!(si.total_size, 1024 * 1024);
}

#[test]
fn get_size_info_uses_parsed_size() {
    let s = String::from("2kb");
    let si = get_size_info(Some(&s));
    assert_eq!(si.total_size, 2048);
    assert_eq!(si.multiplier, 1024);
    assert_eq!(si.unit, "kb");
}
