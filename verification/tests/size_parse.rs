use dockwatch::sizes::{parse_docker_size, SizeParseError};

#[test]
fn bytes_unit() {
    assert_eq!(parse_docker_size("5B"), Ok(5));
}

#[test]
fn kilobytes_unit() {
    assert_eq!(parse_docker_size("5KB"), Ok(5 * 1024));
}

#[test]
fn megabytes_unit() {
    assert_eq!(parse_docker_size("256MB"), Ok(256 * 1024 * 1024));
}

#[test]
fn gigabytes_unit() {
    assert_eq!(parse_docker_size("2GB"), Ok(2 * 1024 * 1024 * 1024));
}

#[test]
fn terabytes_unit() {
    assert_eq!(parse_docker_size("1TB"), Ok(1024u64.pow(4)));
}

#[test]
fn unit_is_case_insensitive() {
    assert_eq!(parse_docker_size("5kb"), Ok(5 * 1024));
    assert_eq!(parse_docker_size("5Kb"), Ok(5 * 1024));
    assert_eq!(parse_docker_size("5kB"), Ok(5 * 1024));
    assert_eq!(parse_docker_size("3gb"), Ok(3 * 1024 * 1024 * 1024));
    assert_eq!(parse_docker_size("7b"), Ok(7));
}

#[test]
fn zero_tokens_are_zero() {
    assert_eq!(parse_docker_size("0B"), Ok(0));
    assert_eq!(parse_docker_size("0"), Ok(0));
}

#[test]
fn missing_unit_means_bytes() {
    assert_eq!(parse_docker_size("17"), Ok(17));
}

#[test]
fn fractional_value_rounds_down() {
    // 1.5 * 1024^3
    assert_eq!(parse_docker_size("1.5GB"), Ok(1610612736));
    // 0.5 KB without a leading digit
    assert_eq!(parse_docker_size(".5KB"), Ok(512));
    // 1.1 KB = 1126.4 bytes, rounded down
    assert_eq!(parse_docker_size("1.1KB"), Ok(1126));
    // a trailing point is a whole number
    assert_eq!(parse_docker_size("5.B"), Ok(5));
}

#[test]
fn surrounding_whitespace_is_ignored() {
    assert_eq!(parse_docker_size(" 5KB "), Ok(5 * 1024));
}

#[test]
fn empty_token_is_invalid() {
    assert_eq!(parse_docker_size(""), Err(SizeParseError::InvalidNumber));
}

#[test]
fn letters_only_token_is_invalid() {
    assert_eq!(parse_docker_size("GB"), Err(SizeParseError::InvalidNumber));
}

#[test]
fn two_points_are_invalid() {
    assert_eq!(parse_docker_size("1.2.3KB"), Err(SizeParseError::InvalidNumber));
}

#[test]
fn signs_are_invalid() {
    assert_eq!(parse_docker_size("-5KB"), Err(SizeParseError::InvalidNumber));
    assert_eq!(parse_docker_size("+5KB"), Err(SizeParseError::InvalidNumber));
}

#[test]
fn unknown_unit_is_rejected() {
    assert_eq!(parse_docker_size("5XB"), Err(SizeParseError::UnknownUnit));
    assert_eq!(parse_docker_size("5KiB"), Err(SizeParseError::UnknownUnit));
    assert_eq!(parse_docker_size("5PB"), Err(SizeParseError::UnknownUnit));
}

#[test]
fn oversize_values_are_rejected() {
    // beyond u64::MAX bytes
    assert_eq!(
        parse_docker_size("99999999999999999999B"),
        Err(SizeParseError::Oversize)
    );
    assert_eq!(
        parse_docker_size("20000000000TB"),
        Err(SizeParseError::Oversize)
    );
}

#[test]
fn largest_fitting_value_parses() {
    assert_eq!(parse_docker_size("18446744073709551615B"), Ok(u64::MAX));
}
