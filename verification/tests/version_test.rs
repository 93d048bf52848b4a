use concertina::version::{FirmwareVersion, ParseFirmwareError};

#[test]
fn parse_major_minor_patch() {
    let result = FirmwareVersion::parse("42.7.127").unwrap();
    assert_eq!(result.major, 42);
    assert_eq!(result.minor, 7);
    assert_eq!(result.patch, 127);
    assert_eq!(result.prerelease, None);
}

#[test]
fn parse_zeros() {
    let result = FirmwareVersion::parse("0.0.0").unwrap();
    assert_eq!(result.major, 0);
    assert_eq!(result.minor, 0);
    assert_eq!(result.patch, 0);
    assert_eq!(result.prerelease, None);
}

#[test]
fn parse_major_minor_patch_prerelease() {
    let result = FirmwareVersion::parse("42.7.127-extra-stuff").unwrap();
    assert_eq!(result.major, 42);
    assert_eq!(result.minor, 7);
    assert_eq!(result.patch, 127);
    assert_eq!(result.prerelease, Some("extra-stuff"));
}

#[test]
fn parse_prerelease_with_dots() {
    let result = FirmwareVersion::parse("42.7.127-extra.stuff").unwrap();
    assert_eq!(result.major, 42);
    assert_eq!(result.minor, 7);
    assert_eq!(result.patch, 127);
    assert_eq!(result.prerelease, Some("extra.stuff"));
}

#[test]
fn error_if_too_few_dots() {
    let result = FirmwareVersion::parse("1.2");
    assert_eq!(result, Err(ParseFirmwareError {}));
}

#[test]
fn error_if_too_many_dots() {
    let result = FirmwareVersion::parse("1.2.3.4");
    assert_eq!(result, Err(ParseFirmwareError {}));
}

#[test]
fn error_if_major_empty() {
    let result = FirmwareVersion::parse(".2.3");
    assert_eq!(result, Err(ParseFirmwareError {}));
}

#[test]
fn error_if_minor_empty() {
    let result = FirmwareVersion::parse("1..3");
    assert_eq!(result, Err(ParseFirmwareError {}));
}

#[test]
fn error_if_patch_empty() {
    let result = FirmwareVersion::parse("1.2.");
    assert_eq!(result, Err(ParseFirmwareError {}));
}

#[test]
fn error_if_major_not_numeric() {
    let result = FirmwareVersion::parse("a.2.3");
    assert_eq!(result, Err(ParseFirmwareError {}));
}

#[test]
fn error_if_minor_not_numeric() {
    let result = FirmwareVersion::parse("1.b.3");
    assert_eq!(result, Err(ParseFirmwareError {}));
}

#[test]
fn error_if_patch_not_numeric() {
    let result = FirmwareVersion::parse("1.2.c");
    assert_eq!(result, Err(ParseFirmwareError {}));
}

#[test]
fn error_if_number_over_255() {
    assert_eq!(FirmwareVersion::parse("256.0.0"), Err(ParseFirmwareError {}));
    assert_eq!(FirmwareVersion::parse("1.2.300"), Err(ParseFirmwareError {}));
}

#[test]
fn parse_accepts_plus_sign_like_integer_parsing() {
    let result = FirmwareVersion::parse("+1.2.3").unwrap();
    assert_eq!(result.major, 1);
    assert_eq!(result.minor, 2);
    assert_eq!(result.patch, 3);
}

#[test]
fn parse_empty_prerelease_is_none() {
    let result = FirmwareVersion::parse("1.2.3-").unwrap();
    assert_eq!(result.prerelease, None);
}

#[test]
fn parse_prerelease_keeps_text_after_first_dash() {
    let result = FirmwareVersion::parse("1.2.3-rc-1").unwrap();
    assert_eq!(result.prerelease, Some("rc-1"));
}

#[test]
fn same_as_compares_numbers_and_prerelease() {
    let a = FirmwareVersion::parse("1.2.3-dev").unwrap();
    let b = FirmwareVersion::parse("1.2.3-dev").unwrap();
    let c = FirmwareVersion::parse("1.2.3").unwrap();
    let d = FirmwareVersion::parse("1.2.4-dev").unwrap();
    let e = FirmwareVersion::parse("1.2.3-rc").unwrap();
    assert!(a.same_as(&b));
    assert!(!a.same_as(&c));
    assert!(!c.same_as(&a));
    assert!(!a.same_as(&d));
    assert!(!a.same_as(&e));
    assert!(c.same_as(&FirmwareVersion::parse("1.2.3").unwrap()));
}
