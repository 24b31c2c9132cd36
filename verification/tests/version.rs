use netpack::version::{Version, VersionField, VersionParsingError};

#[test]
pub fn test_version_functions() {
    let v1 = Version::new(1, 0, 0);
    let v2 = Version::new(1, 3, 4);
    let v3 = Version::new(1, 3, 5);
    let v4 = Version::new(1, 0, 1);
    let v5 = Version::new(0, 1, 4);
    let v6 = Version::new(1, 1, 4);
    let v7 = Version::new(2, 0, 0);

    assert_eq!(v1.to_string(), "1.0.0");
    assert!(v1 < v2 && v2 < v3, "v1 !< v2 || v2 !<v3");
    assert!(v1 < v4, "v1 !< v4");
    assert!(v5 < v6, "v5 !< v6");

    assert!(v3 > v1, "v3 !> v1");
    assert!(v2 > v1, "v2 !> v1");
    assert!(v3 > v5, "v3 !> v5");
    assert!(v7 > v1, "v7 !> v1");

    assert_eq!(v1, v1, "eq failed!");

    let mut list = vec![v1, v2, v3, v4, v5, v6, v7];
    list.sort();
    assert_eq!(list, vec![v5, v1, v4, v6, v2, v3, v7]);

    let v1_str: String = v1.to_string();
    let v1_decoded: Result<Version, _> = v1_str.parse();
    assert_eq!(v1_decoded.unwrap(), v1);

    let dummy_decoded: Result<Version, _> = ".4.0".parse();
    assert!(dummy_decoded.is_err());
}

#[test]
fn test_accessors_and_index() {
    let v = Version::new(7, 8, 9);
    assert_eq!(*v.major(), 7);
    assert_eq!(*v.minor(), 8);
    assert_eq!(*v.build(), 9);
    assert_eq!(*v.index(VersionField::Major), 7);
    assert_eq!(*v.index(VersionField::Minor), 8);
    assert_eq!(*v.index(VersionField::Build), 9);
}

#[test]
fn test_to_string_multi_digit() {
    assert_eq!(Version::new(12, 234, 0).to_string(), "12.234.0");
    assert_eq!(Version::new(255, 255, 255).to_string(), "255.255.255");
    assert_eq!(Version::new(0, 0, 0).to_string(), "0.0.0");
}

#[test]
fn test_parse_whitespace_and_plus() {
    assert_eq!(Version::from_str(" 1 . 2 . 3 "), Ok(Version::new(1, 2, 3)));
    assert_eq!(Version::from_str("+7.0.1"), Ok(Version::new(7, 0, 1)));
    assert_eq!(Version::from_str("001.010.0"), Ok(Version::new(1, 10, 0)));
}

#[test]
fn test_parse_part_count_errors() {
    assert_eq!(Version::from_str("1.2"), Err(VersionParsingError::TooFewParts));
    assert_eq!(Version::from_str(""), Err(VersionParsingError::TooFewParts));
    assert_eq!(Version::from_str("1.2.3.4"), Err(VersionParsingError::TooManyParts));
}

#[test]
fn test_parse_invalid_parts() {
    assert_eq!(Version::from_str("256.0.0"), Err(VersionParsingError::InvalidPart));
    assert_eq!(Version::from_str("1.x.3"), Err(VersionParsingError::InvalidPart));
    assert_eq!(Version::from_str("1..3"), Err(VersionParsingError::InvalidPart));
    assert_eq!(Version::from_str("+.1.2"), Err(VersionParsingError::InvalidPart));
    assert_eq!(Version::from_str("-1.0.0"), Err(VersionParsingError::InvalidPart));
}

#[test]
fn test_display_parse_round_trip() {
    for v in [Version::new(255, 0, 12), Version::new(0, 99, 100), Version::new(10, 1, 255)] {
        let parsed: Version = v.to_string().parse().unwrap();
        assert_eq!(parsed, v);
    }
}

#[test]
fn test_parsing_error_messages() {
    assert_eq!(VersionParsingError::TooManyParts.message(), "too many parts (expects 3)");
    assert_eq!(VersionParsingError::TooFewParts.message(), "too few parts (expects 3)");
    assert_eq!(VersionParsingError::InvalidPart.message(), "a sub-part could not be parsed");
}
