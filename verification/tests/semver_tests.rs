use funscriptvideo::semver::{SemVerError, Version};

#[test]
fn test_version_parse() {
    let version = Version::parse("1.2.3").unwrap();
    assert_eq!(version.major, 1);
    assert_eq!(version.minor, 2);
    assert_eq!(version.patch, 3);
}

#[test]
fn test_version_parse_invalid_format() {
    let err = Version::parse("1.2").unwrap_err();
    match err {
        SemVerError::InvalidFormat => (),
        _ => panic!("Expected InvalidFormat error"),
    }
}

#[test]
fn test_version_parse_invalid_number() {
    let err = Version::parse("1.a.3").unwrap_err();
    match err {
        SemVerError::InvalidNumber(num) => assert_eq!(num, "a"),
        _ => panic!("Expected InvalidNumber error"),
    }
}

#[test]
fn test_version_display() {
    let version = Version { major: 1, minor: 2, patch: 3 };
    assert_eq!(version.to_string(), "1.2.3");
}

#[test]
fn version_text_reads_back() {
    let samples = vec![
        Version::new(0, 0, 0),
        Version::new(1, 0, 0),
        Version::new(10, 20, 30),
        Version::new(4294967295, 0, 4294967295),
        Version::new(7, 100, 9000),
    ];
    for v in samples {
        let text = v.to_string();
        assert_eq!(Version::parse(&text).unwrap(), v);
    }
}

#[test]
fn version_text_of_limits() {
    assert_eq!(Version::new(0, 0, 0).to_string(), "0.0.0");
    assert_eq!(Version::new(4294967295, 10, 109).to_string(), "4294967295.10.109");
}

#[test]
fn version_fields_too_few_or_too_many() {
    assert!(matches!(Version::parse(""), Err(SemVerError::InvalidFormat)));
    assert!(matches!(Version::parse("1"), Err(SemVerError::InvalidFormat)));
    assert!(matches!(Version::parse("1.2.3.4"), Err(SemVerError::InvalidFormat)));
    assert!(matches!(Version::parse("1..2.3"), Err(SemVerError::InvalidFormat)));
}

#[test]
fn version_reports_first_bad_field() {
    match Version::parse("x.y.z").unwrap_err() {
        SemVerError::InvalidNumber(field) => assert_eq!(field, "x"),
        other => panic!("unexpected {:?}", other),
    }
    match Version::parse("1..3").unwrap_err() {
        SemVerError::InvalidNumber(field) => assert_eq!(field, ""),
        other => panic!("unexpected {:?}", other),
    }
    match Version::parse("1.2.-3").unwrap_err() {
        SemVerError::InvalidNumber(field) => assert_eq!(field, "-3"),
        other => panic!("unexpected {:?}", other),
    }
    match Version::parse("1.2. 3").unwrap_err() {
        SemVerError::InvalidNumber(field) => assert_eq!(field, " 3"),
        other => panic!("unexpected {:?}", other),
    }
}

#[test]
fn version_field_must_fit_32_bits() {
    assert_eq!(Version::parse("4294967295.0.0").unwrap(), Version::new(4294967295, 0, 0));
    match Version::parse("4294967296.0.0").unwrap_err() {
        SemVerError::InvalidNumber(field) => assert_eq!(field, "4294967296"),
        other => panic!("unexpected {:?}", other),
    }
    match Version::parse("1.99999999999999999999.0").unwrap_err() {
        SemVerError::InvalidNumber(field) => assert_eq!(field, "99999999999999999999"),
        other => panic!("unexpected {:?}", other),
    }
}

#[test]
fn version_field_as_a_numeral() {
    assert_eq!(Version::parse("+1.002.0").unwrap(), Version::new(1, 2, 0));
    assert_eq!("+1".parse::<u32>().ok(), Some(1));
    assert!(matches!(Version::parse("+.1.1"), Err(SemVerError::InvalidNumber(_))));
    assert!(matches!(Version::parse("1.+-2.1"), Err(SemVerError::InvalidNumber(_))));
    assert!(matches!(Version::parse("1.2.3a"), Err(SemVerError::InvalidNumber(_))));
}

#[test]
fn version_order_is_by_major_minor_patch() {
    let a = Version::new(1, 2, 3);
    assert!(a == Version::new(1, 2, 3));
    assert!(a < Version::new(2, 0, 0));
    assert!(a < Version::new(1, 3, 0));
    assert!(a < Version::new(1, 2, 4));
    assert!(a > Version::new(0, 9, 9));
    assert!(a > Version::new(1, 1, 9));
    assert!(a >= Version::new(1, 2, 3));
    assert!(Version::new(1, 10, 0) > Version::new(1, 9, 0));
    assert_eq!(a.partial_cmp(&Version::new(1, 2, 3)), Some(std::cmp::Ordering::Equal));
    assert_eq!(a.cmp(&Version::new(1, 2, 4)), std::cmp::Ordering::Less);
    assert_eq!(a.max(Version::new(1, 0, 9)), a);
}

#[test]
fn version_error_messages() {
    assert_eq!(SemVerError::InvalidFormat.to_string(), "Invalid version format");
    assert_eq!(
        SemVerError::InvalidNumber("a".to_string()).to_string(),
        "Invalid number in version: a"
    );
}
