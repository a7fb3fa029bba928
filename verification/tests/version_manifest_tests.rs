use cyberdesk::version::Version;

#[test]
fn version_components_tolerate_junk_and_overflow() {
    assert_eq!(Version::parse(""), Version::parse("0"));
    assert_eq!(Version::parse("  1.2  "), Version::parse("1.2"));
    assert_eq!(Version::parse("1..3"), Version::parse("1.0.3"));
    // A component too large for u64 reads as 0.
    assert_eq!(Version::parse("99999999999999999999.1"), Version::parse("0.1"));
    assert_eq!(Version::parse("18446744073709551616"), Version::parse("0"));
    assert!(!Version::parse("18446744073709551615").is_older_than(&Version::parse("18446744073709551615.0")));
    assert!(Version::parse("18446744073709551614").is_older_than(&Version::parse("18446744073709551615")));
    assert!(!Version::parse("1.0.0.0").is_older_than(&Version::parse("1")));
    assert!(!Version::parse("1").is_older_than(&Version::parse("1.0.0.0")));
    assert!(Version::parse("1.9").is_older_than(&Version::parse("1.10")));
}
