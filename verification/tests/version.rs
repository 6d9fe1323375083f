use runtime_checker::version::RuntimeVersion;

#[test]
fn parses_short_versions() {
    assert_eq!(
        "24".parse::<RuntimeVersion>().unwrap(),
        RuntimeVersion {
            major: 24,
            minor: 0,
            patch: 0
        }
    );
    assert_eq!(
        "v20.5.1".parse::<RuntimeVersion>().unwrap().to_string(),
        "20.5.1"
    );
}

#[test]
fn rejects_versions_with_non_numeric_parts() {
    assert!(RuntimeVersion::parse("x.1.2").is_err());
    assert!(RuntimeVersion::parse("1.y.2").is_err());
    assert!(RuntimeVersion::parse("1.2.z").is_err());
    assert!(RuntimeVersion::parse("").is_err());
}

#[test]
fn reads_what_it_writes() {
    let version = RuntimeVersion {
        major: 22,
        minor: 6,
        patch: 10,
    };
    let text = version.to_string();
    assert_eq!(text, "22.6.10");
    assert_eq!(RuntimeVersion::parse(&text).unwrap(), version);
}

#[test]
fn trims_whitespace_and_ignores_extra_parts() {
    assert_eq!(
        RuntimeVersion::parse("  v1.2.3.4 ").unwrap(),
        RuntimeVersion {
            major: 1,
            minor: 2,
            patch: 3
        }
    );
    assert_eq!(
        RuntimeVersion::parse("7.1").unwrap(),
        RuntimeVersion {
            major: 7,
            minor: 1,
            patch: 0
        }
    );
}

#[test]
fn orders_by_major_minor_patch() {
    let a = RuntimeVersion { major: 1, minor: 9, patch: 9 };
    let b = RuntimeVersion { major: 2, minor: 0, patch: 0 };
    assert!(a.less_than(&b));
    assert!(!b.less_than(&a));
    assert!(!a.less_than(&a));
    assert!(RuntimeVersion::zero().is_zero());
    assert!(!a.is_zero());
}
