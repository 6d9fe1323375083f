use runtime_checker::engines::{
    check_engines, check_package_text, declared_lower_bound, engines_severity, is_unhandled_range,
    range_allows_required,
    EnginesEntry, EnginesError, EnginesSeverity, PackageManifest,
};
use runtime_checker::version::RuntimeVersion;

fn v(major: u64, minor: u64, patch: u64) -> RuntimeVersion {
    RuntimeVersion { major, minor, patch }
}

#[test]
fn checks_npm_style_ranges() {
    let required = RuntimeVersion {
        major: 24,
        minor: 0,
        patch: 0,
    };
    assert!(range_allows_required(">=22", required));
    assert!(!range_allows_required("^22.0.0", required));
}

#[test]
fn classifies_stricter_ranges_as_info() {
    let required = RuntimeVersion {
        major: 24,
        minor: 0,
        patch: 0,
    };
    assert_eq!(
        engines_severity("^24.13.1", required),
        EnginesSeverity::Info
    );
    assert_eq!(
        engines_severity(">=24.13.1", required),
        EnginesSeverity::Info
    );
    assert_eq!(
        engines_severity("^23.0.0", required),
        EnginesSeverity::Warning
    );
}

#[test]
fn rejects_unreadable_ranges() {
    assert!(!range_allows_required("not a range", v(1, 0, 0)));
}

#[test]
fn finds_the_declared_lower_bound() {
    assert_eq!(declared_lower_bound("^24.13.1"), Some(v(24, 13, 1)));
    assert_eq!(declared_lower_bound(">= 18"), Some(v(18, 0, 0)));
    assert_eq!(declared_lower_bound("latest"), None);
}

fn manifest(engines: EnginesEntry) -> PackageManifest {
    PackageManifest {
        root_is_object: true,
        engines,
    }
}

#[test]
fn reports_nothing_when_the_range_admits_the_minimum() {
    let m = manifest(EnginesEntry::Object {
        node: Some(">=22".to_owned()),
    });
    let check = check_engines(&m, "/p/package.json", v(24, 0, 0), false).unwrap();
    assert!(check.report.is_none());
    assert!(check.new_engines_node.is_none());
}

#[test]
fn reports_nothing_for_a_zero_minimum() {
    let m = manifest(EnginesEntry::Absent);
    let check = check_engines(&m, "/p/package.json", v(0, 0, 0), true).unwrap();
    assert!(check.report.is_none());
}

#[test]
fn warns_about_a_missing_engines_node() {
    let m = manifest(EnginesEntry::Absent);
    let check = check_engines(&m, "/p/package.json", v(26, 0, 0), false).unwrap();
    let report = check.report.unwrap();
    assert_eq!(report.declared, None);
    assert_eq!(report.severity, EnginesSeverity::Warning);
    assert!(!report.fixed);
    assert_eq!(report.package_json, "/p/package.json");
    assert!(check.new_engines_node.is_none());
}

#[test]
fn fixes_a_too_low_engines_node() {
    let m = manifest(EnginesEntry::Object {
        node: Some("^22.0.0".to_owned()),
    });
    let check = check_engines(&m, "/p/package.json", v(26, 0, 0), true).unwrap();
    let report = check.report.unwrap();
    assert!(report.fixed);
    assert_eq!(report.declared.as_deref(), Some("^22.0.0"));
    assert_eq!(check.new_engines_node.as_deref(), Some(">=26.0.0"));
}

#[test]
fn cannot_fix_without_an_object_root() {
    let m = PackageManifest {
        root_is_object: false,
        engines: EnginesEntry::Absent,
    };
    let result = check_engines(&m, "/p/package.json", v(26, 0, 0), true);
    assert_eq!(result.err(), Some(EnginesError::RootNotObject));
}

#[test]
fn cannot_fix_engines_that_is_not_an_object() {
    let m = manifest(EnginesEntry::NotObject);
    let result = check_engines(&m, "/p/package.json", v(26, 0, 0), true);
    assert_eq!(result.err(), Some(EnginesError::EnginesNotObject));
}

#[test]
fn a_fixed_engines_node_needs_no_further_fix() {
    let required = v(26, 0, 0);
    let manifest = |node: &str| PackageManifest {
        root_is_object: true,
        engines: EnginesEntry::Object { node: Some(node.to_string()) },
    };
    let first = check_engines(&manifest("^22.0.0"), "package.json", required, true).unwrap();
    let value = first.new_engines_node.unwrap();
    assert_eq!(value, ">=26.0.0");
    assert!(range_allows_required(&value, required));
    let again = check_engines(&manifest(&value), "package.json", required, true).unwrap();
    assert!(again.report.is_none());
    assert!(again.new_engines_node.is_none());
    assert!(range_allows_required(">=900719925474099.0.1", v(900_719_925_474_099, 0, 1)));
    assert!(!range_allows_required(">=900719925474100.0.0", v(900_719_925_474_100, 0, 0)));
}

#[test]
fn a_stricter_range_is_reported_but_not_rewritten() {
    let m = manifest(EnginesEntry::Object { node: Some("^24.13.1".to_owned()) });
    let check = check_engines(&m, "/p/package.json", v(24, 0, 0), true).unwrap();
    let report = check.report.unwrap();
    assert_eq!(report.severity, EnginesSeverity::Info);
    assert!(!report.fixed);
    assert!(check.new_engines_node.is_none());
}

#[test]
fn checks_and_rewrites_package_json_text() {
    let text = r#"{"name":"fixture","engines":{"node":"^22.0.0"}}"#;
    let (report, new_text) = check_package_text(text, "package.json", v(26, 0, 0), true).unwrap();
    assert!(report.unwrap().fixed);
    let new_text = new_text.unwrap();
    assert!(new_text.contains(r#""node": ">=26.0.0""#));
    assert!(new_text.contains(r#""name": "fixture""#));
    assert!(new_text.ends_with("}\n"));
    let (again, rewritten) = check_package_text(&new_text, "package.json", v(26, 0, 0), true).unwrap();
    assert!(again.is_none() && rewritten.is_none());

    let (report, none) = check_package_text(text, "package.json", v(26, 0, 0), false).unwrap();
    assert!(!report.unwrap().fixed);
    assert!(none.is_none());

    let added = check_package_text(r#"{"name":"x"}"#, "package.json", v(20, 0, 0), true).unwrap().1.unwrap();
    assert!(added.contains(r#""engines": {"#) && added.contains(r#""node": ">=20.0.0""#));

    let stricter = r#"{"engines":{"node":"^24.13.1"}}"#;
    let (report, none) = check_package_text(stricter, "package.json", v(24, 0, 0), true).unwrap();
    assert_eq!(report.unwrap().severity, EnginesSeverity::Info);
    assert!(none.is_none());
}

#[test]
fn package_json_errors() {
    assert_eq!(check_package_text("{ not json", "p", v(1, 0, 0), false).err(), Some(EnginesError::InvalidJson));
    assert_eq!(check_package_text("[1]", "p", v(1, 0, 0), true).err(), Some(EnginesError::RootNotObject));
    assert_eq!(check_package_text(r#"{"engines":3}"#, "p", v(1, 0, 0), true).err(), Some(EnginesError::EnginesNotObject));
    assert!(check_package_text("[1]", "p", v(1, 0, 0), false).unwrap().0.is_some());
    assert!(check_package_text("[1]", "p", v(0, 0, 0), true).unwrap().0.is_none());
}

#[test]
fn wildcard_comparators_that_the_parser_cannot_handle_admit_nothing() {
    for text in ["=*", "= x", "~*", "~> X", "1.2.3 || =v *", "~ v x", "~1.x.3", "~>1.X.0", "~ 2.*.1", "^1 ~1.x.3"] {
        assert!(is_unhandled_range(text), "{text}");
        assert!(!range_allows_required(text, v(24, 0, 0)), "{text}");
    }
    for text in [">=*", "<=x", "*", "~1.2.x", "~1.x", "~1.x.x", "=1.2.3", ">=26.0.0", ">=1.0.0 foo=x", "a|||=*", "~1.x.y"] {
        assert!(!is_unhandled_range(text), "{text}");
    }
    assert!(range_allows_required(">=*", v(24, 0, 0)));
    assert!(range_allows_required("~1.2.x", v(1, 2, 9)));
    assert!(range_allows_required("~1.x", v(1, 5, 0)));
    assert!(range_allows_required(">=1.0.0 foo=x", v(24, 0, 0)));
    let m = manifest(EnginesEntry::Object { node: Some("~1.x.3".to_owned()) });
    let check = check_engines(&m, "p", v(24, 0, 0), true).unwrap();
    assert_eq!(check.new_engines_node.as_deref(), Some(">=24.0.0"));
}
