use runtime_checker::bcd::{
    bcd_version_matches,
    detect_rules, extract_features, feature_name, is_detectable_property, is_runtime_surface_path,
    is_runtime_surface_segment, parse_version_part, render_detect_rule, render_runtime_ron, support_version,
    upsert_feature, BcdError, BcdVersion, CompatNode, GeneratedDetectRule, GeneratedFeature, RuntimeTarget,
    SourceKind, SupportStatement,
};

fn added(version: &str) -> SupportStatement {
    SupportStatement { version_added: Some(version.to_string()), has_flags: false, version_removed: false }
}

fn flagged(version: &str) -> SupportStatement {
    SupportStatement { version_added: Some(version.to_string()), has_flags: true, version_removed: false }
}

fn entry(key: &str, support: Vec<(&str, Vec<SupportStatement>)>, children: Vec<CompatNode>) -> CompatNode {
    CompatNode {
        key: key.to_string(),
        support: Some(support.into_iter().map(|(id, statements)| (id.to_string(), statements)).collect()),
        children,
    }
}

fn group(key: &str, children: Vec<CompatNode>) -> CompatNode {
    CompatNode { key: key.to_string(), support: None, children }
}

fn strings(parts: &[&str]) -> Vec<String> {
    parts.iter().map(|part| part.to_string()).collect()
}

#[test]
fn extracts_runtime_versions_from_bcd_shape() {
    let api = vec![entry("fetch", vec![("nodejs", vec![added("18.0.0")]), ("deno", vec![added("1.0")])], vec![])];
    let builtins = vec![
        group(
            "Array",
            vec![
                entry("toSorted", vec![("nodejs", vec![added("20.0.0")])], vec![]),
                entry("options_parameter", vec![("nodejs", vec![added("21.0.0")])], vec![]),
                entry("flagged", vec![("nodejs", vec![flagged("21.0.0")])], vec![]),
            ],
        ),
        group("Number", vec![entry("MAX_SAFE_INTEGER", vec![("nodejs", vec![added("0.12.0")])], vec![])]),
        entry("Temporal", vec![("nodejs", vec![added("26.0.0")])], vec![]),
    ];

    let features = extract_features(&api, &builtins, "nodejs");
    let names: Vec<_> = features.iter().map(|feature| feature.name.as_str()).collect();

    assert!(names.contains(&"fetch"));
    assert!(names.contains(&"Array.toSorted"));
    assert!(names.contains(&"Number.MAX_SAFE_INTEGER"));
    assert!(names.contains(&"Temporal"));
    assert!(!names.contains(&"Array.options_parameter"));
    assert!(!names.contains(&"Array.flagged"));

    let to_sorted = features.iter().find(|feature| feature.name == "Array.toSorted").unwrap();
    assert_eq!(to_sorted.version.to_string(), "20.0.0");
    assert!(to_sorted.detect.contains(&GeneratedDetectRule::Property("toSorted".to_string())));
}

#[test]
fn extracted_features_come_sorted_by_name() {
    let api = vec![
        entry("fetch", vec![("nodejs", vec![added("18.0.0")])], vec![]),
        entry("AbortController", vec![("nodejs", vec![added("15.0.0")])], vec![]),
    ];
    let builtins = vec![entry("Temporal", vec![("nodejs", vec![added("26.0.0")])], vec![])];
    let features = extract_features(&api, &builtins, "nodejs");
    let names: Vec<_> = features.iter().map(|feature| feature.name.as_str()).collect();
    assert_eq!(names, vec!["AbortController", "Temporal", "fetch"]);
    assert_eq!(features[0].detect, vec![
        GeneratedDetectRule::Global("AbortController".to_string()),
        GeneratedDetectRule::MemberChain("AbortController".to_string()),
    ]);
}

#[test]
fn other_runtimes_read_their_own_support() {
    let api = vec![entry("fetch", vec![("nodejs", vec![added("18.0.0")]), ("deno", vec![added("1.0")])], vec![])];
    let features = extract_features(&api, &vec![], "deno");
    assert_eq!(features.len(), 1);
    assert_eq!(features[0].version.to_string(), "1.0.0");
    assert!(extract_features(&api, &vec![], "bun").is_empty());
}

#[test]
fn keeps_the_lowest_version_of_a_repeated_name() {
    let api = vec![entry("Array", vec![("nodejs", vec![added("4.0.0")])], vec![])];
    let builtins = vec![entry("Array", vec![("nodejs", vec![added("0.10.0")])], vec![])];
    let features = extract_features(&api, &builtins, "nodejs");
    assert_eq!(features.len(), 1);
    assert_eq!(features[0].version.to_string(), "0.10.0");

    let mut list = Vec::new();
    upsert_feature(&mut list, GeneratedFeature {
        name: "x".to_string(),
        version: BcdVersion { major: 2, minor: 0, patch: 0 },
        detect: vec![],
    });
    upsert_feature(&mut list, GeneratedFeature {
        name: "x".to_string(),
        version: BcdVersion { major: 3, minor: 0, patch: 0 },
        detect: vec![],
    });
    assert_eq!(list.len(), 1);
    assert_eq!(list[0].version.to_string(), "2.0.0");
    upsert_feature(&mut list, GeneratedFeature {
        name: "x".to_string(),
        version: BcdVersion { major: 1, minor: 5, patch: 0 },
        detect: vec![],
    });
    assert_eq!(list[0].version.to_string(), "1.5.0");
}

#[test]
fn support_version_skips_flagged_removed_and_unreadable_statements() {
    let removed = SupportStatement { version_added: Some("1.0.0".to_string()), has_flags: false, version_removed: true };
    let unknown = SupportStatement { version_added: None, has_flags: false, version_removed: false };
    let preview = added("preview");
    assert_eq!(support_version(&vec![removed, unknown, preview, added("12.1"), added("10")]),
        Some(BcdVersion { major: 10, minor: 0, patch: 0 }));
    assert_eq!(support_version(&vec![flagged("1.0.0")]), None);
    assert_eq!(support_version(&vec![]), None);
}

#[test]
fn parses_bcd_versions() {
    assert_eq!(BcdVersion::parse("v18.1"), Some(BcdVersion { major: 18, minor: 1, patch: 0 }));
    assert_eq!(BcdVersion::parse(" 1.2.3 "), Some(BcdVersion { major: 1, minor: 2, patch: 3 }));
    assert_eq!(BcdVersion::parse("≤18"), None);
    assert_eq!(BcdVersion::parse("1.x"), None);
    assert_eq!(BcdVersion::parse(""), None);
    assert_eq!(parse_version_part(&['4', '2']), Some(42));
    assert_eq!(parse_version_part(&[]), None);
    assert_eq!(BcdVersion { major: 1, minor: 2, patch: 3 }.to_string(), "1.2.3");
    assert!(BcdVersion { major: 1, minor: 2, patch: 3 }.le(&BcdVersion { major: 1, minor: 3, patch: 0 }));
    assert!(!BcdVersion { major: 2, minor: 0, patch: 0 }.le(&BcdVersion { major: 1, minor: 9, patch: 9 }));
}

#[test]
fn maps_bcd_runtime_ids() {
    let node = RuntimeTarget::from_bcd_id("node").unwrap();
    assert_eq!((node.bcd_id, node.runtime_name), ("nodejs", "node"));
    let chrome = RuntimeTarget::from_bcd_id("chrome").unwrap();
    assert_eq!((chrome.bcd_id, chrome.runtime_name), ("chrome", "chrome"));
    assert_eq!(RuntimeTarget::from_bcd_id("edge").unwrap_err(), BcdError::UnsupportedRuntime);
}

#[test]
fn decides_which_paths_are_runtime_surface() {
    assert!(is_runtime_surface_segment("toSorted"));
    assert!(is_runtime_surface_segment("MAX_SAFE_INTEGER"));
    assert!(is_runtime_surface_segment("$"));
    assert!(!is_runtime_surface_segment("options_parameter"));
    assert!(!is_runtime_surface_segment("@@iterator"));
    assert!(!is_runtime_surface_segment("worker-support"));
    assert!(!is_runtime_surface_segment(""));
    assert!(is_runtime_surface_path(&strings(&["Array", "toSorted"])));
    assert!(!is_runtime_surface_path(&strings(&["Array", "Array"])));
    assert!(is_runtime_surface_path(&strings(&["Array"])));
    assert!(!is_runtime_surface_path(&strings(&[])));
    assert!(is_detectable_property("toSorted"));
    assert!(is_detectable_property("_private"));
    assert!(!is_detectable_property("__proto__"));
    assert!(!is_detectable_property("1abc"));
    assert_eq!(feature_name(&strings(&["a", "b", "c"])), "a.b.c");
}

#[test]
fn detect_rules_depend_on_source_and_depth() {
    assert_eq!(detect_rules(SourceKind::Api, &strings(&["fetch"])), vec![
        GeneratedDetectRule::Global("fetch".to_string()),
        GeneratedDetectRule::MemberChain("fetch".to_string()),
    ]);
    assert_eq!(detect_rules(SourceKind::Api, &strings(&["Request", "json"])), vec![
        GeneratedDetectRule::MemberChain("Request.json".to_string()),
    ]);
    assert_eq!(detect_rules(SourceKind::JavascriptBuiltin, &strings(&["Array", "at"])), vec![
        GeneratedDetectRule::MemberChain("Array.at".to_string()),
        GeneratedDetectRule::Property("at".to_string()),
    ]);
    assert!(detect_rules(SourceKind::Api, &strings(&[])).is_empty());
}

#[test]
fn renders_runtime_ron_with_escaped_strings() {
    assert_eq!(render_detect_rule(&GeneratedDetectRule::Global("a\"b".to_string())), "Global(\"a\\\"b\")");
    let features = vec![GeneratedFeature {
        name: "Array.at".to_string(),
        version: BcdVersion { major: 16, minor: 6, patch: 0 },
        detect: vec![
            GeneratedDetectRule::MemberChain("Array.at".to_string()),
            GeneratedDetectRule::Property("at".to_string()),
        ],
    }];
    let text = render_runtime_ron("node", "nodejs", "7.0.0", &features);
    let lines: Vec<&str> = text.lines().collect();
    assert!(lines[0].contains("@mdn/browser-compat-data 7.0.0 runtime `nodejs`."));
    assert_eq!(&lines[2..], &[
        "(",
        "    schema: 1,",
        "    runtime: \"node\",",
        "    features: [",
        "        (name: \"Array.at\", version: \"16.6.0\", detect: [MemberChain(\"Array.at\"), Property(\"at\")]),",
        "    ],",
        ")",
    ]);
    assert!(text.ends_with(")\n"));
}

#[test]
fn detect_rules_escape_control_characters() {
    assert_eq!(
        render_detect_rule(&GeneratedDetectRule::Property("a\tb\u{1}\\é".to_string())),
        "Property(\"a\\tb\\u0001\\\\é\")"
    );
    assert_eq!(render_detect_rule(&GeneratedDetectRule::MemberChain("x.y".to_string())), "MemberChain(\"x.y\")");
}

#[test]
fn compat_data_version_must_match_when_stated() {
    assert!(bcd_version_matches("7.1.0", &Some("7.1.0".to_string())));
    assert!(!bcd_version_matches("7.1.0", &Some("fixture".to_string())));
    assert!(bcd_version_matches("7.1.0", &None));
}
