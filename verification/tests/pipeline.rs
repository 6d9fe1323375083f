use runtime_checker::cli::{Cli, RuntimeKind};
use runtime_checker::engines::{EnginesReport, EnginesSeverity};
use runtime_checker::pipeline::{
    aggregate_feature_detections, build_runtime_report, collapse_prefix_detections, has_node_api_detections,
    is_browser_runtime, minimum_version, node_api_flags, plan_run, RunError,
};
use runtime_checker::report::ParserMode;
use runtime_checker::scanner::DetectedFeature;
use runtime_checker::version::RuntimeVersion;

fn version(major: u64, minor: u64, patch: u64) -> RuntimeVersion {
    RuntimeVersion { major, minor, patch }
}

fn hit(feature: &str, v: RuntimeVersion, path: &str, line: u64, column: u64) -> DetectedFeature {
    DetectedFeature { feature: feature.to_string(), version: v, path: path.to_string(), line, column, count: 1 }
}

fn cli(runtime: RuntimeKind, fast: bool, inspect: Option<&str>, fix: bool) -> Cli {
    Cli {
        dir: ".".to_string(),
        fast,
        runtime,
        summary: false,
        inspect: inspect.map(str::to_string),
        fix,
    }
}

fn features(detections: &[DetectedFeature]) -> Vec<(&str, usize)> {
    detections.iter().map(|d| (d.feature.as_str(), d.count)).collect()
}

#[test]
fn fix_is_node_only() {
    let refused = plan_run(&cli(RuntimeKind::Deno, false, None, true));
    assert_eq!(refused.err(), Some(RunError::FixNeedsNode));
    assert!(RunError::FixNeedsNode.message().contains("--fix is currently only supported"));
    assert!(plan_run(&cli(RuntimeKind::Node, false, None, true)).is_ok());
    assert!(plan_run(&cli(RuntimeKind::All, false, None, true)).is_ok());
}

#[test]
fn plans_parser_aggregation_and_targets() {
    let fast = plan_run(&cli(RuntimeKind::Node, true, None, false)).unwrap();
    assert_eq!(fast.parser, ParserMode::Text);
    assert!(fast.aggregate);
    assert_eq!(fast.targets, vec![RuntimeKind::Node]);

    let inspect = plan_run(&cli(RuntimeKind::All, false, Some("JSON.stringify"), false)).unwrap();
    assert_eq!(inspect.parser, ParserMode::Oxc);
    assert!(!inspect.aggregate);
    assert_eq!(inspect.targets, vec![
        RuntimeKind::Node,
        RuntimeKind::Deno,
        RuntimeKind::Bun,
        RuntimeKind::Safari,
        RuntimeKind::Chrome,
        RuntimeKind::Firefox,
    ]);
    assert!(is_browser_runtime(RuntimeKind::Chrome));
    assert!(!is_browser_runtime(RuntimeKind::Bun));
}

#[test]
fn minimum_is_the_latest_detected_version() {
    let detections = vec![
        hit("fetch", version(18, 0, 0), "a.ts", 1, 1),
        hit("Temporal", version(26, 0, 0), "a.ts", 2, 1),
        hit("Array.toSorted", version(20, 0, 0), "a.ts", 3, 1),
    ];
    assert_eq!(minimum_version(&detections), version(26, 0, 0));
    assert_eq!(minimum_version(&vec![]), version(0, 0, 0));
}

#[test]
fn groups_repeated_features_into_one_count() {
    let detections = vec![
        hit("JSON.stringify", version(0, 0, 0), "json.ts", 1, 1),
        hit("fetch", version(18, 0, 0), "json.ts", 2, 1),
        hit("JSON.stringify", version(0, 0, 0), "json.ts", 2, 5),
        hit("JSON.stringify", version(1, 0, 0), "json.ts", 3, 1),
    ];
    let merged = aggregate_feature_detections(detections);
    assert_eq!(features(&merged), vec![("JSON.stringify", 2), ("fetch", 1), ("JSON.stringify", 1)]);
    assert_eq!((merged[0].line, merged[0].column), (1, 1));
    assert_eq!(merged.iter().map(|d| d.count).sum::<usize>(), 4);
}

#[test]
fn drops_detections_covered_at_the_same_place() {
    let mut detections = vec![
        hit("Temporal", version(26, 0, 0), "a.ts", 1, 1),
        hit("Temporal.Now", version(26, 0, 0), "a.ts", 1, 1),
        hit("Temporal.Now.instant", version(26, 0, 0), "a.ts", 1, 1),
        hit("Temporal", version(26, 0, 0), "a.ts", 2, 1),
        hit("Temporalish", version(1, 0, 0), "a.ts", 2, 1),
    ];
    collapse_prefix_detections(&mut detections);
    assert_eq!(features(&detections), vec![("Temporal.Now.instant", 1), ("Temporal", 1), ("Temporalish", 1)]);
}

#[test]
fn builds_reports_with_engines_only_for_node() {
    let detections = || vec![
        hit("Temporal", version(26, 0, 0), "a.ts", 1, 1),
        hit("Temporal.Now", version(26, 0, 0), "a.ts", 1, 1),
        hit("Temporal", version(26, 0, 0), "a.ts", 5, 1),
    ];
    let engines = || Some(EnginesReport {
        package_json: "package.json".to_string(),
        declared: None,
        required: version(26, 0, 0),
        fixed: false,
        severity: EnginesSeverity::Warning,
    });
    let node = build_runtime_report("node", detections(), false, true, engines());
    assert_eq!(node.runtime, "node");
    assert_eq!(node.minimum, version(26, 0, 0));
    assert_eq!(features(&node.detections), vec![("Temporal.Now", 1), ("Temporal", 1)]);
    assert!(node.engines.is_some());

    let deno = build_runtime_report("deno", detections(), true, false, engines());
    assert!(deno.engines.is_none());
    assert!(deno.has_node_api_detections);
    assert_eq!(features(&deno.detections).len(), 3);
}

#[test]
fn node_api_use_flags_every_target() {
    let by_runtime = vec![
        vec![hit("fetch", version(1, 0, 0), "a.ts", 1, 1)],
        vec![],
        vec![hit("fs.cp", version(16, 7, 0), "a.ts", 2, 1)],
    ];
    assert_eq!(node_api_flags(Some(2), &by_runtime, 2), vec![true, true]);
    assert_eq!(node_api_flags(None, &by_runtime, 3), vec![false, false, true]);
    assert!(has_node_api_detections(&by_runtime[2]));
    assert!(!has_node_api_detections(&by_runtime[0]));
}
