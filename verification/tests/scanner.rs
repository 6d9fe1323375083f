use runtime_checker::analysis::{
    is_iterator_helper_method, is_unresolved_sqlite_instance_alias, join_parts, normalize_module_name,
    temporal_call_result_type, LineIndex,
};
use runtime_checker::cli::RuntimeKind;
use runtime_checker::data::Feature;
use runtime_checker::scanner::{
    add_file_lines, count_lines, is_ignored_dir, is_source_file, push_detection, DetectionSeen, ScanStats,
};
use runtime_checker::version::RuntimeVersion;

#[test]
fn source_discovery_filters_by_extension_and_directory() {
    assert!(is_source_file("/app/src/app.ts"));
    assert!(is_source_file("lib/index.mjs"));
    assert!(is_source_file("component.tsx"));
    assert!(!is_source_file("/app/README.md"));
    assert!(!is_source_file("/app/.ts"));
    assert!(!is_source_file("/app/Makefile"));
    for dir in ["node_modules", ".git", "dist", "build", "coverage", "target"] {
        assert!(is_ignored_dir(&format!("/app/{dir}")), "{dir} is skipped");
    }
    assert!(!is_ignored_dir("/app/src"));
    assert!(!is_ignored_dir("/app/.vendors"));
}

#[test]
fn counts_lines_as_str_lines_does() {
    assert_eq!(count_lines(""), 0);
    assert_eq!(count_lines("a"), 1);
    assert_eq!(count_lines("a\n"), 1);
    assert_eq!(count_lines("a\nb"), 2);
    assert_eq!(count_lines("a\n\nb\n"), 3);
    let mut stats = ScanStats { line_count: 5 };
    add_file_lines(&mut stats, "x\ny\n");
    assert_eq!(stats.line_count, 7);
}

#[test]
fn a_detection_is_recorded_once_per_place() {
    let feature = Feature { id: 3, name: "Temporal".to_string(), version: RuntimeVersion { major: 26, minor: 0, patch: 0 } };
    let mut detections = Vec::new();
    let mut seen = DetectionSeen::new();
    push_detection(&mut detections, &mut seen, &feature, 0, "a.ts", 1, 1);
    push_detection(&mut detections, &mut seen, &feature, 0, "a.ts", 1, 1);
    push_detection(&mut detections, &mut seen, &feature, 1, "b.ts", 1, 1);
    push_detection(&mut detections, &mut seen, &feature, 0, "a.ts", 2, 1);
    assert_eq!(detections.len(), 3);
    assert_eq!(detections[1].path, "b.ts");
    assert!(detections.iter().all(|d| d.count == 1 && d.feature == "Temporal"));
}

#[test]
fn line_index_maps_offsets_to_lines_and_columns() {
    let index = LineIndex::new("ab\ncd\n\nxyz");
    assert_eq!(index.line_column(0), (1, 1));
    assert_eq!(index.line_column(2), (1, 3));
    assert_eq!(index.line_column(3), (2, 1));
    assert_eq!(index.line_column(6), (3, 1));
    assert_eq!(index.line_column(9), (4, 3));
    assert_eq!(index.line_column(40), (4, 34));
}

#[test]
fn normalizes_module_names() {
    assert_eq!(normalize_module_name("node:fs"), Some("fs".to_string()));
    assert_eq!(normalize_module_name("fs/promises"), Some("fsPromises".to_string()));
    assert_eq!(normalize_module_name("node:timers/promises"), Some("timersPromises".to_string()));
    assert_eq!(normalize_module_name("stream/web"), Some("stream.web".to_string()));
    assert_eq!(normalize_module_name("./value.js"), None);
    assert_eq!(normalize_module_name("@scope/pkg"), None);
}

#[test]
fn knows_iterator_helpers_and_temporal_owners() {
    assert!(is_iterator_helper_method("flatMap"));
    assert!(is_iterator_helper_method("toArray"));
    assert!(!is_iterator_helper_method("toSorted"));
    assert_eq!(temporal_call_result_type("Temporal.Duration.from"), Some("Temporal.Duration"));
    assert_eq!(temporal_call_result_type("Temporal.PlainDateTime.from"), Some("Temporal.PlainDateTime"));
    assert_eq!(temporal_call_result_type("Temporal.Duration."), None);
    assert_eq!(temporal_call_result_type("Temporal.Now.instant"), None);
    assert_eq!(temporal_call_result_type("Duration.fromInput"), None);
}

#[test]
fn joins_chains_and_spots_unresolved_statement_aliases() {
    let parts = vec!["statement".to_string(), "run".to_string()];
    assert_eq!(join_parts("sqlite.StatementSync", &parts), "sqlite.StatementSync.run");
    assert!(is_unresolved_sqlite_instance_alias(&parts, "statement.run"));
    assert!(!is_unresolved_sqlite_instance_alias(&parts, "sqlite.StatementSync.run"));
}

#[test]
fn all_targets_every_runtime() {
    assert_eq!(RuntimeKind::All.targets(), vec![
        RuntimeKind::Node,
        RuntimeKind::Deno,
        RuntimeKind::Bun,
        RuntimeKind::Safari,
        RuntimeKind::Chrome,
        RuntimeKind::Firefox,
    ]);
    assert_eq!(RuntimeKind::Firefox.targets(), vec![RuntimeKind::Firefox]);
}
