use runtime_checker::data::{Feature, RuntimeDb};
use runtime_checker::fast::{empty_results, FastScanError, FastScanner};
use runtime_checker::scanner::{
    has_identifier_boundaries, is_fast_match, is_property_access, is_safe_global_or_member_pattern,
    DetectedFeature,
};
use runtime_checker::version::RuntimeVersion;

fn feature(id: usize, name: &str, major: u64) -> Feature {
    Feature { id, name: name.to_string(), version: RuntimeVersion { major, minor: 0, patch: 0 } }
}

fn runtime(name: &str, globals: &[(&str, u64)], chains: &[(&str, u64)], properties: &[(&str, u64)]) -> RuntimeDb {
    let mut features = Vec::new();
    let mut table = |entries: &[(&str, u64)]| -> Vec<(String, usize)> {
        entries
            .iter()
            .map(|(key, major)| {
                let id = features.len();
                features.push(feature(id, key, *major));
                (key.to_string(), id)
            })
            .collect()
    };
    let globals = table(globals);
    let member_chains = table(chains);
    let properties = table(properties);
    let fast_patterns = globals
        .iter()
        .chain(member_chains.iter())
        .chain(properties.iter())
        .map(|(key, _)| key.clone())
        .collect();
    RuntimeDb {
        name: name.to_string(),
        features,
        globals,
        member_chains,
        properties,
        syntax: vec![],
        support: vec![],
        fast_patterns,
    }
}

fn scan(scanner: &FastScanner, lines: &[&str]) -> Vec<Vec<DetectedFeature>> {
    let (mut detections, mut seen) = empty_results(scanner.runtime_count());
    for (index, line) in lines.iter().enumerate() {
        scanner.scan_matched(line, Some(index as u64 + 1), 0, "app.ts", &mut detections, &mut seen);
    }
    detections
}

fn names(detections: &[DetectedFeature]) -> Vec<&str> {
    detections.iter().map(|d| d.feature.as_str()).collect()
}

#[test]
fn fast_mode_counts_text_matches() {
    let node = runtime("node", &[("Temporal", 26)], &[], &[]);
    let scanner = FastScanner::new(vec![node]).unwrap();
    let found = scan(&scanner, &["Temporal.Now.instant();\n"]);
    assert_eq!(names(&found[0]), vec!["Temporal"]);
    assert_eq!((found[0][0].line, found[0][0].column), (1, 1));
    assert_eq!(found[0][0].version, RuntimeVersion { major: 26, minor: 0, patch: 0 });
}

#[test]
fn fast_mode_counts_comments_and_strings() {
    let node = runtime("node", &[("Temporal", 26)], &[], &[]);
    let scanner = FastScanner::new(vec![node]).unwrap();
    let found = scan(&scanner, &["// Temporal in a comment counts in FFF mode\r\n", "const text = \"Temporal\";\n"]);
    assert_eq!(names(&found[0]), vec!["Temporal", "Temporal"]);
    assert_eq!((found[0][0].line, found[0][0].column), (1, 4));
    assert_eq!((found[0][1].line, found[0][1].column), (2, 15));
}

#[test]
fn fast_mode_ignores_unsafe_bare_lowercase_tokens() {
    let node = runtime("node", &[("array", 25), ("text", 25)], &[], &[("toSorted", 20)]);
    let scanner = FastScanner::new(vec![node]).unwrap();
    let found = scan(&scanner, &[
        "function run(params: { text: string }) { const array = [3, 1, 2].toSorted(); return array; }\n",
    ]);
    assert_eq!(names(&found[0]), vec!["toSorted"]);
}

#[test]
fn fast_mode_prefers_longest_overlapping_feature_token() {
    let node = runtime("node", &[("GRID", 1)], &[("GRID_RANGE.flatMap", 30)], &[("flatMap", 22)]);
    let scanner = FastScanner::new(vec![node]).unwrap();
    let found = scan(&scanner, &["GRID_RANGE.flatMap((row) => row);\n"]);
    assert_eq!(names(&found[0]), vec!["GRID_RANGE.flatMap"]);

    let node = runtime("node", &[("GRID", 1)], &[], &[("flatMap", 22)]);
    let scanner = FastScanner::new(vec![node]).unwrap();
    let found = scan(&scanner, &["GRID_RANGE.flatMap((row) => row);\n"]);
    assert_eq!(names(&found[0]), vec!["flatMap"]);
    assert_eq!(found[0][0].column, 12);
}

#[test]
fn every_runtime_with_the_pattern_records_it() {
    let node = runtime("node", &[("Temporal", 26)], &[], &[]);
    let deno = runtime("deno", &[("Temporal", 2)], &[("Deno.serve", 1)], &[]);
    let scanner = FastScanner::new(vec![node, deno]).unwrap();
    assert_eq!(scanner.runtime_count(), 2);
    let mut patterns = scanner.patterns().clone();
    patterns.sort();
    assert_eq!(patterns, vec!["Deno.serve".to_string(), "Temporal".to_string()]);
    let found = scan(&scanner, &["Deno.serve(); Temporal.Now;", "Temporal"]);
    assert_eq!(names(&found[0]), vec!["Temporal", "Temporal"]);
    assert_eq!(names(&found[1]), vec!["Deno.serve", "Temporal", "Temporal"]);
    assert_eq!(found[1][1].version, RuntimeVersion { major: 2, minor: 0, patch: 0 });
}

#[test]
fn a_feature_counts_once_per_place() {
    let node = runtime("node", &[("Temporal", 26)], &[], &[]);
    let scanner = FastScanner::new(vec![node]).unwrap();
    let (mut detections, mut seen) = empty_results(1);
    scanner.scan_matched("Temporal", Some(3), 0, "a.ts", &mut detections, &mut seen);
    scanner.scan_matched("Temporal", Some(3), 0, "a.ts", &mut detections, &mut seen);
    scanner.scan_matched("Temporal", None, 0, "a.ts", &mut detections, &mut seen);
    let places: Vec<(u64, u64)> = detections[0].iter().map(|d| (d.line, d.column)).collect();
    assert_eq!(places, vec![(3, 1), (1, 1)]);
}

#[test]
fn empty_patterns_are_refused() {
    let mut node = runtime("node", &[("Temporal", 26)], &[], &[]);
    node.globals.push((String::new(), 0));
    node.fast_patterns.push(String::new());
    assert_eq!(FastScanner::new(vec![node]).err(), Some(FastScanError::EmptyPattern));
    let none = FastScanner::new(vec![runtime("node", &[], &[], &[])]).unwrap();
    assert!(none.patterns().is_empty());
    assert!(scan(&none, &["Temporal"])[0].is_empty());
}

#[test]
fn match_boundaries() {
    assert!(is_property_access("a.toSorted()", 2, 10));
    assert!(!is_property_access("toSorted()", 0, 8));
    assert!(!is_property_access("a.toSortedX", 2, 10));
    assert!(has_identifier_boundaries("(Temporal)", 1, 9));
    assert!(!has_identifier_boundaries("xTemporal", 1, 9));
    assert!(!has_identifier_boundaries("a.Temporal", 2, 10));
    assert!(is_safe_global_or_member_pattern("fs.cp"));
    assert!(is_safe_global_or_member_pattern("Temporal"));
    assert!(is_safe_global_or_member_pattern("fetch"));
    assert!(!is_safe_global_or_member_pattern("array"));
    let node = runtime("node", &[("Temporal", 26)], &[], &[("at", 16)]);
    assert!(is_fast_match(&node, "x.at(1)", 2, 4, "at"));
    assert!(!is_fast_match(&node, "at(1)", 0, 2, "at"));
    assert!(is_fast_match(&node, "Temporal", 0, 8, "Temporal"));
}
