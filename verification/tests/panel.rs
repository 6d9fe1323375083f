use runtime_checker::engines::{EnginesReport, EnginesSeverity};
use runtime_checker::panel::{relative_path, Segment};
use runtime_checker::report::{ParserMode, Reporter, RuntimeReport};
use runtime_checker::scanner::{DetectedFeature, ScanStats};
use runtime_checker::version::RuntimeVersion;

fn version(major: u64, minor: u64, patch: u64) -> RuntimeVersion {
    RuntimeVersion { major, minor, patch }
}

fn hit(feature: &str, v: RuntimeVersion, path: &str, line: u64, count: usize) -> DetectedFeature {
    DetectedFeature { feature: feature.to_string(), version: v, path: path.to_string(), line, column: 1, count }
}

fn report(runtime: &str, detections: Vec<DetectedFeature>, minimum: RuntimeVersion, node_api: bool) -> RuntimeReport {
    RuntimeReport { runtime: runtime.to_string(), detections, minimum, engines: None, has_node_api_detections: node_api }
}

fn visible_text(value: &str) -> String {
    let mut output = String::new();
    let mut in_escape = false;
    for ch in value.chars() {
        if in_escape {
            if ch.is_ascii_alphabetic() {
                in_escape = false;
            }
            continue;
        }
        if ch == '\x1b' {
            in_escape = true;
            continue;
        }
        output.push(ch);
    }
    output
}

fn render(lines: &[Vec<Segment>]) -> String {
    let mut out = String::new();
    for line in lines {
        for segment in line {
            match segment {
                Segment::Text(text) | Segment::Gradient(text, _, _) => out.push_str(text),
                Segment::Term(_) => {}
            }
        }
        out.push('\n');
    }
    visible_text(&out)
}

fn print(reporter: &Reporter, reports: &Vec<RuntimeReport>, lines: usize) -> String {
    render(&reporter.print("/work", reports, 0, 39_000_000, ScanStats { line_count: lines }, 100, "0.1.0"))
}

fn all_runtimes(temporal: &str) -> Vec<RuntimeReport> {
    let path = format!("/work/{temporal}");
    vec![
        report("node", vec![hit("Temporal", version(26, 0, 0), &path, 1, 2)], version(26, 0, 0), false),
        report("deno", vec![hit("Temporal", version(2, 7, 0), &path, 1, 2)], version(2, 7, 0), false),
        report("bun", vec![], version(0, 0, 0), false),
        report("safari", vec![], version(0, 0, 0), false),
        report("chrome", vec![hit("Temporal", version(144, 0, 0), &path, 1, 2)], version(144, 0, 0), false),
        report("firefox", vec![hit("Temporal", version(139, 0, 0), &path, 1, 2)], version(139, 0, 0), false),
    ]
}

#[test]
fn default_mode_reports_detected_minimum() {
    let reporter = Reporter::new(false, None, ParserMode::Oxc);
    let visible = print(&reporter, &all_runtimes("date.ts"), 2);
    assert!(visible.contains("Temporal"));
    assert!(visible.contains("Runtimes"));
    assert!(visible.contains("Browsers"));
    assert!(visible.contains("Node.js 26.0.0"));
    assert!(visible.contains("Deno 2.7.0"));
    assert!(visible.contains("Bun 0.0.0"));
    assert!(visible.contains("Safari 0.0.0"));
    assert!(visible.contains("Chromium 144.0.0"));
    assert!(visible.contains("Firefox 139.0.0"));
    assert!(visible.contains("Finished in 39ms using oxc (ast parsing) after scanning 2 lines of code."));
}

#[test]
fn summary_prints_only_result_panel() {
    let reporter = Reporter::new(true, None, ParserMode::Oxc);
    let visible = print(&reporter, &all_runtimes("date.ts"), 2);
    assert!(!visible.contains("Temporal • v"));
    assert!(visible.contains("runtime-checker"));
    assert!(visible.contains("Finished in"));
    assert!(visible.contains("using oxc (ast parsing)"));
    assert!(visible.contains("2 lines of code"));
    assert!(visible.contains("Node.js 26.0.0"));
    assert!(visible.contains("Bun 0.0.0"));
    assert!(!visible.contains("[⚡]"));
    assert!(!visible.contains("[◆]"));
    assert!(!visible.contains("done"));

    let fast = Reporter::new(true, None, ParserMode::Text);
    assert!(print(&fast, &all_runtimes("date.ts"), 1).contains("using fff (text scan) after scanning 1 lines of code."));
}

#[test]
fn browser_summary_marks_node_api_incompatibility() {
    let fs_cp = || vec![hit("fs.cp", version(16, 7, 0), "/work/fs.ts", 2, 1)];
    let reports = vec![
        report("node", fs_cp(), version(16, 7, 0), true),
        report("safari", vec![], version(0, 0, 0), true),
        report("chrome", vec![], version(0, 0, 0), true),
        report("firefox", vec![], version(0, 0, 0), true),
    ];
    let visible = print(&Reporter::new(true, None, ParserMode::Oxc), &reports, 2);
    assert!(visible.contains("Browsers"));
    assert!(visible.contains("Safari¹"));
    assert!(visible.contains("Chromium²"));
    assert!(visible.contains("Firefox³"));
    assert!(visible.contains("¹ Safari does not support Node APIs."));
    assert!(visible.contains("² Chromium does not support Node APIs."));
    assert!(visible.contains("³ Firefox does not support Node APIs."));
}

#[test]
fn browser_only_summary_marks_node_api_incompatibility() {
    let reports = vec![report("chrome", vec![], version(0, 0, 0), true)];
    let visible = print(&Reporter::new(true, None, ParserMode::Oxc), &reports, 1);
    assert!(visible.contains("Chromium¹"));
    assert!(visible.contains("¹ Chromium does not support Node APIs."));
}

#[test]
fn groups_repeated_features_and_inspects_all_hits() {
    let grouped = vec![report(
        "node",
        vec![hit("JSON.stringify", version(0, 0, 0), "/work/json.ts", 1, 2)],
        version(0, 0, 0),
        false,
    )];
    let visible = print(&Reporter::new(false, None, ParserMode::Oxc), &grouped, 2);
    assert!(visible.contains("JSON.stringify"));
    assert!(visible.contains("(x2)"));
    assert_eq!(visible.matches("JSON.stringify").count(), 1);

    let all_hits = vec![report(
        "node",
        vec![
            hit("JSON.stringify", version(0, 0, 0), "/work/json.ts", 1, 1),
            hit("JSON.stringify", version(0, 0, 0), "/work/json.ts", 2, 1),
        ],
        version(0, 0, 0),
        false,
    )];
    let inspector = Reporter::new(false, Some("JSON.stringify".to_string()), ParserMode::Oxc);
    let visible = print(&inspector, &all_hits, 2);
    assert_eq!(visible.matches("JSON.stringify").count(), 2);
    assert!(visible.contains("json.ts@1:1"));
    assert!(visible.contains("json.ts@2:1"));
}

#[test]
fn group_header_uses_lowest_detected_version_in_major() {
    let reports = vec![report(
        "node",
        vec![
            hit("setTimeout", version(0, 0, 1), "/work/timers.ts", 1, 1),
            hit("process", version(0, 0, 3), "/work/timers.ts", 2, 1),
        ],
        version(0, 0, 3),
        true,
    )];
    let visible = print(&Reporter::new(false, None, ParserMode::Oxc), &reports, 2);
    assert!(visible.contains("Node.js 0.0.1"));
    assert!(!visible.contains("Node.js 0.0.0"));
}

#[test]
fn warns_about_engines_node_below_the_minimum() {
    let mut node = report("node", vec![hit("Temporal", version(26, 0, 0), "/work/date.ts", 1, 1)], version(26, 0, 0), false);
    node.engines = Some(EnginesReport {
        package_json: "/work/package.json".to_string(),
        declared: Some("^22.0.0".to_string()),
        required: version(26, 0, 0),
        fixed: false,
        severity: EnginesSeverity::Warning,
    });
    let visible = print(&Reporter::new(false, None, ParserMode::Oxc), &vec![node], 1);
    assert!(!visible.contains("Warnings"));
    assert!(visible.contains("⚠ Detected Node.js"));
    assert!(visible.contains("--fix"));
}

#[test]
fn renders_stricter_engines_node_as_info() {
    let mut node = report("node", vec![hit("fetch", version(18, 0, 0), "/work/date.ts", 1, 1)], version(18, 0, 0), false);
    node.engines = Some(EnginesReport {
        package_json: "/work/package.json".to_string(),
        declared: Some("^24.13.1".to_string()),
        required: version(18, 0, 0),
        fixed: false,
        severity: EnginesSeverity::Info,
    });
    let visible = print(&Reporter::new(false, None, ParserMode::Oxc), &vec![node], 1);
    assert!(!visible.contains("Warnings"));
    assert!(visible.contains("ⓘ Detected Node.js"));
    assert!(!visible.contains("⚠ Detected Node.js"));
    assert!(visible.contains("declares engines.node ^24.13.1."));
    assert!(!visible.contains("Apply a fix with --fix"));
}

#[test]
fn paths_are_shown_relative_to_the_root() {
    assert_eq!(relative_path("/work/src/a.ts", "/work"), "src/a.ts");
    assert_eq!(relative_path("/other/a.ts", "/work"), "/other/a.ts");
}
