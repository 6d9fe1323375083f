use runtime_checker::labels::{is_node_api_feature, support_feature_label, syntax_feature_label};
use runtime_checker::report::{
    compatibility_footnotes, feature_category, feature_label, footnote_marker, has_node_api_detections,
    runtime_group, runtime_label, visible_width, FeatureCategory, RuntimeGroup, RuntimeReport,
};
use runtime_checker::version::RuntimeVersion;

fn report(runtime: &str, node_api: bool) -> RuntimeReport {
    RuntimeReport {
        runtime: runtime.to_string(),
        detections: vec![],
        minimum: RuntimeVersion { major: 0, minor: 0, patch: 0 },
        engines: None,
        has_node_api_detections: node_api,
    }
}

#[test]
fn labels_features_for_display() {
    assert_eq!(feature_label("module.esm", 1), "ECMAScript modules (ESM)");
    assert_eq!(feature_label("syntax.functions.arrow_functions", 3), "anonymous function (() => {}) (x3)");
    assert_eq!(feature_label("JSON.stringify", 2), "JSON.stringify (x2)");
    assert_eq!(feature_label("fetch", 0), "fetch");
    assert_eq!(support_feature_label("typescript.native"), Some("native TypeScript type stripping"));
    assert_eq!(support_feature_label("module.amd"), None);
    assert_eq!(syntax_feature_label("syntax.grammar.null_literal"), Some("null literal (null)"));
    assert_eq!(syntax_feature_label("syntax.unknown"), None);
}

#[test]
fn sorts_features_and_runtimes_into_groups() {
    assert_eq!(feature_category("module.cjs"), FeatureCategory::ModuleFormat);
    assert_eq!(feature_category("typescript.native"), FeatureCategory::NativeTypeScript);
    assert_eq!(feature_category("syntax.operators.spread"), FeatureCategory::Syntax);
    assert_eq!(feature_category("Array.toSorted"), FeatureCategory::Api);
    assert_eq!(runtime_group("bun"), RuntimeGroup::Runtime);
    assert_eq!(runtime_group("firefox"), RuntimeGroup::Browser);
    assert_eq!(runtime_label("chrome"), "Chromium");
    assert_eq!(runtime_label("node"), "Node.js");
    assert_eq!(runtime_label("edge"), "Runtime");
}

#[test]
fn recognizes_node_core_apis_by_root() {
    assert!(is_node_api_feature("fs.cp"));
    assert!(is_node_api_feature("process"));
    assert!(is_node_api_feature("fsPromises.readFile"));
    assert!(is_node_api_feature("__dirname"));
    assert!(!is_node_api_feature("fetch"));
    assert!(!is_node_api_feature("fsx.cp"));
    assert!(!is_node_api_feature(""));
}

#[test]
fn numbers_browser_footnotes_in_order() {
    assert_eq!(footnote_marker(1), "¹");
    assert_eq!(footnote_marker(12), "¹²");
    assert_eq!(footnote_marker(0), "⁰");

    let reports = vec![report("node", true), report("safari", false), report("bun", false), report("firefox", false)];
    assert!(has_node_api_detections(&reports));
    let notes = compatibility_footnotes(&reports);
    assert_eq!(notes.len(), 2);
    assert_eq!((notes[0].runtime.as_str(), notes[0].number), ("safari", 1));
    assert_eq!(notes[1].message, "Firefox does not support Node APIs.");

    let quiet = vec![report("safari", false)];
    assert!(compatibility_footnotes(&quiet).is_empty());
}

#[test]
fn measures_text_without_escapes() {
    assert_eq!(visible_width("plain"), 5);
    assert_eq!(visible_width("\x1b[38;2;1;2;3mab\x1b[0m"), 2);
    assert_eq!(visible_width("─ é"), 3);
}
