//! What a run reports: per-runtime results, labels, grouping of
//! detections, notices, footnotes, and the compact number formats.

use vstd::prelude::*;
use crate::engines::{EnginesReport, EnginesSeverity};
use crate::labels::{is_node_api_feature, is_node_api_feature_spec, support_feature_label, support_label_spec, syntax_feature_label, syntax_label_spec};
use crate::number::{decimal, digit_char, push_decimal};
use crate::scanner::{DetectedFeature, DetectionView, detections_view};
use crate::text::{chars_of, is_prefix, push_char, push_text, str_eq, str_starts_with};
use crate::version::{RuntimeVersion, version_lt, version_text, zero_version};

verus! {

/// The result for one runtime.
pub struct RuntimeReport {
    pub runtime: String,
    pub detections: Vec<DetectedFeature>,
    pub minimum: RuntimeVersion,
    pub engines: Option<EnginesReport>,
    pub has_node_api_detections: bool,
}

/// How sources were analysed.
#[derive(Debug, Clone, Copy, PartialEq, Eq, Structural)]
pub enum ParserMode {
    Oxc,
    Text,
}

impl ParserMode {
    pub fn label(self) -> (r: &'static str)
        ensures
            self == ParserMode::Oxc ==> r@ == "oxc (ast parsing)"@,
            self == ParserMode::Text ==> r@ == "fff (text scan)"@,
    {
        match self {
            ParserMode::Oxc => "oxc (ast parsing)",
            ParserMode::Text => "fff (text scan)",
        }
    }
}

/// The options that decide what a report shows.
pub struct Reporter {
    pub summary: bool,
    pub inspect: Option<String>,
    pub parser: ParserMode,
}

impl Reporter {
    pub fn new(summary: bool, inspect: Option<String>, parser: ParserMode) -> (r: Self)
        ensures
            r.summary == summary,
            r.inspect == inspect,
            r.parser == parser,
    {
        Reporter { summary, inspect, parser }
    }
}

// ---------------------------------------------------------------------
// Runtimes
// ---------------------------------------------------------------------

/// The display name of a runtime.
pub open spec fn runtime_label_spec(runtime: Seq<char>) -> Seq<char> {
    if runtime == "node"@ {
        "Node.js"@
    } else if runtime == "deno"@ {
        "Deno"@
    } else if runtime == "bun"@ {
        "Bun"@
    } else if runtime == "safari"@ {
        "Safari"@
    } else if runtime == "chrome"@ {
        "Chromium"@
    } else if runtime == "firefox"@ {
        "Firefox"@
    } else {
        "Runtime"@
    }
}

pub fn runtime_label(runtime: &str) -> (r: &'static str)
    ensures
        r@ == runtime_label_spec(runtime@),
{
    if str_eq(runtime, "node") {
        "Node.js"
    } else if str_eq(runtime, "deno") {
        "Deno"
    } else if str_eq(runtime, "bun") {
        "Bun"
    } else if str_eq(runtime, "safari") {
        "Safari"
    } else if str_eq(runtime, "chrome") {
        "Chromium"
    } else if str_eq(runtime, "firefox") {
        "Firefox"
    } else {
        "Runtime"
    }
}

/// Whether a runtime is reported under "Runtimes" or "Browsers".
#[derive(Debug, Clone, Copy, PartialEq, Eq, Structural)]
pub enum RuntimeGroup {
    Runtime,
    Browser,
}

pub open spec fn runtime_group_spec(runtime: Seq<char>) -> RuntimeGroup {
    if runtime == "safari"@ || runtime == "chrome"@ || runtime == "firefox"@ {
        RuntimeGroup::Browser
    } else {
        RuntimeGroup::Runtime
    }
}

pub fn runtime_group(runtime: &str) -> (r: RuntimeGroup)
    ensures
        r == runtime_group_spec(runtime@),
{
    if str_eq(runtime, "safari") || str_eq(runtime, "chrome") || str_eq(runtime, "firefox") {
        RuntimeGroup::Browser
    } else {
        RuntimeGroup::Runtime
    }
}

/// The color of a runtime's version in the summary: always white.
pub fn runtime_version_color(_runtime: &str) -> (r: (u8, u8, u8))
    ensures
        r == (255u8, 255u8, 255u8),
{
    (255, 255, 255)
}

// ---------------------------------------------------------------------
// Features
// ---------------------------------------------------------------------

/// How a feature is grouped in a report.
#[derive(Debug, Clone, Copy, PartialEq, Eq, Structural)]
pub enum FeatureCategory {
    Api,
    Syntax,
    ModuleFormat,
    NativeTypeScript,
}

pub open spec fn feature_category_spec(f: Seq<char>) -> FeatureCategory {
    if is_prefix("module."@, f) {
        FeatureCategory::ModuleFormat
    } else if is_prefix("typescript."@, f) {
        FeatureCategory::NativeTypeScript
    } else if is_prefix("syntax."@, f) {
        FeatureCategory::Syntax
    } else {
        FeatureCategory::Api
    }
}

pub fn feature_category(feature: &str) -> (r: FeatureCategory)
    ensures
        r == feature_category_spec(feature@),
{
    if str_starts_with(feature, "module.") {
        FeatureCategory::ModuleFormat
    } else if str_starts_with(feature, "typescript.") {
        FeatureCategory::NativeTypeScript
    } else if str_starts_with(feature, "syntax.") {
        FeatureCategory::Syntax
    } else {
        FeatureCategory::Api
    }
}

/// The readable label of a feature, if it has one.
pub open spec fn display_label_spec(f: Seq<char>) -> Option<Seq<char>> {
    match support_label_spec(f) {
        Some(l) => Some(l),
        None => syntax_label_spec(f),
    }
}

pub fn display_feature_label(feature: &str) -> (r: Option<&'static str>)
    ensures
        match r {
            Some(l) => display_label_spec(feature@) == Some(l@),
            None => display_label_spec(feature@) is None,
        },
{
    match support_feature_label(feature) {
        Some(l) => Some(l),
        None => syntax_feature_label(feature),
    }
}

/// A feature as the report names it: its label (or name), with ` (xN)`
/// when it was seen `N > 1` times.
pub open spec fn feature_label_spec(f: Seq<char>, count: usize) -> Seq<char> {
    let name = match display_label_spec(f) {
        Some(l) => l,
        None => f,
    };
    if count > 1 {
        name + " (x"@ + decimal(count as nat) + ")"@
    } else {
        name
    }
}

pub fn feature_label(feature: &str, count: usize) -> (r: String)
    ensures
        r@ == feature_label_spec(feature@, count),
{
    let mut out = String::new();
    match display_feature_label(feature) {
        Some(l) => push_text(&mut out, l),
        None => push_text(&mut out, feature),
    }
    if count > 1 {
        push_text(&mut out, " (x");
        push_decimal(&mut out, count as u64);
        push_text(&mut out, ")");
    }
    assert(out@ =~= feature_label_spec(feature@, count));
    out
}

// ---------------------------------------------------------------------
// Footnotes
// ---------------------------------------------------------------------

/// The superscript form of a decimal digit.
pub open spec fn superscript(c: char) -> char {
    if c == '0' {
        '⁰'
    } else if c == '1' {
        '¹'
    } else if c == '2' {
        '²'
    } else if c == '3' {
        '³'
    } else if c == '4' {
        '⁴'
    } else if c == '5' {
        '⁵'
    } else if c == '6' {
        '⁶'
    } else if c == '7' {
        '⁷'
    } else if c == '8' {
        '⁸'
    } else {
        '⁹'
    }
}

fn superscript_exec(c: char) -> (r: char)
    ensures
        r == superscript(c),
{
    if c == '0' {
        '⁰'
    } else if c == '1' {
        '¹'
    } else if c == '2' {
        '²'
    } else if c == '3' {
        '³'
    } else if c == '4' {
        '⁴'
    } else if c == '5' {
        '⁵'
    } else if c == '6' {
        '⁶'
    } else if c == '7' {
        '⁷'
    } else if c == '8' {
        '⁸'
    } else {
        '⁹'
    }
}

/// A footnote number written in superscript digits.
pub open spec fn footnote_marker_spec(number: usize) -> Seq<char> {
    decimal(number as nat).map_values(|c: char| superscript(c))
}

pub fn footnote_marker(number: usize) -> (r: String)
    ensures
        r@ == footnote_marker_spec(number),
{
    let digits = crate::number::decimal_string(number as u64);
    let chars = chars_of(digits.as_str());
    let mut marker = String::new();
    let mut i: usize = 0;
    while i < chars.len()
        invariant
            i <= chars@.len(),
            chars@ == decimal(number as nat),
            marker@ == chars@.take(i as int).map_values(|c: char| superscript(c)),
        decreases chars@.len() - i,
    {
        push_char(&mut marker, superscript_exec(chars[i]));
        i = i + 1;
        assert(marker@ =~= chars@.take(i as int).map_values(|c: char| superscript(c)));
    }
    assert(chars@.take(chars@.len() as int) =~= chars@);
    marker
}

/// A browser's note that Node.js APIs are not available there.
pub struct CompatibilityFootnote {
    pub runtime: String,
    pub number: usize,
    pub message: String,
}

/// Whether any report found Node.js API use.
pub open spec fn any_node_api(reports: Seq<RuntimeReport>) -> bool {
    exists|i: int| 0 <= i < reports.len() && (#[trigger] reports[i]).has_node_api_detections
}

pub fn has_node_api_detections(reports: &Vec<RuntimeReport>) -> (r: bool)
    ensures
        r == any_node_api(reports@),
{
    let mut i: usize = 0;
    while i < reports.len()
        invariant
            i <= reports@.len(),
            forall|k: int| 0 <= k < i ==> !(#[trigger] reports@[k]).has_node_api_detections,
        decreases reports@.len() - i,
    {
        if reports[i].has_node_api_detections {
            return true;
        }
        i = i + 1;
    }
    false
}

/// The browsers among `reports`, in order.
pub open spec fn browsers(reports: Seq<RuntimeReport>) -> Seq<RuntimeReport>
    decreases reports.len(),
{
    if reports.len() == 0 {
        Seq::empty()
    } else if runtime_group_spec(reports.last().runtime@) == RuntimeGroup::Browser {
        browsers(reports.drop_last()).push(reports.last())
    } else {
        browsers(reports.drop_last())
    }
}

/// The message of a browser's footnote.
pub open spec fn footnote_message(runtime: Seq<char>) -> Seq<char> {
    runtime_label_spec(runtime) + " does not support Node APIs."@
}

/// When Node.js APIs were detected, each browser gets a numbered footnote
/// (1, 2, ... in report order) saying it lacks them; otherwise none.
pub fn compatibility_footnotes(reports: &Vec<RuntimeReport>) -> (r: Vec<CompatibilityFootnote>)
    ensures
        !any_node_api(reports@) ==> r@.len() == 0,
        any_node_api(reports@) ==> {
            &&& r@.len() == browsers(reports@).len()
            &&& forall|i: int| 0 <= i < r@.len() ==> {
                &&& (#[trigger] r@[i]).runtime@ == browsers(reports@)[i].runtime@
                &&& r@[i].number == i + 1
                &&& r@[i].message@ == footnote_message(browsers(reports@)[i].runtime@)
            }
        },
{
    let mut out: Vec<CompatibilityFootnote> = Vec::new();
    if !has_node_api_detections(reports) {
        return out;
    }
    let mut i: usize = 0;
    while i < reports.len()
        invariant
            i <= reports@.len(),
            out@.len() == browsers(reports@.take(i as int)).len(),
            out@.len() <= i,
            forall|k: int| 0 <= k < out@.len() ==> {
                &&& (#[trigger] out@[k]).runtime@ == browsers(reports@.take(i as int))[k].runtime@
                &&& out@[k].number == k + 1
                &&& out@[k].message@ == footnote_message(browsers(reports@.take(i as int))[k].runtime@)
            },
        decreases reports@.len() - i,
    {
        let ghost prev = browsers(reports@.take(i as int));
        assert(reports@.take(i + 1).drop_last() =~= reports@.take(i as int));
        assert(reports@.take(i + 1).last() == reports@[i as int]);
        let report = &reports[i];
        if runtime_group(report.runtime.as_str()) == RuntimeGroup::Browser {
            let mut message = String::new();
            push_text(&mut message, runtime_label(report.runtime.as_str()));
            push_text(&mut message, " does not support Node APIs.");
            let number = out.len() + 1;
            out.push(CompatibilityFootnote { runtime: report.runtime.clone(), number, message });
            proof {
                let next = browsers(reports@.take(i + 1));
                assert(next == prev.push(reports@[i as int]));
                assert forall|k: int| 0 <= k < out@.len() implies {
                    &&& (#[trigger] out@[k]).runtime@ == next[k].runtime@
                    &&& out@[k].number == k + 1
                    &&& out@[k].message@ == footnote_message(next[k].runtime@)
                } by {
                    if k < prev.len() {
                        assert(next[k] == prev[k]);
                    }
                }
            }
        }
        i = i + 1;
    }
    assert(reports@.take(reports@.len() as int) =~= reports@);
    out
}

// ---------------------------------------------------------------------
// Compact numbers
// ---------------------------------------------------------------------

/// A nonnegative rational `n / scale` rounded to tenths (half away from
/// zero) when it is below `threshold`, else to a whole number; a trailing
/// `.0` is dropped, then `suffix` follows.
pub open spec fn scaled_text(n: nat, scale: nat, threshold: nat, suffix: Seq<char>) -> Seq<char>
    recommends
        scale > 0,
{
    if n < threshold * scale {
        let tenths = (n * 20 + scale) / (2 * scale);
        if tenths % 10 == 0 {
            decimal(tenths / 10) + suffix
        } else {
            decimal(tenths / 10) + seq!['.'] + seq![digit_char(tenths % 10)] + suffix
        }
    } else {
        decimal((2 * n + scale) / (2 * scale)) + suffix
    }
}

proof fn lemma_rounded_bound(n: nat, scale: nat, bound: nat)
    requires
        scale > 0,
        n <= bound * scale,
    ensures
        (2 * n + scale) / (2 * scale) <= bound,
{
    assert((2 * n + scale) / (2 * scale) <= bound) by (nonlinear_arith)
        requires
            scale > 0,
            n <= bound * scale,
    ;
}

proof fn lemma_rounded_at_most(n: nat, scale: nat)
    requires
        scale > 0,
    ensures
        (2 * n + scale) / (2 * scale) <= n,
{
    assert(n <= n * scale) by (nonlinear_arith)
        requires
            scale > 0,
    ;
    lemma_rounded_bound(n, scale, n);
}

fn format_scaled(n: u128, scale: u128, threshold: u128, suffix: &str) -> (r: String)
    requires
        0 < scale <= u64::MAX,
        threshold <= 100,
        (2 * n + scale) / (2 * scale) <= u64::MAX,
        n <= u64::MAX * 1_000_000_000_000,
    ensures
        r@ == scaled_text(n as nat, scale as nat, threshold as nat, suffix@),
{
    let mut out = String::new();
    assert(threshold * scale <= 100 * u64::MAX) by (nonlinear_arith)
        requires
            threshold <= 100,
            scale <= u64::MAX,
    ;
    if n < threshold * scale {
        let tenths = (n * 20 + scale) / (2 * scale);
        assert(tenths <= u64::MAX) by (nonlinear_arith)
            requires
                tenths == (n * 20 + scale) / (2 * scale),
                n < threshold * scale,
                threshold <= 100,
                scale > 0,
        ;
        let whole = (tenths / 10) as u64;
        push_decimal(&mut out, whole);
        if tenths % 10 != 0 {
            push_char(&mut out, '.');
            let d = (tenths % 10) as u64;
            push_decimal(&mut out, d);
            proof {
                assert(decimal(d as nat) == seq![digit_char(d as nat)]);
            }
        }
    } else {
        let rounded = (2 * n + scale) / (2 * scale);
        push_decimal(&mut out, rounded as u64);
    }
    push_text(&mut out, suffix);
    assert(out@ =~= scaled_text(n as nat, scale as nat, threshold as nat, suffix@));
    out
}

/// A count of `scale` units: tenths below 100 units, whole units above.
pub open spec fn count_with_unit_spec(n: nat, scale: nat, suffix: Seq<char>) -> Seq<char> {
    scaled_text(n, scale, 100, suffix)
}

pub fn format_count_with_unit(line_count: usize, scale: usize, suffix: &str) -> (r: String)
    requires
        0 < scale,
    ensures
        r@ == count_with_unit_spec(line_count as nat, scale as nat, suffix@),
{
    proof {
        lemma_rounded_at_most(line_count as nat, scale as nat);
    }
    format_scaled(line_count as u128, scale as u128, 100, suffix)
}

/// The units of line counts, largest first.
pub open spec fn unit_scale(i: int) -> nat {
    if i == 0 {
        1_000_000_000_000
    } else if i == 1 {
        1_000_000_000
    } else if i == 2 {
        1_000_000
    } else {
        1_000
    }
}

pub open spec fn unit_suffix(i: int) -> Seq<char> {
    if i == 0 {
        "t"@
    } else if i == 1 {
        "b"@
    } else if i == 2 {
        "m"@
    } else {
        "k"@
    }
}

/// A line count in compact form: below 1000 as is; otherwise in the
/// largest unit it reaches (k, m, b, t), moving up one unit when rounding
/// gives `1000...`.
pub open spec fn line_count_text(n: nat) -> Seq<char> {
    if n < 1000 {
        decimal(n)
    } else {
        let i = if n >= unit_scale(0) {
            0int
        } else if n >= unit_scale(1) {
            1int
        } else if n >= unit_scale(2) {
            2int
        } else {
            3int
        };
        let value = count_with_unit_spec(n, unit_scale(i), unit_suffix(i));
        if is_prefix("1000"@, value) && i > 0 {
            count_with_unit_spec(n, unit_scale(i - 1), unit_suffix(i - 1))
        } else {
            value
        }
    }
}

fn unit_of(i: usize) -> (r: (u64, &'static str))
    requires
        i < 4,
    ensures
        r.0 == unit_scale(i as int),
        r.1@ == unit_suffix(i as int),
{
    if i == 0 {
        (1_000_000_000_000u64, "t")
    } else if i == 1 {
        (1_000_000_000u64, "b")
    } else if i == 2 {
        (1_000_000u64, "m")
    } else {
        (1_000u64, "k")
    }
}

/// Formats a line count compactly: `999`, `1k`, `1.2k`, `101k`, `1.3m`.
pub fn format_line_count(line_count: usize) -> (r: String)
    ensures
        r@ == line_count_text(line_count as nat),
{
    if line_count < 1000 {
        return crate::number::decimal_string(line_count as u64);
    }
    let n = line_count as u64;
    let i: usize = if n >= 1_000_000_000_000u64 {
        0
    } else if n >= 1_000_000_000u64 {
        1
    } else if n >= 1_000_000u64 {
        2
    } else {
        3
    };
    let (scale, suffix) = unit_of(i);
    proof {
        lemma_rounded_at_most(n as nat, scale as nat);
    }
    let value = format_scaled(n as u128, scale as u128, 100, suffix);
    if str_starts_with(value.as_str(), "1000") && i > 0 {
        let (next_scale, next_suffix) = unit_of(i - 1);
        proof {
            lemma_rounded_at_most(n as nat, next_scale as nat);
        }
        return format_scaled(n as u128, next_scale as u128, 100, next_suffix);
    }
    value
}

/// An elapsed time in compact form: whole milliseconds below a second,
/// then seconds, minutes or hours with one decimal below ten.
pub open spec fn duration_text(nanos: nat) -> Seq<char> {
    let millis = nanos / 1_000_000;
    if millis < 1000 {
        decimal(millis) + "ms"@
    } else if nanos < 60 * 1_000_000_000 {
        scaled_text(nanos, 1_000_000_000, 10, "s"@)
    } else if nanos < 3600 * 1_000_000_000 {
        scaled_text(nanos, 60_000_000_000, 10, "m"@)
    } else {
        scaled_text(nanos, 3_600_000_000_000, 10, "h"@)
    }
}

/// Formats an elapsed time of `secs` seconds and `subsec_nanos`
/// nanoseconds: `39ms`, `2.3s`, `12s`, `2.1m`.
pub fn format_duration(secs: u64, subsec_nanos: u32) -> (r: String)
    requires
        subsec_nanos < 1_000_000_000,
    ensures
        r@ == duration_text((secs * 1_000_000_000 + subsec_nanos) as nat),
{
    let nanos: u128 = (secs as u128) * 1_000_000_000 + (subsec_nanos as u128);
    let millis = nanos / 1_000_000;
    if millis < 1000 {
        let mut out = String::new();
        push_decimal(&mut out, millis as u64);
        push_text(&mut out, "ms");
        assert(out@ =~= duration_text(nanos as nat));
        return out;
    }
    if nanos < 60 * 1_000_000_000 {
        proof {
            lemma_rounded_bound(nanos as nat, 1_000_000_000, 60);
        }
        format_scaled(nanos, 1_000_000_000, 10, "s")
    } else if nanos < 3600 * 1_000_000_000 {
        proof {
            lemma_rounded_bound(nanos as nat, 60_000_000_000, 60);
        }
        format_scaled(nanos, 60_000_000_000, 10, "m")
    } else {
        proof {
            lemma_rounded_bound(nanos as nat, 3_600_000_000_000, u64::MAX as nat);
        }
        format_scaled(nanos, 3_600_000_000_000, 10, "h")
    }
}

// ---------------------------------------------------------------------
// Widths of styled text
// ---------------------------------------------------------------------

/// The number of characters shown from `s[i..]`, where an escape (`\x1b`)
/// hides everything up to and including the next ASCII letter.
pub open spec fn visible_from(s: Seq<char>, i: int, in_escape: bool) -> nat
    decreases s.len() - i,
{
    if i >= s.len() || i < 0 {
        0
    } else if in_escape {
        visible_from(s, i + 1, !crate::text::is_ascii_alpha(s[i]))
    } else if s[i] == '\x1b' {
        visible_from(s, i + 1, true)
    } else {
        visible_from(s, i + 1, false) + 1
    }
}

/// The visible width of a string with ANSI escapes.
pub fn visible_width(value: &str) -> (r: usize)
    ensures
        r == visible_from(value@, 0, false),
{
    let s = chars_of(value);
    let mut width: usize = 0;
    let mut in_escape = false;
    let mut i: usize = 0;
    while i < s.len()
        invariant
            i <= s@.len(),
            width <= i,
            width + visible_from(s@, i as int, in_escape) == visible_from(s@, 0, false),
        decreases s@.len() - i,
    {
        let ch = s[i];
        if in_escape {
            if crate::text::ascii_alpha(ch) {
                in_escape = false;
            }
        } else if ch == '\x1b' {
            in_escape = true;
        } else {
            width = width + 1;
        }
        i = i + 1;
    }
    width
}

/// The terminal width to lay out for: the detected width (80 if none),
/// at least 40.
pub fn terminal_width_from(detected: Option<u16>) -> (r: usize)
    ensures
        r == (match detected {
            Some(w) => if w >= 40 {
                w as usize
            } else {
                40usize
            },
            None => 80usize,
        }),
{
    let w: usize = match detected {
        Some(w) => w as usize,
        None => 80,
    };
    if w < 40 {
        40
    } else {
        w
    }
}

/// The width of a full rule: one less than the terminal, at least 1.
pub fn rule_width(terminal_width: usize) -> (r: usize)
    ensures
        r == (if terminal_width >= 2 {
            (terminal_width - 1) as usize
        } else {
            1usize
        }),
{
    if terminal_width >= 2 {
        terminal_width - 1
    } else {
        1
    }
}

/// The length of the rule after a header of `content_width` visible
/// characters: what is left of the rule after the header and three
/// separating characters, at least 1.
pub fn streak_fill_width(terminal_width: usize, content_width: usize) -> (r: usize)
    requires
        content_width + 3 <= usize::MAX,
    ensures
        r == (if rule_width_spec(terminal_width) > content_width + 3 {
            (rule_width_spec(terminal_width) - content_width - 3) as usize
        } else {
            1usize
        }),
{
    let columns = rule_width(terminal_width);
    let used = content_width + 3;
    if columns > used {
        columns - used
    } else {
        1
    }
}

pub open spec fn rule_width_spec(terminal_width: usize) -> usize {
    if terminal_width >= 2 {
        (terminal_width - 1) as usize
    } else {
        1usize
    }
}

/// The padding that brings a label of `visible` characters to `width`.
pub fn padding_width(width: usize, visible: usize) -> (r: usize)
    ensures
        r == (if width > visible {
            (width - visible) as usize
        } else {
            0usize
        }),
{
    if width > visible {
        width - visible
    } else {
        0
    }
}

} // verus!
