//! The lines a run prints: colored text built here, gradients and terminal
//! styles named for the terminal side to render.

use vstd::prelude::*;
use crate::engines::{EnginesReport, EnginesSeverity};
use crate::number::{decimal, push_decimal};
use crate::report::{CompatibilityFootnote, ParserMode, RuntimeReport, RuntimeGroup, footnote_marker, footnote_marker_spec, runtime_group, runtime_group_spec, runtime_label, runtime_label_spec, feature_label, feature_label_spec};
use crate::text::{chars_of, is_prefix, push_char, push_text, str_eq, str_starts_with};
use crate::version::{RuntimeVersion, version_text};
use crate::groups::{Selection, aggregate_entries, arranged, category_is, distinct_majors, feature_is, lowest_group_version, major_is, majors_spec, min_version, select_entries, selection_pred, sort_by_detail, stable_sorted};
use crate::pipeline::{lemma_total_filter, total_count};
use crate::report::{FeatureCategory, Reporter};
use crate::scanner::{DetectedFeature, DetectionView, ScanStats, detections_view};

verus! {

// ---------------------------------------------------------------------
// Colors and segments
// ---------------------------------------------------------------------

pub type Rgb = (u8, u8, u8);

pub open spec fn emerald_500() -> Rgb {
    (16, 185, 129)
}

pub open spec fn sky_500() -> Rgb {
    (14, 165, 233)
}

pub open spec fn neutral_400() -> Rgb {
    (163, 163, 163)
}

pub open spec fn neutral_500() -> Rgb {
    (115, 115, 115)
}

pub open spec fn neutral_700() -> Rgb {
    (64, 64, 64)
}

pub open spec fn warning_red() -> Rgb {
    (248, 113, 113)
}

pub open spec fn node_green() -> Rgb {
    (104, 160, 99)
}

pub open spec fn white() -> Rgb {
    (255, 255, 255)
}

/// A terminal style, rendered by the terminal side.
#[derive(Debug, Clone, Copy, PartialEq, Eq, Structural)]
pub enum TermStyle {
    LightGray,
    Yellow,
    Reset,
}

/// A piece of a line of output.
pub enum Segment {
    /// Text shown as it is (it may carry its own color escapes).
    Text(String),
    /// Text colored character by character from one color to another.
    Gradient(String, Rgb, Rgb),
    /// A switch of terminal style.
    Term(TermStyle),
}

/// A segment as plain values.
pub enum SegmentView {
    Text(Seq<char>),
    Gradient(Seq<char>, Rgb, Rgb),
    Term(TermStyle),
}

impl View for Segment {
    type V = SegmentView;

    open spec fn view(&self) -> SegmentView {
        match self {
            Segment::Text(t) => SegmentView::Text(t@),
            Segment::Gradient(t, from, to) => SegmentView::Gradient(t@, *from, *to),
            Segment::Term(s) => SegmentView::Term(*s),
        }
    }
}

pub open spec fn line_view(line: Seq<Segment>) -> Seq<SegmentView> {
    line.map_values(|s: Segment| s@)
}

pub open spec fn lines_view(lines: Seq<Vec<Segment>>) -> Seq<Seq<SegmentView>> {
    lines.map_values(|l: Vec<Segment>| line_view(l@))
}

/// The escape that sets a 24-bit foreground color, without its final `m`.
pub open spec fn rgb_params(c: Rgb) -> Seq<char> {
    decimal(c.0 as nat) + seq![';'] + decimal(c.1 as nat) + seq![';'] + decimal(c.2 as nat)
}

/// `text` in the foreground color `c`, then a reset.
pub open spec fn fg_rgb_spec(text: Seq<char>, c: Rgb) -> Seq<char> {
    "\x1b[38;2;"@ + rgb_params(c) + seq!['m'] + text + "\x1b[0m"@
}

/// `text` bold in the foreground color `c`, then a reset.
pub open spec fn bold_fg_rgb_spec(text: Seq<char>, c: Rgb) -> Seq<char> {
    "\x1b[1;38;2;"@ + rgb_params(c) + seq!['m'] + text + "\x1b[0m"@
}

/// `label` as a white badge on gray, padded by a space on each side.
pub open spec fn badge_spec(label: Seq<char>) -> Seq<char> {
    "\x1b[48;2;82;82;82m\x1b[38;2;255;255;255m "@ + label + " \x1b[0m"@
}

fn push_rgb_params(out: &mut String, c: (u8, u8, u8))
    ensures
        final(out)@ == old(out)@ + rgb_params(c),
{
    let ghost start = out@;
    push_decimal(out, c.0 as u64);
    push_char(out, ';');
    push_decimal(out, c.1 as u64);
    push_char(out, ';');
    push_decimal(out, c.2 as u64);
    assert(out@ =~= start + rgb_params(c));
}

pub fn fg_rgb(text: &str, color: (u8, u8, u8)) -> (r: String)
    ensures
        r@ == fg_rgb_spec(text@, color),
{
    let mut out = String::new();
    push_text(&mut out, "\x1b[38;2;");
    push_rgb_params(&mut out, color);
    push_char(&mut out, 'm');
    push_text(&mut out, text);
    push_text(&mut out, "\x1b[0m");
    assert(out@ =~= fg_rgb_spec(text@, color));
    out
}

pub fn bold_fg_rgb(text: &str, color: (u8, u8, u8)) -> (r: String)
    ensures
        r@ == bold_fg_rgb_spec(text@, color),
{
    let mut out = String::new();
    push_text(&mut out, "\x1b[1;38;2;");
    push_rgb_params(&mut out, color);
    push_char(&mut out, 'm');
    push_text(&mut out, text);
    push_text(&mut out, "\x1b[0m");
    assert(out@ =~= bold_fg_rgb_spec(text@, color));
    out
}

pub fn badge(label: &str) -> (r: String)
    ensures
        r@ == badge_spec(label@),
{
    let mut out = String::new();
    push_text(&mut out, "\x1b[48;2;82;82;82m\x1b[38;2;255;255;255m ");
    push_text(&mut out, label);
    push_text(&mut out, " \x1b[0m");
    assert(out@ =~= badge_spec(label@));
    out
}

pub(crate) fn text_segment(text: String) -> (r: Segment)
    ensures
        r@ == SegmentView::Text(text@),
{
    Segment::Text(text)
}

// ---------------------------------------------------------------------
// Paths as shown
// ---------------------------------------------------------------------

/// A path shown relative to the scanned root: what follows `root/`, or
/// nothing for the root itself; other paths as they are. Paths are taken
/// as written with single `/` separators.
pub open spec fn relative_path_spec(path: Seq<char>, root: Seq<char>) -> Seq<char> {
    if path == root {
        Seq::empty()
    } else if root.len() > 0 && root.last() == '/' && is_prefix(root, path) {
        path.skip(root.len() as int)
    } else if is_prefix(root.push('/'), path) {
        path.skip(root.len() as int + 1)
    } else {
        path
    }
}

fn skip_chars(s: &Vec<char>, n: usize) -> (r: String)
    requires
        n <= s@.len(),
    ensures
        r@ == s@.skip(n as int),
{
    let mut out = String::new();
    let mut i: usize = n;
    while i < s.len()
        invariant
            n <= i <= s@.len(),
            out@ == s@.subrange(n as int, i as int),
        decreases s@.len() - i,
    {
        push_char(&mut out, s[i]);
        i = i + 1;
        assert(out@ =~= s@.subrange(n as int, i as int));
    }
    assert(out@ =~= s@.skip(n as int));
    out
}

pub fn relative_path(path: &str, root: &str) -> (r: String)
    ensures
        r@ == relative_path_spec(path@, root@),
{
    let p = chars_of(path);
    let q = chars_of(root);
    if str_eq(path, root) {
        return String::new();
    }
    if q.len() > 0 && q[q.len() - 1] == '/' && str_starts_with(path, root) {
        return skip_chars(&p, q.len());
    }
    let mut with_slash = String::new();
    push_text(&mut with_slash, root);
    push_char(&mut with_slash, '/');
    if str_starts_with(path, with_slash.as_str()) {
        proof {
            assert(with_slash@ =~= root@.push('/'));
            assert(q@.len() + 1 <= p@.len());
        }
        let n = q.len();
        let total = p.len();
        assert(n < total);
        return skip_chars(&p, n + 1);
    }
    path.to_owned()
}

// ---------------------------------------------------------------------
// Detection lines
// ---------------------------------------------------------------------

/// Where a detection is: `(path@line:column)`.
pub open spec fn location_spec(path: Seq<char>, line: u64, column: u64) -> Seq<char> {
    seq!['('] + path + seq!['@'] + decimal(line as nat) + seq![':'] + decimal(column as nat) + seq![')']
}

/// The line of one detection: its label in a gradient, a bullet, its
/// version, and where it is.
pub open spec fn entry_line_spec(
    root: Seq<char>,
    feature: Seq<char>,
    count: usize,
    version: RuntimeVersion,
    path: Seq<char>,
    line: u64,
    column: u64,
) -> Seq<SegmentView> {
    seq![
        SegmentView::Gradient(feature_label_spec(feature, count), emerald_500(), sky_500()),
        SegmentView::Text(
            seq![' '] + fg_rgb_spec("•"@, neutral_700()) + seq![' '] + fg_rgb_spec(
                seq!['v'] + version_text(version),
                neutral_400(),
            ) + seq![' '] + fg_rgb_spec(location_spec(relative_path_spec(path, root), line, column), neutral_500()),
        ),
        SegmentView::Term(TermStyle::Reset),
    ]
}

pub fn entry_line(
    root: &str,
    feature: &str,
    count: usize,
    version: RuntimeVersion,
    path: &str,
    line: u64,
    column: u64,
) -> (r: Vec<Segment>)
    ensures
        line_view(r@) == entry_line_spec(root@, feature@, count, version, path@, line, column),
{
    let label = feature_label(feature, count);
    let mut version_label = String::new();
    push_char(&mut version_label, 'v');
    let version_shown = version.to_string();
    push_text(&mut version_label, version_shown.as_str());
    let shown = relative_path(path, root);
    let mut location = String::new();
    push_char(&mut location, '(');
    push_text(&mut location, shown.as_str());
    push_char(&mut location, '@');
    push_decimal(&mut location, line);
    push_char(&mut location, ':');
    push_decimal(&mut location, column);
    push_char(&mut location, ')');
    let mut rest = String::new();
    push_char(&mut rest, ' ');
    let bullet = fg_rgb("•", (64, 64, 64));
    push_text(&mut rest, bullet.as_str());
    push_char(&mut rest, ' ');
    let v = fg_rgb(version_label.as_str(), (163, 163, 163));
    push_text(&mut rest, v.as_str());
    push_char(&mut rest, ' ');
    let l = fg_rgb(location.as_str(), (115, 115, 115));
    push_text(&mut rest, l.as_str());
    proof {
        assert(version_label@ =~= seq!['v'] + version_text(version));
        assert(location@ =~= location_spec(relative_path_spec(path@, root@), line, column));
        assert(rest@ =~= seq![' '] + fg_rgb_spec("•"@, neutral_700()) + seq![' '] + fg_rgb_spec(
            seq!['v'] + version_text(version),
            neutral_400(),
        ) + seq![' '] + fg_rgb_spec(location_spec(relative_path_spec(path@, root@), line, column), neutral_500()));
    }
    let r = vec![
        Segment::Gradient(label, (16, 185, 129), (14, 165, 233)),
        text_segment(rest),
        Segment::Term(TermStyle::Reset),
    ];
    assert(line_view(r@) =~= entry_line_spec(root@, feature@, count, version, path@, line, column));
    r
}

// ---------------------------------------------------------------------
// Notices
// ---------------------------------------------------------------------

/// How a notice is shown.
#[derive(Debug, Clone, Copy, PartialEq, Eq, Structural)]
pub enum NoticeKind {
    Info,
    Warning,
    Update,
}

/// A notice under the summary.
pub struct PanelNotice {
    pub kind: NoticeKind,
    pub message: String,
}

/// What the engines check has to say: `--fix` is offered for a missing or
/// too low range, not for one that is merely stricter.
pub open spec fn engines_notice_spec(root: Seq<char>, e: EnginesReport) -> (NoticeKind, Seq<char>) {
    let package = relative_path_spec(e.package_json@, root);
    if e.fixed {
        (NoticeKind::Update, "Updated "@ + package + " engines.node to >="@ + version_text(e.required) + "."@)
    } else {
        match e.declared {
            Some(declared) => (
                match e.severity {
                    EnginesSeverity::Info => NoticeKind::Info,
                    EnginesSeverity::Warning => NoticeKind::Warning,
                },
                "Detected Node.js "@ + version_text(e.required) + " but "@ + package + " declares engines.node "@
                    + declared@ + match e.severity {
                    EnginesSeverity::Info => "."@,
                    EnginesSeverity::Warning => ". Apply a fix with --fix."@,
                },
            ),
            None => (
                NoticeKind::Warning,
                "Detected Node.js "@ + version_text(e.required) + " but "@ + package
                    + " has no engines.node. Apply a fix with --fix."@,
            ),
        }
    }
}

pub fn engines_notice(root: &str, engines: &EnginesReport) -> (r: PanelNotice)
    ensures
        (r.kind, r.message@) == engines_notice_spec(root@, *engines),
{
    let package = relative_path(engines.package_json.as_str(), root);
    let required = engines.required.to_string();
    let mut message = String::new();
    if engines.fixed {
        push_text(&mut message, "Updated ");
        push_text(&mut message, package.as_str());
        push_text(&mut message, " engines.node to >=");
        push_text(&mut message, required.as_str());
        push_text(&mut message, ".");
        assert(message@ =~= engines_notice_spec(root@, *engines).1);
        return PanelNotice { kind: NoticeKind::Update, message };
    }
    push_text(&mut message, "Detected Node.js ");
    push_text(&mut message, required.as_str());
    push_text(&mut message, " but ");
    push_text(&mut message, package.as_str());
    match &engines.declared {
        Some(declared) => {
            push_text(&mut message, " declares engines.node ");
            push_text(&mut message, declared.as_str());
            let kind = match engines.severity {
                EnginesSeverity::Info => {
                    push_text(&mut message, ".");
                    NoticeKind::Info
                },
                EnginesSeverity::Warning => {
                    push_text(&mut message, ". Apply a fix with --fix.");
                    NoticeKind::Warning
                },
            };
            assert(message@ =~= engines_notice_spec(root@, *engines).1);
            PanelNotice { kind, message }
        },
        None => {
            push_text(&mut message, " has no engines.node. Apply a fix with --fix.");
            assert(message@ =~= engines_notice_spec(root@, *engines).1);
            PanelNotice { kind: NoticeKind::Warning, message }
        },
    }
}

/// The notices of the reports that carry an engines check, in order.
pub open spec fn notices_spec(root: Seq<char>, reports: Seq<RuntimeReport>) -> Seq<(NoticeKind, Seq<char>)>
    decreases reports.len(),
{
    if reports.len() == 0 {
        Seq::empty()
    } else {
        let prev = notices_spec(root, reports.drop_last());
        match reports.last().engines {
            Some(e) => prev.push(engines_notice_spec(root, e)),
            None => prev,
        }
    }
}

pub open spec fn notice_views(n: Seq<PanelNotice>) -> Seq<(NoticeKind, Seq<char>)> {
    n.map_values(|p: PanelNotice| (p.kind, p.message@))
}

pub fn panel_notices(root: &str, reports: &Vec<RuntimeReport>) -> (r: Vec<PanelNotice>)
    ensures
        notice_views(r@) == notices_spec(root@, reports@),
{
    let mut out: Vec<PanelNotice> = Vec::new();
    let mut i: usize = 0;
    while i < reports.len()
        invariant
            i <= reports@.len(),
            notice_views(out@) == notices_spec(root@, reports@.take(i as int)),
        decreases reports@.len() - i,
    {
        proof {
            assert(reports@.take(i + 1).drop_last() =~= reports@.take(i as int));
            assert(reports@.take(i + 1).last() == reports@[i as int]);
        }
        match &reports[i].engines {
            Some(e) => {
                let ghost before = out@;
                out.push(engines_notice(root, e));
                assert(notice_views(out@) =~= notice_views(before).push(engines_notice_spec(root@, *e)));
            },
            None => {},
        }
        i = i + 1;
    }
    assert(reports@.take(reports@.len() as int) =~= reports@);
    out
}

/// The color and icon of a notice.
pub open spec fn notice_style(kind: NoticeKind) -> (Rgb, Seq<char>) {
    match kind {
        NoticeKind::Info => (neutral_400(), "ⓘ"@),
        NoticeKind::Warning => (warning_red(), "⚠"@),
        NoticeKind::Update => (node_green(), "✓"@),
    }
}

/// The line of a notice: its icon and message in its color.
pub open spec fn notice_line_spec(kind: NoticeKind, message: Seq<char>) -> Seq<SegmentView> {
    let (color, icon) = notice_style(kind);
    seq![
        SegmentView::Text(fg_rgb_spec(icon, color) + seq![' '] + fg_rgb_spec(message, color)),
        SegmentView::Term(TermStyle::Reset),
    ]
}

pub fn notice_line(notice: &PanelNotice) -> (r: Vec<Segment>)
    ensures
        line_view(r@) == notice_line_spec(notice.kind, notice.message@),
{
    let (color, icon): ((u8, u8, u8), &str) = match notice.kind {
        NoticeKind::Info => ((163, 163, 163), "ⓘ"),
        NoticeKind::Warning => ((248, 113, 113), "⚠"),
        NoticeKind::Update => ((104, 160, 99), "✓"),
    };
    let mut text = fg_rgb(icon, color);
    push_char(&mut text, ' ');
    let m = fg_rgb(notice.message.as_str(), color);
    push_text(&mut text, m.as_str());
    proof {
        let (c, i) = notice_style(notice.kind);
        assert(c == color && i == icon@);
        assert(text@ =~= fg_rgb_spec(i, c) + seq![' '] + fg_rgb_spec(notice.message@, c));
    }
    let r = vec![text_segment(text), Segment::Term(TermStyle::Reset)];
    assert(line_view(r@) =~= notice_line_spec(notice.kind, notice.message@));
    r
}


// ---------------------------------------------------------------------
// The summary
// ---------------------------------------------------------------------

/// A footnote as plain values: runtime, number, message.
pub open spec fn footnote_view(f: CompatibilityFootnote) -> (Seq<char>, usize, Seq<char>) {
    (f.runtime@, f.number, f.message@)
}

pub open spec fn footnote_views(f: Seq<CompatibilityFootnote>) -> Seq<(Seq<char>, usize, Seq<char>)> {
    f.map_values(|x: CompatibilityFootnote| footnote_view(x))
}

/// The number of the first footnote about `runtime`.
pub open spec fn marker_for(fns: Seq<(Seq<char>, usize, Seq<char>)>, runtime: Seq<char>) -> Option<usize>
    decreases fns.len(),
{
    if fns.len() == 0 {
        None
    } else if fns[0].0 == runtime {
        Some(fns[0].1)
    } else {
        marker_for(fns.drop_first(), runtime)
    }
}

/// The summary line of a runtime: its name, its footnote marker if any,
/// and its minimum version.
pub open spec fn summary_line_spec(r: RuntimeReport, fns: Seq<(Seq<char>, usize, Seq<char>)>) -> Seq<SegmentView> {
    let marker = match marker_for(fns, r.runtime@) {
        Some(n) => fg_rgb_spec(footnote_marker_spec(n), warning_red()),
        None => Seq::empty(),
    };
    seq![
        SegmentView::Text(
            fg_rgb_spec("-"@, neutral_700()) + seq![' '] + fg_rgb_spec(runtime_label_spec(r.runtime@), neutral_400())
                + marker + seq![' '] + fg_rgb_spec(version_text(r.minimum), white()),
        ),
        SegmentView::Term(TermStyle::Reset),
    ]
}

/// The reports of one group, in order.
pub open spec fn members_of(reports: Seq<RuntimeReport>, g: RuntimeGroup) -> Seq<RuntimeReport>
    decreases reports.len(),
{
    if reports.len() == 0 {
        Seq::empty()
    } else if runtime_group_spec(reports.last().runtime@) == g {
        members_of(reports.drop_last(), g).push(reports.last())
    } else {
        members_of(reports.drop_last(), g)
    }
}

/// A summary group: its title, then a line per member; nothing when it
/// has no members.
pub open spec fn summary_group_spec(
    title: Seq<char>,
    members: Seq<RuntimeReport>,
    fns: Seq<(Seq<char>, usize, Seq<char>)>,
) -> Seq<Seq<SegmentView>> {
    if members.len() == 0 {
        Seq::empty()
    } else {
        seq![seq![SegmentView::Text(bold_fg_rgb_spec(title, white()))]] + members.map_values(
            |r: RuntimeReport| summary_line_spec(r, fns),
        )
    }
}

fn find_marker(footnotes: &Vec<CompatibilityFootnote>, runtime: &str) -> (r: Option<usize>)
    ensures
        r == marker_for(footnote_views(footnotes@), runtime@),
{
    let ghost fv = footnote_views(footnotes@);
    let mut i: usize = 0;
    assert(fv.skip(0) =~= fv);
    while i < footnotes.len()
        invariant
            i <= footnotes@.len(),
            fv == footnote_views(footnotes@),
            marker_for(fv, runtime@) == marker_for(fv.skip(i as int), runtime@),
        decreases footnotes@.len() - i,
    {
        assert(fv.skip(i as int).drop_first() =~= fv.skip(i + 1));
        assert(fv.skip(i as int)[0] == footnote_view(footnotes@[i as int]));
        if str_eq(footnotes[i].runtime.as_str(), runtime) {
            return Some(footnotes[i].number);
        }
        i = i + 1;
    }
    None
}

fn summary_line(report: &RuntimeReport, footnotes: &Vec<CompatibilityFootnote>) -> (r: Vec<Segment>)
    ensures
        line_view(r@) == summary_line_spec(*report, footnote_views(footnotes@)),
{
    let mut text = fg_rgb("-", (64, 64, 64));
    push_char(&mut text, ' ');
    let name = fg_rgb(runtime_label(report.runtime.as_str()), (163, 163, 163));
    push_text(&mut text, name.as_str());
    let ghost before_marker = text@;
    match find_marker(footnotes, report.runtime.as_str()) {
        Some(n) => {
            let m = footnote_marker(n);
            let colored = fg_rgb(m.as_str(), (248, 113, 113));
            push_text(&mut text, colored.as_str());
        },
        None => {},
    }
    push_char(&mut text, ' ');
    let minimum = report.minimum.to_string();
    let v = fg_rgb(minimum.as_str(), (255, 255, 255));
    push_text(&mut text, v.as_str());
    proof {
        let marker = match marker_for(footnote_views(footnotes@), report.runtime@) {
            Some(n) => fg_rgb_spec(footnote_marker_spec(n), warning_red()),
            None => Seq::empty(),
        };
        assert(text@ =~= fg_rgb_spec("-"@, neutral_700()) + seq![' '] + fg_rgb_spec(
            runtime_label_spec(report.runtime@),
            neutral_400(),
        ) + marker + seq![' '] + fg_rgb_spec(version_text(report.minimum), white()));
    }
    let r = vec![text_segment(text), Segment::Term(TermStyle::Reset)];
    assert(line_view(r@) =~= summary_line_spec(*report, footnote_views(footnotes@)));
    r
}

fn summary_group(
    title: &str,
    reports: &Vec<RuntimeReport>,
    group: RuntimeGroup,
    footnotes: &Vec<CompatibilityFootnote>,
) -> (r: Vec<Vec<Segment>>)
    ensures
        lines_view(r@) == summary_group_spec(title@, members_of(reports@, group), footnote_views(footnotes@)),
{
    let ghost fv = footnote_views(footnotes@);
    let mut any = false;
    let mut i: usize = 0;
    while i < reports.len()
        invariant
            i <= reports@.len(),
            any == (members_of(reports@.take(i as int), group).len() > 0),
        decreases reports@.len() - i,
    {
        proof {
            assert(reports@.take(i + 1).drop_last() =~= reports@.take(i as int));
            assert(reports@.take(i + 1).last() == reports@[i as int]);
        }
        if runtime_group(reports[i].runtime.as_str()) == group {
            any = true;
        }
        i = i + 1;
    }
    assert(reports@.take(reports@.len() as int) =~= reports@);
    if !any {
        return Vec::new();
    }
    let mut out: Vec<Vec<Segment>> = Vec::new();
    let title_text = bold_fg_rgb(title, (255, 255, 255));
    let title_line = vec![text_segment(title_text)];
    assert(line_view(title_line@) =~= seq![SegmentView::Text(bold_fg_rgb_spec(title@, white()))]);
    out.push(title_line);
    let ghost head = lines_view(out@);
    assert(head =~= seq![seq![SegmentView::Text(bold_fg_rgb_spec(title@, white()))]]);
    let mut i: usize = 0;
    while i < reports.len()
        invariant
            i <= reports@.len(),
            fv == footnote_views(footnotes@),
            lines_view(out@) == head + members_of(reports@.take(i as int), group).map_values(
                |r: RuntimeReport| summary_line_spec(r, fv),
            ),
        decreases reports@.len() - i,
    {
        proof {
            assert(reports@.take(i + 1).drop_last() =~= reports@.take(i as int));
            assert(reports@.take(i + 1).last() == reports@[i as int]);
        }
        let report = &reports[i];
        if runtime_group(report.runtime.as_str()) == group {
            let ghost before = out@;
            out.push(summary_line(report, footnotes));
            proof {
                let m = members_of(reports@.take(i as int), group);
                assert(members_of(reports@.take(i + 1), group) == m.push(*report));
                assert(lines_view(out@) =~= lines_view(before).push(summary_line_spec(*report, fv)));
                assert(m.push(*report).map_values(|r: RuntimeReport| summary_line_spec(r, fv)) =~= m.map_values(
                    |r: RuntimeReport| summary_line_spec(r, fv),
                ).push(summary_line_spec(*report, fv)));
            }
        }
        i = i + 1;
    }
    out
}


// ---------------------------------------------------------------------
// The result panel
// ---------------------------------------------------------------------

/// `n` horizontal rule characters.
pub open spec fn rule_chars(n: nat) -> Seq<char> {
    Seq::new(n, |i: int| '─')
}

fn rule_text(n: usize) -> (r: String)
    ensures
        r@ == rule_chars(n as nat),
{
    let mut out = String::new();
    let mut i: usize = 0;
    while i < n
        invariant
            i <= n,
            out@ == rule_chars(i as nat),
        decreases n - i,
    {
        push_char(&mut out, '─');
        i = i + 1;
        assert(out@ =~= rule_chars(i as nat));
    }
    out
}

/// The footnotes of a run, as `compatibility_footnotes` gives them.
pub open spec fn footnotes_spec(reports: Seq<RuntimeReport>) -> Seq<(Seq<char>, usize, Seq<char>)> {
    if !crate::report::any_node_api(reports) {
        Seq::empty()
    } else {
        Seq::new(
            crate::report::browsers(reports).len(),
            |i: int| (
                crate::report::browsers(reports)[i].runtime@,
                (i + 1) as usize,
                crate::report::footnote_message(crate::report::browsers(reports)[i].runtime@),
            ),
        )
    }
}

/// The line of a footnote.
pub open spec fn footnote_line_spec(f: (Seq<char>, usize, Seq<char>)) -> Seq<SegmentView> {
    seq![SegmentView::Text(fg_rgb_spec(footnote_marker_spec(f.1) + seq![' '] + f.2, warning_red()))]
}

/// The visible width of the panel's header: the 15 characters of the
/// name, then the version badge.
pub open spec fn header_width(version: Seq<char>) -> nat {
    15 + crate::report::visible_from(seq![' '] + badge_spec(version), 0, false)
}

/// The header line: a rule, the name and version, and a rule filling the
/// rest of the terminal.
pub open spec fn streak_line_spec(version: Seq<char>, terminal_width: usize) -> Seq<SegmentView> {
    let columns = crate::report::rule_width_spec(terminal_width);
    let used = header_width(version) + 3;
    let fill: nat = if columns > used {
        (columns - used) as nat
    } else {
        1
    };
    seq![
        SegmentView::Text(fg_rgb_spec("─"@, neutral_700()) + seq![' ']),
        SegmentView::Gradient("runtime-checker"@, emerald_500(), sky_500()),
        SegmentView::Text(seq![' '] + badge_spec(version) + seq![' '] + fg_rgb_spec(rule_chars(fill), neutral_700())),
    ]
}

/// The closing rule.
pub open spec fn rule_line_spec(terminal_width: usize) -> Seq<SegmentView> {
    seq![SegmentView::Text(fg_rgb_spec(rule_chars(crate::report::rule_width_spec(terminal_width) as nat), neutral_700()))]
}

/// "Finished in ... using ... after scanning ... lines of code."
pub open spec fn finished_line_spec(nanos: nat, parser_label: Seq<char>, line_count: usize) -> Seq<SegmentView> {
    seq![
        SegmentView::Text(fg_rgb_spec("Finished in "@, white())),
        SegmentView::Gradient(crate::report::duration_text(nanos), emerald_500(), sky_500()),
        SegmentView::Text(fg_rgb_spec(" using "@, white())),
        SegmentView::Gradient(parser_label, emerald_500(), sky_500()),
        SegmentView::Text(fg_rgb_spec(" after scanning "@, white())),
        SegmentView::Gradient(crate::report::line_count_text(line_count as nat), emerald_500(), sky_500()),
        SegmentView::Text(fg_rgb_spec(" lines of code."@, white())),
    ]
}

pub open spec fn parser_label_spec(parser: ParserMode) -> Seq<char> {
    match parser {
        ParserMode::Oxc => "oxc (ast parsing)"@,
        ParserMode::Text => "fff (text scan)"@,
    }
}

pub open spec fn blank_if(c: bool) -> Seq<Seq<SegmentView>> {
    if c {
        seq![Seq::<SegmentView>::empty()]
    } else {
        Seq::empty()
    }
}

/// The runtime and browser summaries, a blank line between them.
pub open spec fn summary_section_spec(reports: Seq<RuntimeReport>, fns: Seq<(Seq<char>, usize, Seq<char>)>) -> Seq<Seq<SegmentView>> {
    let runtimes = members_of(reports, RuntimeGroup::Runtime);
    let browser_reports = members_of(reports, RuntimeGroup::Browser);
    summary_group_spec("Runtimes"@, runtimes, fns) + blank_if(runtimes.len() > 0 && browser_reports.len() > 0)
        + summary_group_spec("Browsers"@, browser_reports, fns)
}

/// The footnotes, after a blank line when something was printed above.
pub open spec fn footnote_section_spec(fns: Seq<(Seq<char>, usize, Seq<char>)>, printed_above: bool) -> Seq<Seq<SegmentView>> {
    if fns.len() > 0 {
        blank_if(printed_above) + fns.map_values(|f: (Seq<char>, usize, Seq<char>)| footnote_line_spec(f))
    } else {
        Seq::empty()
    }
}

/// The notices, after a blank line when something was printed above.
pub open spec fn notice_section_spec(notices: Seq<(NoticeKind, Seq<char>)>, printed_above: bool) -> Seq<Seq<SegmentView>> {
    if notices.len() > 0 {
        blank_if(printed_above) + notices.map_values(|n: (NoticeKind, Seq<char>)| notice_line_spec(n.0, n.1))
    } else {
        Seq::empty()
    }
}

/// The result panel: header, timing, the runtime and browser summaries,
/// footnotes, notices, and a closing rule, separated by blank lines.
pub open spec fn result_panel_spec(
    root: Seq<char>,
    parser: ParserMode,
    reports: Seq<RuntimeReport>,
    nanos: nat,
    line_count: usize,
    terminal_width: usize,
    version: Seq<char>,
) -> Seq<Seq<SegmentView>> {
    let fns = footnotes_spec(reports);
    let printed_summary = members_of(reports, RuntimeGroup::Runtime).len() > 0 || members_of(
        reports,
        RuntimeGroup::Browser,
    ).len() > 0;
    seq![
        streak_line_spec(version, terminal_width),
        Seq::<SegmentView>::empty(),
        finished_line_spec(nanos, parser_label_spec(parser), line_count),
        Seq::<SegmentView>::empty(),
    ] + summary_section_spec(reports, fns) + footnote_section_spec(fns, printed_summary) + notice_section_spec(
        notices_spec(root, reports),
        printed_summary || fns.len() > 0,
    ) + seq![rule_line_spec(terminal_width)]
}

pub(crate) fn push_line(out: &mut Vec<Vec<Segment>>, line: Vec<Segment>)
    ensures
        lines_view(final(out)@) == lines_view(old(out)@).push(line_view(line@)),
{
    out.push(line);
    assert(lines_view(out@) =~= lines_view(old(out)@).push(line_view(line@)));
}

pub(crate) fn append_lines(out: &mut Vec<Vec<Segment>>, more: Vec<Vec<Segment>>)
    ensures
        lines_view(final(out)@) == lines_view(old(out)@) + lines_view(more@),
{
    let mut more = more;
    let ghost m = more@;
    out.append(&mut more);
    assert(lines_view(out@) =~= lines_view(old(out)@) + lines_view(m));
}

pub(crate) fn blank_line(out: &mut Vec<Vec<Segment>>)
    ensures
        lines_view(final(out)@) == lines_view(old(out)@).push(Seq::<SegmentView>::empty()),
{
    let line: Vec<Segment> = Vec::new();
    assert(line_view(line@) =~= Seq::<SegmentView>::empty());
    push_line(out, line);
}

pub(crate) fn streak_line(version: &str, terminal_width: usize) -> (r: Vec<Segment>)
    requires
        version@.len() + 100 <= usize::MAX,
    ensures
        line_view(r@) == streak_line_spec(version@, terminal_width),
{
    let mut tail = String::new();
    push_char(&mut tail, ' ');
    let b = badge(version);
    push_text(&mut tail, b.as_str());
    let shown = crate::report::visible_width(tail.as_str());
    proof {
        reveal_strlit("\x1b[48;2;82;82;82m\x1b[38;2;255;255;255m ");
        reveal_strlit(" \x1b[0m");
        assert(tail@ =~= seq![' '] + badge_spec(version@));
        lemma_visible_bound(tail@, 0, false);
        assert(tail@.len() <= version@.len() + 60);
    }
    let content_width = 15 + shown;
    let fill = crate::report::streak_fill_width(terminal_width, content_width);
    let ghost t0 = tail@;
    push_char(&mut tail, ' ');
    let rule = rule_text(fill);
    let colored = fg_rgb(rule.as_str(), (64, 64, 64));
    push_text(&mut tail, colored.as_str());
    assert(tail@ =~= t0 + seq![' '] + fg_rgb_spec(rule_chars(fill as nat), neutral_700()));
    let mut lead = fg_rgb("─", (64, 64, 64));
    push_char(&mut lead, ' ');
    assert(lead@ =~= fg_rgb_spec("─"@, neutral_700()) + seq![' ']);
    let name = "runtime-checker".to_owned();
    assert(name@ == "runtime-checker"@);
    let r = vec![
        text_segment(lead),
        Segment::Gradient(name, (16, 185, 129), (14, 165, 233)),
        text_segment(tail),
    ];
    proof {
        let columns = crate::report::rule_width_spec(terminal_width);
        let used = header_width(version@) + 3;
        let f: nat = if columns > used {
            (columns - used) as nat
        } else {
            1
        };
        assert(fill as nat == f);
        assert(line_view(r@) =~= streak_line_spec(version@, terminal_width));
    }
    r
}

proof fn lemma_visible_bound(s: Seq<char>, i: int, e: bool)
    requires
        0 <= i,
    ensures
        crate::report::visible_from(s, i, e) <= if i <= s.len() {
            s.len() - i
        } else {
            0
        },
    decreases s.len() - i,
{
    if i < s.len() {
        lemma_visible_bound(s, i + 1, true);
        lemma_visible_bound(s, i + 1, false);
    }
}

fn rule_line(terminal_width: usize) -> (r: Vec<Segment>)
    ensures
        line_view(r@) == rule_line_spec(terminal_width),
{
    let columns = crate::report::rule_width(terminal_width);
    let rule = rule_text(columns);
    let r = vec![text_segment(fg_rgb(rule.as_str(), (64, 64, 64)))];
    assert(line_view(r@) =~= rule_line_spec(terminal_width));
    r
}

fn finished_line(elapsed_secs: u64, elapsed_subsec_nanos: u32, parser: ParserMode, line_count: usize) -> (r: Vec<Segment>)
    requires
        elapsed_subsec_nanos < 1_000_000_000,
    ensures
        line_view(r@) == finished_line_spec(
            (elapsed_secs * 1_000_000_000 + elapsed_subsec_nanos) as nat,
            parser_label_spec(parser),
            line_count,
        ),
{
    let r = vec![
        text_segment(fg_rgb("Finished in ", (255, 255, 255))),
        Segment::Gradient(
            crate::report::format_duration(elapsed_secs, elapsed_subsec_nanos),
            (16, 185, 129),
            (14, 165, 233),
        ),
        text_segment(fg_rgb(" using ", (255, 255, 255))),
        Segment::Gradient(parser.label().to_owned(), (16, 185, 129), (14, 165, 233)),
        text_segment(fg_rgb(" after scanning ", (255, 255, 255))),
        Segment::Gradient(crate::report::format_line_count(line_count), (16, 185, 129), (14, 165, 233)),
        text_segment(fg_rgb(" lines of code.", (255, 255, 255))),
    ];
    assert(line_view(r@) =~= finished_line_spec(
        (elapsed_secs * 1_000_000_000 + elapsed_subsec_nanos) as nat,
        parser_label_spec(parser),
        line_count,
    ));
    r
}

fn footnote_line(f: &CompatibilityFootnote) -> (r: Vec<Segment>)
    ensures
        line_view(r@) == footnote_line_spec(footnote_view(*f)),
{
    let mut text = footnote_marker(f.number);
    push_char(&mut text, ' ');
    push_text(&mut text, f.message.as_str());
    assert(text@ =~= footnote_marker_spec(f.number) + seq![' '] + f.message@);
    let r = vec![text_segment(fg_rgb(text.as_str(), (248, 113, 113)))];
    assert(line_view(r@) =~= footnote_line_spec(footnote_view(*f)));
    r
}

fn summary_section(reports: &Vec<RuntimeReport>, footnotes: &Vec<CompatibilityFootnote>) -> (r: (Vec<Vec<Segment>>, bool))
    ensures
        lines_view(r.0@) == summary_section_spec(reports@, footnote_views(footnotes@)),
        r.1 == (members_of(reports@, RuntimeGroup::Runtime).len() > 0 || members_of(reports@, RuntimeGroup::Browser).len() > 0),
{
    let mut out = summary_group("Runtimes", reports, RuntimeGroup::Runtime, footnotes);
    let printed_runtimes = out.len() > 0;
    let browsers = summary_group("Browsers", reports, RuntimeGroup::Browser, footnotes);
    let printed_browsers = browsers.len() > 0;
    proof {
        reveal_strlit("Runtimes");
        reveal_strlit("Browsers");
    }
    if printed_runtimes && printed_browsers {
        blank_line(&mut out);
    }
    append_lines(&mut out, browsers);
    assert(lines_view(out@) =~= summary_section_spec(reports@, footnote_views(footnotes@)));
    (out, printed_runtimes || printed_browsers)
}

fn footnote_section(out: &mut Vec<Vec<Segment>>, footnotes: &Vec<CompatibilityFootnote>, printed_above: bool)
    ensures
        lines_view(final(out)@) == lines_view(old(out)@) + footnote_section_spec(footnote_views(footnotes@), printed_above),
{
    let ghost fns = footnote_views(footnotes@);
    let ghost start = lines_view(out@);
    if footnotes.len() == 0 {
        assert(lines_view(out@) =~= start + footnote_section_spec(fns, printed_above));
        return;
    }
    if printed_above {
        blank_line(out);
    }
    let mut i: usize = 0;
    let ghost base = lines_view(out@);
    assert(base == start + blank_if(printed_above));
    while i < footnotes.len()
        invariant
            i <= footnotes@.len(),
            fns == footnote_views(footnotes@),
            lines_view(out@) == base + fns.take(i as int).map_values(
                |f: (Seq<char>, usize, Seq<char>)| footnote_line_spec(f),
            ),
        decreases footnotes@.len() - i,
    {
        push_line(out, footnote_line(&footnotes[i]));
        i = i + 1;
        assert(lines_view(out@) =~= base + fns.take(i as int).map_values(
            |f: (Seq<char>, usize, Seq<char>)| footnote_line_spec(f),
        ));
    }
    assert(fns.take(fns.len() as int) =~= fns);
    assert(lines_view(out@) =~= start + footnote_section_spec(fns, printed_above));
}

fn notice_section(out: &mut Vec<Vec<Segment>>, notices: &Vec<PanelNotice>, printed_above: bool)
    ensures
        lines_view(final(out)@) == lines_view(old(out)@) + notice_section_spec(notice_views(notices@), printed_above),
{
    let ghost nv = notice_views(notices@);
    let ghost start = lines_view(out@);
    if notices.len() == 0 {
        assert(lines_view(out@) =~= start + notice_section_spec(nv, printed_above));
        return;
    }
    if printed_above {
        blank_line(out);
    }
    let mut i: usize = 0;
    let ghost base = lines_view(out@);
    assert(base == start + blank_if(printed_above));
    while i < notices.len()
        invariant
            i <= notices@.len(),
            nv == notice_views(notices@),
            lines_view(out@) == base + nv.take(i as int).map_values(
                |n: (NoticeKind, Seq<char>)| notice_line_spec(n.0, n.1),
            ),
        decreases notices@.len() - i,
    {
        push_line(out, notice_line(&notices[i]));
        i = i + 1;
        assert(lines_view(out@) =~= base + nv.take(i as int).map_values(
            |n: (NoticeKind, Seq<char>)| notice_line_spec(n.0, n.1),
        ));
    }
    assert(nv.take(nv.len() as int) =~= nv);
    assert(lines_view(out@) =~= start + notice_section_spec(nv, printed_above));
}

/// The lines of the result panel.
pub fn result_panel(
    root: &str,
    parser: ParserMode,
    reports: &Vec<RuntimeReport>,
    elapsed_secs: u64,
    elapsed_subsec_nanos: u32,
    line_count: usize,
    terminal_width: usize,
    version: &str,
) -> (r: Vec<Vec<Segment>>)
    requires
        elapsed_subsec_nanos < 1_000_000_000,
        version@.len() + 100 <= usize::MAX,
    ensures
        lines_view(r@) == result_panel_spec(
            root@,
            parser,
            reports@,
            (elapsed_secs * 1_000_000_000 + elapsed_subsec_nanos) as nat,
            line_count,
            terminal_width,
            version@,
        ),
{
    let mut out: Vec<Vec<Segment>> = Vec::new();
    push_line(&mut out, streak_line(version, terminal_width));
    blank_line(&mut out);
    push_line(&mut out, finished_line(elapsed_secs, elapsed_subsec_nanos, parser, line_count));
    blank_line(&mut out);
    let ghost head = lines_view(out@);
    let footnotes = crate::report::compatibility_footnotes(reports);
    proof {
        assert(footnote_views(footnotes@) =~= footnotes_spec(reports@));
    }
    let (summary, printed_summary) = summary_section(reports, &footnotes);
    append_lines(&mut out, summary);
    footnote_section(&mut out, &footnotes, printed_summary);
    let notices = panel_notices(root, reports);
    let has_footnotes = footnotes.len() > 0;
    notice_section(&mut out, &notices, printed_summary || has_footnotes);
    push_line(&mut out, rule_line(terminal_width));
    proof {
        let nanos = (elapsed_secs * 1_000_000_000 + elapsed_subsec_nanos) as nat;
        assert(head =~= seq![
            streak_line_spec(version@, terminal_width),
            Seq::<SegmentView>::empty(),
            finished_line_spec(nanos, parser_label_spec(parser), line_count),
            Seq::<SegmentView>::empty(),
        ]);
        assert(lines_view(out@) =~= result_panel_spec(
            root@,
            parser,
            reports@,
            nanos,
            line_count,
            terminal_width,
            version@,
        ));
    }
    out
}


// ---------------------------------------------------------------------
// Grouped detections
// ---------------------------------------------------------------------

/// The lines of detections, one each.
pub open spec fn entry_lines_spec(root: Seq<char>, es: Seq<DetectionView>) -> Seq<Seq<SegmentView>> {
    es.map_values(
        |d: DetectionView| entry_line_spec(root, d.feature, d.count, d.version, d.path, d.line, d.column),
    )
}

/// The header of a group: the runtime and the group's lowest version.
pub open spec fn header_spec(runtime: Seq<char>, v: RuntimeVersion) -> Seq<SegmentView> {
    seq![SegmentView::Text(bold_fg_rgb_spec(runtime_label_spec(runtime) + seq![' '] + version_text(v), white()))]
}

/// Merged entries after a blank line, when there are any.
pub open spec fn spaced_spec(root: Seq<char>, es: Seq<DetectionView>) -> Seq<Seq<SegmentView>> {
    if es.len() == 0 {
        Seq::empty()
    } else {
        seq![Seq::<SegmentView>::empty()] + entry_lines_spec(root, arranged(es))
    }
}

/// One major-version group: the header, then API features, syntax
/// (after a blank line if APIs were listed), module formats and native
/// TypeScript (each after a blank line), all merged and ordered.
pub open spec fn group_block_spec(
    root: Seq<char>,
    runtime: Seq<char>,
    es: Seq<DetectionView>,
    lead: bool,
) -> Seq<Seq<SegmentView>> {
    let api = es.filter(category_is(FeatureCategory::Api));
    let syntax = es.filter(category_is(FeatureCategory::Syntax));
    blank_if(lead) + seq![header_spec(runtime, min_version(es))] + entry_lines_spec(root, arranged(api)) + (if syntax.len()
        > 0 {
        blank_if(api.len() > 0) + entry_lines_spec(root, arranged(syntax))
    } else {
        Seq::empty()
    }) + spaced_spec(root, es.filter(category_is(FeatureCategory::ModuleFormat))) + spaced_spec(
        root,
        es.filter(category_is(FeatureCategory::NativeTypeScript)),
    )
}

/// The groups of the first `n` majors; every group but the first starts
/// with a blank line, and so does the first when `lead` asks for it.
pub open spec fn grouped_blocks(
    root: Seq<char>,
    runtime: Seq<char>,
    ds: Seq<DetectionView>,
    ms: Seq<u64>,
    n: int,
    lead: bool,
) -> Seq<Seq<SegmentView>>
    decreases n,
{
    if n <= 0 {
        Seq::empty()
    } else {
        grouped_blocks(root, runtime, ds, ms, n - 1, lead) + group_block_spec(
            root,
            runtime,
            ds.filter(major_is(ms[n - 1])),
            lead || n - 1 > 0,
        )
    }
}

/// A runtime's detections grouped by major version, in ascending order.
pub open spec fn grouped_runtime_spec(root: Seq<char>, report: RuntimeReport, lead: bool) -> Seq<Seq<SegmentView>> {
    let ds = detections_view(report.detections@);
    let ms = majors_spec(ds);
    grouped_blocks(root, report.runtime@, ds, ms, ms.len() as int, lead)
}

/// One major-version group of an inspected feature: the header, then
/// every detection in order of version and place.
pub open spec fn inspected_block_spec(
    root: Seq<char>,
    runtime: Seq<char>,
    es: Seq<DetectionView>,
    lead: bool,
) -> Seq<Seq<SegmentView>> {
    blank_if(lead) + seq![header_spec(runtime, min_version(es))] + entry_lines_spec(root, stable_sorted(es))
}

pub open spec fn inspected_blocks(
    root: Seq<char>,
    runtime: Seq<char>,
    fs: Seq<DetectionView>,
    ms: Seq<u64>,
    n: int,
    lead: bool,
) -> Seq<Seq<SegmentView>>
    decreases n,
{
    if n <= 0 {
        Seq::empty()
    } else {
        inspected_blocks(root, runtime, fs, ms, n - 1, lead) + inspected_block_spec(
            root,
            runtime,
            fs.filter(major_is(ms[n - 1])),
            lead || n - 1 > 0,
        )
    }
}

/// The detections of one feature, grouped by major version.
pub open spec fn inspected_spec(root: Seq<char>, report: RuntimeReport, feature: Seq<char>, lead: bool) -> Seq<Seq<SegmentView>> {
    let fs = detections_view(report.detections@).filter(feature_is(feature));
    let ms = majors_spec(fs);
    inspected_blocks(root, report.runtime@, fs, ms, ms.len() as int, lead)
}

/// Whether a report shows anything: any detection, or any of the
/// inspected feature.
pub open spec fn shows_any(report: RuntimeReport, inspect: Option<Seq<char>>) -> bool {
    match inspect {
        Some(f) => majors_spec(detections_view(report.detections@).filter(feature_is(f))).len() > 0,
        None => majors_spec(detections_view(report.detections@)).len() > 0,
    }
}

/// The groups of the first `n` reports, and whether any was shown.
pub open spec fn groups_fold(
    root: Seq<char>,
    reports: Seq<RuntimeReport>,
    inspect: Option<Seq<char>>,
    n: int,
) -> (Seq<Seq<SegmentView>>, bool)
    decreases n,
{
    if n <= 0 {
        (Seq::empty(), false)
    } else {
        let (prev, printed_any) = groups_fold(root, reports, inspect, n - 1);
        let r = reports[n - 1];
        let lines = match inspect {
            Some(f) => inspected_spec(root, r, f, printed_any),
            None => grouped_runtime_spec(root, r, printed_any),
        };
        (prev + lines, printed_any || shows_any(r, inspect))
    }
}

/// All reports' groups; when a feature is inspected and nowhere found, a
/// line that says so; a blank line after anything shown.
pub open spec fn groups_spec(root: Seq<char>, reports: Seq<RuntimeReport>, inspect: Option<Seq<char>>) -> Seq<Seq<SegmentView>> {
    let (lines, printed_any) = groups_fold(root, reports, inspect, reports.len() as int);
    let missing = match inspect {
        Some(f) => if !printed_any {
            seq![
                seq![
                    SegmentView::Term(TermStyle::LightGray),
                    SegmentView::Text("No detections found for "@),
                    SegmentView::Term(TermStyle::Yellow),
                    SegmentView::Text(f),
                    SegmentView::Term(TermStyle::Reset),
                ],
            ]
        } else {
            Seq::empty()
        },
        None => Seq::empty(),
    };
    lines + missing + blank_if(printed_any || inspect is Some)
}

/// The counts of every report fit in a `usize` when added up.
pub open spec fn counts_fit(reports: Seq<RuntimeReport>) -> bool {
    forall|i: int| 0 <= i < reports.len() ==> total_count(detections_view((#[trigger] reports[i]).detections@)) <= usize::MAX
}

fn header_line(runtime: &str, v: RuntimeVersion) -> (r: Vec<Segment>)
    ensures
        line_view(r@) == header_spec(runtime@, v),
{
    let mut text = String::new();
    push_text(&mut text, runtime_label(runtime));
    push_char(&mut text, ' ');
    let shown = v.to_string();
    push_text(&mut text, shown.as_str());
    assert(text@ =~= runtime_label_spec(runtime@) + seq![' '] + version_text(v));
    let r = vec![text_segment(bold_fg_rgb(text.as_str(), (255, 255, 255)))];
    assert(line_view(r@) =~= header_spec(runtime@, v));
    r
}

fn push_entry_lines(out: &mut Vec<Vec<Segment>>, root: &str, es: &Vec<DetectedFeature>)
    ensures
        lines_view(final(out)@) == lines_view(old(out)@) + entry_lines_spec(root@, detections_view(es@)),
{
    let ghost start = lines_view(out@);
    let ghost d = detections_view(es@);
    let mut i: usize = 0;
    while i < es.len()
        invariant
            i <= es@.len(),
            d == detections_view(es@),
            lines_view(out@) == start + entry_lines_spec(root@, d.take(i as int)),
        decreases es@.len() - i,
    {
        let e = &es[i];
        assert(d[i as int] == e@);
        push_line(
            out,
            entry_line(root, e.feature.as_str(), e.count, e.version, e.path.as_str(), e.line, e.column),
        );
        assert(d.take(i + 1) =~= d.take(i as int).push(e@));
        i = i + 1;
        assert(lines_view(out@) =~= start + entry_lines_spec(root@, d.take(i as int)));
    }
    assert(d.take(d.len() as int) =~= d);
}

fn group_block(root: &str, runtime: &str, es: &Vec<DetectedFeature>, lead: bool) -> (r: Vec<Vec<Segment>>)
    requires
        total_count(detections_view(es@)) <= usize::MAX,
    ensures
        lines_view(r@) == group_block_spec(root@, runtime@, detections_view(es@), lead),
{
    let ghost d = detections_view(es@);
    let mut out: Vec<Vec<Segment>> = Vec::new();
    if lead {
        blank_line(&mut out);
    }
    push_line(&mut out, header_line(runtime, lowest_group_version(es)));
    let api = select_entries(es, Selection::Category(FeatureCategory::Api));
    let syntax = select_entries(es, Selection::Category(FeatureCategory::Syntax));
    let module = select_entries(es, Selection::Category(FeatureCategory::ModuleFormat));
    let typescript = select_entries(es, Selection::Category(FeatureCategory::NativeTypeScript));
    proof {
        lemma_total_filter(d, category_is(FeatureCategory::Api));
        lemma_total_filter(d, category_is(FeatureCategory::Syntax));
        lemma_total_filter(d, category_is(FeatureCategory::ModuleFormat));
        lemma_total_filter(d, category_is(FeatureCategory::NativeTypeScript));
    }
    let ghost head = lines_view(out@);
    let api_entries = aggregate_entries(&api);
    push_entry_lines(&mut out, root, &api_entries);
    let ghost after_api = lines_view(out@);
    if syntax.len() > 0 {
        if api.len() > 0 {
            blank_line(&mut out);
        }
        let syntax_entries = aggregate_entries(&syntax);
        push_entry_lines(&mut out, root, &syntax_entries);
    }
    let ghost after_syntax = lines_view(out@);
    if module.len() > 0 {
        blank_line(&mut out);
        let entries = aggregate_entries(&module);
        push_entry_lines(&mut out, root, &entries);
    }
    let ghost after_module = lines_view(out@);
    if typescript.len() > 0 {
        blank_line(&mut out);
        let entries = aggregate_entries(&typescript);
        push_entry_lines(&mut out, root, &entries);
    }
    proof {
        let api_v = d.filter(category_is(FeatureCategory::Api));
        let syn_v = d.filter(category_is(FeatureCategory::Syntax));
        assert(head =~= blank_if(lead) + seq![header_spec(runtime@, min_version(d))]);
        assert(after_api =~= head + entry_lines_spec(root@, arranged(api_v)));
        assert(after_syntax =~= after_api + (if syn_v.len() > 0 {
            blank_if(api_v.len() > 0) + entry_lines_spec(root@, arranged(syn_v))
        } else {
            Seq::empty()
        }));
        assert(after_module =~= after_syntax + spaced_spec(root@, d.filter(category_is(FeatureCategory::ModuleFormat))));
        assert(lines_view(out@) =~= after_module + spaced_spec(root@, d.filter(category_is(FeatureCategory::NativeTypeScript))));
        assert(lines_view(out@) =~= group_block_spec(root@, runtime@, d, lead));
    }
    out
}

/// The groups of one runtime's detections; whether anything was shown.
pub fn grouped_runtime(root: &str, report: &RuntimeReport, lead: bool) -> (r: (Vec<Vec<Segment>>, bool))
    requires
        total_count(detections_view(report.detections@)) <= usize::MAX,
    ensures
        lines_view(r.0@) == grouped_runtime_spec(root@, *report, lead),
        r.1 == shows_any(*report, None),
{
    let ghost ds = detections_view(report.detections@);
    let majors = distinct_majors(&report.detections);
    let mut out: Vec<Vec<Segment>> = Vec::new();
    let mut k: usize = 0;
    while k < majors.len()
        invariant
            k <= majors@.len(),
            ds == detections_view(report.detections@),
            total_count(ds) <= usize::MAX,
            majors@ == majors_spec(ds),
            lines_view(out@) == grouped_blocks(root@, report.runtime@, ds, majors@, k as int, lead),
        decreases majors@.len() - k,
    {
        let es = select_entries(&report.detections, Selection::Major(majors[k]));
        proof {
            lemma_total_filter(ds, major_is(majors@[k as int]));
        }
        let block = group_block(root, report.runtime.as_str(), &es, lead || k > 0);
        append_lines(&mut out, block);
        k = k + 1;
    }
    (out, majors.len() > 0)
}

fn inspected_block(root: &str, runtime: &str, es: &Vec<DetectedFeature>, lead: bool) -> (r: Vec<Vec<Segment>>)
    ensures
        lines_view(r@) == inspected_block_spec(root@, runtime@, detections_view(es@), lead),
{
    let mut out: Vec<Vec<Segment>> = Vec::new();
    if lead {
        blank_line(&mut out);
    }
    let sorted = sort_by_detail(es);
    push_line(&mut out, header_line(runtime, lowest_group_version(es)));
    push_entry_lines(&mut out, root, &sorted);
    assert(lines_view(out@) =~= inspected_block_spec(root@, runtime@, detections_view(es@), lead));
    out
}

/// The detections of one feature in one runtime, grouped by major
/// version; whether anything was shown.
pub fn inspected_groups(root: &str, report: &RuntimeReport, feature: &str, lead: bool) -> (r: (
    Vec<Vec<Segment>>,
    bool,
))
    ensures
        lines_view(r.0@) == inspected_spec(root@, *report, feature@, lead),
        r.1 == shows_any(*report, Some(feature@)),
{
    let matching = select_entries(&report.detections, Selection::Feature(feature));
    let ghost fs = detections_view(matching@);
    let majors = distinct_majors(&matching);
    let mut out: Vec<Vec<Segment>> = Vec::new();
    let mut k: usize = 0;
    while k < majors.len()
        invariant
            k <= majors@.len(),
            fs == detections_view(matching@),
            fs == detections_view(report.detections@).filter(feature_is(feature@)),
            majors@ == majors_spec(fs),
            lines_view(out@) == inspected_blocks(root@, report.runtime@, fs, majors@, k as int, lead),
        decreases majors@.len() - k,
    {
        let es = select_entries(&matching, Selection::Major(majors[k]));
        let block = inspected_block(root, report.runtime.as_str(), &es, lead || k > 0);
        append_lines(&mut out, block);
        k = k + 1;
    }
    (out, majors.len() > 0)
}

/// The groups of all reports, as the report prints them before the panel.
pub fn group_lines(root: &str, reports: &Vec<RuntimeReport>, inspect: &Option<String>) -> (r: Vec<Vec<Segment>>)
    requires
        counts_fit(reports@),
    ensures
        lines_view(r@) == groups_spec(
            root@,
            reports@,
            match inspect {
                Some(f) => Some(f@),
                None => None,
            },
        ),
{
    let ghost ins = match inspect {
        Some(f) => Some(f@),
        None => None::<Seq<char>>,
    };
    let mut out: Vec<Vec<Segment>> = Vec::new();
    let mut printed_any = false;
    let mut i: usize = 0;
    while i < reports.len()
        invariant
            i <= reports@.len(),
            counts_fit(reports@),
            ins == (match inspect {
                Some(f) => Some(f@),
                None => None::<Seq<char>>,
            }),
            (lines_view(out@), printed_any) == groups_fold(root@, reports@, ins, i as int),
        decreases reports@.len() - i,
    {
        let report = &reports[i];
        let (lines, printed) = match inspect {
            Some(feature) => inspected_groups(root, report, feature.as_str(), printed_any),
            None => grouped_runtime(root, report, printed_any),
        };
        append_lines(&mut out, lines);
        printed_any = printed_any || printed;
        i = i + 1;
    }
    let ghost folded = lines_view(out@);
    match inspect {
        Some(feature) => {
            if !printed_any {
                let line = vec![
                    Segment::Term(TermStyle::LightGray),
                    text_segment("No detections found for ".to_owned()),
                    Segment::Term(TermStyle::Yellow),
                    text_segment(feature.clone()),
                    Segment::Term(TermStyle::Reset),
                ];
                assert(line_view(line@) =~= seq![
                    SegmentView::Term(TermStyle::LightGray),
                    SegmentView::Text("No detections found for "@),
                    SegmentView::Term(TermStyle::Yellow),
                    SegmentView::Text(feature@),
                    SegmentView::Term(TermStyle::Reset),
                ]);
                push_line(&mut out, line);
            }
        },
        None => {},
    }
    let ghost with_missing = lines_view(out@);
    if printed_any || inspect.is_some() {
        blank_line(&mut out);
    }
    proof {
        let missing = match ins {
            Some(f) => if !printed_any {
                seq![
                    seq![
                        SegmentView::Term(TermStyle::LightGray),
                        SegmentView::Text("No detections found for "@),
                        SegmentView::Term(TermStyle::Yellow),
                        SegmentView::Text(f),
                        SegmentView::Term(TermStyle::Reset),
                    ],
                ]
            } else {
                Seq::empty()
            },
            None => Seq::empty(),
        };
        assert(with_missing =~= folded + missing);
        assert(lines_view(out@) =~= groups_spec(root@, reports@, ins));
    }
    out
}

/// What a run prints: the groups of detections (unless only the summary
/// is asked for), then the result panel.
pub open spec fn report_lines_spec(
    summary: bool,
    inspect: Option<Seq<char>>,
    parser: ParserMode,
    root: Seq<char>,
    reports: Seq<RuntimeReport>,
    nanos: nat,
    line_count: usize,
    terminal_width: usize,
    version: Seq<char>,
) -> Seq<Seq<SegmentView>> {
    (if !summary {
        groups_spec(root, reports, inspect)
    } else {
        Seq::empty()
    }) + result_panel_spec(root, parser, reports, nanos, line_count, terminal_width, version)
}

impl Reporter {
    /// The lines that the report of a run consists of, for the terminal
    /// to print: the groups of detections unless only the summary is
    /// asked for, then the result panel for a terminal `terminal_width`
    /// columns wide, after `elapsed_secs` seconds and
    /// `elapsed_subsec_nanos` nanoseconds, for version `version` of the
    /// tool.
    pub fn print(
        &self,
        root: &str,
        reports: &Vec<RuntimeReport>,
        elapsed_secs: u64,
        elapsed_subsec_nanos: u32,
        stats: ScanStats,
        terminal_width: usize,
        version: &str,
    ) -> (r: Vec<Vec<Segment>>)
        requires
            counts_fit(reports@),
            elapsed_subsec_nanos < 1_000_000_000,
            version@.len() + 100 <= usize::MAX,
        ensures
            lines_view(r@) == report_lines_spec(
                self.summary,
                match self.inspect {
                    Some(f) => Some(f@),
                    None => None,
                },
                self.parser,
                root@,
                reports@,
                (elapsed_secs * 1_000_000_000 + elapsed_subsec_nanos) as nat,
                stats.line_count,
                terminal_width,
                version@,
            ),
    {
        let mut out: Vec<Vec<Segment>> = Vec::new();
        if !self.summary {
            out = group_lines(root, reports, &self.inspect);
        }
        let panel = result_panel(
            root,
            self.parser,
            reports,
            elapsed_secs,
            elapsed_subsec_nanos,
            stats.line_count,
            terminal_width,
            version,
        );
        let ghost before = lines_view(out@);
        append_lines(&mut out, panel);
        proof {
            if self.summary {
                assert(before =~= Seq::<Seq<SegmentView>>::empty());
            }
        }
        out
    }
}
} // verus!
