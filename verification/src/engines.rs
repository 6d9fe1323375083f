//! The `engines.node` field of `package.json`: whether the declared range
//! admits the detected minimum, how serious a mismatch is, and what a fix
//! writes.

use vstd::prelude::*;
use crate::number::{all_digits, decimal, digits_value, lemma_decimal_digits, parse_u64};
use crate::text::{chars_of, is_ascii_digit, ascii_digit, push_text};
use crate::version::{RuntimeVersion, parse_version_spec, version_lt, version_text, zero_version};

verus! {

// ---------------------------------------------------------------------
// node_semver
// ---------------------------------------------------------------------

#[verifier::external_type_specification]
#[verifier::external_body]
pub struct ExSemverRange(node_semver::Range);

#[verifier::external_type_specification]
#[verifier::external_body]
pub struct ExSemverVersion(node_semver::Version);

#[verifier::external_type_specification]
#[verifier::external_body]
pub struct ExSemverError(node_semver::SemverError);

/// Whether `node_semver::Range::parse` accepts the text as an npm range.
pub uninterp spec fn semver_range_parses(range: Seq<char>) -> bool;

/// Whether `node_semver::Version::parse` accepts the text as a version.
pub uninterp spec fn semver_version_parses(version: Seq<char>) -> bool;

/// Whether the npm range read from `range` admits the version read from
/// `version`, as `node_semver::Range::satisfies` decides.
pub uninterp spec fn semver_satisfies(range: Seq<char>, version: Seq<char>) -> bool;

/// An npm range together with the text it was read from.
pub struct SemverRange {
    source: String,
    range: node_semver::Range,
}

/// A semantic version together with the text it was read from.
pub struct SemverVersion {
    source: String,
    version: node_semver::Version,
}

impl SemverRange {
    /// The text the range was read from.
    pub closed spec fn source_text(&self) -> Seq<char> {
        self.source@
    }
}

impl SemverVersion {
    /// The text the version was read from.
    pub closed spec fn source_text(&self) -> Seq<char> {
        self.version_source()
    }

    closed spec fn version_source(&self) -> Seq<char> {
        self.source@
    }
}

/// The largest integer component that node_semver reads (its
/// `MAX_SAFE_INTEGER` constant, as the crate spells it).
pub const SEMVER_MAX_COMPONENT: u64 = 900_719_925_474_099;

/// A version whose components node_semver reads: none above
/// `SEMVER_MAX_COMPONENT`.
pub open spec fn semver_readable(v: RuntimeVersion) -> bool {
    v.major <= SEMVER_MAX_COMPONENT && v.minor <= SEMVER_MAX_COMPONENT && v.patch <= SEMVER_MAX_COMPONENT
}

/// A space or a tab (nom's `space0` and `space1` read these).
pub open spec fn is_blank(c: char) -> bool {
    c == ' ' || c == '\t'
}

/// `x`, `X` or `*`: a wildcard version part.
pub open spec fn is_wild(c: char) -> bool {
    c == 'x' || c == 'X' || c == '*'
}

/// The position after the spaces and tabs at `i`.
pub open spec fn skip_blanks(s: Seq<char>, i: int) -> int
    decreases s.len() - i,
{
    if 0 <= i < s.len() && is_blank(s[i]) {
        skip_blanks(s, i + 1)
    } else {
        i
    }
}

/// The end of the run of ASCII digits at `i`.
pub open spec fn digits_end(s: Seq<char>, i: int) -> int
    decreases s.len() - i,
{
    if 0 <= i < s.len() && is_ascii_digit(s[i]) {
        digits_end(s, i + 1)
    } else {
        i
    }
}

/// Whether a number part that node_semver reads starts at `i`: one or
/// more digits whose value is at most `SEMVER_MAX_COMPONENT`.
pub open spec fn number_at(s: Seq<char>, i: int) -> bool {
    let e = digits_end(s, i);
    e > i && digits_value(s.subrange(i, e)) <= SEMVER_MAX_COMPONENT
}

/// Whether a wildcard version starts at `i`: blanks, an optional `v`,
/// blanks, then `x`, `X` or `*` as the major part.
pub open spec fn wildcard_at(s: Seq<char>, i: int) -> bool {
    let j = skip_blanks(s, i);
    let k = if 0 <= j < s.len() && s[j] == 'v' {
        skip_blanks(s, j + 1)
    } else {
        j
    };
    0 <= k < s.len() && is_wild(s[k])
}

/// Whether the version after a `~` at `i` (blanks, an optional `>`,
/// blanks, an optional `v`, blanks) has a shape that node_semver's `tilde`
/// rule has no case for (range.rs:904-982): a wildcard major part, or a
/// numeric major part, a wildcard minor part and a numeric patch part.
pub open spec fn tilde_unhandled(s: Seq<char>, i: int) -> bool {
    let j = skip_blanks(s, i);
    let j2 = if 0 <= j < s.len() && s[j] == '>' {
        j + 1
    } else {
        j
    };
    let k = skip_blanks(s, j2);
    let k2 = if 0 <= k < s.len() && s[k] == 'v' {
        k + 1
    } else {
        k
    };
    let m = skip_blanks(s, k2);
    if 0 <= m < s.len() && is_wild(s[m]) {
        true
    } else if number_at(s, m) {
        let e = digits_end(s, m);
        &&& e + 2 < s.len()
        &&& s[e] == '.'
        &&& is_wild(s[e + 1])
        &&& s[e + 2] == '.'
        &&& number_at(s, e + 3)
    } else {
        false
    }
}

/// Whether the comparator that starts at `p` reaches a case that
/// node_semver's grammar does not handle: `=` before a wildcard version
/// (the `primitive` rule, range.rs:659-783), or `~` before a version that
/// `tilde_unhandled` describes.
pub open spec fn comparator_unhandled(s: Seq<char>, p: int) -> bool {
    ||| (s[p] == '=' && wildcard_at(s, p + 1))
    ||| (s[p] == '~' && tilde_unhandled(s, p + 1))
}

/// Whether a comparator that node_semver reaches from `p` on is unhandled.
/// The grammar reads the text as comparators separated by blanks and by
/// `||` (range.rs:593-657); `between` says whether `p` follows such a
/// separator (or is the start), so that a comparator starts there.
pub open spec fn unhandled_from(s: Seq<char>, p: int, between: bool) -> bool
    decreases s.len() - p,
{
    if p < 0 || p >= s.len() {
        false
    } else if is_blank(s[p]) {
        unhandled_from(s, p + 1, true)
    } else if p + 1 < s.len() && s[p] == '|' && s[p + 1] == '|' {
        unhandled_from(s, p + 2, true)
    } else {
        (between && comparator_unhandled(s, p)) || unhandled_from(s, p + 1, false)
    }
}

/// The range texts on which node_semver's `Range::parse` panics: those
/// where some comparator reaches one of its `unreachable!` cases.
pub open spec fn range_text_unhandled(s: Seq<char>) -> bool {
    unhandled_from(s, 0, true)
}

fn blanks_end(s: &Vec<char>, i: usize) -> (r: usize)
    requires
        i <= s@.len(),
    ensures
        r == skip_blanks(s@, i as int),
        i <= r <= s@.len(),
{
    let mut j = i;
    while j < s.len() && (s[j] == ' ' || s[j] == '\t')
        invariant
            i <= j <= s@.len(),
            skip_blanks(s@, i as int) == skip_blanks(s@, j as int),
        decreases s@.len() - j,
    {
        j = j + 1;
    }
    j
}

fn digits_from(s: &Vec<char>, i: usize) -> (r: usize)
    requires
        i <= s@.len(),
    ensures
        r == digits_end(s@, i as int),
        i <= r <= s@.len(),
        all_digits(s@.subrange(i as int, r as int)),
{
    let mut j = i;
    while j < s.len() && ascii_digit(s[j])
        invariant
            i <= j <= s@.len(),
            digits_end(s@, i as int) == digits_end(s@, j as int),
            all_digits(s@.subrange(i as int, j as int)),
        decreases s@.len() - j,
    {
        j = j + 1;
        assert(all_digits(s@.subrange(i as int, j as int))) by {
            let t = s@.subrange(i as int, j as int);
            assert forall|k: int| 0 <= k < t.len() implies is_ascii_digit(#[trigger] t[k]) by {
                assert(t[k] == s@[i + k]);
                if k < t.len() - 1 {
                    assert(s@.subrange(i as int, j - 1)[k] == s@[i + k]);
                }
            }
        }
    }
    j
}

fn number_from(s: &Vec<char>, i: usize) -> (r: bool)
    requires
        i <= s@.len(),
    ensures
        r == number_at(s@, i as int),
{
    let e = digits_from(s, i);
    if e == i {
        return false;
    }
    let part = &s.as_slice()[i..e];
    assert(part@ == s@.subrange(i as int, e as int));
    assert(part@[0] != '+');
    match parse_u64(part) {
        Some(n) => n <= SEMVER_MAX_COMPONENT,
        None => false,
    }
}

fn wildcard_from(s: &Vec<char>, i: usize) -> (r: bool)
    requires
        i <= s@.len(),
    ensures
        r == wildcard_at(s@, i as int),
{
    let j = blanks_end(s, i);
    let k = if j < s.len() && s[j] == 'v' {
        blanks_end(s, j + 1)
    } else {
        j
    };
    k < s.len() && (s[k] == 'x' || s[k] == 'X' || s[k] == '*')
}

fn tilde_unhandled_from(s: &Vec<char>, i: usize) -> (r: bool)
    requires
        i <= s@.len(),
    ensures
        r == tilde_unhandled(s@, i as int),
{
    let j = blanks_end(s, i);
    let j2 = if j < s.len() && s[j] == '>' {
        j + 1
    } else {
        j
    };
    let k = blanks_end(s, j2);
    let k2 = if k < s.len() && s[k] == 'v' {
        k + 1
    } else {
        k
    };
    let m = blanks_end(s, k2);
    if m < s.len() && (s[m] == 'x' || s[m] == 'X' || s[m] == '*') {
        return true;
    }
    if !number_from(s, m) {
        return false;
    }
    let e = digits_from(s, m);
    e < s.len() && s.len() - e > 2 && s[e] == '.' && (s[e + 1] == 'x' || s[e + 1] == 'X' || s[e + 1] == '*') && s[e + 2] == '.'
        && number_from(s, e + 3)
}

/// Whether node_semver's `Range::parse` would panic on `range`.
pub fn is_unhandled_range(range: &str) -> (r: bool)
    ensures
        r == range_text_unhandled(range@),
{
    let s = chars_of(range);
    let mut p: usize = 0;
    let mut between = true;
    while p < s.len()
        invariant
            p <= s@.len(),
            s@ == range@,
            unhandled_from(s@, 0, true) == unhandled_from(s@, p as int, between),
        decreases s@.len() - p,
    {
        if s[p] == ' ' || s[p] == '\t' {
            between = true;
            p = p + 1;
        } else if p + 1 < s.len() && s[p] == '|' && s[p + 1] == '|' {
            between = true;
            p = p + 2;
        } else {
            if between {
                let here = if s[p] == '=' {
                    wildcard_from(&s, p + 1)
                } else if s[p] == '~' {
                    tilde_unhandled_from(&s, p + 1)
                } else {
                    false
                };
                if here {
                    return true;
                }
            }
            between = false;
            p = p + 1;
        }
    }
    false
}

/// The text of a version has only digits and dots.
proof fn lemma_version_text_chars(v: RuntimeVersion)
    ensures
        forall|k: int|
            0 <= k < version_text(v).len() ==> is_ascii_digit(#[trigger] version_text(v)[k])
                || version_text(v)[k] == '.',
{
    lemma_decimal_digits(v.major as nat);
    lemma_decimal_digits(v.minor as nat);
    lemma_decimal_digits(v.patch as nat);
    let a = decimal(v.major as nat);
    let b = decimal(v.minor as nat);
    let c = decimal(v.patch as nat);
    let t = version_text(v);
    assert forall|k: int| 0 <= k < t.len() implies is_ascii_digit(#[trigger] t[k]) || t[k] == '.' by {
        if k < a.len() {
            assert(t[k] == a[k]);
        } else if k == a.len() {
        } else if k < a.len() + 1 + b.len() {
            assert(t[k] == b[k - a.len() - 1]);
        } else if k == a.len() + 1 + b.len() {
        } else {
            assert(t[k] == c[k - a.len() - 2 - b.len()]);
        }
    }
}

/// Inside a comparator of digits, dots and comparison signs, no further
/// comparator starts.
proof fn lemma_no_comparator_from(s: Seq<char>, p: int)
    requires
        0 <= p,
        forall|k: int| p <= k < s.len() ==> !is_blank(#[trigger] s[k]) && s[k] != '|',
    ensures
        !unhandled_from(s, p, false),
    decreases s.len() - p,
{
    if p < s.len() {
        lemma_no_comparator_from(s, p + 1);
    }
}

/// The range that a fix writes is one that node_semver handles.
proof fn lemma_fix_value_handled(v: RuntimeVersion)
    ensures
        !range_text_unhandled(fix_value(v)),
{
    lemma_version_text_chars(v);
    let s = fix_value(v);
    assert forall|k: int| 1 <= k < s.len() implies !is_blank(#[trigger] s[k]) && s[k] != '|' by {
        if k >= 2 {
            assert(s[k] == version_text(v)[k - 2]);
        }
    }
    lemma_no_comparator_from(s, 1);
    assert(s[0] == '>');
}

/// Calls `node_semver::Range::parse` on `text`, which the `requires` keeps
/// from the comparators that reach its `unreachable!` cases (range.rs:782
/// in `primitive`, range.rs:982 in `tilde`). Claimed: it succeeds exactly
/// when the text is a range that the crate accepts (a name, not restated
/// here), the range kept is the one read from `text`, and a range
/// `>=major.minor.patch` with readable components is accepted (the
/// `primitive` rule of the crate's grammar, with the `>=` operation).
#[verifier::external_body]
fn parse_semver_range(text: &str) -> (r: Result<SemverRange, node_semver::SemverError>)
    requires
        !range_text_unhandled(text@),
    ensures
        r is Ok == semver_range_parses(text@),
        r matches Ok(range) ==> range.source_text() == text@,
        forall|v: RuntimeVersion| #[trigger] fix_value(v) == text@ && semver_readable(v) ==> r is Ok,
{
    match node_semver::Range::parse(text) {
        Ok(range) => Ok(SemverRange { source: text.to_string(), range }),
        Err(error) => Err(error),
    }
}

/// Calls `node_semver::Version::parse` on `text`. Claimed: it succeeds
/// exactly when the crate accepts the text as a version (a name), the
/// version kept is the one read from `text`, and a plain
/// `major.minor.patch` with readable components is accepted (the crate's
/// `version_core` rule; such a text is far below its length limit).
#[verifier::external_body]
fn parse_semver_version(text: &str) -> (r: Result<SemverVersion, node_semver::SemverError>)
    ensures
        r is Ok == semver_version_parses(text@),
        r matches Ok(version) ==> version.source_text() == text@,
        forall|v: RuntimeVersion| #[trigger] version_text(v) == text@ && semver_readable(v) ==> r is Ok,
{
    match node_semver::Version::parse(text) {
        Ok(version) => Ok(SemverVersion { source: text.to_string(), version }),
        Err(error) => Err(error),
    }
}

/// Calls `node_semver::Range::satisfies`. Claimed: the answer is the named
/// relation between the two texts the arguments were read from, and the
/// range `>=V` admits `V` itself (its lower bound includes `V`, it has no
/// upper bound, and `V` is no prerelease).
#[verifier::external_body]
fn semver_range_satisfies(range: &SemverRange, version: &SemverVersion) -> (b: bool)
    ensures
        b == semver_satisfies(range.source_text(), version.source_text()),
        forall|v: RuntimeVersion|
            #[trigger] fix_value(v) == range.source_text() && version.source_text() == version_text(v)
                && semver_readable(v) ==> b,
{
    range.range.satisfies(&version.version)
}

/// Whether the npm range `range` admits `required`; a range that the
/// parser does not handle admits nothing.
pub open spec fn range_allows_spec(range: Seq<char>, required: RuntimeVersion) -> bool {
    !range_text_unhandled(range) && semver_range_parses(range) && semver_version_parses(version_text(required))
        && semver_satisfies(range, version_text(required))
}

/// Whether the npm range `range` admits the version `required`; a range or
/// version that does not parse admits nothing, and neither does a range
/// on which the parser would panic (such as `=*` or `~1.x.3`). The range
/// that a fix writes for a version admits that version.
pub fn range_allows_required(range: &str, required: RuntimeVersion) -> (r: bool)
    ensures
        r == range_allows_spec(range@, required),
        range@ == fix_value(required) && semver_readable(required) ==> r,
{
    proof {
        lemma_fix_value_handled(required);
    }
    if is_unhandled_range(range) {
        return false;
    }
    let parsed_range = match parse_semver_range(range) {
        Ok(parsed) => parsed,
        Err(_) => return false,
    };
    let text = required.to_string();
    let parsed_version = match parse_semver_version(text.as_str()) {
        Ok(parsed) => parsed,
        Err(_) => return false,
    };
    semver_range_satisfies(&parsed_range, &parsed_version)
}

// ---------------------------------------------------------------------
// The lower bound a range declares
// ---------------------------------------------------------------------

/// The position of the first ASCII digit at or after `i`, or `s.len()`.
pub open spec fn first_digit_from(s: Seq<char>, i: int) -> int
    decreases s.len() - i,
{
    if i >= s.len() {
        s.len() as int
    } else if is_ascii_digit(s[i]) {
        i
    } else {
        first_digit_from(s, i + 1)
    }
}

/// The end of the run of digits and dots that starts at `i`.
pub open spec fn version_run_end(s: Seq<char>, i: int) -> int
    decreases s.len() - i,
{
    if i >= s.len() {
        s.len() as int
    } else if is_ascii_digit(s[i]) || s[i] == '.' {
        version_run_end(s, i + 1)
    } else {
        i
    }
}

/// The version that a range names first: the run of digits and dots from
/// its first digit, read as a version.
pub open spec fn lower_bound_spec(range: Seq<char>) -> Option<RuntimeVersion> {
    let start = first_digit_from(range, 0);
    if start >= range.len() {
        None
    } else {
        match parse_version_spec(range.subrange(start, version_run_end(range, start))) {
            Ok(v) => Some(v),
            Err(_) => None,
        }
    }
}

proof fn lemma_first_digit_from(s: Seq<char>, i: int, j: int)
    requires
        0 <= i <= j <= s.len(),
        forall|k: int| i <= k < j ==> !is_ascii_digit(#[trigger] s[k]),
    ensures
        first_digit_from(s, i) == first_digit_from(s, j),
    decreases j - i,
{
    if i < j {
        lemma_first_digit_from(s, i + 1, j);
    }
}

proof fn lemma_version_run_end(s: Seq<char>, i: int, j: int)
    requires
        0 <= i <= j <= s.len(),
        forall|k: int| i <= k < j ==> is_ascii_digit(#[trigger] s[k]) || s[k] == '.',
    ensures
        version_run_end(s, i) == version_run_end(s, j),
    decreases j - i,
{
    if i < j {
        lemma_version_run_end(s, i + 1, j);
    }
}

/// The version that `range` names first, if it reads as one: `^24.13.1`
/// gives `24.13.1`, `>=22` gives `22.0.0`.
pub fn declared_lower_bound(range: &str) -> (r: Option<RuntimeVersion>)
    ensures
        r == lower_bound_spec(range@),
{
    let s = chars_of(range);
    let mut start: usize = 0;
    while start < s.len() && !ascii_digit(s[start])
        invariant
            start <= s.len(),
            forall|k: int| 0 <= k < start ==> !is_ascii_digit(#[trigger] s@[k]),
        decreases s.len() - start,
    {
        start = start + 1;
    }
    proof {
        lemma_first_digit_from(s@, 0, start as int);
    }
    if start >= s.len() {
        return None;
    }
    let mut end: usize = start;
    let mut run: Vec<char> = Vec::new();
    while end < s.len() && (ascii_digit(s[end]) || s[end] == '.')
        invariant
            start <= end <= s.len(),
            forall|k: int| start <= k < end ==> is_ascii_digit(#[trigger] s@[k]) || s@[k] == '.',
            run@ == s@.subrange(start as int, end as int),
        decreases s.len() - end,
    {
        run.push(s[end]);
        end = end + 1;
        assert(run@ =~= s@.subrange(start as int, end as int));
    }
    proof {
        lemma_version_run_end(s@, start as int, end as int);
    }
    match RuntimeVersion::parse_chars(run.as_slice()) {
        Ok(v) => Some(v),
        Err(_) => None,
    }
}

/// How serious a mismatch between `engines.node` and the detected minimum is.
#[derive(Debug, Clone, Copy, PartialEq, Eq, Structural)]
pub enum EnginesSeverity {
    /// The declared range is stricter than needed.
    Info,
    /// The declared range admits versions that lack detected features.
    Warning,
}

/// `Info` exactly when the range's first version is above `required`.
pub open spec fn severity_spec(range: Seq<char>, required: RuntimeVersion) -> EnginesSeverity {
    match lower_bound_spec(range) {
        Some(declared) => if version_lt(required, declared) {
            EnginesSeverity::Info
        } else {
            EnginesSeverity::Warning
        },
        None => EnginesSeverity::Warning,
    }
}

/// A range counts as merely stricter (`Info`) exactly when the version it
/// names first comes strictly after `required`: a later major version, or
/// the same major and a later minor, or the same major and minor and a
/// later patch. A bound with the same major and a lower minor or patch is
/// too low (`Warning`).
pub proof fn lemma_severity_info_exactly_above(range: Seq<char>, required: RuntimeVersion)
    ensures
        severity_spec(range, required) == EnginesSeverity::Info <==> (lower_bound_spec(range) matches Some(d) && {
            ||| d.major > required.major
            ||| (d.major == required.major && d.minor > required.minor)
            ||| (d.major == required.major && d.minor == required.minor && d.patch > required.patch)
        }),
{
}

/// Classifies a range that does not admit `required`: a range that starts
/// above it is merely stricter (`Info`), any other is a `Warning`.
pub fn engines_severity(range: &str, required: RuntimeVersion) -> (r: EnginesSeverity)
    ensures
        r == severity_spec(range@, required),
{
    match declared_lower_bound(range) {
        Some(declared) => if required.less_than(&declared) {
            EnginesSeverity::Info
        } else {
            EnginesSeverity::Warning
        },
        None => EnginesSeverity::Warning,
    }
}

// ---------------------------------------------------------------------
// Checking and fixing package.json
// ---------------------------------------------------------------------

/// What `package.json` holds under `engines`, as far as the check reads it.
#[derive(Debug, Clone)]
pub enum EnginesEntry {
    /// No `engines` key (or a root that is not an object).
    Absent,
    /// `engines` is there but is not an object.
    NotObject,
    /// `engines` is an object; `node` is its `node` value when that is a
    /// string.
    Object { node: Option<String> },
}

/// The parts of a parsed `package.json` that the engines check reads.
#[derive(Debug, Clone)]
pub struct PackageManifest {
    /// Whether the document's root is a JSON object.
    pub root_is_object: bool,
    pub engines: EnginesEntry,
}

/// A mismatch between `engines.node` and the detected minimum.
#[derive(Debug, Clone)]
pub struct EnginesReport {
    pub package_json: String,
    pub declared: Option<String>,
    pub required: RuntimeVersion,
    pub fixed: bool,
    pub severity: EnginesSeverity,
}

/// Why `package.json` could not be checked or `engines.node` written.
#[derive(Debug, Clone, Copy, PartialEq, Eq, Structural)]
pub enum EnginesError {
    /// The root of `package.json` is not an object.
    RootNotObject,
    /// `engines` is not an object.
    EnginesNotObject,
    /// The text of `package.json` is not JSON.
    InvalidJson,
}

/// The outcome of the check: the report, if there is anything to say, and
/// the new value for `engines.node` when the file is to be fixed.
#[derive(Debug, Clone)]
pub struct EnginesCheck {
    pub report: Option<EnginesReport>,
    pub new_engines_node: Option<String>,
}

/// What `engines` holds, as plain values.
pub enum EnginesView {
    Absent,
    NotObject,
    Object(Option<Seq<char>>),
}

/// What the check reads of `package.json`, as plain values.
pub struct ManifestView {
    pub root_is_object: bool,
    pub engines: EnginesView,
}

pub open spec fn manifest_view(m: PackageManifest) -> ManifestView {
    ManifestView {
        root_is_object: m.root_is_object,
        engines: match m.engines {
            EnginesEntry::Absent => EnginesView::Absent,
            EnginesEntry::NotObject => EnginesView::NotObject,
            EnginesEntry::Object { node } => EnginesView::Object(
                match node {
                    Some(n) => Some(n@),
                    None => None,
                },
            ),
        },
    }
}

/// The declared `engines.node` string, if there is one.
pub open spec fn declared_spec(manifest: ManifestView) -> Option<Seq<char>> {
    if manifest.root_is_object {
        match manifest.engines {
            EnginesView::Object(Some(node)) => Some(node),
            _ => None,
        }
    } else {
        None
    }
}

/// Whether the detected minimum calls for a change of `engines.node`.
pub open spec fn needs_fix_spec(manifest: ManifestView, required: RuntimeVersion) -> bool {
    required != zero_version() && !(match declared_spec(manifest) {
        Some(range) => range_allows_spec(range, required),
        None => false,
    })
}

/// How serious the mismatch is: a missing `engines.node` is a `Warning`.
pub open spec fn mismatch_severity(manifest: ManifestView, required: RuntimeVersion) -> EnginesSeverity {
    match declared_spec(manifest) {
        Some(range) => severity_spec(range, required),
        None => EnginesSeverity::Warning,
    }
}

/// Whether a fix rewrites `engines.node`: only when it is missing or too
/// low, not when the declared range is merely stricter.
pub open spec fn rewrites_spec(manifest: ManifestView, required: RuntimeVersion) -> bool {
    needs_fix_spec(manifest, required) && mismatch_severity(manifest, required) == EnginesSeverity::Warning
}

/// The value that a fix writes to `engines.node`.
pub open spec fn fix_value(required: RuntimeVersion) -> Seq<char> {
    seq!['>', '='] + version_text(required)
}

/// The report that the check makes of a mismatch.
pub open spec fn report_matches(
    report: EnginesReport,
    manifest: ManifestView,
    package_json: Seq<char>,
    required: RuntimeVersion,
    fixed: bool,
) -> bool {
    &&& report.package_json@ == package_json
    &&& report.required == required
    &&& report.fixed == fixed
    &&& report.severity == mismatch_severity(manifest, required)
    &&& match declared_spec(manifest) {
        Some(range) => report.declared matches Some(d) && d@ == range,
        None => report.declared is None,
    }
}

/// What a check gives, as the report and what is written: nothing when
/// no fix is needed; a report alone when nothing is written; with `fix`
/// and a missing or too low range, `written`, which needs an object root
/// and an object (or absent) `engines`.
pub open spec fn outcome_spec(
    manifest: ManifestView,
    package_json: Seq<char>,
    required: RuntimeVersion,
    fix: bool,
    written: Seq<char>,
    r: Result<(Option<EnginesReport>, Option<Seq<char>>), EnginesError>,
) -> bool {
    if !needs_fix_spec(manifest, required) {
        r == Ok::<(Option<EnginesReport>, Option<Seq<char>>), EnginesError>((None, None))
    } else if !(fix && rewrites_spec(manifest, required)) {
        &&& r matches Ok((Some(report), None))
        &&& report_matches(report, manifest, package_json, required, false)
    } else if !manifest.root_is_object {
        r == Err::<(Option<EnginesReport>, Option<Seq<char>>), EnginesError>(EnginesError::RootNotObject)
    } else if manifest.engines is NotObject {
        r == Err::<(Option<EnginesReport>, Option<Seq<char>>), EnginesError>(EnginesError::EnginesNotObject)
    } else {
        &&& r matches Ok((Some(report), Some(value)))
        &&& report_matches(report, manifest, package_json, required, true)
        &&& value == written
    }
}

/// The outcome of `check_engines`, with the new value by its characters.
pub open spec fn check_outcome(r: Result<EnginesCheck, EnginesError>) -> Result<
    (Option<EnginesReport>, Option<Seq<char>>),
    EnginesError,
> {
    match r {
        Ok(check) => Ok(
            (
                check.report,
                match check.new_engines_node {
                    Some(v) => Some(v@),
                    None => None,
                },
            ),
        ),
        Err(e) => Err(e),
    }
}

/// Checks `engines.node` against the detected minimum `required`.
///
/// Nothing is reported when `required` is `0.0.0` or the declared range
/// admits it, as a range that a fix wrote for `required` does. Otherwise
/// the mismatch is reported; with `fix`, a missing or too low range is to
/// be replaced by `>=required`, while a merely stricter one stays.
pub fn check_engines(
    manifest: &PackageManifest,
    package_json: &str,
    required: RuntimeVersion,
    fix: bool,
) -> (r: Result<EnginesCheck, EnginesError>)
    ensures
        outcome_spec(manifest_view(*manifest), package_json@, required, fix, fix_value(required), check_outcome(r)),
        declared_spec(manifest_view(*manifest)) == Some(fix_value(required)) && semver_readable(required) ==> (r matches Ok(
            check,
        ) && check.report is None && check.new_engines_node is None),
{
    let declared: Option<String> = if manifest.root_is_object {
        match &manifest.engines {
            EnginesEntry::Object { node: Some(node) } => Some(node.clone()),
            _ => None,
        }
    } else {
        None
    };
    let compatible = match &declared {
        Some(range) => range_allows_required(range.as_str(), required),
        None => false,
    };
    let severity = match &declared {
        Some(range) => engines_severity(range.as_str(), required),
        None => EnginesSeverity::Warning,
    };
    let needs_fix = !required.is_zero() && !compatible;
    if !needs_fix {
        return Ok(EnginesCheck { report: None, new_engines_node: None });
    }
    let rewrites = match severity {
        EnginesSeverity::Warning => true,
        EnginesSeverity::Info => false,
    };
    let mut new_engines_node: Option<String> = None;
    let mut fixed = false;
    if fix && rewrites {
        if !manifest.root_is_object {
            return Err(EnginesError::RootNotObject);
        }
        if let EnginesEntry::NotObject = &manifest.engines {
            return Err(EnginesError::EnginesNotObject);
        }
        let mut value = String::new();
        push_text(&mut value, ">=");
        let text = required.to_string();
        push_text(&mut value, text.as_str());
        proof {
            reveal_strlit(">=");
            assert(value@ =~= fix_value(required));
        }
        new_engines_node = Some(value);
        fixed = true;
    }
    let report = EnginesReport {
        package_json: package_json.to_owned(),
        declared,
        required,
        fixed,
        severity,
    };
    Ok(EnginesCheck { report: Some(report), new_engines_node })
}

// ---------------------------------------------------------------------
// The text of package.json (serde_json)
// ---------------------------------------------------------------------

/// What `serde_json::from_str` reads from a JSON document `text`: whether
/// its root is an object, and what its member `outer` holds, with that
/// member's own member `inner` when that is a string; nothing when the
/// text is not JSON.
pub uninterp spec fn manifest_of(text: Seq<char>, outer: Seq<char>, inner: Seq<char>) -> Option<ManifestView>;

/// The JSON document `text` with member `inner` of member `outer` set to
/// the string `value`, as `serde_json::to_string_pretty` writes the
/// document, with a line break at the end.
pub uninterp spec fn nested_member_set(text: Seq<char>, outer: Seq<char>, inner: Seq<char>, value: Seq<char>) -> Seq<
    char,
>;

/// Calls `serde_json::from_str` on `text` and reads the root's member
/// `outer` and that member's member `inner` (`Value::get`,
/// `Value::as_str`). Claimed: the result is the named reading of the
/// text, `None` exactly when the text is not JSON.
#[verifier::external_body]
fn parse_package_manifest(text: &str, outer: &str, inner: &str) -> (r: Option<PackageManifest>)
    ensures
        match r {
            Some(m) => manifest_of(text@, outer@, inner@) == Some(manifest_view(m)),
            None => manifest_of(text@, outer@, inner@) is None,
        },
{
    let json: serde_json::Value = serde_json::from_str(text).ok()?;
    let engines = match json.get(outer) {
        None => EnginesEntry::Absent,
        Some(serde_json::Value::Object(e)) => EnginesEntry::Object {
            node: e.get(inner).and_then(serde_json::Value::as_str).map(str::to_owned),
        },
        Some(_) => EnginesEntry::NotObject,
    };
    Some(PackageManifest { root_is_object: json.is_object(), engines })
}

/// Calls `serde_json::from_str` on `text`, sets member `inner` of member
/// `outer` to the string `value` (`Map::entry` with `or_insert_with`,
/// `Map::insert`) and writes the document with
/// `serde_json::to_string_pretty` and a final line break. Claimed: the
/// result is the named text; it is there whenever the text is JSON with
/// an object root and an object or absent member `outer` (a `Value` always
/// serializes); and reading it back gives an object root whose member
/// `outer` holds `inner` with the string `value`.
#[verifier::external_body]
fn set_nested_member(text: &str, outer: &str, inner: &str, value: &str) -> (r: Option<String>)
    ensures
        r matches Some(t) ==> t@ == nested_member_set(text@, outer@, inner@, value@),
        (manifest_of(text@, outer@, inner@) matches Some(m) && m.root_is_object && !(m.engines is NotObject))
            ==> r is Some,
        r matches Some(t) ==> manifest_of(t@, outer@, inner@) matches Some(m) && declared_spec(m) == Some(
            value@,
        ),
{
    let mut json: serde_json::Value = serde_json::from_str(text).ok()?;
    let member = json.as_object_mut()?.entry(outer).or_insert_with(|| serde_json::Value::Object(Default::default()));
    member.as_object_mut()?.insert(inner.to_owned(), serde_json::Value::String(value.to_owned()));
    let pretty = serde_json::to_string_pretty(&json).ok()?;
    Some(format!("{pretty}\n"))
}

/// What the check reads of the text of a `package.json`: its `engines`
/// member and that member's `node` string.
pub open spec fn package_manifest_of(text: Seq<char>) -> Option<ManifestView> {
    manifest_of(text, "engines"@, "node"@)
}

/// The text of a `package.json` with `engines.node` set to `node`.
pub open spec fn engines_node_set(text: Seq<char>, node: Seq<char>) -> Seq<char> {
    nested_member_set(text, "engines"@, "node"@, node)
}

/// The outcome of checking the text of a `package.json`, with the new
/// text in place of the new value.
pub open spec fn text_outcome(r: Result<(Option<EnginesReport>, Option<String>), EnginesError>) -> Result<
    (Option<EnginesReport>, Option<Seq<char>>),
    EnginesError,
> {
    match r {
        Ok((report, text)) => Ok(
            (
                report,
                match text {
                    Some(t) => Some(t@),
                    None => None,
                },
            ),
        ),
        Err(e) => Err(e),
    }
}

/// Checks the text of the `package.json` at `package_json` against the
/// detected minimum `required`: text that is not JSON is an error;
/// otherwise the check of `check_engines`, with the whole new text of the
/// file in place of the new `engines.node` value. Read again, a new text
/// declares exactly `>=required`.
pub fn check_package_text(
    text: &str,
    package_json: &str,
    required: RuntimeVersion,
    fix: bool,
) -> (r: Result<(Option<EnginesReport>, Option<String>), EnginesError>)
    ensures
        package_manifest_of(text@) is None ==> r == Err::<(Option<EnginesReport>, Option<String>), EnginesError>(
            EnginesError::InvalidJson,
        ),
        package_manifest_of(text@) matches Some(m) ==> outcome_spec(
            m,
            package_json@,
            required,
            fix,
            engines_node_set(text@, fix_value(required)),
            text_outcome(r),
        ),
        r matches Ok((_, Some(t))) ==> package_manifest_of(t@) matches Some(m) && declared_spec(m) == Some(
            fix_value(required),
        ),
{
    let manifest = match parse_package_manifest(text, "engines", "node") {
        Some(m) => m,
        None => return Err(EnginesError::InvalidJson),
    };
    let check = match check_engines(&manifest, package_json, required, fix) {
        Ok(c) => c,
        Err(e) => return Err(e),
    };
    let EnginesCheck { report, new_engines_node } = check;
    match new_engines_node {
        Some(value) => match set_nested_member(text, "engines", "node", value.as_str()) {
            Some(t) => Ok((report, Some(t))),
            None => Err(EnginesError::InvalidJson),
        },
        None => Ok((report, None)),
    }
}

} // verus!
