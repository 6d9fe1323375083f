//! Runtime data from MDN browser-compat-data (BCD): which BCD entries are
//! runtime features, from which version, how a scan finds them, and the
//! RON file that records them.

use vstd::prelude::*;
use crate::analysis::{join_from, join_parts, join_spec, strings_view};
use crate::number::{all_digits, decimal, parse_u64, parse_u64_spec, push_decimal};
use crate::order::{chars_lt, lemma_chars_lt_irreflexive, lemma_chars_lt_total, lemma_chars_lt_transitive, lemma_insert_sorted, lemma_sorted_unique, sorted_by, str_lt, strict_order};
use crate::text::{chars_of, is_ascii_alnum, is_ascii_alpha, is_ascii_digit, is_ascii_upper, is_prefix, push_char, push_text, split_chars, split_on, str_eq, trim, trim_chars};

verus! {

// ---------------------------------------------------------------------
// Runtimes
// ---------------------------------------------------------------------

/// A runtime as BCD names it, and the name of its data file.
#[derive(Debug, Clone, Copy)]
pub struct RuntimeTarget {
    pub bcd_id: &'static str,
    pub runtime_name: &'static str,
}

/// A BCD runtime id that has no data file.
#[derive(Debug, Clone, Copy, PartialEq, Eq, Structural)]
pub enum BcdError {
    UnsupportedRuntime,
}

/// The BCD id and data file name of a requested runtime; `node` is also
/// accepted for `nodejs`.
pub open spec fn target_spec(id: Seq<char>) -> Option<(Seq<char>, Seq<char>)> {
    if id == "nodejs"@ || id == "node"@ {
        Some(("nodejs"@, "node"@))
    } else if id == "deno"@ {
        Some(("deno"@, "deno"@))
    } else if id == "bun"@ {
        Some(("bun"@, "bun"@))
    } else if id == "safari"@ {
        Some(("safari"@, "safari"@))
    } else if id == "chrome"@ {
        Some(("chrome"@, "chrome"@))
    } else if id == "firefox"@ {
        Some(("firefox"@, "firefox"@))
    } else {
        None
    }
}

impl RuntimeTarget {
    pub fn from_bcd_id(id: &str) -> (r: Result<RuntimeTarget, BcdError>)
        ensures
            match r {
                Ok(t) => target_spec(id@) == Some((t.bcd_id@, t.runtime_name@)),
                Err(e) => target_spec(id@) is None && e == BcdError::UnsupportedRuntime,
            },
    {
        if str_eq(id, "nodejs") || str_eq(id, "node") {
            Ok(RuntimeTarget { bcd_id: "nodejs", runtime_name: "node" })
        } else if str_eq(id, "deno") {
            Ok(RuntimeTarget { bcd_id: "deno", runtime_name: "deno" })
        } else if str_eq(id, "bun") {
            Ok(RuntimeTarget { bcd_id: "bun", runtime_name: "bun" })
        } else if str_eq(id, "safari") {
            Ok(RuntimeTarget { bcd_id: "safari", runtime_name: "safari" })
        } else if str_eq(id, "chrome") {
            Ok(RuntimeTarget { bcd_id: "chrome", runtime_name: "chrome" })
        } else if str_eq(id, "firefox") {
            Ok(RuntimeTarget { bcd_id: "firefox", runtime_name: "firefox" })
        } else {
            Err(BcdError::UnsupportedRuntime)
        }
    }
}

// ---------------------------------------------------------------------
// Versions as BCD writes them
// ---------------------------------------------------------------------

/// A version in BCD data.
#[derive(Debug, Clone, Copy, PartialEq, Eq, Structural, PartialOrd, Ord)]
pub struct BcdVersion {
    pub major: u64,
    pub minor: u64,
    pub patch: u64,
}

/// Versions are ordered by major, then minor, then patch.
pub open spec fn bcd_version_le(a: BcdVersion, b: BcdVersion) -> bool {
    ||| a.major < b.major
    ||| (a.major == b.major && a.minor < b.minor)
    ||| (a.major == b.major && a.minor == b.minor && a.patch <= b.patch)
}

/// `s` without any leading `v`.
pub open spec fn strip_vs(s: Seq<char>) -> Seq<char>
    decreases s.len(),
{
    if s.len() > 0 && s[0] == 'v' {
        strip_vs(s.drop_first())
    } else {
        s
    }
}

/// A version part: one or more ASCII digits that fit in a `u64`.
pub open spec fn part_spec(part: Seq<char>) -> Option<u64> {
    if part.len() == 0 || !all_digits(part) {
        None
    } else {
        parse_u64_spec(part)
    }
}

/// The `i`-th dot-separated part, `0` where there is none.
pub open spec fn part_at(parts: Seq<Seq<char>>, i: int) -> Seq<char> {
    if i < parts.len() {
        parts[i]
    } else {
        seq!['0']
    }
}

/// What reading a BCD version gives: after surrounding whitespace and
/// leading `v`s, it must start with a digit; its first three
/// dot-separated parts (missing ones are `0`) must be numbers.
pub open spec fn version_spec(s: Seq<char>) -> Option<BcdVersion> {
    let body = strip_vs(trim(s));
    if body.len() == 0 || !is_ascii_digit(body[0]) {
        None
    } else {
        let parts = split_on(body, '.');
        match (part_spec(part_at(parts, 0)), part_spec(part_at(parts, 1)), part_spec(part_at(parts, 2))) {
            (Some(major), Some(minor), Some(patch)) => Some(BcdVersion { major, minor, patch }),
            _ => None,
        }
    }
}

/// Reads one part of a version.
pub fn parse_version_part(part: &[char]) -> (r: Option<u64>)
    ensures
        r == part_spec(part@),
{
    if part.len() == 0 {
        return None;
    }
    let mut i: usize = 0;
    while i < part.len()
        invariant
            i <= part@.len(),
            forall|k: int| 0 <= k < i ==> is_ascii_digit(#[trigger] part@[k]),
        decreases part@.len() - i,
    {
        if !crate::text::ascii_digit(part[i]) {
            assert(!all_digits(part@));
            return None;
        }
        i = i + 1;
    }
    assert(all_digits(part@));
    parse_u64(part)
}

impl BcdVersion {
    /// Reads a version as BCD writes it.
    pub fn parse(value: &str) -> (r: Option<BcdVersion>)
        ensures
            r == version_spec(value@),
    {
        let chars = chars_of(value);
        let trimmed = trim_chars(chars.as_slice());
        let mut start: usize = 0;
        assert(trimmed@.skip(0) =~= trimmed@);
        while start < trimmed.len() && trimmed[start] == 'v'
            invariant
                start <= trimmed@.len(),
                strip_vs(trimmed@) == strip_vs(trimmed@.skip(start as int)),
            decreases trimmed@.len() - start,
        {
            assert(trimmed@.skip(start as int).drop_first() =~= trimmed@.skip(start + 1));
            start = start + 1;
        }
        let mut body: Vec<char> = Vec::new();
        let mut i: usize = start;
        while i < trimmed.len()
            invariant
                start <= i <= trimmed@.len(),
                body@ == trimmed@.subrange(start as int, i as int),
            decreases trimmed@.len() - i,
        {
            body.push(trimmed[i]);
            i = i + 1;
            assert(body@ =~= trimmed@.subrange(start as int, i as int));
        }
        proof {
            assert(body@ =~= trimmed@.skip(start as int));
            assert(body@ == strip_vs(trimmed@));
        }
        if body.len() == 0 || !crate::text::ascii_digit(body[0]) {
            return None;
        }
        let parts = split_chars(body.as_slice(), '.');
        let ghost ps = split_on(body@, '.');
        let zero = vec!['0'];
        let major = if parts.len() > 0 {
            parse_version_part(parts[0].as_slice())
        } else {
            parse_version_part(zero.as_slice())
        };
        let minor = if parts.len() > 1 {
            parse_version_part(parts[1].as_slice())
        } else {
            parse_version_part(zero.as_slice())
        };
        let patch = if parts.len() > 2 {
            parse_version_part(parts[2].as_slice())
        } else {
            parse_version_part(zero.as_slice())
        };
        proof {
            assert(zero@ =~= seq!['0']);
        }
        match (major, minor, patch) {
            (Some(major), Some(minor), Some(patch)) => Some(BcdVersion { major, minor, patch }),
            _ => None,
        }
    }

    /// `major.minor.patch`.
    pub fn to_string(&self) -> (r: String)
        ensures
            r@ == decimal(self.major as nat) + seq!['.'] + decimal(self.minor as nat) + seq!['.'] + decimal(
                self.patch as nat,
            ),
    {
        let mut out = String::new();
        push_decimal(&mut out, self.major);
        push_char(&mut out, '.');
        push_decimal(&mut out, self.minor);
        push_char(&mut out, '.');
        push_decimal(&mut out, self.patch);
        assert(out@ =~= decimal(self.major as nat) + seq!['.'] + decimal(self.minor as nat) + seq!['.'] + decimal(
            self.patch as nat,
        ));
        out
    }

    pub fn le(&self, other: &BcdVersion) -> (r: bool)
        ensures
            r == bcd_version_le(*self, *other),
    {
        self.major < other.major || (self.major == other.major && self.minor < other.minor) || (self.major
            == other.major && self.minor == other.minor && self.patch <= other.patch)
    }
}


// ---------------------------------------------------------------------
// Support statements
// ---------------------------------------------------------------------

/// Whether data whose `__meta.version` is `actual` (when it has a string
/// there) is the compat-data release `expected`: a stated version must be
/// that one, and data that states none is taken as it is.
pub fn bcd_version_matches(expected: &str, actual: &Option<String>) -> (r: bool)
    ensures
        r == match actual {
            Some(a) => a@ == expected@,
            None => true,
        },
{
    match actual {
        Some(a) => str_eq(a.as_str(), expected),
        None => true,
    }
}

/// What a BCD support statement says, as far as the generator reads it.
pub struct SupportStatement {
    /// `version_added`, when it is a string.
    pub version_added: Option<String>,
    /// Whether `flags` is a non-empty array: support behind a flag.
    pub has_flags: bool,
    /// Whether `version_removed` is there and not null.
    pub version_removed: bool,
}

/// The version a statement gives, if it counts: not behind flags, not
/// removed, and with a readable `version_added`.
pub open spec fn statement_version(st: SupportStatement) -> Option<BcdVersion> {
    if st.has_flags || st.version_removed {
        None
    } else {
        match st.version_added {
            Some(v) => version_spec(v@),
            None => None,
        }
    }
}

/// The earliest version among the statements that count.
pub open spec fn support_version_spec(sts: Seq<SupportStatement>) -> Option<BcdVersion>
    decreases sts.len(),
{
    if sts.len() == 0 {
        None
    } else {
        let prev = support_version_spec(sts.drop_last());
        match statement_version(sts.last()) {
            Some(v) => match prev {
                Some(p) => if bcd_version_le(p, v) {
                    Some(p)
                } else {
                    Some(v)
                },
                None => Some(v),
            },
            None => prev,
        }
    }
}

/// The first version a runtime supports a feature from, by its support
/// statements.
pub fn support_version(statements: &Vec<SupportStatement>) -> (r: Option<BcdVersion>)
    ensures
        r == support_version_spec(statements@),
{
    let mut best: Option<BcdVersion> = None;
    let mut i: usize = 0;
    while i < statements.len()
        invariant
            i <= statements@.len(),
            best == support_version_spec(statements@.take(i as int)),
        decreases statements@.len() - i,
    {
        proof {
            assert(statements@.take(i + 1).drop_last() =~= statements@.take(i as int));
            assert(statements@.take(i + 1).last() == statements@[i as int]);
        }
        let st = &statements[i];
        let v = if st.has_flags || st.version_removed {
            None
        } else {
            match &st.version_added {
                Some(text) => BcdVersion::parse(text.as_str()),
                None => None,
            }
        };
        match v {
            Some(v) => {
                best = match best {
                    Some(p) => if p.le(&v) {
                        Some(p)
                    } else {
                        Some(v)
                    },
                    None => Some(v),
                };
            },
            None => {},
        }
        i = i + 1;
    }
    assert(statements@.take(statements@.len() as int) =~= statements@);
    best
}

// ---------------------------------------------------------------------
// Which entries are runtime features
// ---------------------------------------------------------------------

/// A path segment that names something a program can write: a
/// SCREAMING_CASE constant, or letters, digits and `$`; never empty, a
/// well-known symbol (`@@...`) or a hyphenated name.
pub open spec fn is_surface_segment_spec(s: Seq<char>) -> bool {
    if s.len() == 0 || is_prefix("@@"@, s) || s.contains('-') {
        false
    } else if s.contains('_') {
        forall|i: int| 0 <= i < s.len() ==> (#[trigger] s[i] == '_' || is_ascii_digit(s[i]) || is_ascii_upper(s[i]))
    } else {
        forall|i: int| 0 <= i < s.len() ==> (#[trigger] s[i] == '$' || is_ascii_alnum(s[i]))
    }
}

fn contains_char(s: &Vec<char>, c: char) -> (r: bool)
    ensures
        r == s@.contains(c),
{
    let mut i: usize = 0;
    while i < s.len()
        invariant
            i <= s@.len(),
            forall|k: int| 0 <= k < i ==> s@[k] != c,
        decreases s@.len() - i,
    {
        if s[i] == c {
            assert(s@[i as int] == c);
            return true;
        }
        i = i + 1;
    }
    false
}

pub fn is_runtime_surface_segment(segment: &str) -> (r: bool)
    ensures
        r == is_surface_segment_spec(segment@),
{
    let s = chars_of(segment);
    if s.len() == 0 || crate::text::str_starts_with(segment, "@@") || contains_char(&s, '-') {
        return false;
    }
    let ghost no_early = s@.len() > 0 && !is_prefix("@@"@, s@) && !s@.contains('-');
    assert(no_early);
    if contains_char(&s, '_') {
        let mut i: usize = 0;
        while i < s.len()
            invariant
                i <= s@.len(),
                s@ == segment@,
                no_early == (s@.len() > 0 && !is_prefix("@@"@, s@) && !s@.contains('-')),
                no_early,
                s@.contains('_'),
                forall|k: int| 0 <= k < i ==> (#[trigger] s@[k] == '_' || is_ascii_digit(s@[k]) || is_ascii_upper(s@[k])),
            decreases s@.len() - i,
        {
            let c = s[i];
            if !(c == '_' || crate::text::ascii_digit(c) || crate::text::ascii_upper(c)) {
                assert(!(s@[i as int] == '_' || is_ascii_digit(s@[i as int]) || is_ascii_upper(s@[i as int])));
                return false;
            }
            i = i + 1;
        }
        return true;
    }
    let mut i: usize = 0;
    while i < s.len()
        invariant
            i <= s@.len(),
            s@ == segment@,
            no_early == (s@.len() > 0 && !is_prefix("@@"@, s@) && !s@.contains('-')),
            no_early,
            !s@.contains('_'),
            forall|k: int| 0 <= k < i ==> (#[trigger] s@[k] == '$' || is_ascii_alnum(s@[k])),
        decreases s@.len() - i,
    {
        let c = s[i];
        if !(c == '$' || crate::text::ascii_alnum(c)) {
            assert(!(s@[i as int] == '$' || is_ascii_alnum(s@[i as int])));
            return false;
        }
        i = i + 1;
    }
    true
}

/// A path whose every segment is a surface name, and that does not end
/// where it starts (as `Intl.Intl` would).
pub open spec fn is_surface_path_spec(path: Seq<Seq<char>>) -> bool {
    &&& path.len() > 0
    &&& !(path.len() > 1 && path[0] == path.last())
    &&& forall|i: int| 0 <= i < path.len() ==> is_surface_segment_spec(#[trigger] path[i])
}

pub fn is_runtime_surface_path(path: &Vec<String>) -> (r: bool)
    ensures
        r == is_surface_path_spec(strings_view(path@)),
{
    let ghost pv = strings_view(path@);
    if path.len() == 0 {
        return false;
    }
    let n = path.len();
    assert(pv[0] == path@[0]@ && pv.last() == path@[n - 1]@);
    if n > 1 && str_eq(path[0].as_str(), path[n - 1].as_str()) {
        return false;
    }
    let mut i: usize = 0;
    while i < n
        invariant
            i <= n == path@.len(),
            pv == strings_view(path@),
            forall|k: int| 0 <= k < i ==> is_surface_segment_spec(#[trigger] pv[k]),
        decreases n - i,
    {
        assert(pv[i as int] == path@[i as int]@);
        if !is_runtime_surface_segment(path[i].as_str()) {
            return false;
        }
        i = i + 1;
    }
    true
}

/// A property name a scan can match: it starts with a letter or `_`, and
/// is neither a well-known symbol (`@@...`) nor internal (`__...`).
pub open spec fn is_detectable_property_spec(p: Seq<char>) -> bool {
    &&& !is_prefix("@@"@, p)
    &&& !is_prefix("__"@, p)
    &&& p.len() > 0
    &&& (p[0] == '_' || is_ascii_alpha(p[0]))
}

pub fn is_detectable_property(property: &str) -> (r: bool)
    ensures
        r == is_detectable_property_spec(property@),
{
    let s = chars_of(property);
    !crate::text::str_starts_with(property, "@@") && !crate::text::str_starts_with(property, "__") && s.len() > 0
        && (s[0] == '_' || crate::text::ascii_alpha(s[0]))
}

// ---------------------------------------------------------------------
// Detect rules
// ---------------------------------------------------------------------

/// Where a BCD entry comes from.
#[derive(Debug, Clone, Copy, PartialEq, Eq, Structural)]
pub enum SourceKind {
    Api,
    JavascriptBuiltin,
}

/// How a scan finds a feature.
#[derive(Debug, Clone, PartialEq, Eq, PartialOrd, Ord)]
pub enum GeneratedDetectRule {
    Global(String),
    MemberChain(String),
    Property(String),
}

/// A detect rule as plain values: its kind (0 global, 1 member chain,
/// 2 property) and name.
pub open spec fn rule_view(r: GeneratedDetectRule) -> (u8, Seq<char>) {
    match r {
        GeneratedDetectRule::Global(n) => (0u8, n@),
        GeneratedDetectRule::MemberChain(n) => (1u8, n@),
        GeneratedDetectRule::Property(n) => (2u8, n@),
    }
}

pub open spec fn rules_view(r: Seq<GeneratedDetectRule>) -> Seq<(u8, Seq<char>)> {
    r.map_values(|x: GeneratedDetectRule| rule_view(x))
}

/// The rules of an entry at `path`: a global for a top-level name, the
/// member chain always, and the last segment as a property for builtins
/// nested at least once when it is detectable; in that order.
pub open spec fn detect_rules_spec(source: SourceKind, path: Seq<Seq<char>>) -> Seq<(u8, Seq<char>)> {
    if path.len() == 0 {
        Seq::empty()
    } else {
        let name = join_spec(path);
        let global: Seq<(u8, Seq<char>)> = if path.len() == 1 {
            seq![(0u8, name)]
        } else {
            seq![]
        };
        let property: Seq<(u8, Seq<char>)> = if source == SourceKind::JavascriptBuiltin && path.len() >= 2
            && is_detectable_property_spec(path.last()) {
            seq![(2u8, path.last())]
        } else {
            seq![]
        };
        global + seq![(1u8, name)] + property
    }
}

/// The dotted name of the entry at `path`.
pub fn feature_name(path: &Vec<String>) -> (r: String)
    ensures
        r@ == join_spec(strings_view(path@)),
{
    if path.len() == 0 {
        return String::new();
    }
    assert(strings_view(path@)[0] == path@[0]@);
    join_parts(path[0].as_str(), path)
}

pub fn detect_rules(source: SourceKind, path: &Vec<String>) -> (r: Vec<GeneratedDetectRule>)
    ensures
        rules_view(r@) == detect_rules_spec(source, strings_view(path@)),
{
    let ghost pv = strings_view(path@);
    let mut rules: Vec<GeneratedDetectRule> = Vec::new();
    if path.len() == 0 {
        assert(rules_view(rules@) =~= Seq::<(u8, Seq<char>)>::empty());
        return rules;
    }
    let name = feature_name(path);
    if path.len() == 1 {
        rules.push(GeneratedDetectRule::Global(name.clone()));
    }
    rules.push(GeneratedDetectRule::MemberChain(name));
    let n = path.len();
    assert(pv.last() == path@[n - 1]@);
    if source == SourceKind::JavascriptBuiltin && n >= 2 && is_detectable_property(path[n - 1].as_str()) {
        rules.push(GeneratedDetectRule::Property(path[n - 1].clone()));
    }
    assert(rules_view(rules@) =~= detect_rules_spec(source, pv));
    rules
}

// ---------------------------------------------------------------------
// Features gathered from a BCD tree
// ---------------------------------------------------------------------

/// A runtime feature found in BCD.
pub struct GeneratedFeature {
    pub name: String,
    pub version: BcdVersion,
    pub detect: Vec<GeneratedDetectRule>,
}

/// A generated feature as plain values.
pub struct GenView {
    pub name: Seq<char>,
    pub version: BcdVersion,
    pub detect: Seq<(u8, Seq<char>)>,
}

pub open spec fn gen_view(f: GeneratedFeature) -> GenView {
    GenView { name: f.name@, version: f.version, detect: rules_view(f.detect@) }
}

pub open spec fn gens_view(s: Seq<GeneratedFeature>) -> Seq<GenView> {
    s.map_values(|f: GeneratedFeature| gen_view(f))
}

/// The last position of a feature named `name`, or `-1`.
pub open spec fn name_position(m: Seq<GenView>, name: Seq<char>) -> int
    decreases m.len(),
{
    if m.len() == 0 {
        -1
    } else if m.last().name == name {
        m.len() - 1
    } else {
        name_position(m.drop_last(), name)
    }
}

/// Records a feature unless one of that name has an earlier or the same
/// version already.
pub open spec fn upsert_spec(m: Seq<GenView>, f: GenView) -> Seq<GenView> {
    let k = name_position(m, f.name);
    if k >= 0 {
        if bcd_version_le(m[k].version, f.version) {
            m
        } else {
            m.update(k, f)
        }
    } else {
        m.push(f)
    }
}

/// No two features share a name.
pub open spec fn unique_names(m: Seq<GenView>) -> bool {
    forall|a: int, b: int| 0 <= a < b < m.len() ==> (#[trigger] m[a]).name != (#[trigger] m[b]).name
}

proof fn lemma_name_position(m: Seq<GenView>, name: Seq<char>)
    ensures
        name_position(m, name) == -1 <==> forall|i: int| 0 <= i < m.len() ==> (#[trigger] m[i]).name != name,
        name_position(m, name) != -1 ==> 0 <= name_position(m, name) < m.len() && m[name_position(m, name)].name
            == name,
    decreases m.len(),
{
    if m.len() > 0 {
        let p = m.drop_last();
        lemma_name_position(p, name);
        if m.last().name != name && name_position(p, name) == -1 {
            assert forall|i: int| 0 <= i < m.len() implies (#[trigger] m[i]).name != name by {
                if i < p.len() {
                    assert(p[i] == m[i]);
                }
            }
        }
    }
}

proof fn lemma_upsert_unique(m: Seq<GenView>, f: GenView)
    requires
        unique_names(m),
    ensures
        unique_names(upsert_spec(m, f)),
{
    lemma_name_position(m, f.name);
    let u = upsert_spec(m, f);
    assert forall|a: int, b: int| 0 <= a < b < u.len() implies (#[trigger] u[a]).name != (#[trigger] u[b]).name by {
        let k = name_position(m, f.name);
        if k < 0 {
            if b == m.len() {
                assert(u[a] == m[a]);
            } else {
                assert(u[a] == m[a] && u[b] == m[b]);
            }
        } else {
            assert(u[a].name == m[a].name && u[b].name == m[b].name);
        }
    }
}

/// Records the features in order.
pub fn upsert_feature(features: &mut Vec<GeneratedFeature>, feature: GeneratedFeature)
    ensures
        gens_view(final(features)@) == upsert_spec(gens_view(old(features)@), gen_view(feature)),
{
    let ghost m = gens_view(features@);
    let mut i: usize = features.len();
    assert(m.take(i as int) =~= m);
    while i > 0
        invariant
            i <= features@.len(),
            m == gens_view(features@),
            features@ == old(features)@,
            name_position(m, feature.name@) == name_position(m.take(i as int), feature.name@),
        decreases i,
    {
        proof {
            assert(m.take(i as int).drop_last() =~= m.take(i - 1));
            assert(m.take(i as int).last() == m[i - 1]);
            assert(m[i - 1] == gen_view(features@[i - 1]));
        }
        if str_eq(features[i - 1].name.as_str(), feature.name.as_str()) {
            let k = i - 1;
            proof {
                assert(m.take(i as int).last().name == feature.name@);
                assert(name_position(m.take(i as int), feature.name@) == k);
                assert(name_position(m, gen_view(feature).name) == k);
                assert(m[k as int].version == features@[k as int].version);
            }
            if features[k].version.le(&feature.version) {
                return;
            }
            features.set(k, feature);
            assert(gens_view(features@) =~= m.update(k as int, gen_view(feature)));
            return;
        }
        i = i - 1;
    }
    assert(m.take(0) =~= Seq::<GenView>::empty());
    let ghost before = features@;
    let ghost fv = gen_view(feature);
    features.push(feature);
    assert(gens_view(features@) =~= m.push(fv));
}

/// What a BCD entry's `__compat` says: the support statements of each
/// runtime by BCD id (several, or one).
pub struct CompatNode {
    /// The entry's key under its parent.
    pub key: String,
    /// The support statements by runtime id, when the entry has
    /// `__compat.support`.
    pub support: Option<Vec<(String, Vec<SupportStatement>)>>,
    /// The entries nested in this one (the object members other than
    /// `__compat`).
    pub children: Vec<CompatNode>,
}

/// The statements of the first runtime with id `runtime`.
pub open spec fn runtime_statements(support: Seq<(String, Vec<SupportStatement>)>, runtime: Seq<char>) -> Option<
    Seq<SupportStatement>,
>
    decreases support.len(),
{
    if support.len() == 0 {
        None
    } else if support[0].0@ == runtime {
        Some(support[0].1@)
    } else {
        runtime_statements(support.drop_first(), runtime)
    }
}

/// The feature an entry at `path` stands for, if it is a runtime
/// feature: supported by the runtime, with a surface path and a name.
pub open spec fn own_candidate(n: CompatNode, path: Seq<Seq<char>>, source: SourceKind, runtime: Seq<char>) -> Option<
    GenView,
> {
    match n.support {
        Some(support) => match runtime_statements(support@, runtime) {
            Some(sts) => match support_version_spec(sts) {
                Some(v) => {
                    let name = join_spec(path);
                    let detect = detect_rules_spec(source, path);
                    if name.len() > 0 && is_surface_path_spec(path) && detect.len() > 0 {
                        Some(GenView { name, version: v, detect })
                    } else {
                        None
                    }
                },
                None => None,
            },
            None => None,
        },
        None => None,
    }
}

/// Walks an entry under `parent`: records its own feature, then those of
/// its children in order.
pub open spec fn walk_node(
    m: Seq<GenView>,
    n: CompatNode,
    parent: Seq<Seq<char>>,
    source: SourceKind,
    runtime: Seq<char>,
) -> Seq<GenView>
    decreases n,
{
    let path = parent.push(n.key@);
    let m1 = match own_candidate(n, path, source, runtime) {
        Some(f) => upsert_spec(m, f),
        None => m,
    };
    walk_list(m1, n.children@, path, source, runtime)
}

/// Walks entries in order.
pub open spec fn walk_list(
    m: Seq<GenView>,
    s: Seq<CompatNode>,
    parent: Seq<Seq<char>>,
    source: SourceKind,
    runtime: Seq<char>,
) -> Seq<GenView>
    decreases s,
{
    if s.len() == 0 {
        m
    } else {
        walk_node(walk_list(m, s.drop_last(), parent, source, runtime), s.last(), parent, source, runtime)
    }
}

fn statements_for<'a>(support: &'a Vec<(String, Vec<SupportStatement>)>, runtime_id: &str) -> (r: Option<&'a Vec<SupportStatement>>)
    ensures
        match r {
            Some(sts) => runtime_statements(support@, runtime_id@) == Some(sts@),
            None => runtime_statements(support@, runtime_id@) is None,
        },
{
    let mut i: usize = 0;
    assert(support@.skip(0) =~= support@);
    while i < support.len()
        invariant
            i <= support@.len(),
            runtime_statements(support@, runtime_id@) == runtime_statements(support@.skip(i as int), runtime_id@),
        decreases support@.len() - i,
    {
        assert(support@.skip(i as int).drop_first() =~= support@.skip(i + 1));
        assert(support@.skip(i as int)[0] == support@[i as int]);
        if str_eq(support[i].0.as_str(), runtime_id) {
            return Some(&support[i].1);
        }
        i = i + 1;
    }
    None
}

fn candidate(n: &CompatNode, path: &Vec<String>, source: SourceKind, runtime_id: &str) -> (r: Option<GeneratedFeature>)
    ensures
        match r {
            Some(f) => own_candidate(*n, strings_view(path@), source, runtime_id@) == Some(gen_view(f)),
            None => own_candidate(*n, strings_view(path@), source, runtime_id@) is None,
        },
{
    let support = match &n.support {
        Some(s) => s,
        None => return None,
    };
    let statements = match statements_for(support, runtime_id) {
        Some(s) => s,
        None => return None,
    };
    let version = match support_version(statements) {
        Some(v) => v,
        None => return None,
    };
    let name = feature_name(path);
    let name_chars = chars_of(name.as_str());
    if name_chars.len() == 0 || !is_runtime_surface_path(path) {
        return None;
    }
    let detect = detect_rules(source, path);
    if detect.len() == 0 {
        return None;
    }
    Some(GeneratedFeature { name, version, detect })
}

/// Walks an entry whose parent is at `path`, recording runtime features.
pub fn walk_compat_tree(
    node: &CompatNode,
    path: &mut Vec<String>,
    source: SourceKind,
    runtime_id: &str,
    features: &mut Vec<GeneratedFeature>,
)
    ensures
        final(path)@ == old(path)@,
        gens_view(final(features)@) == walk_node(
            gens_view(old(features)@),
            *node,
            strings_view(old(path)@),
            source,
            runtime_id@,
        ),
    decreases node,
{
    let ghost parent = strings_view(path@);
    let ghost start = path@;
    path.push(node.key.clone());
    let ghost here = strings_view(path@);
    assert(here =~= parent.push(node.key@));
    match candidate(node, path, source, runtime_id) {
        Some(f) => upsert_feature(features, f),
        None => {},
    }
    let ghost m1 = gens_view(features@);
    let mut i: usize = 0;
    assert(node.children@.take(0) =~= Seq::<CompatNode>::empty());
    while i < node.children.len()
        invariant
            i <= node.children@.len(),
            strings_view(path@) == here,
            path@ == start.push(node.key),
            gens_view(features@) == walk_list(m1, node.children@.take(i as int), here, source, runtime_id@),
        decreases node.children@.len() - i,
    {
        proof {
            assert(node.children@.take(i + 1).drop_last() =~= node.children@.take(i as int));
            assert(node.children@.take(i + 1).last() == node.children@[i as int]);
        }
        walk_compat_tree(&node.children[i], path, source, runtime_id, features);
        i = i + 1;
    }
    assert(node.children@.take(node.children@.len() as int) =~= node.children@);
    let _ = path.pop();
    assert(path@ =~= start);
}

proof fn lemma_walk_unique_node(m: Seq<GenView>, n: CompatNode, parent: Seq<Seq<char>>, source: SourceKind, runtime: Seq<char>)
    requires
        unique_names(m),
    ensures
        unique_names(walk_node(m, n, parent, source, runtime)),
    decreases n,
{
    let path = parent.push(n.key@);
    let m1 = match own_candidate(n, path, source, runtime) {
        Some(f) => upsert_spec(m, f),
        None => m,
    };
    match own_candidate(n, path, source, runtime) {
        Some(f) => lemma_upsert_unique(m, f),
        None => {},
    }
    lemma_walk_unique_list(m1, n.children@, path, source, runtime);
}

proof fn lemma_walk_unique_list(m: Seq<GenView>, s: Seq<CompatNode>, parent: Seq<Seq<char>>, source: SourceKind, runtime: Seq<char>)
    requires
        unique_names(m),
    ensures
        unique_names(walk_list(m, s, parent, source, runtime)),
    decreases s,
{
    if s.len() > 0 {
        lemma_walk_unique_list(m, s.drop_last(), parent, source, runtime);
        lemma_walk_unique_node(walk_list(m, s.drop_last(), parent, source, runtime), s.last(), parent, source, runtime);
    }
}

/// Features are listed by name.
pub open spec fn name_order() -> spec_fn(GenView, GenView) -> bool {
    |a: GenView, b: GenView| chars_lt(a.name, b.name)
}

/// The features, listed by name.
pub open spec fn by_name(m: Seq<GenView>) -> Seq<GenView> {
    choose|t: Seq<GenView>| sorted_by(t, name_order()) && forall|x: GenView| t.contains(x) <==> m.contains(x)
}

/// The runtime features of BCD's `api` and `javascript.builtins` entries
/// for runtime `runtime`, one per name (the earliest version, the first
/// found on a tie), listed by name.
pub open spec fn extract_spec(api: Seq<CompatNode>, builtins: Seq<CompatNode>, runtime: Seq<char>) -> Seq<GenView> {
    by_name(
        walk_list(
            walk_list(Seq::empty(), api, Seq::empty(), SourceKind::Api, runtime),
            builtins,
            Seq::empty(),
            SourceKind::JavascriptBuiltin,
            runtime,
        ),
    )
}

proof fn lemma_name_order()
    ensures
        strict_order(name_order()),
{
    assert forall|x: GenView| !#[trigger] name_order()(x, x) by {
        lemma_chars_lt_irreflexive(x.name);
    }
    assert forall|x: GenView, y: GenView, z: GenView|
        #[trigger] name_order()(x, y) && #[trigger] name_order()(y, z) implies name_order()(x, z) by {
        lemma_chars_lt_transitive(x.name, y.name, z.name);
    }
}

fn walk_all(
    nodes: &Vec<CompatNode>,
    source: SourceKind,
    runtime_id: &str,
    features: &mut Vec<GeneratedFeature>,
)
    ensures
        gens_view(final(features)@) == walk_list(gens_view(old(features)@), nodes@, Seq::empty(), source, runtime_id@),
{
    let mut path: Vec<String> = Vec::new();
    let ghost m0 = gens_view(features@);
    let mut i: usize = 0;
    assert(nodes@.take(0) =~= Seq::<CompatNode>::empty());
    while i < nodes.len()
        invariant
            i <= nodes@.len(),
            path@ == Seq::<String>::empty(),
            m0 == gens_view(old(features)@),
            gens_view(features@) == walk_list(m0, nodes@.take(i as int), Seq::empty(), source, runtime_id@),
        decreases nodes@.len() - i,
    {
        proof {
            assert(nodes@.take(i + 1).drop_last() =~= nodes@.take(i as int));
            assert(nodes@.take(i + 1).last() == nodes@[i as int]);
            assert(strings_view(path@) =~= Seq::<Seq<char>>::empty());
        }
        walk_compat_tree(&nodes[i], &mut path, source, runtime_id, features);
        i = i + 1;
    }
    assert(nodes@.take(nodes@.len() as int) =~= nodes@);
}

/// The runtime features for BCD runtime id `runtime_id`, from the entries
/// under `api` and under `javascript.builtins`: one per name, listed by
/// name.
pub fn extract_features(api: &Vec<CompatNode>, builtins: &Vec<CompatNode>, runtime_id: &str) -> (r: Vec<
    GeneratedFeature,
>)
    ensures
        gens_view(r@) == extract_spec(api@, builtins@, runtime_id@),
        sorted_by(gens_view(r@), name_order()),
        unique_names(gens_view(r@)),
{
    let mut features: Vec<GeneratedFeature> = Vec::new();
    assert(gens_view(features@) =~= Seq::<GenView>::empty());
    walk_all(api, SourceKind::Api, runtime_id, &mut features);
    walk_all(builtins, SourceKind::JavascriptBuiltin, runtime_id, &mut features);
    let ghost m = gens_view(features@);
    proof {
        lemma_walk_unique_list(Seq::empty(), api@, Seq::empty(), SourceKind::Api, runtime_id@);
        lemma_walk_unique_list(
            walk_list(Seq::empty(), api@, Seq::empty(), SourceKind::Api, runtime_id@),
            builtins@,
            Seq::empty(),
            SourceKind::JavascriptBuiltin,
            runtime_id@,
        );
        lemma_name_order();
    }
    let mut sorted: Vec<GeneratedFeature> = Vec::new();
    assert(m.take(m.len() as int) =~= m);
    while features.len() > 0
        invariant
            unique_names(m),
            strict_order(name_order()),
            gens_view(features@) == m.take(features@.len() as int),
            features@.len() <= m.len(),
            sorted_by(gens_view(sorted@), name_order()),
            forall|x: GenView| gens_view(sorted@).contains(x) <==> m.skip(features@.len() as int).contains(x),
        decreases features@.len(),
    {
        let k = features.len();
        let ghost before = features@;
        let x = features.pop().unwrap();
        let ghost xv = gen_view(x);
        let ghost t = gens_view(sorted@);
        proof {
            assert(x == before[k - 1]);
            assert(gens_view(before)[k - 1] == gen_view(before[k - 1]));
            assert(m.take(k as int)[k - 1] == m[k - 1]);
            assert(xv == m[k - 1]);
            assert(gens_view(features@) =~= m.take(k - 1));
        }
        let mut p: usize = 0;
        let mut found = false;
        while p < sorted.len() && !found
            invariant
                p <= sorted@.len(),
                t == gens_view(sorted@),
                xv == gen_view(x),
                forall|q: int| 0 <= q < p ==> !name_order()(xv, #[trigger] t[q]),
                found ==> p < t.len() && name_order()(xv, t[p as int]),
            decreases sorted@.len() - p + (if found { 0int } else { 1int }),
        {
            assert(t[p as int] == gen_view(sorted@[p as int]));
            if str_lt(x.name.as_str(), sorted[p].name.as_str()) {
                found = true;
            } else {
                p = p + 1;
            }
        }
        proof {
            assert forall|q: int| 0 <= q < p implies name_order()(#[trigger] t[q], xv) by {
                assert(t.contains(t[q]));
                let sk = m.skip(k as int);
                assert(sk.contains(t[q]));
                let w = choose|w: int| 0 <= w < sk.len() && sk[w] == t[q];
                assert(m[k + w] == t[q]);
                assert(m[k - 1].name != m[k + w].name);
                lemma_chars_lt_total(xv.name, t[q].name);
            }
            lemma_insert_sorted(t, xv, p as int, name_order());
        }
        sorted.insert(p, x);
        proof {
            let u = gens_view(sorted@);
            assert(u =~= t.insert(p as int, xv));
            assert forall|y: GenView| u.contains(y) <==> m.skip(k - 1).contains(y) by {
                let s1 = m.skip(k - 1);
                let s0 = m.skip(k as int);
                assert(t.contains(y) <==> s0.contains(y));
                assert(u.contains(y) <==> (t.contains(y) || y == xv));
                if s1.contains(y) {
                    let w = choose|w: int| 0 <= w < s1.len() && s1[w] == y;
                    if w > 0 {
                        assert(s0[w - 1] == y);
                    }
                }
                if s0.contains(y) {
                    let w = choose|w: int| 0 <= w < s0.len() && s0[w] == y;
                    assert(s1[w + 1] == y);
                }
                assert(s1[0] == xv);
            }
        }
    }
    proof {
        assert(m.skip(0) =~= m);
        let u = gens_view(sorted@);
        let c = by_name(m);
        assert(sorted_by(u, name_order()) && forall|x: GenView| u.contains(x) <==> m.contains(x));
        lemma_sorted_unique(u, c, name_order());
        assert forall|a: int, b: int| 0 <= a < b < u.len() implies (#[trigger] u[a]).name != (#[trigger] u[b]).name by {
            lemma_chars_lt_irreflexive(u[a].name);
        }
    }
    sorted
}

// ---------------------------------------------------------------------
// The RON file
// ---------------------------------------------------------------------

/// A lowercase hexadecimal digit.
pub open spec fn hex_digit(d: int) -> char {
    if d < 10 {
        (48 + d) as char
    } else {
        (87 + d) as char
    }
}

/// How JSON writes a character inside a string: `"` and `\` escaped,
/// control characters by their short escapes or as `\u00XX`, everything
/// else as it is.
pub open spec fn json_escape(c: char) -> Seq<char> {
    if c == '"' {
        seq!['\\', '"']
    } else if c == '\\' {
        seq!['\\', '\\']
    } else if c == '\x08' {
        seq!['\\', 'b']
    } else if c == '\x0c' {
        seq!['\\', 'f']
    } else if c == '\n' {
        seq!['\\', 'n']
    } else if c == '\r' {
        seq!['\\', 'r']
    } else if c == '\t' {
        seq!['\\', 't']
    } else if (c as int) < 32 {
        seq!['\\', 'u', '0', '0', hex_digit((c as int) / 16), hex_digit((c as int) % 16)]
    } else {
        seq![c]
    }
}

pub open spec fn json_escaped(s: Seq<char>) -> Seq<char>
    decreases s.len(),
{
    if s.len() == 0 {
        Seq::empty()
    } else {
        json_escaped(s.drop_last()) + json_escape(s.last())
    }
}

/// A string as a JSON string literal.
pub open spec fn json_string_spec(s: Seq<char>) -> Seq<char> {
    seq!['"'] + json_escaped(s) + seq!['"']
}

/// `serde_json::to_string` of a string: the string as a JSON string
/// literal, escaped as its serializer's escape table does (quote,
/// backslash, and control characters). The contract claims the exact
/// text; serializing a string does not fail.
#[verifier::external_body]
fn quote(value: &str) -> (r: String)
    ensures
        r@ == json_string_spec(value@),
{
    match serde_json::to_string(value) {
        Ok(text) => text,
        Err(_) => String::new(),
    }
}

/// How a detect rule is written.
pub open spec fn rule_text_spec(r: (u8, Seq<char>)) -> Seq<char> {
    (if r.0 == 0 {
        "Global("@
    } else if r.0 == 1 {
        "MemberChain("@
    } else {
        "Property("@
    }) + json_string_spec(r.1) + seq![')']
}

pub fn render_detect_rule(rule: &GeneratedDetectRule) -> (r: String)
    ensures
        r@ == rule_text_spec(rule_view(*rule)),
{
    let mut out = String::new();
    let name = match rule {
        GeneratedDetectRule::Global(name) => {
            push_text(&mut out, "Global(");
            name
        },
        GeneratedDetectRule::MemberChain(name) => {
            push_text(&mut out, "MemberChain(");
            name
        },
        GeneratedDetectRule::Property(name) => {
            push_text(&mut out, "Property(");
            name
        },
    };
    let quoted = quote(name.as_str());
    push_text(&mut out, quoted.as_str());
    push_char(&mut out, ')');
    assert(out@ =~= rule_text_spec(rule_view(*rule)));
    out
}

/// The rules, separated by `, `.
pub open spec fn rules_text(rs: Seq<(u8, Seq<char>)>) -> Seq<char>
    decreases rs.len(),
{
    if rs.len() == 0 {
        Seq::empty()
    } else if rs.len() == 1 {
        rule_text_spec(rs[0])
    } else {
        rules_text(rs.drop_last()) + ", "@ + rule_text_spec(rs.last())
    }
}

/// The text of a version.
pub open spec fn bcd_version_text(v: BcdVersion) -> Seq<char> {
    decimal(v.major as nat) + seq!['.'] + decimal(v.minor as nat) + seq!['.'] + decimal(v.patch as nat)
}

/// The line of one feature.
pub open spec fn feature_line_spec(f: GenView) -> Seq<char> {
    "        (name: "@ + json_string_spec(f.name) + ", version: "@ + json_string_spec(bcd_version_text(f.version))
        + ", detect: ["@ + rules_text(f.detect) + "]),\n"@
}

pub open spec fn features_text(fs: Seq<GenView>) -> Seq<char>
    decreases fs.len(),
{
    if fs.len() == 0 {
        Seq::empty()
    } else {
        features_text(fs.drop_last()) + feature_line_spec(fs.last())
    }
}

/// The RON data file of a runtime: a header naming the BCD release and
/// runtime id, then the runtime's name and its features.
pub open spec fn ron_spec(runtime_name: Seq<char>, bcd_id: Seq<char>, bcd_version: Seq<char>, fs: Seq<GenView>) -> Seq<char> {
    "//! Generated from MDN @mdn/browser-compat-data "@ + bcd_version + " runtime `"@ + bcd_id + "`.\n"@
        + "//! Regenerate with: cargo run --bin generate-mdn-data -- --output-dir data/mdn\n"@ + "(\n"@
        + "    schema: 1,\n"@ + "    runtime: "@ + json_string_spec(runtime_name) + ",\n"@ + "    features: [\n"@
        + features_text(fs) + "    ],\n"@ + ")\n"@
}

fn render_feature(out: &mut String, f: &GeneratedFeature)
    ensures
        final(out)@ == old(out)@ + feature_line_spec(gen_view(*f)),
{
    let ghost start = out@;
    push_text(out, "        (name: ");
    let name = quote(f.name.as_str());
    push_text(out, name.as_str());
    push_text(out, ", version: ");
    let version_text = f.version.to_string();
    let version = quote(version_text.as_str());
    push_text(out, version.as_str());
    push_text(out, ", detect: [");
    let ghost before_rules = out@;
    let ghost rv = rules_view(f.detect@);
    let mut i: usize = 0;
    while i < f.detect.len()
        invariant
            i <= f.detect@.len(),
            rv == rules_view(f.detect@),
            out@ == before_rules + rules_text(rv.take(i as int)),
        decreases f.detect@.len() - i,
    {
        proof {
            assert(rv.take(i + 1).drop_last() =~= rv.take(i as int));
            assert(rv.take(i + 1).last() == rule_view(f.detect@[i as int]));
        }
        if i > 0 {
            push_text(out, ", ");
        }
        let rule = render_detect_rule(&f.detect[i]);
        push_text(out, rule.as_str());
        i = i + 1;
        proof {
            if i == 1 {
                assert(rv.take(1) =~= seq![rv[0]]);
            }
            assert(out@ =~= before_rules + rules_text(rv.take(i as int)));
        }
    }
    assert(rv.take(rv.len() as int) =~= rv);
    push_text(out, "]),\n");
    assert(out@ =~= start + feature_line_spec(gen_view(*f)));
}

/// Writes the RON data file of a runtime.
pub fn render_runtime_ron(
    runtime_name: &str,
    bcd_id: &str,
    bcd_version: &str,
    features: &Vec<GeneratedFeature>,
) -> (r: String)
    ensures
        r@ == ron_spec(runtime_name@, bcd_id@, bcd_version@, gens_view(features@)),
{
    let mut out = String::new();
    push_text(&mut out, "//! Generated from MDN @mdn/browser-compat-data ");
    push_text(&mut out, bcd_version);
    push_text(&mut out, " runtime `");
    push_text(&mut out, bcd_id);
    push_text(&mut out, "`.\n");
    push_text(&mut out, "//! Regenerate with: cargo run --bin generate-mdn-data -- --output-dir data/mdn\n");
    push_text(&mut out, "(\n");
    push_text(&mut out, "    schema: 1,\n");
    push_text(&mut out, "    runtime: ");
    let quoted = quote(runtime_name);
    push_text(&mut out, quoted.as_str());
    push_text(&mut out, ",\n");
    push_text(&mut out, "    features: [\n");
    let ghost head = out@;
    let ghost fv = gens_view(features@);
    let mut i: usize = 0;
    while i < features.len()
        invariant
            i <= features@.len(),
            fv == gens_view(features@),
            out@ == head + features_text(fv.take(i as int)),
        decreases features@.len() - i,
    {
        proof {
            assert(fv.take(i + 1).drop_last() =~= fv.take(i as int));
            assert(fv.take(i + 1).last() == gen_view(features@[i as int]));
        }
        render_feature(&mut out, &features[i]);
        i = i + 1;
    }
    assert(fv.take(fv.len() as int) =~= fv);
    push_text(&mut out, "    ],\n");
    push_text(&mut out, ")\n");
    assert(out@ =~= ron_spec(runtime_name@, bcd_id@, bcd_version@, fv));
    out
}
} // verus!
