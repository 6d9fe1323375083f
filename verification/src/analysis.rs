//! What an AST analysis records: line positions, module names, member
//! chains, and the visitor state that turns AST nodes into detections.

use vstd::prelude::*;
use crate::data::{Feature, RuntimeDb};
use crate::fast::utf8_of;
use crate::scanner::{DetectedFeature, DetectionKey, DetectionSeen, DetectionView, detections_view, new_detection, push_detection};
use crate::syntax::{EmitTable, ExpressionKind, StatementKind, expression_syntax, expression_syntax_spec, statement_keys, statement_keys_spec, key_views, str_views, AssignmentOperator, LogicalOperator, VariableDeclarationKind, assignment_operator_syntax, assignment_operator_syntax_spec, logical_operator_syntax, logical_operator_syntax_spec, variable_declaration_syntax, variable_declaration_syntax_spec};
use crate::text::{chars_of, is_ascii_alnum, ascii_alnum, is_prefix, push_char, push_text, str_eq, str_starts_with, string_from_chars};

verus! {

// ---------------------------------------------------------------------
// Line positions
// ---------------------------------------------------------------------

/// The byte offsets at which lines start: `0`, then one past each `\n`.
pub open spec fn line_starts(b: Seq<u8>) -> Seq<usize>
    decreases b.len(),
{
    if b.len() == 0 {
        seq![0usize]
    } else {
        let p = line_starts(b.drop_last());
        if b.last() == 10u8 {
            p.push(b.len() as usize)
        } else {
            p
        }
    }
}

/// Line starts begin at `0` and strictly increase.
pub open spec fn starts_well_formed(s: Seq<usize>) -> bool {
    &&& s.len() >= 1
    &&& s[0] == 0
    &&& forall|i: int, j: int| 0 <= i < j < s.len() ==> s[i] < s[j]
}

/// How many line starts lie at or before `offset`.
pub open spec fn count_le(s: Seq<usize>, offset: usize) -> nat
    decreases s.len(),
{
    if s.len() == 0 {
        0
    } else if s.last() <= offset {
        count_le(s.drop_last(), offset) + 1
    } else {
        count_le(s.drop_last(), offset)
    }
}

/// The 1-based line and column of a byte offset: the line is the number
/// of line starts at or before it, the column its distance from the last
/// of them, plus one.
pub open spec fn position_spec(s: Seq<usize>, offset: usize) -> (u64, u64) {
    let k = count_le(s, offset);
    (k as u64, (offset - s[k - 1] + 1) as u64)
}

proof fn lemma_line_starts(b: Seq<u8>)
    requires
        b.len() <= usize::MAX,
    ensures
        starts_well_formed(line_starts(b)),
        forall|i: int| 0 <= i < line_starts(b).len() ==> #[trigger] line_starts(b)[i] <= b.len(),
    decreases b.len(),
{
    if b.len() > 0 {
        lemma_line_starts(b.drop_last());
    }
}

proof fn lemma_count_le(s: Seq<usize>, offset: usize, lo: int)
    requires
        starts_well_formed(s),
        0 <= lo <= s.len(),
        forall|k: int| 0 <= k < lo ==> #[trigger] s[k] <= offset,
        forall|k: int| lo <= k < s.len() ==> #[trigger] s[k] > offset,
    ensures
        count_le(s, offset) == lo,
    decreases s.len(),
{
    let p = s.drop_last();
    let n = s.len() - 1;
    let last = s[n];
    assert(s.last() == last);
    assert(s[0] <= offset);
    if p.len() > 0 {
        assert(starts_well_formed(p)) by {
            assert forall|i: int, j: int| 0 <= i < j < p.len() implies p[i] < p[j] by {
                assert(p[i] == s[i] && p[j] == s[j]);
            }
        }
    }
    if lo == s.len() {
        assert(last <= offset);
        assert(count_le(s, offset) == count_le(p, offset) + 1);
        if p.len() > 0 {
            assert forall|k: int| 0 <= k < lo - 1 implies #[trigger] p[k] <= offset by {
                assert(p[k] == s[k]);
            }
            lemma_count_le(p, offset, lo - 1);
        }
    } else {
        assert(last > offset);
        assert(count_le(s, offset) == count_le(p, offset));
        assert(lo < n || lo == n);
        if p.len() > 0 {
            assert forall|k: int| 0 <= k < lo implies #[trigger] p[k] <= offset by {
                assert(p[k] == s[k]);
            }
            assert forall|k: int| lo <= k < p.len() implies #[trigger] p[k] > offset by {
                assert(p[k] == s[k]);
            }
            lemma_count_le(p, offset, lo);
        } else {
            assert(s[0] > offset);
        }
    }
}

/// The first byte of each line is at column 1 of that line.
pub proof fn lemma_line_start_position(s: Seq<usize>, k: int)
    requires
        starts_well_formed(s),
        0 <= k < s.len(),
        k + 1 <= u64::MAX,
    ensures
        position_spec(s, s[k]) == ((k + 1) as u64, 1u64),
{
    assert forall|j: int| 0 <= j < k + 1 implies #[trigger] s[j] <= s[k] by {
        if j < k {
            assert(s[j] < s[k]);
        }
    }
    assert forall|j: int| k + 1 <= j < s.len() implies #[trigger] s[j] > s[k] by {}
    lemma_count_le(s, s[k], k + 1);
}

/// The line starts of a text.
pub struct LineIndex {
    starts: Vec<usize>,
}

impl LineIndex {
    pub closed spec fn starts(&self) -> Seq<usize> {
        self.starts@
    }

    /// Indexes the lines of `text`.
    pub fn new(text: &str) -> (r: Self)
        ensures
            r.starts() == line_starts(utf8_of(text@)),
            starts_well_formed(r.starts()),
    {
        let bytes = text.as_bytes();
        proof {
            assert(bytes@ == utf8_of(text@));
        }
        let mut starts: Vec<usize> = vec![0];
        let mut i: usize = 0;
        assert(bytes@.take(0) =~= Seq::<u8>::empty());
        while i < bytes.len()
            invariant
                i <= bytes@.len(),
                starts@ == line_starts(bytes@.take(i as int)),
            decreases bytes@.len() - i,
        {
            assert(bytes@.take(i + 1).drop_last() =~= bytes@.take(i as int));
            if bytes[i] == 10u8 {
                starts.push(i + 1);
            }
            i = i + 1;
        }
        assert(bytes@.take(bytes@.len() as int) =~= bytes@);
        proof {
            lemma_line_starts(bytes@);
        }
        LineIndex { starts }
    }

    /// The 1-based line and column of a byte offset.
    pub fn line_column(&self, offset: usize) -> (r: (u64, u64))
        requires
            starts_well_formed(self.starts()),
            offset < usize::MAX,
        ensures
            r == position_spec(self.starts(), offset),
            1 <= r.0 <= self.starts().len(),
            self.starts()[r.0 - 1] <= offset,
            r.0 == self.starts().len() || offset < self.starts()[r.0 as int],
    {
        let mut lo: usize = 0;
        let mut hi: usize = self.starts.len();
        while lo < hi
            invariant
                starts_well_formed(self.starts@),
                0 <= lo <= hi <= self.starts@.len(),
                forall|k: int| 0 <= k < lo ==> #[trigger] self.starts@[k] <= offset,
                forall|k: int| hi <= k < self.starts@.len() ==> #[trigger] self.starts@[k] > offset,
            decreases hi - lo,
        {
            let mid = lo + (hi - lo) / 2;
            if self.starts[mid] <= offset {
                lo = mid + 1;
            } else {
                hi = mid;
            }
        }
        proof {
            lemma_count_le(self.starts@, offset, lo as int);
            assert(self.starts@[0] <= offset);
        }
        let line_index = lo - 1;
        let line_start = self.starts[line_index];
        ((line_index + 1) as u64, (offset - line_start + 1) as u64)
    }
}

// ---------------------------------------------------------------------
// Module names
// ---------------------------------------------------------------------

/// A module specifier without its `node:` scheme.
pub open spec fn module_body(m: Seq<char>) -> Seq<char> {
    if is_prefix("node:"@, m) {
        m.skip(5)
    } else {
        m
    }
}

pub open spec fn is_module_char(c: char) -> bool {
    is_ascii_alnum(c) || c == '_' || c == '/'
}

pub open spec fn slash_to_dot(c: char) -> char {
    if c == '/' {
        '.'
    } else {
        c
    }
}

/// The name under which a runtime lists a module: `fs/promises` is
/// `fsPromises`, `timers/promises` is `timersPromises`, other plain names
/// have `/` replaced by `.`; relative paths and the like have none.
pub open spec fn normalize_module_spec(m: Seq<char>) -> Option<Seq<char>> {
    let b = module_body(m);
    if b == "fs/promises"@ {
        Some("fsPromises"@)
    } else if b == "timers/promises"@ {
        Some("timersPromises"@)
    } else if forall|i: int| 0 <= i < b.len() ==> is_module_char(#[trigger] b[i]) {
        Some(b.map_values(|c: char| slash_to_dot(c)))
    } else {
        None
    }
}

pub fn normalize_module_name(module: &str) -> (r: Option<String>)
    ensures
        match r {
            Some(name) => normalize_module_spec(module@) == Some(name@),
            None => normalize_module_spec(module@) is None,
        },
{
    let chars = chars_of(module);
    let mut start: usize = 0;
    if str_starts_with(module, "node:") {
        proof {
            reveal_strlit("node:");
        }
        start = 5;
    }
    let mut body: Vec<char> = Vec::new();
    let mut i: usize = start;
    while i < chars.len()
        invariant
            start <= i <= chars@.len(),
            start == 0 || start == 5,
            chars@ == module@,
            start == 5 ==> is_prefix("node:"@, module@),
            body@ == chars@.subrange(start as int, i as int),
        decreases chars@.len() - i,
    {
        body.push(chars[i]);
        i = i + 1;
        assert(body@ =~= chars@.subrange(start as int, i as int));
    }
    proof {
        reveal_strlit("node:");
        if start == 0 {
            assert(body@ =~= module_body(module@));
        } else {
            assert(body@ =~= module@.skip(5));
        }
        assert(body@ == module_body(module@));
    }
    let text = string_from_chars(body.as_slice());
    if str_eq(text.as_str(), "fs/promises") {
        return Some("fsPromises".to_owned());
    }
    if str_eq(text.as_str(), "timers/promises") {
        return Some("timersPromises".to_owned());
    }
    let mut out = String::new();
    let mut j: usize = 0;
    while j < body.len()
        invariant
            j <= body@.len(),
            text@ == body@,
            body@ == module_body(module@),
            body@ != "fs/promises"@,
            body@ != "timers/promises"@,
            forall|k: int| 0 <= k < j ==> is_module_char(#[trigger] body@[k]),
            out@ == body@.take(j as int).map_values(|c: char| slash_to_dot(c)),
        decreases body@.len() - j,
    {
        let c = body[j];
        if !(ascii_alnum(c) || c == '_' || c == '/') {
            proof {
                assert(!is_module_char(body@[j as int]));
                assert(text@ == body@);
            }
            return None;
        }
        let d = if c == '/' {
            '.'
        } else {
            c
        };
        push_char(&mut out, d);
        j = j + 1;
        assert(out@ =~= body@.take(j as int).map_values(|c: char| slash_to_dot(c)));
    }
    assert(body@.take(body@.len() as int) =~= body@);
    Some(out)
}

// ---------------------------------------------------------------------
// Iterator helpers and Temporal
// ---------------------------------------------------------------------

/// The methods that iterator helpers add.
pub open spec fn is_iterator_helper_spec(m: Seq<char>) -> bool {
    ||| m == "drop"@
    ||| m == "every"@
    ||| m == "filter"@
    ||| m == "find"@
    ||| m == "flatMap"@
    ||| m == "forEach"@
    ||| m == "map"@
    ||| m == "reduce"@
    ||| m == "some"@
    ||| m == "take"@
    ||| m == "toArray"@
}

pub fn is_iterator_helper_method(method: &str) -> (r: bool)
    ensures
        r == is_iterator_helper_spec(method@),
{
    str_eq(method, "drop") || str_eq(method, "every") || str_eq(method, "filter") || str_eq(method, "find")
        || str_eq(method, "flatMap") || str_eq(method, "forEach") || str_eq(method, "map") || str_eq(
        method,
        "reduce",
    ) || str_eq(method, "some") || str_eq(method, "take") || str_eq(method, "toArray")
}

/// Whether `chain` is a member of `owner`: `owner.` followed by a name.
pub open spec fn is_member_of(owner: Seq<char>, chain: Seq<char>) -> bool {
    is_prefix(owner.push('.'), chain) && chain.len() > owner.len() + 1
}

/// The Temporal type whose member a call chain names, in this order of
/// types.
pub open spec fn temporal_owner_spec(chain: Seq<char>) -> Option<Seq<char>> {
    if is_member_of("Temporal.Duration"@, chain) {
        Some("Temporal.Duration"@)
    } else if is_member_of("Temporal.Instant"@, chain) {
        Some("Temporal.Instant"@)
    } else if is_member_of("Temporal.PlainDate"@, chain) {
        Some("Temporal.PlainDate"@)
    } else if is_member_of("Temporal.PlainDateTime"@, chain) {
        Some("Temporal.PlainDateTime"@)
    } else if is_member_of("Temporal.PlainMonthDay"@, chain) {
        Some("Temporal.PlainMonthDay"@)
    } else if is_member_of("Temporal.PlainTime"@, chain) {
        Some("Temporal.PlainTime"@)
    } else if is_member_of("Temporal.PlainYearMonth"@, chain) {
        Some("Temporal.PlainYearMonth"@)
    } else if is_member_of("Temporal.ZonedDateTime"@, chain) {
        Some("Temporal.ZonedDateTime"@)
    } else {
        None
    }
}

fn member_of(owner: &str, chain: &str) -> (r: bool)
    ensures
        r == is_member_of(owner@, chain@),
{
    let mut prefix = String::new();
    push_text(&mut prefix, owner);
    push_char(&mut prefix, '.');
    let chain_chars = chars_of(chain);
    let owner_chars = chars_of(owner);
    str_starts_with(chain, prefix.as_str()) && chain_chars.len() > owner_chars.len() + 1
}

/// The Temporal type that a call of `chain` returns, if `chain` names a
/// member of one.
pub fn temporal_call_result_type(chain: &str) -> (r: Option<&'static str>)
    ensures
        match r {
            Some(owner) => temporal_owner_spec(chain@) == Some(owner@),
            None => temporal_owner_spec(chain@) is None,
        },
{
    if member_of("Temporal.Duration", chain) {
        Some("Temporal.Duration")
    } else if member_of("Temporal.Instant", chain) {
        Some("Temporal.Instant")
    } else if member_of("Temporal.PlainDate", chain) {
        Some("Temporal.PlainDate")
    } else if member_of("Temporal.PlainDateTime", chain) {
        Some("Temporal.PlainDateTime")
    } else if member_of("Temporal.PlainMonthDay", chain) {
        Some("Temporal.PlainMonthDay")
    } else if member_of("Temporal.PlainTime", chain) {
        Some("Temporal.PlainTime")
    } else if member_of("Temporal.PlainYearMonth", chain) {
        Some("Temporal.PlainYearMonth")
    } else if member_of("Temporal.ZonedDateTime", chain) {
        Some("Temporal.ZonedDateTime")
    } else {
        None
    }
}

// ---------------------------------------------------------------------
// Member chains
// ---------------------------------------------------------------------

/// `root` followed by `.part` for each of `parts[1..n]`.
pub open spec fn join_from(root: Seq<char>, parts: Seq<Seq<char>>, n: int) -> Seq<char>
    decreases n,
{
    if n <= 1 {
        root
    } else {
        join_from(root, parts, n - 1).push('.') + parts[n - 1]
    }
}

/// The parts joined with `.`.
pub open spec fn join_spec(parts: Seq<Seq<char>>) -> Seq<char> {
    if parts.len() == 0 {
        Seq::empty()
    } else {
        join_from(parts[0], parts, parts.len() as int)
    }
}

/// The views of a list of strings.
pub open spec fn strings_view(v: Seq<String>) -> Seq<Seq<char>> {
    v.map_values(|s: String| s@)
}

/// Joins `root` and `parts[1..]` with `.`.
pub fn join_parts(root: &str, parts: &Vec<String>) -> (r: String)
    ensures
        r@ == join_from(root@, strings_view(parts@), parts@.len() as int),
{
    let ghost ps = strings_view(parts@);
    let mut out = String::new();
    push_text(&mut out, root);
    assert(out@ =~= root@);
    let mut i: usize = 1;
    while i < parts.len()
        invariant
            1 <= i,
            i <= parts@.len() || (parts@.len() == 0 && i == 1),
            ps == strings_view(parts@),
            out@ == join_from(root@, ps, i as int),
        decreases parts@.len() - i,
    {
        assert(ps[i as int] == parts@[i as int]@);
        push_char(&mut out, '.');
        push_text(&mut out, parts[i].as_str());
        i = i + 1;
    }
    proof {
        if parts@.len() == 0 {
            assert(join_from(root@, ps, 0) == root@);
        } else {
            assert(i == parts@.len());
        }
    }
    out
}

/// Whether a chain whose root names a SQLite object by a conventional
/// variable name was left as written: its root could not be resolved.
pub open spec fn is_unresolved_alias_spec(raw: Seq<Seq<char>>, canonical: Seq<char>) -> bool {
    &&& raw.len() > 0
    &&& (raw[0] == "database"@ || raw[0] == "statement"@ || raw[0] == "sqlTagStore"@)
    &&& canonical == join_spec(raw)
}

pub fn is_unresolved_sqlite_instance_alias(raw_parts: &Vec<String>, canonical_chain: &str) -> (r: bool)
    ensures
        r == is_unresolved_alias_spec(strings_view(raw_parts@), canonical_chain@),
{
    if raw_parts.len() == 0 {
        return false;
    }
    let root = raw_parts[0].as_str();
    if !(str_eq(root, "database") || str_eq(root, "statement") || str_eq(root, "sqlTagStore")) {
        return false;
    }
    let joined = join_parts(root, raw_parts);
    str_eq(canonical_chain, joined.as_str())
}

} // verus!
