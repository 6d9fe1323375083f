//! Fast mode: every runtime's text patterns combined into one matcher, and
//! the rule that turns a match on a line into detections.

use vstd::prelude::*;
use crate::data::{Feature, RuntimeDb};
use crate::scanner::{
    DetectedFeature, DetectionKey, DetectionSeen, DetectionView, detections_view, is_fast_match,
    is_fast_match_spec, new_detection, push_detection,
};
use crate::order::{lemma_sorted_unique, sorted_by, strict_order};

verus! {

broadcast use vstd::string::group_string_axioms;

// ---------------------------------------------------------------------
// The order of patterns: longer first, then by bytes
// ---------------------------------------------------------------------

/// Lexicographic order on bytes, as `Ord` for `[u8]`.
pub open spec fn bytes_lt(a: Seq<u8>, b: Seq<u8>) -> bool
    decreases a.len(),
{
    if a.len() == 0 {
        b.len() > 0
    } else if b.len() == 0 {
        false
    } else if a[0] < b[0] {
        true
    } else if a[0] > b[0] {
        false
    } else {
        bytes_lt(a.drop_first(), b.drop_first())
    }
}

/// Patterns are tried longest first, then in byte order.
pub open spec fn pattern_before(a: Seq<u8>, b: Seq<u8>) -> bool {
    a.len() > b.len() || (a.len() == b.len() && bytes_lt(a, b))
}

pub proof fn lemma_bytes_lt_order(a: Seq<u8>, b: Seq<u8>, c: Seq<u8>)
    ensures
        !bytes_lt(a, a),
        bytes_lt(a, b) ==> !bytes_lt(b, a),
        bytes_lt(a, b) && bytes_lt(b, c) ==> bytes_lt(a, c),
        a != b ==> bytes_lt(a, b) || bytes_lt(b, a),
    decreases a.len(),
{
    if a.len() > 0 && b.len() > 0 && c.len() > 0 {
        lemma_bytes_lt_order(a.drop_first(), b.drop_first(), c.drop_first());
    } else if a.len() > 0 && b.len() > 0 {
        lemma_bytes_lt_order(a.drop_first(), b.drop_first(), b.drop_first());
    } else if a.len() > 0 {
        lemma_bytes_lt_order(a.drop_first(), a.drop_first(), a.drop_first());
    }
    if a.len() > 0 && b.len() > 0 && a[0] == b[0] && a.drop_first() == b.drop_first() {
        assert(a =~= seq![a[0]] + a.drop_first());
        assert(b =~= seq![b[0]] + b.drop_first());
    }
    if a.len() == 0 && b.len() == 0 {
        assert(a =~= b);
    }
}

pub proof fn lemma_pattern_order(a: Seq<u8>, b: Seq<u8>, c: Seq<u8>)
    ensures
        !pattern_before(a, a),
        pattern_before(a, b) ==> !pattern_before(b, a),
        pattern_before(a, b) && pattern_before(b, c) ==> pattern_before(a, c),
        a != b ==> pattern_before(a, b) || pattern_before(b, a),
{
    lemma_bytes_lt_order(a, b, c);
}

fn bytes_before(a: &[u8], b: &[u8]) -> (r: bool)
    ensures
        r == pattern_before(a@, b@),
{
    if a.len() != b.len() {
        return a.len() > b.len();
    }
    let mut i: usize = 0;
    assert(a@.skip(0) =~= a@ && b@.skip(0) =~= b@);
    while i < a.len()
        invariant
            a.len() == b.len(),
            i <= a.len(),
            bytes_lt(a@, b@) == bytes_lt(a@.skip(i as int), b@.skip(i as int)),
        decreases a.len() - i,
    {
        let x = a[i];
        let y = b[i];
        assert(a@.skip(i as int)[0] == x && b@.skip(i as int)[0] == y);
        assert(a@.skip(i as int).drop_first() =~= a@.skip(i + 1));
        assert(b@.skip(i as int).drop_first() =~= b@.skip(i + 1));
        if x < y {
            return true;
        }
        if x > y {
            return false;
        }
        i = i + 1;
    }
    false
}

fn bytes_equal(a: &[u8], b: &[u8]) -> (r: bool)
    ensures
        r == (a@ == b@),
{
    if a.len() != b.len() {
        return false;
    }
    let mut i: usize = 0;
    while i < a.len()
        invariant
            a.len() == b.len(),
            i <= a.len(),
            forall|k: int| 0 <= k < i ==> a@[k] == b@[k],
        decreases a.len() - i,
    {
        if a[i] != b[i] {
            return false;
        }
        i = i + 1;
    }
    assert(a@ =~= b@);
    true
}

/// The UTF-8 bytes of a text.
pub open spec fn utf8_of(s: Seq<char>) -> Seq<u8> {
    vstd::utf8::encode_utf8(s)
}

proof fn lemma_utf8_injective(a: Seq<char>, b: Seq<char>)
    requires
        utf8_of(a) == utf8_of(b),
    ensures
        a == b,
{
    vstd::utf8::encode_utf8_decode_utf8(a);
    vstd::utf8::encode_utf8_decode_utf8(b);
}

// ---------------------------------------------------------------------
// Candidates: every (pattern, runtime, feature) the databases offer
// ---------------------------------------------------------------------

/// A runtime that has a feature under a text pattern.
#[derive(Debug)]
pub struct RuntimePattern {
    pub runtime_index: usize,
    pub feature: Feature,
}

pub fn copy_feature(f: &Feature) -> (r: Feature)
    ensures
        r == *f,
{
    Feature { id: f.id, name: f.name.clone(), version: f.version }
}

fn copy_runtime_pattern(p: &RuntimePattern) -> (r: RuntimePattern)
    ensures
        r == *p,
{
    RuntimePattern { runtime_index: p.runtime_index, feature: copy_feature(&p.feature) }
}

/// The candidates of the first `n` fast patterns of runtime `ri`: each
/// pattern whose feature the database knows.
pub open spec fn runtime_candidates(db: RuntimeDb, ri: usize, n: int) -> Seq<(Seq<char>, RuntimePattern)>
    decreases n,
{
    if n <= 0 || n > db.fast_patterns@.len() {
        Seq::empty()
    } else {
        let prev = runtime_candidates(db, ri, n - 1);
        let p = db.fast_patterns@[n - 1]@;
        match db.pattern_spec(p) {
            Some(f) => prev.push((p, RuntimePattern { runtime_index: ri, feature: f })),
            None => prev,
        }
    }
}

/// The candidates of the first `m` runtimes, runtime by runtime.
pub open spec fn candidates(runtimes: Seq<RuntimeDb>, m: int) -> Seq<(Seq<char>, RuntimePattern)>
    decreases m,
{
    if m <= 0 || m > runtimes.len() {
        Seq::empty()
    } else {
        candidates(runtimes, m - 1) + runtime_candidates(
            runtimes[m - 1],
            (m - 1) as usize,
            runtimes[m - 1].fast_patterns@.len() as int,
        )
    }
}

/// The runtimes that offer pattern `p`, in candidate order.
pub open spec fn hits_for(cands: Seq<(Seq<char>, RuntimePattern)>, p: Seq<char>) -> Seq<RuntimePattern>
    decreases cands.len(),
{
    if cands.len() == 0 {
        Seq::empty()
    } else {
        let prev = hits_for(cands.drop_last(), p);
        if cands.last().0 == p {
            prev.push(cands.last().1)
        } else {
            prev
        }
    }
}

proof fn lemma_hits_for_absent(cands: Seq<(Seq<char>, RuntimePattern)>, p: Seq<char>)
    requires
        forall|k: int| 0 <= k < cands.len() ==> (#[trigger] cands[k]).0 != p,
    ensures
        hits_for(cands, p) == Seq::<RuntimePattern>::empty(),
    decreases cands.len(),
{
    if cands.len() > 0 {
        lemma_hits_for_absent(cands.drop_last(), p);
    }
}

fn collect_candidates(runtimes: &Vec<RuntimeDb>) -> (r: Vec<(String, RuntimePattern)>)
    ensures
        r@.len() == candidates(runtimes@, runtimes@.len() as int).len(),
        forall|k: int| 0 <= k < r@.len() ==> (#[trigger] r@[k]).0@ == candidates(runtimes@, runtimes@.len() as int)[k].0
            && r@[k].1 == candidates(runtimes@, runtimes@.len() as int)[k].1,
{
    let mut out: Vec<(String, RuntimePattern)> = Vec::new();
    let mut ri: usize = 0;
    while ri < runtimes.len()
        invariant
            ri <= runtimes@.len(),
            out@.len() == candidates(runtimes@, ri as int).len(),
            forall|k: int| 0 <= k < out@.len() ==> (#[trigger] out@[k]).0@ == candidates(runtimes@, ri as int)[k].0
                && out@[k].1 == candidates(runtimes@, ri as int)[k].1,
        decreases runtimes@.len() - ri,
    {
        let db = &runtimes[ri];
        let ghost base = candidates(runtimes@, ri as int);
        let mut pi: usize = 0;
        while pi < db.fast_patterns.len()
            invariant
                ri < runtimes@.len(),
                *db == runtimes@[ri as int],
                base == candidates(runtimes@, ri as int),
                pi <= db.fast_patterns@.len(),
                out@.len() == base.len() + runtime_candidates(*db, ri, pi as int).len(),
                forall|k: int| 0 <= k < out@.len() ==> (#[trigger] out@[k]).0@ == (base + runtime_candidates(*db, ri, pi as int))[k].0
                    && out@[k].1 == (base + runtime_candidates(*db, ri, pi as int))[k].1,
            decreases db.fast_patterns@.len() - pi,
        {
            let pattern = &db.fast_patterns[pi];
            match db.feature_for_pattern(pattern.as_str()) {
                Some(f) => {
                    let rp = RuntimePattern { runtime_index: ri, feature: copy_feature(f) };
                    out.push((pattern.clone(), rp));
                },
                None => {},
            }
            pi = pi + 1;
            proof {
                let next = base + runtime_candidates(*db, ri, pi as int);
                let prev = base + runtime_candidates(*db, ri, (pi - 1) as int);
                assert forall|k: int| 0 <= k < out@.len() implies (#[trigger] out@[k]).0@ == next[k].0
                    && out@[k].1 == next[k].1 by {
                    if k < prev.len() {
                        assert(next[k] == prev[k]);
                    }
                }
            }
        }
        ri = ri + 1;
        proof {
            assert(candidates(runtimes@, ri as int) =~= base + runtime_candidates(
                runtimes@[ri - 1],
                (ri - 1) as usize,
                runtimes@[ri - 1].fast_patterns@.len() as int,
            ));
        }
    }
    out
}

// ---------------------------------------------------------------------
// Grouping the candidates by pattern
// ---------------------------------------------------------------------

/// The combined patterns, in matching order, with the runtimes that offer
/// each.
pub struct FastPatternTable {
    pub patterns: Vec<String>,
    pub runtimes: Vec<Vec<RuntimePattern>>,
}

impl FastPatternTable {
    /// The table groups `cands`: one entry per distinct pattern, longest
    /// first and then in byte order, each with the runtimes that offer it in
    /// candidate order.
    pub open spec fn groups(&self, cands: Seq<(Seq<char>, RuntimePattern)>) -> bool {
        &&& self.patterns@.len() == self.runtimes@.len()
        &&& forall|i: int, j: int|
            0 <= i < j < self.patterns@.len() ==> pattern_before(
                utf8_of(#[trigger] self.patterns@[i]@),
                utf8_of(#[trigger] self.patterns@[j]@),
            )
        &&& forall|i: int| 0 <= i < self.patterns@.len() ==> (#[trigger] self.runtimes@[i])@ == hits_for(
            cands,
            self.patterns@[i]@,
        )
        &&& forall|i: int| 0 <= i < self.patterns@.len() ==> hits_for(cands, (#[trigger] self.patterns@[i])@).len() > 0
        &&& forall|k: int| 0 <= k < cands.len() ==> exists|i: int|
            0 <= i < self.patterns@.len() && (#[trigger] self.patterns@[i])@ == (#[trigger] cands[k]).0
    }
}

proof fn lemma_hits_nonempty_member(cands: Seq<(Seq<char>, RuntimePattern)>, p: Seq<char>)
    requires
        hits_for(cands, p).len() > 0,
    ensures
        exists|k: int| 0 <= k < cands.len() && (#[trigger] cands[k]).0 == p,
    decreases cands.len(),
{
    if cands.len() > 0 {
        if cands.last().0 == p {
            assert(cands[cands.len() - 1].0 == p);
        } else {
            lemma_hits_nonempty_member(cands.drop_last(), p);
            let k = choose|k: int| 0 <= k < cands.drop_last().len() && (#[trigger] cands.drop_last()[k]).0 == p;
            assert(cands[k] == cands.drop_last()[k]);
        }
    }
}

fn group_candidates(cands: Vec<(String, RuntimePattern)>) -> (t: FastPatternTable)
    ensures
        t.groups(cands@.map_values(|c: (String, RuntimePattern)| (c.0@, c.1))),
{
    let ghost all = cands@.map_values(|c: (String, RuntimePattern)| (c.0@, c.1));
    let mut t = FastPatternTable { patterns: Vec::new(), runtimes: Vec::new() };
    let mut n: usize = 0;
    while n < cands.len()
        invariant
            n <= cands@.len(),
            all == cands@.map_values(|c: (String, RuntimePattern)| (c.0@, c.1)),
            t.groups(all.take(n as int)),
        decreases cands@.len() - n,
    {
        let ghost done = all.take(n as int);
        let ghost next = all.take(n + 1);
        assert(next.drop_last() =~= done);
        assert(next.last() == all[n as int]);
        let pattern = &cands[n].0;
        let key = pattern.as_str().as_bytes();
        let mut i: usize = 0;
        while i < t.patterns.len() && bytes_before(t.patterns[i].as_str().as_bytes(), key)
            invariant
                i <= t.patterns@.len(),
                t.groups(done),
                key@ == utf8_of(pattern@),
                forall|k: int| 0 <= k < i ==> pattern_before(utf8_of(#[trigger] t.patterns@[k]@), key@),
            decreases t.patterns@.len() - i,
        {
            i = i + 1;
        }
        let ghost p = pattern@;
        if i < t.patterns.len() && bytes_equal(t.patterns[i].as_str().as_bytes(), key) {
            proof {
                lemma_utf8_injective(t.patterns@[i as int]@, p);
            }
            let rp = copy_runtime_pattern(&cands[n].1);
            let ghost old_t_runtimes = t.runtimes@;
            let ghost old_t_patterns = t.patterns@;
            t.runtimes[i].push(rp);
            proof {
                assert forall|j: int| 0 <= j < t.patterns@.len() implies (#[trigger] t.runtimes@[j])@ == hits_for(
                    next,
                    t.patterns@[j]@,
                ) by {
                    if j == i {
                    } else {
                        assert(t.runtimes@[j] == old_t_runtimes[j]);
                    }
                }
                assert forall|j: int| 0 <= j < t.patterns@.len() implies hits_for(next, (#[trigger] t.patterns@[j])@).len() > 0 by {
                    if t.patterns@[j]@ != p {
                        assert(hits_for(next, t.patterns@[j]@) == hits_for(done, t.patterns@[j]@));
                    }
                }
                assert forall|k: int| 0 <= k < next.len() implies exists|j: int|
                    0 <= j < t.patterns@.len() && (#[trigger] t.patterns@[j])@ == (#[trigger] next[k]).0 by {
                    if k < done.len() {
                        assert(next[k] == done[k]);
                        let j = choose|j: int| 0 <= j < old_t_patterns.len() && (#[trigger] old_t_patterns[j])@ == done[k].0;
                        assert(t.patterns@[j] == old_t_patterns[j]);
                    } else {
                        assert(t.patterns@[i as int]@ == next[k].0);
                    }
                }
            }
        } else {
            proof {
                // No entry holds this pattern, so no earlier candidate had it.
                assert forall|j: int| 0 <= j < t.patterns@.len() implies (#[trigger] t.patterns@[j])@ != p by {
                    lemma_pattern_order(utf8_of(t.patterns@[j]@), utf8_of(p), utf8_of(t.patterns@[i as int]@));
                    if j > i {
                        lemma_pattern_order(utf8_of(p), utf8_of(t.patterns@[i as int]@), utf8_of(t.patterns@[j]@));
                        lemma_pattern_order(utf8_of(t.patterns@[i as int]@), utf8_of(p), utf8_of(p));
                    }
                }
                assert forall|k: int| 0 <= k < done.len() implies (#[trigger] done[k]).0 != p by {
                    let j = choose|j: int| 0 <= j < t.patterns@.len() && (#[trigger] t.patterns@[j])@ == done[k].0;
                }
                lemma_hits_for_absent(done, p);
                if i < t.patterns@.len() {
                    lemma_pattern_order(utf8_of(t.patterns@[i as int]@), utf8_of(p), utf8_of(p));
                }
            }
            let ghost old_patterns = t.patterns@;
            let ghost old_runtimes = t.runtimes@;
            let rp = copy_runtime_pattern(&cands[n].1);
            t.patterns.insert(i, pattern.clone());
            t.runtimes.insert(i, vec![rp]);
            proof {
                assert(t.patterns@[i as int]@ == p);
                assert forall|a: int| 0 <= a < t.patterns@.len() implies (a < i ==> t.patterns@[a] == old_patterns[a])
                    && (a > i ==> t.patterns@[a] == old_patterns[a - 1]) && (a < i ==> t.runtimes@[a] == old_runtimes[a])
                    && (a > i ==> t.runtimes@[a] == old_runtimes[a - 1]) by {
                }
                assert forall|a: int, b: int|
                    0 <= a < b < t.patterns@.len() implies pattern_before(
                    utf8_of(#[trigger] t.patterns@[a]@),
                    utf8_of(#[trigger] t.patterns@[b]@),
                ) by {
                    if a < i && b > i {
                        lemma_pattern_order(utf8_of(old_patterns[a]@), utf8_of(p), utf8_of(old_patterns[b - 1]@));
                        lemma_pattern_order(utf8_of(old_patterns[i as int]@), utf8_of(p), utf8_of(p));
                        if b - 1 > i {
                            lemma_pattern_order(utf8_of(p), utf8_of(old_patterns[i as int]@), utf8_of(old_patterns[b - 1]@));
                        }
                    } else if a == i && b > i {
                        lemma_pattern_order(utf8_of(old_patterns[i as int]@), utf8_of(p), utf8_of(p));
                        if b - 1 > i {
                            lemma_pattern_order(utf8_of(p), utf8_of(old_patterns[i as int]@), utf8_of(old_patterns[b - 1]@));
                        }
                    }
                }
                assert forall|j: int| 0 <= j < t.patterns@.len() implies (#[trigger] t.runtimes@[j])@ == hits_for(
                    next,
                    t.patterns@[j]@,
                ) by {
                    if j == i {
                        assert(t.runtimes@[j]@ =~= seq![all[n as int].1]);
                        assert(hits_for(next, p) =~= seq![all[n as int].1]);
                    } else if j < i {
                        assert(hits_for(next, t.patterns@[j]@) == hits_for(done, t.patterns@[j]@));
                    } else {
                        assert(hits_for(next, t.patterns@[j]@) == hits_for(done, t.patterns@[j]@));
                    }
                }
                assert forall|j: int| 0 <= j < t.patterns@.len() implies hits_for(next, (#[trigger] t.patterns@[j])@).len() > 0 by {
                    if j != i {
                        assert(hits_for(next, t.patterns@[j]@) == hits_for(done, t.patterns@[j]@));
                        if j < i {
                            assert(hits_for(done, old_patterns[j]@).len() > 0);
                        } else {
                            assert(hits_for(done, old_patterns[j - 1]@).len() > 0);
                        }
                    }
                }
                assert forall|k: int| 0 <= k < next.len() implies exists|j: int|
                    0 <= j < t.patterns@.len() && (#[trigger] t.patterns@[j])@ == (#[trigger] next[k]).0 by {
                    if k < done.len() {
                        assert(next[k] == done[k]);
                        let j = choose|j: int| 0 <= j < old_patterns.len() && (#[trigger] old_patterns[j])@ == done[k].0;
                        if j < i {
                            assert(t.patterns@[j] == old_patterns[j]);
                        } else {
                            assert(t.patterns@[j + 1] == old_patterns[j]);
                        }
                    } else {
                        assert(t.patterns@[i as int]@ == next[k].0);
                    }
                }
            }
        }
        n = n + 1;
    }
    assert(all.take(cands@.len() as int) =~= all);
    t
}


/// Patterns in matching order: by their bytes, longest first, then in
/// byte order.
pub open spec fn pattern_order() -> spec_fn(Seq<char>, Seq<char>) -> bool {
    |a: Seq<char>, b: Seq<char>| pattern_before(utf8_of(a), utf8_of(b))
}

/// The distinct patterns that the runtimes offer for known features, in
/// matching order.
pub open spec fn combined_patterns(runtimes: Seq<RuntimeDb>) -> Seq<Seq<char>> {
    let cands = candidates(runtimes, runtimes.len() as int);
    choose|t: Seq<Seq<char>>|
        sorted_by(t, pattern_order()) && forall|x: Seq<char>|
            t.contains(x) <==> exists|k: int| 0 <= k < cands.len() && (#[trigger] cands[k]).0 == x
}

proof fn lemma_pattern_order_strict()
    ensures
        strict_order(pattern_order()),
{
    assert forall|x: Seq<char>| !#[trigger] pattern_order()(x, x) by {
        lemma_pattern_order(utf8_of(x), utf8_of(x), utf8_of(x));
    }
    assert forall|x: Seq<char>, y: Seq<char>, z: Seq<char>|
        #[trigger] pattern_order()(x, y) && #[trigger] pattern_order()(y, z) implies pattern_order()(x, z) by {
        lemma_pattern_order(utf8_of(x), utf8_of(y), utf8_of(z));
    }
}

/// A table that groups the runtimes' candidates lists exactly the
/// combined patterns.
proof fn lemma_table_patterns(t: FastPatternTable, runtimes: Seq<RuntimeDb>)
    requires
        t.groups(candidates(runtimes, runtimes.len() as int)),
    ensures
        t.patterns@.map_values(|p: String| p@) == combined_patterns(runtimes),
{
    let cands = candidates(runtimes, runtimes.len() as int);
    let v = t.patterns@.map_values(|p: String| p@);
    lemma_pattern_order_strict();
    assert(sorted_by(v, pattern_order())) by {
        assert forall|i: int, j: int| 0 <= i < j < v.len() implies pattern_order()(#[trigger] v[i], #[trigger] v[j]) by {
            assert(v[i] == t.patterns@[i]@);
            assert(v[j] == t.patterns@[j]@);
        }
    }
    assert forall|x: Seq<char>|
        v.contains(x) <==> exists|k: int| 0 <= k < cands.len() && (#[trigger] cands[k]).0 == x by {
        if v.contains(x) {
            let i = choose|i: int| 0 <= i < v.len() && v[i] == x;
            assert(t.patterns@[i]@ == x);
            lemma_hits_nonempty_member(cands, x);
        }
        if exists|k: int| 0 <= k < cands.len() && (#[trigger] cands[k]).0 == x {
            let k = choose|k: int| 0 <= k < cands.len() && (#[trigger] cands[k]).0 == x;
            let i = choose|i: int| 0 <= i < t.patterns@.len() && (#[trigger] t.patterns@[i])@ == cands[k].0;
            assert(v[i] == x);
        }
    }
    let c = combined_patterns(runtimes);
    lemma_sorted_unique(v, c, pattern_order());
}

/// Every pattern of the runtimes that names a known feature, grouped: one
/// entry per distinct pattern, longest first, with the runtimes offering it.
pub fn combined_fast_patterns(runtimes: &Vec<RuntimeDb>) -> (t: FastPatternTable)
    ensures
        t.groups(candidates(runtimes@, runtimes@.len() as int)),
{
    let cands = collect_candidates(runtimes);
    let ghost c = cands@;
    let t = group_candidates(cands);
    assert(c.map_values(|x: (String, RuntimePattern)| (x.0@, x.1)) =~= candidates(
        runtimes@,
        runtimes@.len() as int,
    ));
    t
}

// ---------------------------------------------------------------------
// Leftmost-longest matching (aho_corasick)
// ---------------------------------------------------------------------

#[verifier::external_type_specification]
#[verifier::external_body]
pub struct ExAhoCorasick(aho_corasick::AhoCorasick);

#[verifier::external_type_specification]
#[verifier::external_body]
pub struct ExBuildError(aho_corasick::BuildError);

/// Whether `p` occurs in `hay` at byte `i`.
pub open spec fn occurs_at(p: Seq<u8>, hay: Seq<u8>, i: int) -> bool {
    0 <= i && i + p.len() <= hay.len() && hay.subrange(i, i + p.len()) == p
}

/// Pattern `k` is a longest pattern occurring at `i`.
pub open spec fn longest_at(pats: Seq<Seq<u8>>, hay: Seq<u8>, i: int, k: int) -> bool {
    &&& 0 <= k < pats.len()
    &&& occurs_at(pats[k], hay, i)
    &&& forall|j: int| 0 <= j < pats.len() && occurs_at(#[trigger] pats[j], hay, i) ==> pats[j].len() <= pats[k].len()
}

/// The non-overlapping leftmost-longest matches of `pats` in `hay` from
/// byte `from` on, as `(pattern, start, end)`: at the leftmost position
/// where some pattern occurs, the longest one; then on from its end.
pub open spec fn leftmost_longest_from(pats: Seq<Seq<u8>>, hay: Seq<u8>, from: int) -> Seq<(usize, usize, usize)>
    decreases hay.len() - from,
{
    if from < 0 || from >= hay.len() {
        Seq::empty()
    } else if exists|k: int| longest_at(pats, hay, from, k) && pats[k].len() > 0 {
        let k = choose|k: int| longest_at(pats, hay, from, k) && pats[k].len() > 0;
        seq![(k as usize, from as usize, (from + pats[k].len()) as usize)] + leftmost_longest_from(
            pats,
            hay,
            from + pats[k].len(),
        )
    } else {
        leftmost_longest_from(pats, hay, from + 1)
    }
}

/// Patterns that the matcher accepts: none empty, none twice.
pub open spec fn matchable(pats: Seq<Seq<u8>>) -> bool {
    &&& forall|k: int| 0 <= k < pats.len() ==> (#[trigger] pats[k]).len() > 0
    &&& pats.no_duplicates()
}

/// An `aho_corasick` automaton with leftmost-longest semantics, together
/// with the patterns it was built from.
pub struct PatternMatcher {
    patterns: Vec<String>,
    automaton: aho_corasick::AhoCorasick,
}

impl PatternMatcher {
    /// The UTF-8 bytes of the patterns, in order.
    pub closed spec fn pattern_bytes(&self) -> Seq<Seq<u8>> {
        self.patterns@.map_values(|p: String| utf8_of(p@))
    }
}

/// Whether `aho_corasick::AhoCorasickBuilder::build`, with
/// `MatchKind::LeftmostLongest` and otherwise the default configuration,
/// builds an automaton for these patterns (it fails past the crate's size
/// limits).
pub uninterp spec fn aho_corasick_builds(patterns: Seq<Seq<u8>>) -> bool;

/// Calls `aho_corasick::AhoCorasickBuilder::build` with
/// `MatchKind::LeftmostLongest`. Claimed: it succeeds exactly when the
/// named predicate holds of the patterns' bytes (the configuration is
/// fixed, so nothing else decides), and the automaton is the one for these
/// patterns, in this order.
#[verifier::external_body]
fn build_pattern_matcher(patterns: &Vec<String>) -> (r: Result<PatternMatcher, aho_corasick::BuildError>)
    ensures
        r is Ok == aho_corasick_builds(patterns@.map_values(|p: String| utf8_of(p@))),
        r matches Ok(m) ==> m.pattern_bytes() == patterns@.map_values(|p: String| utf8_of(p@)),
{
    match aho_corasick::AhoCorasickBuilder::new()
        .match_kind(aho_corasick::MatchKind::LeftmostLongest)
        .build(patterns.iter())
    {
        Ok(automaton) => Ok(PatternMatcher { patterns: patterns.clone(), automaton }),
        Err(error) => Err(error),
    }
}

/// Calls `aho_corasick::AhoCorasick::find_iter` on `text` and lists each
/// match as `(pattern, start, end)`. Claimed: these are the leftmost-longest
/// non-overlapping matches that the crate documents for `MatchKind::LeftmostLongest`.
#[verifier::external_body]
fn find_leftmost_longest(matcher: &PatternMatcher, text: &str) -> (r: Vec<(usize, usize, usize)>)
    requires
        matchable(matcher.pattern_bytes()),
    ensures
        r@ == leftmost_longest_from(matcher.pattern_bytes(), utf8_of(text@), 0),
{
    let mut out = Vec::new();
    for found in matcher.automaton.find_iter(text) {
        out.push((found.pattern().as_usize(), found.start(), found.end()));
    }
    out
}


proof fn lemma_leftmost_longest_bounds(pats: Seq<Seq<u8>>, hay: Seq<u8>, from: int)
    requires
        hay.len() <= usize::MAX,
        pats.len() <= usize::MAX,
    ensures
        forall|k: int| 0 <= k < leftmost_longest_from(pats, hay, from).len() ==> {
            let m = #[trigger] leftmost_longest_from(pats, hay, from)[k];
            &&& (m.0 as int) < pats.len()
            &&& m.1 < m.2
            &&& m.2 <= hay.len()
            &&& m.2 == m.1 + pats[m.0 as int].len()
        },
    decreases hay.len() - from,
{
    if from < 0 || from >= hay.len() {
    } else if exists|k: int| longest_at(pats, hay, from, k) && pats[k].len() > 0 {
        let k = choose|k: int| longest_at(pats, hay, from, k) && pats[k].len() > 0;
        assert(longest_at(pats, hay, from, k) && pats[k].len() > 0);
        assert(from + pats[k].len() <= hay.len());
        lemma_leftmost_longest_bounds(pats, hay, from + pats[k].len());
        let rest = leftmost_longest_from(pats, hay, from + pats[k].len());
        let all = leftmost_longest_from(pats, hay, from);
        assert(all == seq![(k as usize, from as usize, (from + pats[k].len()) as usize)] + rest);
        assert forall|i: int| 0 <= i < all.len() implies {
            let m = #[trigger] all[i];
            &&& (m.0 as int) < pats.len()
            &&& m.1 < m.2
            &&& m.2 <= hay.len()
            &&& m.2 == m.1 + pats[m.0 as int].len()
        } by {
            if i > 0 {
                assert(all[i] == rest[i - 1]);
            }
        }
    } else {
        lemma_leftmost_longest_bounds(pats, hay, from + 1);
        assert(leftmost_longest_from(pats, hay, from) == leftmost_longest_from(pats, hay, from + 1));
    }
}

proof fn lemma_candidates_index(runtimes: Seq<RuntimeDb>, m: int)
    ensures
        forall|k: int| 0 <= k < candidates(runtimes, m).len() ==> (#[trigger] candidates(runtimes, m)[k]).1.runtime_index < runtimes.len(),
    decreases m,
{
    if m <= 0 || m > runtimes.len() {
    } else {
        lemma_candidates_index(runtimes, m - 1);
        let db = runtimes[m - 1];
        lemma_runtime_candidates_index(db, (m - 1) as usize, db.fast_patterns@.len() as int);
        let a = candidates(runtimes, m - 1);
        let b = runtime_candidates(db, (m - 1) as usize, db.fast_patterns@.len() as int);
        assert forall|k: int| 0 <= k < candidates(runtimes, m).len() implies (#[trigger] candidates(runtimes, m)[k]).1.runtime_index < runtimes.len() by {
            if k < a.len() {
                assert(candidates(runtimes, m)[k] == a[k]);
            } else {
                assert(candidates(runtimes, m)[k] == b[k - a.len()]);
            }
        }
    }
}

proof fn lemma_runtime_candidates_index(db: RuntimeDb, ri: usize, n: int)
    ensures
        forall|k: int| 0 <= k < runtime_candidates(db, ri, n).len() ==> (#[trigger] runtime_candidates(db, ri, n)[k]).1.runtime_index == ri,
    decreases n,
{
    if n > 0 && n <= db.fast_patterns@.len() {
        lemma_runtime_candidates_index(db, ri, n - 1);
        let prev = runtime_candidates(db, ri, n - 1);
        assert forall|k: int| 0 <= k < runtime_candidates(db, ri, n).len() implies (#[trigger] runtime_candidates(db, ri, n)[k]).1.runtime_index == ri by {
            if k < prev.len() {
                assert(runtime_candidates(db, ri, n)[k] == prev[k]);
            }
        }
    }
}

proof fn lemma_hits_index(cands: Seq<(Seq<char>, RuntimePattern)>, p: Seq<char>, bound: nat)
    requires
        forall|k: int| 0 <= k < cands.len() ==> (#[trigger] cands[k]).1.runtime_index < bound,
    ensures
        forall|k: int| 0 <= k < hits_for(cands, p).len() ==> (#[trigger] hits_for(cands, p)[k]).runtime_index < bound,
    decreases cands.len(),
{
    if cands.len() > 0 {
        lemma_hits_index(cands.drop_last(), p, bound);
        let prev = hits_for(cands.drop_last(), p);
        assert forall|k: int| 0 <= k < hits_for(cands, p).len() implies (#[trigger] hits_for(cands, p)[k]).runtime_index < bound by {
            if k < prev.len() {
                assert(hits_for(cands, p)[k] == prev[k]);
            } else {
                assert(cands.last() == cands[cands.len() - 1]);
            }
        }
    }
}

/// Why fast mode cannot run.
#[derive(Debug, Clone, Copy, PartialEq, Eq, Structural)]
pub enum FastScanError {
    /// A database offers an empty text pattern.
    EmptyPattern,
    /// The matcher could not be built (too many or too long patterns).
    MatcherBuildFailed,
}

/// A use of `feature` in runtime `runtime_index`, at a byte column.
pub type LineHit = (usize, Feature, u64);

/// The state of all runtimes' detections, as plain values.
pub open spec fn detections_by_runtime_view(d: Seq<Vec<DetectedFeature>>) -> Seq<Seq<DetectionView>> {
    d.map_values(|v: Vec<DetectedFeature>| detections_view(v@))
}

pub open spec fn seen_by_runtime_view(s: Seq<DetectionSeen>) -> Seq<Seq<DetectionKey>> {
    s.map_values(|x: DetectionSeen| x.keys())
}

/// Recording `hits` one after another, each into its runtime's detections
/// unless that runtime already has the same feature at the same place.
pub open spec fn record_hits(
    dets: Seq<Seq<DetectionView>>,
    keys: Seq<Seq<DetectionKey>>,
    hits: Seq<LineHit>,
    file_index: usize,
    path: Seq<char>,
    line: u64,
) -> (Seq<Seq<DetectionView>>, Seq<Seq<DetectionKey>>)
    decreases hits.len(),
{
    if hits.len() == 0 {
        (dets, keys)
    } else {
        let (d, k) = record_hits(dets, keys, hits.drop_last(), file_index, path, line);
        let h = hits.last();
        let r = h.0 as int;
        let key = (h.1.id, file_index, line, h.2);
        if k[r].contains(key) {
            (d, k)
        } else {
            (d.update(r, d[r].push(new_detection(h.1, path, line, h.2))), k.update(r, k[r].push(key)))
        }
    }
}

/// The fast-mode scanner: the runtimes, their combined patterns, and the
/// matcher built from them.
pub struct FastScanner {
    runtimes: Vec<RuntimeDb>,
    table: FastPatternTable,
    matcher: Option<PatternMatcher>,
}

impl FastScanner {
    pub closed spec fn runtimes_spec(&self) -> Seq<RuntimeDb> {
        self.runtimes@
    }

    pub closed spec fn patterns_spec(&self) -> Seq<Seq<char>> {
        self.table.patterns@.map_values(|p: String| p@)
    }

    pub closed spec fn offers_spec(&self) -> Seq<Seq<RuntimePattern>> {
        self.table.runtimes@.map_values(|v: Vec<RuntimePattern>| v@)
    }

    closed spec fn matcher_bytes(&self) -> Seq<Seq<u8>> {
        match self.matcher {
            Some(m) => m.pattern_bytes(),
            None => Seq::empty(),
        }
    }

    /// The leftmost-longest matches of the combined patterns in `line`.
    pub closed spec fn matches_on(&self, line: Seq<char>) -> Seq<(usize, usize, usize)> {
        match self.matcher {
            Some(m) => leftmost_longest_from(m.pattern_bytes(), utf8_of(line), 0),
            None => Seq::empty(),
        }
    }

    /// The scanner's parts agree: the table groups the runtimes' candidates
    /// and the matcher holds the table's patterns.
    pub closed spec fn well_formed(&self) -> bool {
        &&& self.table.groups(candidates(self.runtimes@, self.runtimes@.len() as int))
        &&& forall|i: int, k: int|
            0 <= i < self.table.runtimes@.len() && 0 <= k < self.table.runtimes@[i]@.len()
                ==> (#[trigger] self.table.runtimes@[i]@[k]).runtime_index < self.runtimes@.len()
        &&& match self.matcher {
            Some(m) => {
                &&& m.pattern_bytes() == self.table.patterns@.map_values(|p: String| utf8_of(p@))
                &&& matchable(m.pattern_bytes())
            },
            None => self.table.patterns@.len() == 0,
        }
    }

    /// The hits that match `m` gives, from the first `t` runtimes offering
    /// its pattern: those for which the match counts.
    pub open spec fn match_hits(&self, line: Seq<char>, m: (usize, usize, usize), t: int) -> Seq<LineHit>
        decreases t,
    {
        let k = m.0 as int;
        if t <= 0 || k >= self.offers_spec().len() || t > self.offers_spec()[k].len() {
            Seq::empty()
        } else {
            let prev = self.match_hits(line, m, t - 1);
            let rp = self.offers_spec()[k][t - 1];
            if is_fast_match_spec(
                self.runtimes_spec()[rp.runtime_index as int],
                line,
                m.1 as int,
                m.2 as int,
                self.patterns_spec()[k],
            ) {
                prev.push((rp.runtime_index, rp.feature, (m.1 + 1) as u64))
            } else {
                prev
            }
        }
    }

    /// The hits of the first `j` matches on `line`.
    pub open spec fn line_hits(&self, line: Seq<char>, j: int) -> Seq<LineHit>
        decreases j,
    {
        let ms = self.matches_on(line);
        if j <= 0 || j > ms.len() {
            Seq::empty()
        } else {
            let m = ms[j - 1];
            self.line_hits(line, j - 1) + self.match_hits(
                line,
                m,
                if (m.0 as int) < self.offers_spec().len() {
                    self.offers_spec()[m.0 as int].len() as int
                } else {
                    0
                },
            )
        }
    }

    /// All hits on `line`, in order of matches and then of runtimes.
    pub open spec fn hits_on_line(&self, line: Seq<char>) -> Seq<LineHit> {
        self.line_hits(line, self.matches_on(line).len() as int)
    }

    /// Builds the scanner for `runtimes`: combines their patterns and
    /// builds the matcher (none when there are no patterns).
    pub fn new(runtimes: Vec<RuntimeDb>) -> (r: Result<FastScanner, FastScanError>)
        ensures
            r matches Ok(s) ==> {
                &&& s.well_formed()
                &&& s.runtimes_spec() == runtimes@
            },
            r == Err::<FastScanner, FastScanError>(FastScanError::EmptyPattern) <==> exists|k: int|
                0 <= k < candidates(runtimes@, runtimes@.len() as int).len() && (#[trigger] candidates(
                    runtimes@,
                    runtimes@.len() as int,
                )[k]).0.len() == 0,
            r == Err::<FastScanner, FastScanError>(FastScanError::MatcherBuildFailed) <==> {
                &&& !exists|k: int|
                    0 <= k < candidates(runtimes@, runtimes@.len() as int).len() && (#[trigger] candidates(
                        runtimes@,
                        runtimes@.len() as int,
                    )[k]).0.len() == 0
                &&& combined_patterns(runtimes@).len() > 0
                &&& !aho_corasick_builds(combined_patterns(runtimes@).map_values(|p: Seq<char>| utf8_of(p)))
            },
            r matches Ok(s) ==> s.patterns_spec() == combined_patterns(runtimes@),
    {
        let table = combined_fast_patterns(&runtimes);
        let ghost cands = candidates(runtimes@, runtimes@.len() as int);
        proof {
            lemma_table_patterns(table, runtimes@);
            assert(table.patterns@.map_values(|p: String| utf8_of(p@)) =~= combined_patterns(runtimes@).map_values(
                |p: Seq<char>| utf8_of(p),
            ));
            lemma_candidates_index(runtimes@, runtimes@.len() as int);
            assert forall|i: int, k: int|
                0 <= i < table.runtimes@.len() && 0 <= k < table.runtimes@[i]@.len()
                    implies (#[trigger] table.runtimes@[i]@[k]).runtime_index < runtimes@.len() by {
                lemma_hits_index(cands, table.patterns@[i]@, runtimes@.len());
            }
        }
        let mut i: usize = 0;
        while i < table.patterns.len()
            invariant
                i <= table.patterns@.len(),
                cands == candidates(runtimes@, runtimes@.len() as int),
                table.groups(cands),
                forall|k: int| 0 <= k < i ==> (#[trigger] table.patterns@[k])@.len() > 0,
            decreases table.patterns@.len() - i,
        {
            if table.patterns[i].as_str().is_empty() {
                proof {
                    let p = table.patterns@[i as int]@;
                    lemma_hits_nonempty_member(cands, p);
                }
                return Err(FastScanError::EmptyPattern);
            }
            i = i + 1;
        }
        proof {
            assert forall|k: int| 0 <= k < cands.len() implies (#[trigger] cands[k]).0.len() > 0 by {
                let j = choose|j: int| 0 <= j < table.patterns@.len() && (#[trigger] table.patterns@[j])@ == cands[k].0;
            }
        }
        if table.patterns.len() == 0 {
            return Ok(FastScanner { runtimes, table, matcher: None });
        }
        let matcher = match build_pattern_matcher(&table.patterns) {
            Ok(m) => m,
            Err(_) => return Err(FastScanError::MatcherBuildFailed),
        };
        proof {
            let pb = matcher.pattern_bytes();
            assert forall|k: int| 0 <= k < pb.len() implies (#[trigger] pb[k]).len() > 0 by {
                let p = table.patterns@[k]@;
                assert(pb[k] == utf8_of(p));
                assert(p.len() > 0);
                assert(utf8_of(p).len() > 0) by {
                    reveal_with_fuel(vstd::utf8::encode_utf8, 2);
                }
            }
            assert forall|a: int, b: int| 0 <= a < pb.len() && 0 <= b < pb.len() && a != b implies pb[a] != pb[b] by {
                if a < b {
                    lemma_pattern_order(pb[a], pb[a], pb[a]);
                    assert(pattern_before(utf8_of(table.patterns@[a]@), utf8_of(table.patterns@[b]@)));
                } else {
                    lemma_pattern_order(pb[b], pb[b], pb[b]);
                    assert(pattern_before(utf8_of(table.patterns@[b]@), utf8_of(table.patterns@[a]@)));
                }
            }
        }
        Ok(FastScanner { runtimes, table, matcher: Some(matcher) })
    }

    /// Records the detections that text matching finds on one line of file
    /// `file_index`: every leftmost-longest pattern match, for every runtime
    /// offering the pattern, when the match counts for that runtime (see
    /// `is_fast_match`), at byte column `start + 1`.
    pub fn scan_line(
        &self,
        line: &str,
        line_number: u64,
        file_index: usize,
        path: &str,
        detections: &mut Vec<Vec<DetectedFeature>>,
        seen: &mut Vec<DetectionSeen>,
    )
        requires
            self.well_formed(),
            old(detections)@.len() == self.runtimes_spec().len(),
            old(seen)@.len() == self.runtimes_spec().len(),
            forall|r: int| 0 <= r < old(seen)@.len() ==> (#[trigger] old(seen)@[r]).well_formed(),
        ensures
            final(detections)@.len() == old(detections)@.len(),
            final(seen)@.len() == old(seen)@.len(),
            forall|r: int| 0 <= r < final(seen)@.len() ==> (#[trigger] final(seen)@[r]).well_formed(),
            (detections_by_runtime_view(final(detections)@), seen_by_runtime_view(final(seen)@))
                == record_hits(
                detections_by_runtime_view(old(detections)@),
                seen_by_runtime_view(old(seen)@),
                self.hits_on_line(line@),
                file_index,
                path@,
                line_number,
            ),
    {
        let ghost d0 = detections_by_runtime_view(detections@);
        let ghost s0 = seen_by_runtime_view(seen@);
        let ms: Vec<(usize, usize, usize)> = match &self.matcher {
            Some(m) => find_leftmost_longest(m, line),
            None => Vec::new(),
        };
        let ghost pats = self.matcher_bytes();
        let line_bytes = line.as_bytes();
        let _line_len = line_bytes.len();
        let _pattern_count = self.table.patterns.len();
        proof {
            assert(line_bytes@ == utf8_of(line@));
            lemma_leftmost_longest_bounds(pats, utf8_of(line@), 0);
            assert(ms@ == self.matches_on(line@));
            assert(pats.len() == self.table.patterns@.len());
        }
        let mut j: usize = 0;
        while j < ms.len()
            invariant
                self.well_formed(),
                j <= ms@.len(),
                ms@ == self.matches_on(line@),
                pats.len() == self.table.patterns@.len(),
                forall|k: int| 0 <= k < ms@.len() ==> {
                    let m = #[trigger] ms@[k];
                    &&& (m.0 as int) < pats.len()
                    &&& m.1 < m.2
                },
                detections@.len() == self.runtimes_spec().len(),
                seen@.len() == self.runtimes_spec().len(),
                forall|r: int| 0 <= r < seen@.len() ==> (#[trigger] seen@[r]).well_formed(),
                (detections_by_runtime_view(detections@), seen_by_runtime_view(seen@)) == record_hits(
                    d0,
                    s0,
                    self.line_hits(line@, j as int),
                    file_index,
                    path@,
                    line_number,
                ),
            decreases ms@.len() - j,
        {
            let (k, start, end) = ms[j];
            let pattern = &self.table.patterns[k];
            let offers = &self.table.runtimes[k];
            let ghost base = self.line_hits(line@, j as int);
            let mut t: usize = 0;
            while t < offers.len()
                invariant
                    self.well_formed(),
                    j < ms@.len(),
                    ms@ == self.matches_on(line@),
                    ms@[j as int] == (k, start, end),
                    (k as int) < self.table.patterns@.len(),
                    start < end,
                    *pattern == self.table.patterns@[k as int],
                    *offers == self.table.runtimes@[k as int],
                    t <= offers@.len(),
                    base == self.line_hits(line@, j as int),
                    detections@.len() == self.runtimes_spec().len(),
                    seen@.len() == self.runtimes_spec().len(),
                    forall|r: int| 0 <= r < seen@.len() ==> (#[trigger] seen@[r]).well_formed(),
                    (detections_by_runtime_view(detections@), seen_by_runtime_view(seen@)) == record_hits(
                        d0,
                        s0,
                        base + self.match_hits(line@, (k, start, end), t as int),
                        file_index,
                        path@,
                        line_number,
                    ),
                decreases offers@.len() - t,
            {
                let rp = &offers[t];
                let r = rp.runtime_index;
                proof {
                    assert(self.offers_spec()[k as int] == offers@);
                    assert(self.offers_spec()[k as int][t as int] == *rp);
                    assert(self.patterns_spec()[k as int] == pattern@);
                    assert(self.runtimes_spec()[r as int] == self.runtimes@[r as int]);
                }
                let counts = is_fast_match(&self.runtimes[r], line, start, end, pattern.as_str());
                let ghost before = base + self.match_hits(line@, (k, start, end), t as int);
                let ghost after = base + self.match_hits(line@, (k, start, end), t + 1);
                if counts {
                    let column = (start + 1) as u64;
                    let ghost old_d = detections@;
                    let ghost old_s = seen@;
                    proof {
                        assert(after =~= before.push((r, rp.feature, column)));
                        assert(after.drop_last() =~= before);
                    }
                    push_detection(
                        &mut detections[r],
                        &mut seen[r],
                        &rp.feature,
                        file_index,
                        path,
                        line_number,
                        column,
                    );
                    proof {
                        assert forall|q: int| 0 <= q < seen@.len() implies (#[trigger] seen@[q]).well_formed() by {
                            if q != r {
                                assert(seen@[q] == old_s[q]);
                            }
                        }
                        let dv = detections_by_runtime_view(detections@);
                        let sv = seen_by_runtime_view(seen@);
                        let odv = detections_by_runtime_view(old_d);
                        let osv = seen_by_runtime_view(old_s);
                        let key = (rp.feature.id, file_index, line_number, column);
                        if osv[r as int].contains(key) {
                            assert(dv =~= odv);
                            assert(sv =~= osv);
                        } else {
                            assert(dv =~= odv.update(r as int, odv[r as int].push(new_detection(rp.feature, path@, line_number, column))));
                            assert(sv =~= osv.update(r as int, osv[r as int].push(key)));
                        }
                    }
                } else {
                    proof {
                        assert(after =~= before);
                    }
                }
                t = t + 1;
            }
            j = j + 1;
            proof {
                assert(self.line_hits(line@, j as int) =~= base + self.match_hits(
                    line@,
                    (k, start, end),
                    offers@.len() as int,
                ));
            }
        }
    }
}


/// A line without the line terminators at its end.
pub open spec fn strip_line_end(s: Seq<char>) -> Seq<char>
    decreases s.len(),
{
    if s.len() > 0 && (s.last() == '\r' || s.last() == '\n') {
        strip_line_end(s.drop_last())
    } else {
        s
    }
}

fn trimmed_line(line: &str) -> (r: String)
    ensures
        r@ == strip_line_end(line@),
{
    let chars = crate::text::chars_of(line);
    let mut end: usize = chars.len();
    assert(chars@.take(end as int) =~= chars@);
    while end > 0 && (chars[end - 1] == '\r' || chars[end - 1] == '\n')
        invariant
            end <= chars@.len(),
            chars@ == line@,
            strip_line_end(line@) == strip_line_end(chars@.take(end as int)),
        decreases end,
    {
        assert(chars@.take(end as int).drop_last() =~= chars@.take(end - 1));
        end = end - 1;
    }
    let out = crate::text::string_from_chars(&chars.as_slice()[0..end]);
    assert(chars@.take(end as int) == chars@.subrange(0, end as int));
    out
}

/// Fresh results for `n` runtimes: no detections, nothing seen.
pub fn empty_results(n: usize) -> (r: (Vec<Vec<DetectedFeature>>, Vec<DetectionSeen>))
    ensures
        r.0@.len() == n,
        r.1@.len() == n,
        forall|k: int| 0 <= k < n ==> (#[trigger] r.0@[k])@.len() == 0,
        forall|k: int| 0 <= k < n ==> (#[trigger] r.1@[k]).well_formed() && r.1@[k].keys().len() == 0,
{
    let mut detections: Vec<Vec<DetectedFeature>> = Vec::new();
    let mut seen: Vec<DetectionSeen> = Vec::new();
    let mut i: usize = 0;
    while i < n
        invariant
            i <= n,
            detections@.len() == i,
            seen@.len() == i,
            forall|k: int| 0 <= k < i ==> (#[trigger] detections@[k])@.len() == 0,
            forall|k: int| 0 <= k < i ==> (#[trigger] seen@[k]).well_formed() && seen@[k].keys().len() == 0,
        decreases n - i,
    {
        detections.push(Vec::new());
        seen.push(DetectionSeen::new());
        i = i + 1;
    }
    (detections, seen)
}

impl FastScanner {
    /// The combined patterns, as the matcher holds them.
    pub fn patterns(&self) -> (r: &Vec<String>)
        ensures
            r@.map_values(|p: String| p@) == self.patterns_spec(),
    {
        &self.table.patterns
    }

    /// The runtimes the scanner was built for.
    pub fn runtime_count(&self) -> (r: usize)
        ensures
            r == self.runtimes_spec().len(),
    {
        self.runtimes.len()
    }

    /// Records the detections on a line that a search matched: the line
    /// without its terminators, numbered as the search numbered it (line
    /// 1 when it did not).
    pub fn scan_matched(
        &self,
        line: &str,
        line_number: Option<u64>,
        file_index: usize,
        path: &str,
        detections: &mut Vec<Vec<DetectedFeature>>,
        seen: &mut Vec<DetectionSeen>,
    )
        requires
            self.well_formed(),
            old(detections)@.len() == self.runtimes_spec().len(),
            old(seen)@.len() == self.runtimes_spec().len(),
            forall|r: int| 0 <= r < old(seen)@.len() ==> (#[trigger] old(seen)@[r]).well_formed(),
        ensures
            final(detections)@.len() == old(detections)@.len(),
            final(seen)@.len() == old(seen)@.len(),
            forall|r: int| 0 <= r < final(seen)@.len() ==> (#[trigger] final(seen)@[r]).well_formed(),
            (detections_by_runtime_view(final(detections)@), seen_by_runtime_view(final(seen)@))
                == record_hits(
                detections_by_runtime_view(old(detections)@),
                seen_by_runtime_view(old(seen)@),
                self.hits_on_line(strip_line_end(line@)),
                file_index,
                path@,
                match line_number {
                    Some(n) => n,
                    None => 1,
                },
            ),
    {
        let text = trimmed_line(line);
        let number = match line_number {
            Some(n) => n,
            None => 1,
        };
        self.scan_line(text.as_str(), number, file_index, path, detections, seen);
    }
}
} // verus!
