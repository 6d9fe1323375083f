//! How the detections of a report are grouped for display: by major
//! version, by kind of feature, merged and ordered.

use vstd::prelude::*;
use crate::order::{lemma_insert_sorted, chars_lt, lemma_chars_lt_irreflexive, lemma_chars_lt_total, lemma_chars_lt_transitive, lemma_sorted_unique, sorted_by, str_lt, strict_order};
use crate::pipeline::{aggregate_feature_detections, aggregate_spec, lemma_aggregate, same_key, total_count};
use crate::scanner::{DetectedFeature, DetectionView, detections_view};
use crate::text::str_eq;
use crate::report::{FeatureCategory, feature_category, feature_category_spec};
use crate::version::{RuntimeVersion, version_lt, zero_version};

verus! {

// ---------------------------------------------------------------------
// Merged entries, by version and feature
// ---------------------------------------------------------------------

/// Entries are listed by version, then feature.
pub open spec fn entry_lt(a: DetectionView, b: DetectionView) -> bool {
    version_lt(a.version, b.version) || (a.version == b.version && chars_lt(a.feature, b.feature))
}

pub open spec fn entry_order() -> spec_fn(DetectionView, DetectionView) -> bool {
    |a: DetectionView, b: DetectionView| entry_lt(a, b)
}

/// The entries merged by feature and version (the first of each, with the
/// counts added up), listed by version, then feature.
pub open spec fn arranged(s: Seq<DetectionView>) -> Seq<DetectionView> {
    choose|t: Seq<DetectionView>|
        sorted_by(t, entry_order()) && forall|x: DetectionView| t.contains(x) <==> aggregate_spec(s).contains(x)
}

proof fn lemma_entry_order()
    ensures
        strict_order(entry_order()),
{
    assert forall|x: DetectionView| !#[trigger] entry_order()(x, x) by {
        lemma_chars_lt_irreflexive(x.feature);
    }
    assert forall|x: DetectionView, y: DetectionView, z: DetectionView|
        #[trigger] entry_order()(x, y) && #[trigger] entry_order()(y, z) implies entry_order()(x, z) by {
        if x.version == y.version && y.version == z.version {
            lemma_chars_lt_transitive(x.feature, y.feature, z.feature);
        }
    }
}

proof fn lemma_entry_total(a: DetectionView, b: DetectionView)
    requires
        !same_key(a, b),
    ensures
        entry_lt(a, b) || entry_lt(b, a),
{
    if a.version == b.version {
        lemma_chars_lt_total(a.feature, b.feature);
    }
}

/// Merges repeated entries and lists them by version, then feature.
pub fn aggregate_entries(entries: &Vec<DetectedFeature>) -> (r: Vec<DetectedFeature>)
    requires
        total_count(detections_view(entries@)) <= usize::MAX,
    ensures
        detections_view(r@) == arranged(detections_view(entries@)),
{
    let ghost s = detections_view(entries@);
    let mut copy: Vec<DetectedFeature> = Vec::new();
    let mut k: usize = 0;
    while k < entries.len()
        invariant
            k <= entries@.len(),
            s == detections_view(entries@),
            detections_view(copy@) == s.take(k as int),
        decreases entries@.len() - k,
    {
        let item = entries[k].duplicate();
        assert(s[k as int] == item@);
        let ghost before = copy@;
        copy.push(item);
        assert(s.take(k + 1) =~= s.take(k as int).push(item@));
        k = k + 1;
        assert(detections_view(copy@) =~= s.take(k as int));
    }
    assert(s.take(s.len() as int) =~= s);
    let merged = aggregate_feature_detections(copy);
    let ghost agg = aggregate_spec(s);
    proof {
        lemma_aggregate(s);
        lemma_entry_order();
    }
    let mut sorted: Vec<DetectedFeature> = Vec::new();
    let mut i: usize = 0;
    while i < merged.len()
        invariant
            i <= merged@.len(),
            agg == detections_view(merged@),
            agg == aggregate_spec(s),
            strict_order(entry_order()),
            forall|a: int, b: int| 0 <= a < b < agg.len() ==> !same_key(#[trigger] agg[a], #[trigger] agg[b]),
            sorted_by(detections_view(sorted@), entry_order()),
            forall|x: DetectionView| detections_view(sorted@).contains(x) <==> agg.take(i as int).contains(x),
        decreases merged@.len() - i,
    {
        let x = &merged[i];
        let ghost t = detections_view(sorted@);
        assert(agg[i as int] == x@);
        let mut p: usize = 0;
        let mut found = false;
        while p < sorted.len() && !found
            invariant
                p <= sorted@.len(),
                t == detections_view(sorted@),
                forall|q: int| 0 <= q < p ==> !entry_lt(x@, #[trigger] t[q]),
                found ==> p < t.len() && entry_lt(x@, t[p as int]),
            decreases sorted@.len() - p + (if found { 0int } else { 1int }),
        {
            if entry_less(x, &sorted[p]) {
                found = true;
            } else {
                p = p + 1;
            }
        }
        proof {
            assert forall|q: int| 0 <= q < t.len() implies !same_key(x@, #[trigger] t[q]) by {
                assert(t.contains(t[q]));
                let tp = agg.take(i as int);
                let a = choose|a: int| 0 <= a < tp.len() && #[trigger] tp[a] == t[q];
                assert(agg[a] == t[q]);
            }
            assert forall|q: int| 0 <= q < p implies entry_lt(#[trigger] t[q], x@) by {
                lemma_entry_total(x@, t[q]);
            }
        }
        sorted.insert(p, x.duplicate());
        proof {
            let u = detections_view(sorted@);
            assert(u =~= t.insert(p as int, x@));
            assert(u.len() == t.len() + 1);
            assert forall|a: int| 0 <= a < p implies #[trigger] u[a] == t[a] by {}
            assert(u[p as int] == x@);
            assert forall|a: int| p < a < u.len() implies #[trigger] u[a] == t[a - 1] by {}
            assert(sorted_by(u, entry_order())) by {
                assert forall|a: int, b: int| 0 <= a < b < u.len() implies entry_order()(#[trigger] u[a], #[trigger] u[b]) by {
                    if b < p {
                        assert(entry_order()(t[a], t[b]));
                    } else if b == p {
                        assert(entry_lt(t[a], x@));
                    } else if a < p {
                        assert(entry_order()(t[a], t[b - 1]));
                    } else if a == p {
                        assert(p < t.len());
                        assert(entry_order()(x@, t[p as int]));
                        if b - 1 > p {
                            assert(entry_order()(t[p as int], t[b - 1]));
                        }
                    } else {
                        assert(entry_order()(t[a - 1], t[b - 1]));
                    }
                }
            }
            assert(agg.take(i + 1) =~= agg.take(i as int).push(x@));
            assert forall|y: DetectionView| u.contains(y) implies agg.take(i + 1).contains(y) by {
                let a = choose|a: int| 0 <= a < u.len() && u[a] == y;
                if a < p {
                    assert(t.contains(t[a]));
                    assert(agg.take(i as int).contains(y));
                    let tp = agg.take(i as int);
                    let w = choose|w: int| 0 <= w < tp.len() && #[trigger] tp[w] == y;
                    assert(agg.take(i + 1)[w] == y);
                } else if a > p {
                    assert(t.contains(t[a - 1]));
                    assert(agg.take(i as int).contains(y));
                    let tp = agg.take(i as int);
                    let w = choose|w: int| 0 <= w < tp.len() && #[trigger] tp[w] == y;
                    assert(agg.take(i + 1)[w] == y);
                } else {
                    assert(agg.take(i + 1)[i as int] == y);
                }
            }
            assert forall|y: DetectionView| agg.take(i + 1).contains(y) implies u.contains(y) by {
                let ti = agg.take(i + 1);
                let w = choose|w: int| 0 <= w < ti.len() && #[trigger] ti[w] == y;
                if w == i {
                    assert(u[p as int] == y);
                } else {
                    assert(agg.take(i as int)[w] == y);
                    assert(agg.take(i as int).contains(y));
                    assert(t.contains(y));
                    let a = choose|a: int| 0 <= a < t.len() && t[a] == y;
                    if a < p {
                        assert(u[a] == y);
                    } else {
                        assert(u[a + 1] == y);
                    }
                }
            }
        }
        i = i + 1;
    }
    proof {
        let u = detections_view(sorted@);
        assert(agg.take(agg.len() as int) =~= agg);
        assert(sorted_by(u, entry_order()) && forall|y: DetectionView| u.contains(y) <==> agg.contains(y));
        let c = arranged(s);
        assert(sorted_by(c, entry_order()) && forall|y: DetectionView| c.contains(y) <==> agg.contains(y));
        lemma_sorted_unique(u, c, entry_order());
    }
    sorted
}

fn entry_less(a: &DetectedFeature, b: &DetectedFeature) -> (r: bool)
    ensures
        r == entry_lt(a@, b@),
{
    a.version.less_than(&b.version) || (a.version.same_as(&b.version) && str_lt(a.feature.as_str(), b.feature.as_str()))
}


// ---------------------------------------------------------------------
// Major versions
// ---------------------------------------------------------------------

pub open spec fn major_order() -> spec_fn(u64, u64) -> bool {
    |a: u64, b: u64| a < b
}

/// Whether some detection is of major version `m`.
pub open spec fn has_major(s: Seq<DetectionView>, m: u64) -> bool {
    exists|i: int| 0 <= i < s.len() && (#[trigger] s[i]).version.major == m
}

/// The major versions of the detections, each once, in ascending order.
pub open spec fn majors_spec(s: Seq<DetectionView>) -> Seq<u64> {
    choose|t: Seq<u64>| sorted_by(t, major_order()) && forall|m: u64| t.contains(m) <==> has_major(s, m)
}

/// The major versions of the entries, each once, in ascending order.
pub fn distinct_majors(entries: &Vec<DetectedFeature>) -> (r: Vec<u64>)
    ensures
        r@ == majors_spec(detections_view(entries@)),
{
    let ghost s = detections_view(entries@);
    let mut majors: Vec<u64> = Vec::new();
    let mut i: usize = 0;
    assert(strict_order(major_order()));
    while i < entries.len()
        invariant
            i <= entries@.len(),
            s == detections_view(entries@),
            strict_order(major_order()),
            sorted_by(majors@, major_order()),
            forall|m: u64| majors@.contains(m) <==> has_major(s.take(i as int), m),
        decreases entries@.len() - i,
    {
        let m = entries[i].version.major;
        assert(s[i as int].version.major == m);
        let ghost t = majors@;
        let mut p: usize = 0;
        while p < majors.len() && majors[p] < m
            invariant
                p <= majors@.len(),
                t == majors@,
                forall|q: int| 0 <= q < p ==> #[trigger] t[q] < m,
            decreases majors@.len() - p,
        {
            p = p + 1;
        }
        proof {
            assert forall|n: u64| has_major(s.take(i + 1), n) <==> (has_major(s.take(i as int), n) || n == m) by {
                let tp = s.take(i as int);
                let tn = s.take(i + 1);
                if has_major(tn, n) {
                    let a = choose|a: int| 0 <= a < tn.len() && (#[trigger] tn[a]).version.major == n;
                    if a < i {
                        assert(tp[a] == tn[a]);
                    }
                }
                if has_major(tp, n) {
                    let a = choose|a: int| 0 <= a < tp.len() && (#[trigger] tp[a]).version.major == n;
                    assert(tn[a] == tp[a]);
                }
                if n == m {
                    assert(tn[i as int] == s[i as int]);
                }
            }
        }
        if p < majors.len() && majors[p] == m {
            proof {
                assert(majors@.contains(m));
                assert forall|n: u64| majors@.contains(n) <==> has_major(s.take(i + 1), n) by {}
            }
        } else {
            proof {
                assert(p < t.len() ==> t[p as int] > m);
                assert forall|q: int| 0 <= q < p implies major_order()(#[trigger] t[q], m) by {}
                lemma_insert_sorted(t, m, p as int, major_order());
            }
            majors.insert(p, m);
            proof {
                assert(majors@ == t.insert(p as int, m));
                assert forall|n: u64| majors@.contains(n) <==> has_major(s.take(i + 1), n) by {
                    assert(t.insert(p as int, m).contains(n) <==> (t.contains(n) || n == m));
                    assert(t.contains(n) <==> has_major(s.take(i as int), n));
                }
            }
        }
        i = i + 1;
    }
    proof {
        assert(s.take(s.len() as int) =~= s);
        let c = majors_spec(s);
        assert(sorted_by(majors@, major_order()) && forall|m: u64| majors@.contains(m) <==> has_major(s, m));
        lemma_sorted_unique(majors@, c, major_order());
    }
    majors
}

/// Keeps the detections that `keep` accepts, in order.
pub open spec fn major_is(m: u64) -> spec_fn(DetectionView) -> bool {
    |d: DetectionView| d.version.major == m
}

pub open spec fn category_is(c: FeatureCategory) -> spec_fn(DetectionView) -> bool {
    |d: DetectionView| feature_category_spec(d.feature) == c
}

pub open spec fn feature_is(f: Seq<char>) -> spec_fn(DetectionView) -> bool {
    |d: DetectionView| d.feature == f
}

/// Which entries a selection keeps.
pub enum Selection<'b> {
    Major(u64),
    Category(FeatureCategory),
    Feature(&'b str),
}

pub open spec fn selection_pred(sel: Selection) -> spec_fn(DetectionView) -> bool {
    match sel {
        Selection::Major(m) => major_is(m),
        Selection::Category(c) => category_is(c),
        Selection::Feature(f) => feature_is(f@),
    }
}

fn selects(sel: &Selection, d: &DetectedFeature) -> (r: bool)
    ensures
        r == selection_pred(*sel)(d@),
{
    match sel {
        Selection::Major(m) => d.version.major == *m,
        Selection::Category(c) => feature_category(d.feature.as_str()) == *c,
        Selection::Feature(f) => str_eq(d.feature.as_str(), f),
    }
}

/// The entries a selection keeps, in order.
pub fn select_entries(entries: &Vec<DetectedFeature>, sel: Selection) -> (r: Vec<DetectedFeature>)
    ensures
        detections_view(r@) == detections_view(entries@).filter(selection_pred(sel)),
{
    let ghost s = detections_view(entries@);
    let mut out: Vec<DetectedFeature> = Vec::new();
    let mut i: usize = 0;
    while i < entries.len()
        invariant
            i <= entries@.len(),
            s == detections_view(entries@),
            detections_view(out@) == s.take(i as int).filter(selection_pred(sel)),
        decreases entries@.len() - i,
    {
        let keep = selects(&sel, &entries[i]);
        proof {
            reveal(Seq::filter);
            assert(s.take(i + 1).drop_last() =~= s.take(i as int));
            assert(s.take(i + 1).last() == s[i as int]);
            assert(s[i as int] == entries@[i as int]@);
        }
        if keep {
            let item = entries[i].duplicate();
            let ghost before = out@;
            out.push(item);
            assert(detections_view(out@) =~= detections_view(before).push(s[i as int]));
        }
        i = i + 1;
    }
    assert(s.take(s.len() as int) =~= s);
    out
}

// ---------------------------------------------------------------------
// The lowest version of a group
// ---------------------------------------------------------------------

/// The earliest version among the detections, `0.0.0` when there are none.
pub open spec fn min_version(d: Seq<DetectionView>) -> RuntimeVersion
    decreases d.len(),
{
    if d.len() == 0 {
        zero_version()
    } else if d.len() == 1 {
        d[0].version
    } else {
        let m = min_version(d.drop_last());
        if version_lt(d.last().version, m) {
            d.last().version
        } else {
            m
        }
    }
}

/// The version of a group is its lowest: no detection in it needs an
/// earlier version, and some detection needs exactly that one, whatever
/// the order of the detections.
pub proof fn lemma_min_version_is_lowest(d: Seq<DetectionView>)
    requires
        d.len() > 0,
    ensures
        forall|i: int| 0 <= i < d.len() ==> !version_lt((#[trigger] d[i]).version, min_version(d)),
        exists|i: int| 0 <= i < d.len() && (#[trigger] d[i]).version == min_version(d),
    decreases d.len(),
{
    if d.len() == 1 {
        assert(d[0].version == min_version(d));
    } else {
        let p = d.drop_last();
        lemma_min_version_is_lowest(p);
        let m = min_version(p);
        let j = choose|j: int| 0 <= j < p.len() && (#[trigger] p[j]).version == m;
        assert(d[j] == p[j]);
        assert forall|i: int| 0 <= i < d.len() implies !version_lt((#[trigger] d[i]).version, min_version(d)) by {
            if i < d.len() - 1 {
                assert(d[i] == p[i]);
                crate::version::lemma_version_order(d[i].version, m, d.last().version);
            }
            crate::version::lemma_version_order(d[i].version, min_version(d), m);
        }
        if version_lt(d.last().version, m) {
            assert(d[d.len() - 1].version == min_version(d));
        }
    }
}

pub fn lowest_group_version(entries: &Vec<DetectedFeature>) -> (r: RuntimeVersion)
    ensures
        r == min_version(detections_view(entries@)),
{
    let ghost d = detections_view(entries@);
    if entries.len() == 0 {
        return RuntimeVersion::zero();
    }
    let mut best = entries[0].version;
    assert(d.take(1).drop_last() =~= Seq::<DetectionView>::empty());
    let mut i: usize = 1;
    while i < entries.len()
        invariant
            1 <= i <= entries@.len(),
            d == detections_view(entries@),
            best == min_version(d.take(i as int)),
        decreases entries@.len() - i,
    {
        proof {
            assert(d.take(i + 1).drop_last() =~= d.take(i as int));
            assert(d.take(i + 1).last() == d[i as int]);
        }
        let v = entries[i].version;
        if v.less_than(&best) {
            best = v;
        }
        i = i + 1;
    }
    assert(d.take(d.len() as int) =~= d);
    best
}

// ---------------------------------------------------------------------
// Inspected detections, by version and place
// ---------------------------------------------------------------------

/// Detections of an inspected feature are listed by version, path, line
/// and column; equal ones keep their order.
pub open spec fn detail_lt(a: DetectionView, b: DetectionView) -> bool {
    ||| version_lt(a.version, b.version)
    ||| (a.version == b.version && chars_lt(a.path, b.path))
    ||| (a.version == b.version && a.path == b.path && a.line < b.line)
    ||| (a.version == b.version && a.path == b.path && a.line == b.line && a.column < b.column)
}

pub open spec fn detail_eq(a: DetectionView, b: DetectionView) -> bool {
    a.version == b.version && a.path == b.path && a.line == b.line && a.column == b.column
}

pub open spec fn indexed_order() -> spec_fn((DetectionView, int), (DetectionView, int)) -> bool {
    |a: (DetectionView, int), b: (DetectionView, int)| detail_lt(a.0, b.0) || (detail_eq(a.0, b.0) && a.1 < b.1)
}

/// Each detection with its position.
pub open spec fn indexed(s: Seq<DetectionView>) -> Seq<(DetectionView, int)> {
    Seq::new(s.len(), |i: int| (s[i], i))
}

/// The detections in a stable order by version, path, line and column.
pub open spec fn stable_sorted(s: Seq<DetectionView>) -> Seq<DetectionView> {
    let t = choose|t: Seq<(DetectionView, int)>|
        sorted_by(t, indexed_order()) && forall|x: (DetectionView, int)| t.contains(x) <==> indexed(s).contains(x);
    t.map_values(|p: (DetectionView, int)| p.0)
}

proof fn lemma_indexed_order()
    ensures
        strict_order(indexed_order()),
{
    assert forall|x: (DetectionView, int)| !#[trigger] indexed_order()(x, x) by {
        lemma_chars_lt_irreflexive(x.0.path);
    }
    assert forall|x: (DetectionView, int), y: (DetectionView, int), z: (DetectionView, int)|
        #[trigger] indexed_order()(x, y) && #[trigger] indexed_order()(y, z) implies indexed_order()(x, z) by {
        if x.0.version == y.0.version && y.0.version == z.0.version {
            if chars_lt(x.0.path, y.0.path) && chars_lt(y.0.path, z.0.path) {
                lemma_chars_lt_transitive(x.0.path, y.0.path, z.0.path);
            }
            if chars_lt(x.0.path, y.0.path) || chars_lt(y.0.path, z.0.path) {
                if x.0.path == z.0.path {
                    if chars_lt(x.0.path, y.0.path) && chars_lt(y.0.path, z.0.path) {
                        lemma_chars_lt_irreflexive(x.0.path);
                    }
                }
            }
        }
        if x.0.version == y.0.version && y.0.version == z.0.version && x.0.path == z.0.path && chars_lt(
            x.0.path,
            y.0.path,
        ) && chars_lt(y.0.path, z.0.path) {
            lemma_chars_lt_transitive(x.0.path, y.0.path, z.0.path);
            lemma_chars_lt_irreflexive(x.0.path);
        }
    }
}

proof fn lemma_detail_total(a: DetectionView, b: DetectionView)
    requires
        !detail_eq(a, b),
    ensures
        detail_lt(a, b) || detail_lt(b, a),
{
    if a.version == b.version && a.path != b.path {
        lemma_chars_lt_total(a.path, b.path);
    }
}

fn detail_less(a: &DetectedFeature, b: &DetectedFeature) -> (r: bool)
    ensures
        r == detail_lt(a@, b@),
{
    if a.version.less_than(&b.version) {
        return true;
    }
    if !a.version.same_as(&b.version) {
        return false;
    }
    if str_lt(a.path.as_str(), b.path.as_str()) {
        return true;
    }
    if !str_eq(a.path.as_str(), b.path.as_str()) {
        return false;
    }
    a.line < b.line || (a.line == b.line && a.column < b.column)
}

fn detail_same(a: &DetectedFeature, b: &DetectedFeature) -> (r: bool)
    ensures
        r == detail_eq(a@, b@),
{
    a.version.same_as(&b.version) && str_eq(a.path.as_str(), b.path.as_str()) && a.line == b.line && a.column
        == b.column
}

/// Sorts detections by version, path, line and column, keeping equal ones
/// in their order.
pub fn sort_by_detail(entries: &Vec<DetectedFeature>) -> (r: Vec<DetectedFeature>)
    ensures
        detections_view(r@) == stable_sorted(detections_view(entries@)),
{
    let ghost s = detections_view(entries@);
    let ghost ix = indexed(s);
    let mut order: Vec<usize> = Vec::new();
    let mut i: usize = 0;
    proof {
        lemma_indexed_order();
    }
    while i < entries.len()
        invariant
            i <= entries@.len(),
            s == detections_view(entries@),
            ix == indexed(s),
            strict_order(indexed_order()),
            forall|k: int| 0 <= k < order@.len() ==> (#[trigger] order@[k]) < i,
            sorted_by(order@.map_values(|k: usize| ix[k as int]), indexed_order()),
            forall|x: (DetectionView, int)|
                order@.map_values(|k: usize| ix[k as int]).contains(x) <==> ix.take(i as int).contains(x),
        decreases entries@.len() - i,
    {
        let ghost t = order@.map_values(|k: usize| ix[k as int]);
        let ghost x = ix[i as int];
        assert(x == (s[i as int], i as int));
        let mut p: usize = 0;
        let mut found = false;
        while p < order.len() && !found
            invariant
                p <= order@.len(),
                i < entries@.len(),
                s == detections_view(entries@),
                ix == indexed(s),
                t == order@.map_values(|k: usize| ix[k as int]),
                x == ix[i as int],
                forall|k: int| 0 <= k < order@.len() ==> (#[trigger] order@[k]) < i,
                forall|q: int| 0 <= q < p ==> !indexed_order()(x, #[trigger] t[q]),
                found ==> p < t.len() && indexed_order()(x, t[p as int]),
            decreases order@.len() - p + (if found { 0int } else { 1int }),
        {
            let k = order[p];
            assert(t[p as int] == ix[k as int]);
            assert(ix[k as int] == (s[k as int], k as int));
            let before = detail_less(&entries[i], &entries[k]) || (detail_same(&entries[i], &entries[k]) && i < k);
            if before {
                found = true;
            } else {
                p = p + 1;
            }
        }
        proof {
            assert forall|q: int| 0 <= q < p implies indexed_order()(#[trigger] t[q], x) by {
                let k = order@[q];
                assert(t[q] == (s[k as int], k as int));
                if !detail_eq(s[k as int], s[i as int]) {
                    lemma_detail_total(s[k as int], s[i as int]);
                }
            }
            lemma_insert_sorted(t, x, p as int, indexed_order());
        }
        order.insert(p, i);
        proof {
            let u = order@.map_values(|k: usize| ix[k as int]);
            assert(u =~= t.insert(p as int, x));
            assert(ix.take(i + 1) =~= ix.take(i as int).push(x));
            assert forall|y: (DetectionView, int)| u.contains(y) <==> ix.take(i + 1).contains(y) by {
                if ix.take(i + 1).contains(y) {
                    let tn = ix.take(i + 1);
                    let w = choose|w: int| 0 <= w < tn.len() && #[trigger] tn[w] == y;
                    if w < i {
                        assert(ix.take(i as int)[w] == y);
                    }
                }
                if ix.take(i as int).contains(y) {
                    let tp = ix.take(i as int);
                    let w = choose|w: int| 0 <= w < tp.len() && #[trigger] tp[w] == y;
                    assert(ix.take(i + 1)[w] == y);
                }
                if y == x {
                    assert(ix.take(i + 1)[i as int] == y);
                }
            }
        }
        i = i + 1;
    }
    let mut out: Vec<DetectedFeature> = Vec::new();
    let mut j: usize = 0;
    while j < order.len()
        invariant
            j <= order@.len(),
            s == detections_view(entries@),
            ix == indexed(s),
            forall|k: int| 0 <= k < order@.len() ==> (#[trigger] order@[k]) < entries@.len(),
            detections_view(out@) == order@.take(j as int).map_values(|k: usize| ix[k as int]).map_values(
                |p: (DetectionView, int)| p.0,
            ),
        decreases order@.len() - j,
    {
        let k = order[j];
        let item = entries[k].duplicate();
        let ghost before = out@;
        out.push(item);
        proof {
            assert(ix[k as int].0 == s[k as int]);
            assert(s[k as int] == entries@[k as int]@);
            assert(order@.take(j + 1) =~= order@.take(j as int).push(k));
            let prevseq = order@.take(j as int).map_values(|k: usize| ix[k as int]).map_values(
                |p: (DetectionView, int)| p.0,
            );
            assert(order@.take(j + 1).map_values(|k: usize| ix[k as int]).map_values(
                |p: (DetectionView, int)| p.0,
            ) =~= prevseq.push(s[k as int]));
            assert(detections_view(out@) =~= detections_view(before).push(s[k as int]));
            assert(detections_view(out@) =~= order@.take(j + 1).map_values(|k: usize| ix[k as int]).map_values(
                |p: (DetectionView, int)| p.0,
            ));
        }
        j = j + 1;
    }
    proof {
        let u = order@.map_values(|k: usize| ix[k as int]);
        assert(order@.take(order@.len() as int) =~= order@);
        assert(ix.take(entries@.len() as int) =~= ix);
        let c = choose|t: Seq<(DetectionView, int)>|
            sorted_by(t, indexed_order()) && forall|x: (DetectionView, int)| t.contains(x) <==> indexed(s).contains(x);
        assert(sorted_by(u, indexed_order()) && forall|x: (DetectionView, int)| u.contains(x) <==> indexed(s).contains(x));
        lemma_sorted_unique(u, c, indexed_order());
    }
    out
}
} // verus!
