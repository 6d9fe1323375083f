//! How a run is planned, and how the detections of each runtime become its
//! report.

use vstd::prelude::*;
use crate::cli::{Cli, RuntimeKind, targets_spec};
use crate::data::{DataError, RuntimeDb, RuntimeRegistry, runtime};
use crate::engines::EnginesReport;
use crate::labels::{is_node_api_feature, is_node_api_feature_spec};
use crate::report::{ParserMode, RuntimeReport};
use crate::scanner::{DetectedFeature, DetectionView, detections_view};
use crate::text::{is_prefix, push_text, str_eq, str_starts_with};
use crate::version::{RuntimeVersion, version_lt, zero_version};

verus! {

// ---------------------------------------------------------------------
// Planning a run
// ---------------------------------------------------------------------

/// Why a run cannot start.
#[derive(Debug, Clone, Copy, PartialEq, Eq, Structural)]
pub enum RunError {
    /// `--fix` was given for a runtime other than Node.js or all.
    FixNeedsNode,
}

impl RunError {
    pub fn message(self) -> (r: &'static str)
        ensures
            r@ == "--fix is currently only supported for --runtime node or --runtime all"@,
    {
        match self {
            RunError::FixNeedsNode => "--fix is currently only supported for --runtime node or --runtime all",
        }
    }
}

/// What a run does, as decided from its command line.
pub struct RunOptions {
    pub parser: ParserMode,
    /// Whether detections are aggregated (every run but `--inspect`).
    pub aggregate: bool,
    pub targets: Vec<RuntimeKind>,
}

/// Decides a run from its command line: `--fix` only with `node` or `all`;
/// text scanning with `--fast`, AST parsing otherwise; aggregation unless a
/// feature is inspected; the target runtimes of `--runtime`.
pub fn plan_run(cli: &Cli) -> (r: Result<RunOptions, RunError>)
    ensures
        (cli.fix && cli.runtime != RuntimeKind::All && cli.runtime != RuntimeKind::Node) ==> r
            is Err,
        !(cli.fix && cli.runtime != RuntimeKind::All && cli.runtime != RuntimeKind::Node) ==> (r matches Ok(o) && {
            &&& o.parser == (if cli.fast {
                ParserMode::Text
            } else {
                ParserMode::Oxc
            })
            &&& o.aggregate == (cli.inspect is None)
            &&& o.targets@ == targets_spec(cli.runtime)
        }),
{
    if cli.fix && !(cli.runtime == RuntimeKind::All || cli.runtime == RuntimeKind::Node) {
        return Err(RunError::FixNeedsNode);
    }
    let parser = if cli.fast {
        ParserMode::Text
    } else {
        ParserMode::Oxc
    };
    let aggregate = cli.inspect.is_none();
    Ok(RunOptions { parser, aggregate, targets: cli.runtime.targets() })
}

/// Safari, Chromium and Firefox.
pub open spec fn is_browser_spec(kind: RuntimeKind) -> bool {
    kind == RuntimeKind::Safari || kind == RuntimeKind::Chrome || kind == RuntimeKind::Firefox
}

pub fn is_browser_runtime(runtime: RuntimeKind) -> (r: bool)
    ensures
        r == is_browser_spec(runtime),
{
    match runtime {
        RuntimeKind::Safari | RuntimeKind::Chrome | RuntimeKind::Firefox => true,
        _ => false,
    }
}

/// Browsers are told about Node.js API use even when Node.js itself is
/// not a target: then Node.js is scanned too, without a report of its own.
pub open spec fn needs_hidden_node(targets: Seq<RuntimeKind>) -> bool {
    &&& exists|i: int| 0 <= i < targets.len() && is_browser_spec(#[trigger] targets[i])
    &&& !targets.contains(RuntimeKind::Node)
}

/// The databases to scan with, and where the hidden Node.js one is.
pub struct ScanPlan<'a> {
    pub runtimes: Vec<&'a RuntimeDb>,
    pub hidden_node_index: Option<usize>,
}

impl<'a> ScanPlan<'a> {
    /// The targets' databases, followed by Node.js's when it is needed
    /// but not targeted.
    pub fn new(
        targets: &Vec<RuntimeKind>,
        target_runtimes: &Vec<&'a RuntimeDb>,
        registry: &'a RuntimeRegistry,
    ) -> (r: Result<ScanPlan<'a>, DataError>)
        ensures
            r matches Ok(plan) && if needs_hidden_node(targets@) {
                &&& plan.runtimes@ == target_runtimes@.push(&registry.node)
                &&& plan.hidden_node_index == Some(target_runtimes@.len() as usize)
            } else {
                &&& plan.runtimes@ == target_runtimes@
                &&& plan.hidden_node_index is None
            },
    {
        let mut any_browser = false;
        let mut has_node = false;
        let mut i: usize = 0;
        while i < targets.len()
            invariant
                i <= targets@.len(),
                any_browser == exists|k: int| 0 <= k < i && is_browser_spec(#[trigger] targets@[k]),
                has_node == targets@.take(i as int).contains(RuntimeKind::Node),
            decreases targets@.len() - i,
        {
            let t = targets[i];
            proof {
                let before = targets@.take(i as int);
                let after = targets@.take(i + 1);
                assert(after =~= before.push(t));
                if t == RuntimeKind::Node {
                    assert(after[i as int] == t);
                } else if before.contains(RuntimeKind::Node) {
                    let w = choose|w: int| 0 <= w < before.len() && before[w] == RuntimeKind::Node;
                    assert(after[w] == RuntimeKind::Node);
                } else {
                    assert forall|w: int| 0 <= w < after.len() implies after[w] != RuntimeKind::Node by {
                        if w < before.len() {
                            assert(after[w] == before[w]);
                        }
                    }
                }
            }
            if is_browser_runtime(t) {
                any_browser = true;
            }
            if t == RuntimeKind::Node {
                has_node = true;
            }
            i = i + 1;
        }
        assert(targets@.take(targets@.len() as int) =~= targets@);
        let needs_hidden = any_browser && !has_node;
        let mut runtimes: Vec<&'a RuntimeDb> = Vec::new();
        let mut k: usize = 0;
        while k < target_runtimes.len()
            invariant
                k <= target_runtimes@.len(),
                runtimes@ == target_runtimes@.take(k as int),
            decreases target_runtimes@.len() - k,
        {
            runtimes.push(target_runtimes[k]);
            k = k + 1;
            assert(runtimes@ =~= target_runtimes@.take(k as int));
        }
        assert(target_runtimes@.take(target_runtimes@.len() as int) =~= target_runtimes@);
        let hidden_node_index = if needs_hidden {
            let index = runtimes.len();
            match runtime(registry, RuntimeKind::Node) {
                Ok(node) => runtimes.push(node),
                Err(e) => return Err(e),
            }
            Some(index)
        } else {
            None
        };
        Ok(ScanPlan { runtimes, hidden_node_index })
    }
}

// ---------------------------------------------------------------------
// Node.js API use
// ---------------------------------------------------------------------

/// Whether a detection belongs to a Node.js core API.
pub open spec fn uses_node_api(d: Seq<DetectionView>) -> bool {
    exists|i: int| 0 <= i < d.len() && is_node_api_feature_spec((#[trigger] d[i]).feature)
}

pub fn has_node_api_detections(detections: &Vec<DetectedFeature>) -> (r: bool)
    ensures
        r == uses_node_api(detections_view(detections@)),
{
    let ghost d = detections_view(detections@);
    let mut i: usize = 0;
    while i < detections.len()
        invariant
            i <= detections@.len(),
            d == detections_view(detections@),
            forall|k: int| 0 <= k < i ==> !is_node_api_feature_spec((#[trigger] d[k]).feature),
        decreases detections@.len() - i,
    {
        if is_node_api_feature(detections[i].feature.as_str()) {
            assert(d[i as int].feature == detections@[i as int].feature@);
            return true;
        }
        i = i + 1;
    }
    false
}

/// The per-runtime flags of Node.js API use: a runtime is flagged when its
/// own detections use a Node.js API, or when the hidden Node.js scan found
/// one.
pub fn node_api_flags(
    hidden_node_index: Option<usize>,
    detections_by_runtime: &Vec<Vec<DetectedFeature>>,
    target_count: usize,
) -> (r: Vec<bool>)
    requires
        target_count <= detections_by_runtime@.len(),
    ensures
        r@.len() == target_count,
        forall|i: int| 0 <= i < target_count ==> #[trigger] r@[i] == ((match hidden_node_index {
            Some(h) => (h as int) < detections_by_runtime@.len() && uses_node_api(
                detections_view(detections_by_runtime@[h as int]@),
            ),
            None => false,
        }) || uses_node_api(detections_view(detections_by_runtime@[i]@))),
{
    let hidden = match hidden_node_index {
        Some(h) => h < detections_by_runtime.len() && has_node_api_detections(&detections_by_runtime[h]),
        None => false,
    };
    let mut flags: Vec<bool> = Vec::new();
    let mut i: usize = 0;
    while i < target_count
        invariant
            i <= target_count <= detections_by_runtime@.len(),
            flags@.len() == i,
            hidden == (match hidden_node_index {
                Some(h) => (h as int) < detections_by_runtime@.len() && uses_node_api(
                    detections_view(detections_by_runtime@[h as int]@),
                ),
                None => false,
            }),
            forall|k: int| 0 <= k < i ==> #[trigger] flags@[k] == (hidden || uses_node_api(
                detections_view(detections_by_runtime@[k]@),
            )),
        decreases target_count - i,
    {
        let own = has_node_api_detections(&detections_by_runtime[i]);
        flags.push(hidden || own);
        i = i + 1;
    }
    flags
}

// ---------------------------------------------------------------------
// The minimum version
// ---------------------------------------------------------------------

/// The latest version among the detections, `0.0.0` when there are none.
pub open spec fn max_version(d: Seq<DetectionView>) -> RuntimeVersion
    decreases d.len(),
{
    if d.len() == 0 {
        zero_version()
    } else {
        let m = max_version(d.drop_last());
        if version_lt(m, d.last().version) {
            d.last().version
        } else {
            m
        }
    }
}

/// The minimum version a runtime needs: the latest version among the
/// detections.
pub fn minimum_version(detections: &Vec<DetectedFeature>) -> (r: RuntimeVersion)
    ensures
        r == max_version(detections_view(detections@)),
{
    let ghost d = detections_view(detections@);
    let mut best = RuntimeVersion::zero();
    let mut i: usize = 0;
    while i < detections.len()
        invariant
            i <= detections@.len(),
            d == detections_view(detections@),
            best == max_version(d.take(i as int)),
        decreases detections@.len() - i,
    {
        proof {
            assert(d.take(i + 1).drop_last() =~= d.take(i as int));
            assert(d.take(i + 1).last() == d[i as int]);
        }
        let v = detections[i].version;
        if best.less_than(&v) {
            best = v;
        }
        i = i + 1;
    }
    assert(d.take(d.len() as int) =~= d);
    best
}

/// No detection needs a later version than the minimum, and the minimum is
/// `0.0.0` or the version of some detection.
pub proof fn lemma_max_version_bounds(d: Seq<DetectionView>)
    ensures
        forall|i: int| 0 <= i < d.len() ==> !version_lt(max_version(d), (#[trigger] d[i]).version),
        max_version(d) == zero_version() || exists|i: int| 0 <= i < d.len() && (#[trigger] d[i]).version
            == max_version(d),
    decreases d.len(),
{
    if d.len() > 0 {
        let p = d.drop_last();
        lemma_max_version_bounds(p);
        let m = max_version(p);
        assert forall|i: int| 0 <= i < d.len() implies !version_lt(max_version(d), (#[trigger] d[i]).version) by {
            if i < d.len() - 1 {
                assert(d[i] == p[i]);
            }
        }
        if max_version(d) != zero_version() {
            if version_lt(m, d.last().version) {
                assert(d[d.len() - 1].version == max_version(d));
            } else {
                let j = choose|j: int| 0 <= j < p.len() && (#[trigger] p[j]).version == m;
                assert(d[j] == p[j]);
            }
        }
    }
}

// ---------------------------------------------------------------------
// Collapsing detections that a longer one covers
// ---------------------------------------------------------------------

/// Whether another detection at the same place names a member of `d`'s
/// feature (`fs` is covered by `fs.cp` at the same line and column).
pub open spec fn is_covered(s: Seq<DetectionView>, d: DetectionView) -> bool {
    exists|j: int|
        0 <= j < s.len() && (#[trigger] s[j]).path == d.path && s[j].line == d.line && s[j].column
            == d.column && is_prefix(d.feature.push('.'), s[j].feature)
}

/// Whether `d` stays when `s` is collapsed.
pub open spec fn stays_in(s: Seq<DetectionView>) -> spec_fn(DetectionView) -> bool {
    |d: DetectionView| !is_covered(s, d)
}

/// The detections that no other one at the same place covers, in order.
pub open spec fn collapse_spec(s: Seq<DetectionView>) -> Seq<DetectionView> {
    s.filter(stays_in(s))
}

/// `b` is at the same place as `a` and names `a`'s feature or a member of
/// it.
pub open spec fn names_at_place(a: DetectionView, b: DetectionView) -> bool {
    &&& b.path == a.path
    &&& b.line == a.line
    &&& b.column == a.column
    &&& (b.feature == a.feature || is_prefix(a.feature.push('.'), b.feature))
}

/// The length of the longest feature name among the detections.
pub open spec fn longest_feature(s: Seq<DetectionView>) -> nat
    decreases s.len(),
{
    if s.len() == 0 {
        0
    } else {
        let rest = longest_feature(s.drop_last());
        if s.last().feature.len() > rest {
            s.last().feature.len()
        } else {
            rest
        }
    }
}

proof fn lemma_longest_feature(s: Seq<DetectionView>, k: int)
    requires
        0 <= k < s.len(),
    ensures
        s[k].feature.len() <= longest_feature(s),
    decreases s.len(),
{
    if k < s.len() - 1 {
        lemma_longest_feature(s.drop_last(), k);
    }
}

proof fn lemma_collapse_keeps_from(s: Seq<DetectionView>, i: int)
    requires
        0 <= i < s.len(),
    ensures
        exists|x: DetectionView| #[trigger] collapse_spec(s).contains(x) && names_at_place(s[i], x),
    decreases longest_feature(s) - s[i].feature.len(),
{
    lemma_longest_feature(s, i);
    if is_covered(s, s[i]) {
        let j = choose|j: int|
            0 <= j < s.len() && (#[trigger] s[j]).path == s[i].path && s[j].line == s[i].line && s[j].column
                == s[i].column && is_prefix(s[i].feature.push('.'), s[j].feature);
        lemma_longest_feature(s, j);
        lemma_collapse_keeps_from(s, j);
        let x = choose|x: DetectionView| #[trigger] collapse_spec(s).contains(x) && names_at_place(s[j], x);
        let p = s[i].feature.push('.');
        if x.feature != s[j].feature {
            let q = s[j].feature.push('.');
            assert(x.feature.take(p.len() as int) =~= p) by {
                assert forall|k: int| 0 <= k < p.len() implies x.feature[k] == p[k] by {
                    assert(x.feature.take(q.len() as int)[k] == q[k]);
                    assert(s[j].feature.take(p.len() as int)[k] == p[k]);
                }
            }
        }
        assert(names_at_place(s[i], x));
        assert(collapse_spec(s).contains(x));
    } else {
        assert(stays_in(s)(s[i]));
        s.lemma_filter_contains(stays_in(s), i);
        assert(collapse_spec(s).contains(s[i]));
        assert(names_at_place(s[i], s[i]));
    }
}

/// Collapsing loses no place: for every detection, one at the same place
/// that names its feature or a member of it stays.
pub proof fn lemma_collapse_keeps_places(s: Seq<DetectionView>, i: int)
    requires
        0 <= i < s.len(),
    ensures
        exists|x: DetectionView| #[trigger] collapse_spec(s).contains(x) && names_at_place(s[i], x),
{
    lemma_collapse_keeps_from(s, i);
}

fn covered_at(detections: &Vec<DetectedFeature>, i: usize) -> (r: bool)
    requires
        i < detections@.len(),
    ensures
        r == is_covered(detections_view(detections@), detections@[i as int]@),
{
    let ghost s = detections_view(detections@);
    let d = &detections[i];
    let mut prefix = String::new();
    push_text(&mut prefix, d.feature.as_str());
    push_text(&mut prefix, ".");
    proof {
        reveal_strlit(".");
        assert(prefix@ =~= d.feature@.push('.'));
    }
    let mut j: usize = 0;
    while j < detections.len()
        invariant
            j <= detections@.len(),
            i < detections@.len(),
            s == detections_view(detections@),
            *d == detections@[i as int],
            prefix@ == d.feature@.push('.'),
            forall|k: int|
                0 <= k < j ==> !((#[trigger] s[k]).path == d@.path && s[k].line == d.line
                    && s[k].column == d.column && is_prefix(d@.feature.push('.'), s[k].feature)),
        decreases detections@.len() - j,
    {
        let other = &detections[j];
        assert(s[j as int] == other@);
        if other.line == d.line && other.column == d.column && str_eq(other.path.as_str(), d.path.as_str())
            && str_starts_with(other.feature.as_str(), prefix.as_str()) {
            return true;
        }
        j = j + 1;
    }
    false
}

/// Drops each detection that another one at the same place covers, keeping
/// the rest in order.
pub fn collapse_prefix_detections(detections: &mut Vec<DetectedFeature>)
    ensures
        detections_view(final(detections)@) == collapse_spec(detections_view(old(detections)@)),
{
    let ghost s = detections_view(detections@);
    let mut kept: Vec<DetectedFeature> = Vec::new();
    let mut i: usize = 0;
    while i < detections.len()
        invariant
            i <= detections@.len(),
            s == detections_view(detections@),
            detections_view(kept@) == s.take(i as int).filter(stays_in(s)),
        decreases detections@.len() - i,
    {
        let covered = covered_at(detections, i);
        proof {
            assert(s.take(i + 1).drop_last() =~= s.take(i as int));
            assert(s.take(i + 1).last() == s[i as int]);
        }
        proof {
            assert(s[i as int] == detections@[i as int]@);
            assert(stays_in(s)(s[i as int]) == !covered);
            reveal(Seq::filter);
        }
        if !covered {
            let item = detections[i].duplicate();
            let ghost before = kept@;
            kept.push(item);
            assert(detections_view(kept@) =~= detections_view(before).push(s[i as int]));
            assert(s.take(i + 1).filter(stays_in(s)) == s.take(i as int).filter(stays_in(s)).push(s[i as int]));
        } else {
            assert(s.take(i + 1).filter(stays_in(s)) == s.take(i as int).filter(stays_in(s)));
        }
        i = i + 1;
    }
    assert(s.take(s.len() as int) =~= s);
    *detections = kept;
}


// ---------------------------------------------------------------------
// Aggregating repeated detections
// ---------------------------------------------------------------------

/// Whether two detections are of the same feature at the same version.
pub open spec fn same_key(a: DetectionView, b: DetectionView) -> bool {
    a.feature == b.feature && a.version == b.version
}

/// The sum of the counts.
pub open spec fn total_count(s: Seq<DetectionView>) -> nat
    decreases s.len(),
{
    if s.len() == 0 {
        0
    } else {
        total_count(s.drop_last()) + s.last().count as nat
    }
}

/// The sum of the counts of the detections with the key of `d`.
pub open spec fn key_total(s: Seq<DetectionView>, d: DetectionView) -> nat
    decreases s.len(),
{
    if s.len() == 0 {
        0
    } else if same_key(s.last(), d) {
        key_total(s.drop_last(), d) + s.last().count as nat
    } else {
        key_total(s.drop_last(), d)
    }
}

/// The last position of a detection with the key of `d`, or `-1`.
pub open spec fn key_position(s: Seq<DetectionView>, d: DetectionView) -> int
    decreases s.len(),
{
    if s.len() == 0 {
        -1
    } else if same_key(s.last(), d) {
        s.len() - 1
    } else {
        key_position(s.drop_last(), d)
    }
}

/// `d` with another count.
pub open spec fn with_count(d: DetectionView, count: int) -> DetectionView {
    DetectionView {
        feature: d.feature,
        version: d.version,
        path: d.path,
        line: d.line,
        column: d.column,
        count: count as usize,
    }
}

/// One detection per feature and version, in order of first use, each
/// the first such detection with the counts of all of them added up.
pub open spec fn aggregate_spec(s: Seq<DetectionView>) -> Seq<DetectionView>
    decreases s.len(),
{
    if s.len() == 0 {
        Seq::empty()
    } else {
        let prev = aggregate_spec(s.drop_last());
        let d = s.last();
        let k = key_position(prev, d);
        if k >= 0 {
            prev.update(k, with_count(prev[k], prev[k].count + d.count))
        } else {
            prev.push(d)
        }
    }
}

proof fn lemma_key_position(s: Seq<DetectionView>, d: DetectionView)
    ensures
        key_position(s, d) == -1 <==> forall|i: int| 0 <= i < s.len() ==> !same_key(#[trigger] s[i], d),
        key_position(s, d) != -1 ==> 0 <= key_position(s, d) < s.len() && same_key(s[key_position(s, d)], d),
    decreases s.len(),
{
    if s.len() > 0 {
        let p = s.drop_last();
        lemma_key_position(p, d);
        if !same_key(s.last(), d) {
            assert forall|i: int| 0 <= i < p.len() implies p[i] == s[i] by {}
            if key_position(p, d) == -1 {
                assert forall|i: int| 0 <= i < s.len() implies !same_key(#[trigger] s[i], d) by {
                    if i < p.len() {
                        assert(p[i] == s[i]);
                    }
                }
            }
        }
    }
}

proof fn lemma_key_total_absent(s: Seq<DetectionView>, d: DetectionView)
    requires
        forall|i: int| 0 <= i < s.len() ==> !same_key(#[trigger] s[i], d),
    ensures
        key_total(s, d) == 0,
    decreases s.len(),
{
    if s.len() > 0 {
        let p = s.drop_last();
        assert forall|i: int| 0 <= i < p.len() implies !same_key(#[trigger] p[i], d) by {
            assert(p[i] == s[i]);
        }
        assert(!same_key(s[s.len() - 1], d));
        lemma_key_total_absent(p, d);
    }
}

proof fn lemma_key_total_same(s: Seq<DetectionView>, a: DetectionView, b: DetectionView)
    requires
        same_key(a, b),
    ensures
        key_total(s, a) == key_total(s, b),
    decreases s.len(),
{
    if s.len() > 0 {
        lemma_key_total_same(s.drop_last(), a, b);
    }
}

proof fn lemma_key_total_bound(s: Seq<DetectionView>, d: DetectionView)
    ensures
        key_total(s, d) <= total_count(s),
    decreases s.len(),
{
    if s.len() > 0 {
        lemma_key_total_bound(s.drop_last(), d);
    }
}

proof fn lemma_total_update(s: Seq<DetectionView>, k: int, x: DetectionView)
    requires
        0 <= k < s.len(),
    ensures
        total_count(s.update(k, x)) == total_count(s) - s[k].count + x.count,
    decreases s.len(),
{
    let u = s.update(k, x);
    if k == s.len() - 1 {
        assert(u.drop_last() =~= s.drop_last());
    } else {
        assert(u.drop_last() =~= s.drop_last().update(k, x));
        lemma_total_update(s.drop_last(), k, x);
    }
}

proof fn lemma_total_element(s: Seq<DetectionView>, k: int)
    requires
        0 <= k < s.len(),
    ensures
        s[k].count <= total_count(s),
    decreases s.len(),
{
    if k < s.len() - 1 {
        lemma_total_element(s.drop_last(), k);
    }
}

proof fn lemma_total_prefix(s: Seq<DetectionView>, i: int)
    requires
        0 <= i <= s.len(),
    ensures
        total_count(s.take(i)) <= total_count(s),
    decreases s.len(),
{
    if i < s.len() {
        lemma_total_prefix(s.drop_last(), i);
        assert(s.drop_last().take(i) =~= s.take(i));
    } else {
        assert(s.take(i) =~= s);
    }
}

/// Aggregation keeps one detection per feature and version, each carrying
/// the first use and the total count of its uses; every feature and version
/// seen keeps its entry, and the total number of uses is unchanged.
pub proof fn lemma_aggregate(s: Seq<DetectionView>)
    requires
        total_count(s) <= usize::MAX,
    ensures
        forall|a: int, b: int|
            0 <= a < b < aggregate_spec(s).len() ==> !same_key(
                #[trigger] aggregate_spec(s)[a],
                #[trigger] aggregate_spec(s)[b],
            ),
        forall|j: int|
            0 <= j < aggregate_spec(s).len() ==> (#[trigger] aggregate_spec(s)[j]).count == key_total(
                s,
                aggregate_spec(s)[j],
            ),
        forall|i: int| 0 <= i < s.len() ==> key_position(aggregate_spec(s), #[trigger] s[i]) >= 0,
        forall|j: int|
            #![trigger aggregate_spec(s)[j]]
            0 <= j < aggregate_spec(s).len() ==> exists|i: int|
                0 <= i < s.len() && #[trigger] s[i] == with_count(
                    aggregate_spec(s)[j],
                    s[i].count as int,
                ) && key_position(s.take(i), s[i]) == -1,
        total_count(aggregate_spec(s)) == total_count(s),
    decreases s.len(),
{
    if s.len() > 0 {
        let p = s.drop_last();
        let d = s.last();
        let prev = aggregate_spec(p);
        let agg = aggregate_spec(s);
        assert(total_count(p) <= total_count(s));
        lemma_aggregate(p);
        lemma_key_position(prev, d);
        let k = key_position(prev, d);
        assert forall|i: int| 0 <= i < p.len() implies p.take(i) == s.take(i) && p[i] == s[i] by {
            assert(p.take(i) =~= s.take(i));
        }
        if k >= 0 {
            lemma_key_total_bound(s, prev[k]);
            assert(key_total(s, prev[k]) == key_total(p, prev[k]) + d.count);
            assert(prev[k].count + d.count <= usize::MAX);
            assert(agg == prev.update(k, with_count(prev[k], prev[k].count + d.count)));
            lemma_key_total_same(s, agg[k], prev[k]);
            assert forall|a: int, b: int| 0 <= a < b < agg.len() implies !same_key(
                #[trigger] agg[a],
                #[trigger] agg[b],
            ) by {
                assert(same_key(agg[a], prev[a]) && same_key(agg[b], prev[b]));
            }
            assert forall|j: int| 0 <= j < agg.len() implies (#[trigger] agg[j]).count == key_total(s, agg[j]) by {
                if j != k {
                    assert(agg[j] == prev[j]);
                    assert(!same_key(prev[j], prev[k]));
                    assert(!same_key(d, prev[j]));
                }
            }
            assert forall|i: int| 0 <= i < s.len() implies key_position(agg, #[trigger] s[i]) >= 0 by {
                let q = s[i];
                if i < p.len() {
                    assert(p[i] == q);
                    lemma_key_position(prev, q);
                    let kq = key_position(prev, q);
                    lemma_key_position(agg, q);
                    assert(same_key(agg[kq], q));
                } else {
                    lemma_key_position(agg, q);
                    assert(same_key(agg[k], q));
                }
            }
            assert forall|j: int| #![trigger agg[j]] 0 <= j < agg.len() implies exists|i: int|
                0 <= i < s.len() && #[trigger] s[i] == with_count(agg[j], s[i].count as int) && key_position(
                    s.take(i),
                    s[i],
                ) == -1 by {
                let i = choose|i: int|
                    0 <= i < p.len() && #[trigger] p[i] == with_count(prev[j], p[i].count as int)
                        && key_position(p.take(i), p[i]) == -1;
                assert(p[i] == s[i] && p.take(i) == s.take(i));
                assert(with_count(agg[j], s[i].count as int) == with_count(prev[j], s[i].count as int));
            }
            lemma_total_element(prev, k);
            lemma_total_update(prev, k, with_count(prev[k], prev[k].count + d.count));
        } else {
            assert forall|i: int| 0 <= i < p.len() implies !same_key(#[trigger] p[i], d) by {
                let ki = key_position(prev, p[i]);
                lemma_key_position(prev, p[i]);
                assert(same_key(prev[ki], p[i]));
            }
            lemma_key_total_absent(p, d);
            assert(agg == prev.push(d));
            assert(agg.drop_last() =~= prev);
            assert forall|a: int, b: int| 0 <= a < b < agg.len() implies !same_key(
                #[trigger] agg[a],
                #[trigger] agg[b],
            ) by {
                if b == prev.len() {
                    assert(agg[a] == prev[a]);
                } else {
                    assert(agg[a] == prev[a] && agg[b] == prev[b]);
                }
            }
            assert forall|j: int| 0 <= j < agg.len() implies (#[trigger] agg[j]).count == key_total(s, agg[j]) by {
                if j < prev.len() {
                    assert(agg[j] == prev[j]);
                    assert(!same_key(d, prev[j]));
                }
            }
            assert forall|i: int| 0 <= i < s.len() implies key_position(agg, #[trigger] s[i]) >= 0 by {
                let q = s[i];
                lemma_key_position(agg, q);
                if i < p.len() {
                    assert(p[i] == q);
                    lemma_key_position(prev, q);
                    let kq = key_position(prev, q);
                    assert(agg[kq] == prev[kq]);
                    assert(same_key(agg[kq], q));
                } else {
                    assert(same_key(agg[prev.len() as int], q));
                }
            }
            assert forall|j: int| #![trigger agg[j]] 0 <= j < agg.len() implies exists|i: int|
                0 <= i < s.len() && #[trigger] s[i] == with_count(agg[j], s[i].count as int) && key_position(
                    s.take(i),
                    s[i],
                ) == -1 by {
                if j < prev.len() {
                    let i = choose|i: int|
                        0 <= i < p.len() && #[trigger] p[i] == with_count(prev[j], p[i].count as int)
                            && key_position(p.take(i), p[i]) == -1;
                    assert(p[i] == s[i] && p.take(i) == s.take(i));
                    assert(agg[j] == prev[j]);
                } else {
                    let i = s.len() - 1;
                    assert(s.take(i) =~= p);
                    assert(s[i] == d);
                    assert(agg[j] == d);
                    assert(with_count(d, d.count as int) == d);
                    assert forall|t: int| 0 <= t < p.len() implies !same_key(#[trigger] p[t], d) by {
                        let kt = key_position(prev, p[t]);
                        lemma_key_position(prev, p[t]);
                        assert(same_key(prev[kt], p[t]));
                    }
                    lemma_key_position(p, d);
                }
            }
        }
    }
}

/// Merges detections of the same feature at the same version: the first
/// stays, with the counts of all of them added up.
pub fn aggregate_feature_detections(detections: Vec<DetectedFeature>) -> (r: Vec<DetectedFeature>)
    requires
        total_count(detections_view(detections@)) <= usize::MAX,
    ensures
        detections_view(r@) == aggregate_spec(detections_view(detections@)),
{
    let ghost s = detections_view(detections@);
    let mut out: Vec<DetectedFeature> = Vec::new();
    let mut i: usize = 0;
    while i < detections.len()
        invariant
            i <= detections@.len(),
            s == detections_view(detections@),
            total_count(s) <= usize::MAX,
            detections_view(out@) == aggregate_spec(s.take(i as int)),
        decreases detections@.len() - i,
    {
        let d = &detections[i];
        let ghost prev = detections_view(out@);
        proof {
            assert(s.take(i + 1).drop_last() =~= s.take(i as int));
            assert(s.take(i + 1).last() == s[i as int]);
            assert(s[i as int] == d@);
            lemma_total_prefix(s, i + 1);
            lemma_aggregate(s.take(i + 1));
            lemma_aggregate(s.take(i as int));
            lemma_key_position(prev, d@);
        }
        let mut j: usize = out.len();
        let mut found: Option<usize> = None;
        assert(prev.take(j as int) =~= prev);
        while j > 0 && found.is_none()
            invariant
                j <= out@.len(),
                prev == detections_view(out@),
                found is None ==> key_position(prev, d@) == key_position(prev.take(j as int), d@),
                found matches Some(k) ==> key_position(prev, d@) == k && k < out@.len(),
            decreases j + (if found is None { 1int } else { 0int }),
        {
            let o = &out[j - 1];
            proof {
                assert(prev.take(j as int).drop_last() =~= prev.take(j - 1));
                assert(prev.take(j as int).last() == prev[j - 1]);
                assert(prev[j - 1] == o@);
            }
            if str_eq(o.feature.as_str(), d.feature.as_str()) && o.version.same_as(&d.version) {
                found = Some(j - 1);
            } else {
                j = j - 1;
            }
        }
        proof {
            if found is None {
                assert(prev.take(0) =~= Seq::<DetectionView>::empty());
            }
        }
        match found {
            Some(k) => {
                let mut item = out[k].duplicate();
                proof {
                    let t = s.take(i + 1);
                    let pk = prev[k as int];
                    assert(same_key(t.last(), pk));
                    assert(key_total(t, pk) == key_total(s.take(i as int), pk) + d.count);
                    lemma_key_total_bound(t, pk);
                    lemma_total_prefix(s, i + 1);
                    assert(pk.count == key_total(s.take(i as int), pk));
                }
                item.count = item.count + d.count;
                out.set(k, item);
            }
            None => {
                out.push(d.duplicate());
            }
        }
        i = i + 1;
        proof {
            assert(detections_view(out@) =~= aggregate_spec(s.take(i as int)));
        }
    }
    assert(s.take(s.len() as int) =~= s);
    out
}

pub proof fn lemma_total_filter(s: Seq<DetectionView>, pred: spec_fn(DetectionView) -> bool)
    ensures
        total_count(s.filter(pred)) <= total_count(s),
    decreases s.len(),
{
    reveal(Seq::filter);
    if s.len() > 0 {
        lemma_total_filter(s.drop_last(), pred);
        let sub = s.drop_last().filter(pred);
        assert(sub.push(s.last()).drop_last() =~= sub);
    }
}

// ---------------------------------------------------------------------
// The report of one runtime
// ---------------------------------------------------------------------

/// Builds the report of one runtime from its detections: the minimum is
/// the latest version among them; unless a feature is inspected, covered
/// detections are dropped and repeated ones merged; only Node.js carries
/// the engines check.
pub fn build_runtime_report(
    runtime_name: &str,
    detections: Vec<DetectedFeature>,
    has_node_api_detections: bool,
    aggregate: bool,
    engines: Option<EnginesReport>,
) -> (r: RuntimeReport)
    requires
        total_count(detections_view(detections@)) <= usize::MAX,
    ensures
        r.runtime@ == runtime_name@,
        r.minimum == max_version(detections_view(detections@)),
        detections_view(r.detections@) == (if aggregate {
            aggregate_spec(collapse_spec(detections_view(detections@)))
        } else {
            detections_view(detections@)
        }),
        r.has_node_api_detections == has_node_api_detections,
        r.engines == (if runtime_name@ == "node"@ {
            engines
        } else {
            None
        }),
{
    let ghost s = detections_view(detections@);
    let minimum = minimum_version(&detections);
    let mut detections = detections;
    if aggregate {
        collapse_prefix_detections(&mut detections);
        proof {
            lemma_total_filter(s, stays_in(s));
        }
        detections = aggregate_feature_detections(detections);
    }
    let engines = if str_eq(runtime_name, "node") {
        engines
    } else {
        None
    };
    proof {
        reveal_strlit("node");
    }
    RuntimeReport {
        runtime: runtime_name.to_owned(),
        detections,
        minimum,
        engines,
        has_node_api_detections,
    }
}
} // verus!
