//! Source files, detections, and the rules of text scanning.

use vstd::prelude::*;
use crate::data::Feature;
use crate::text::{chars_of, str_eq};
use crate::version::RuntimeVersion;

verus! {

/// A source file that a scan reads.
#[derive(Debug, Clone)]
pub struct SourceFile {
    pub path: String,
    pub text: String,
}

/// Totals gathered while discovering sources.
#[derive(Debug, Clone, Copy, Default)]
pub struct ScanStats {
    pub line_count: usize,
}

/// The discovered source files and their totals.
#[derive(Debug, Clone)]
pub struct SourceScan {
    pub files: Vec<SourceFile>,
    pub stats: ScanStats,
}

impl SourceScan {
    pub fn files(&self) -> (r: &Vec<SourceFile>)
        ensures
            r == &self.files,
    {
        &self.files
    }

    pub fn stats(&self) -> (r: ScanStats)
        ensures
            r == self.stats,
    {
        self.stats
    }
}

/// Finds the source files under a directory (the walk itself reads the
/// file system, outside this library).
pub struct SourceDiscovery;

/// Finds fast-mode detections by text matching.
pub struct FffMultiRuntimeScanner;

/// One detected use of a feature.
#[derive(Debug, Clone)]
pub struct DetectedFeature {
    pub feature: String,
    pub version: RuntimeVersion,
    pub path: String,
    pub line: u64,
    pub column: u64,
    pub count: usize,
}

/// A detection as plain values.
pub struct DetectionView {
    pub feature: Seq<char>,
    pub version: RuntimeVersion,
    pub path: Seq<char>,
    pub line: u64,
    pub column: u64,
    pub count: usize,
}

impl View for DetectedFeature {
    type V = DetectionView;

    open spec fn view(&self) -> DetectionView {
        DetectionView {
            feature: self.feature@,
            version: self.version,
            path: self.path@,
            line: self.line,
            column: self.column,
            count: self.count,
        }
    }
}

/// The views of a sequence of detections.
pub open spec fn detections_view(d: Seq<DetectedFeature>) -> Seq<DetectionView> {
    d.map_values(|x: DetectedFeature| x@)
}

impl DetectedFeature {
    /// A copy with the same contents.
    pub fn duplicate(&self) -> (r: Self)
        ensures
            r@ == self@,
    {
        DetectedFeature {
            feature: self.feature.clone(),
            version: self.version,
            path: self.path.clone(),
            line: self.line,
            column: self.column,
            count: self.count,
        }
    }
}

/// The key under which a detection is recorded once: feature id, file
/// index, line and column.
pub type DetectionKey = (usize, usize, u64, u64);

/// The keys already recorded; no key occurs twice.
#[derive(Debug, Clone)]
pub struct DetectionSeen {
    keys: Vec<DetectionKey>,
}

impl DetectionSeen {
    pub closed spec fn keys(&self) -> Seq<DetectionKey> {
        self.keys@
    }

    /// No key is recorded twice.
    pub open spec fn well_formed(&self) -> bool {
        self.keys().no_duplicates()
    }

    /// Whether `key` has been recorded.
    pub open spec fn has(&self, key: DetectionKey) -> bool {
        self.keys().contains(key)
    }

    pub fn new() -> (r: Self)
        ensures
            r.keys() == Seq::<DetectionKey>::empty(),
            r.well_formed(),
    {
        DetectionSeen { keys: Vec::new() }
    }

    /// Records `key`; returns whether it was new.
    pub fn insert(&mut self, key: DetectionKey) -> (fresh: bool)
        requires
            old(self).well_formed(),
        ensures
            final(self).well_formed(),
            fresh == !old(self).has(key),
            fresh ==> final(self).keys() == old(self).keys().push(key),
            !fresh ==> final(self).keys() == old(self).keys(),
    {
        let mut i: usize = 0;
        while i < self.keys.len()
            invariant
                i <= self.keys@.len(),
                old(self).well_formed(),
                self.keys@ == old(self).keys@,
                forall|k: int| 0 <= k < i ==> self.keys@[k] != key,
            decreases self.keys@.len() - i,
        {
            let k = self.keys[i];
            if k.0 == key.0 && k.1 == key.1 && k.2 == key.2 && k.3 == key.3 {
                assert(self.keys@[i as int] == key);
                return false;
            }
            i = i + 1;
        }
        proof {
            assert(!self.keys@.contains(key));
        }
        self.keys.push(key);
        proof {
            assert forall|a: int, b: int| 0 <= a < b < self.keys@.len() implies self.keys@[a] != self.keys@[b] by {
                if b == self.keys@.len() - 1 {
                    assert(self.keys@[b] == key);
                    assert(old(self).keys@[a] == self.keys@[a]);
                }
            }
        }
        true
    }
}

/// The detection that `push_detection` records.
pub open spec fn new_detection(feature: Feature, path: Seq<char>, line: u64, column: u64) -> DetectionView {
    DetectionView {
        feature: feature.name@,
        version: feature.version,
        path,
        line,
        column,
        count: 1,
    }
}

/// Records a use of `feature` at `line`:`column` of file `file_index`,
/// unless that feature was already recorded there.
pub fn push_detection(
    detections: &mut Vec<DetectedFeature>,
    seen: &mut DetectionSeen,
    feature: &Feature,
    file_index: usize,
    path: &str,
    line: u64,
    column: u64,
)
    requires
        old(seen).well_formed(),
    ensures
        final(seen).well_formed(),
        old(seen).has((feature.id, file_index, line, column)) ==> {
            &&& detections_view(final(detections)@) == detections_view(old(detections)@)
            &&& final(seen).keys() == old(seen).keys()
        },
        !old(seen).has((feature.id, file_index, line, column)) ==> {
            &&& detections_view(final(detections)@) == detections_view(old(detections)@).push(
                new_detection(*feature, path@, line, column),
            )
            &&& final(seen).keys() == old(seen).keys().push((feature.id, file_index, line, column))
        },
{
    let key: DetectionKey = (feature.id, file_index, line, column);
    if seen.insert(key) {
        detections.push(
            DetectedFeature {
                feature: feature.name.clone(),
                version: feature.version,
                path: path.to_owned(),
                line,
                column,
                count: 1,
            },
        );
        assert(detections_view(final(detections)@) =~= detections_view(old(detections)@).push(
            new_detection(*feature, path@, line, column),
        ));
    }
}

// ---------------------------------------------------------------------
// Which files are sources
// ---------------------------------------------------------------------

/// The segments of a path between `/` separators that name something:
/// neither empty nor `.`.
pub open spec fn is_named_segment(seg: Seq<char>) -> bool {
    seg.len() > 0 && seg != seq!['.']
}

/// `Path::file_name` for a `/`-separated path: the last segment that is
/// neither empty nor `.`, unless it is `..`.
pub open spec fn file_name_spec(path: Seq<char>) -> Option<Seq<char>> {
    let segs = crate::text::split_on(path, '/');
    if exists|i: int| 0 <= i < segs.len() && is_named_segment(#[trigger] segs[i]) {
        let i = choose|i: int|
            0 <= i < segs.len() && is_named_segment(#[trigger] segs[i]) && forall|j: int|
                i < j < segs.len() ==> !is_named_segment(#[trigger] segs[j]);
        if segs[i] == seq!['.', '.'] {
            None
        } else {
            Some(segs[i])
        }
    } else {
        None
    }
}

/// `Path::extension` of a file name: the part after its last `.`, unless
/// the only `.` starts the name.
pub open spec fn extension_spec(name: Seq<char>) -> Option<Seq<char>> {
    if exists|i: int| 0 < i < name.len() && name[i] == '.' {
        let i = choose|i: int|
            0 < i < name.len() && name[i] == '.' && forall|j: int| i < j < name.len() ==> name[j] != '.';
        Some(name.skip(i + 1))
    } else {
        None
    }
}

proof fn lemma_last_named(segs: Seq<Seq<char>>, i: int)
    requires
        0 <= i < segs.len(),
        is_named_segment(segs[i]),
        forall|j: int| i < j < segs.len() ==> !is_named_segment(#[trigger] segs[j]),
    ensures
        (choose|k: int|
            0 <= k < segs.len() && is_named_segment(#[trigger] segs[k]) && forall|j: int|
                k < j < segs.len() ==> !is_named_segment(#[trigger] segs[j])) == i,
{
    let k = choose|k: int|
        0 <= k < segs.len() && is_named_segment(#[trigger] segs[k]) && forall|j: int|
            k < j < segs.len() ==> !is_named_segment(#[trigger] segs[j]);
    assert(0 <= i < segs.len() && is_named_segment(segs[i]) && forall|j: int|
        i < j < segs.len() ==> !is_named_segment(#[trigger] segs[j]));
    if k < i {
        assert(!is_named_segment(segs[i]));
    }
    if k > i {
        assert(!is_named_segment(segs[k]));
    }
}

proof fn lemma_file_name_at(path: Seq<char>, i: int)
    requires
        0 <= i < crate::text::split_on(path, '/').len(),
        is_named_segment(crate::text::split_on(path, '/')[i]),
        forall|j: int| i < j < crate::text::split_on(path, '/').len() ==> !is_named_segment(#[trigger] crate::text::split_on(path, '/')[j]),
    ensures
        file_name_spec(path) == (if crate::text::split_on(path, '/')[i] == seq!['.', '.'] {
            None
        } else {
            Some(crate::text::split_on(path, '/')[i])
        }),
{
    let segs = crate::text::split_on(path, '/');
    assert(exists|k: int| 0 <= k < segs.len() && is_named_segment(#[trigger] segs[k]));
    lemma_last_named(segs, i);
}

/// The file name of a `/`-separated path, as `Path::file_name` gives it.
pub fn file_name(path: &str) -> (r: Option<Vec<char>>)
    ensures
        match r {
            Some(name) => file_name_spec(path@) == Some(name@),
            None => file_name_spec(path@) is None,
        },
{
    let chars = chars_of(path);
    let segs = crate::text::split_chars(chars.as_slice(), '/');
    let ghost spec_segs = crate::text::split_on(path@, '/');
    let mut i: usize = segs.len();
    while i > 0
        invariant
            i <= segs@.len(),
            spec_segs == crate::text::split_on(path@, '/'),
            segs@.len() == spec_segs.len(),
            forall|k: int| 0 <= k < segs@.len() ==> #[trigger] segs@[k]@ == spec_segs[k],
            forall|j: int| i <= j < spec_segs.len() ==> !is_named_segment(#[trigger] spec_segs[j]),
        decreases i,
    {
        let seg = &segs[i - 1];
        let named = seg.len() > 0 && !(seg.len() == 1 && seg[0] == '.');
        if named {
            proof {
                assert(seg@ == spec_segs[i - 1]);
                if seg@ == seq!['.'] {
                    assert(seg@[0] == '.');
                }
                assert(is_named_segment(spec_segs[i - 1]));
                lemma_file_name_at(path@, i - 1);
            }
            if seg.len() == 2 && seg[0] == '.' && seg[1] == '.' {
                assert(seg@ =~= seq!['.', '.']);
                return None;
            }
            let mut name: Vec<char> = Vec::new();
            let mut k: usize = 0;
            while k < seg.len()
                invariant
                    k <= seg@.len(),
                    name@ == seg@.take(k as int),
                decreases seg@.len() - k,
            {
                name.push(seg[k]);
                k = k + 1;
                assert(name@ =~= seg@.take(k as int));
            }
            proof {
                assert(seg@.take(seg@.len() as int) =~= seg@);
                if seg@ == seq!['.', '.'] {
                    assert(seg@[0] == '.' && seg@[1] == '.');
                }
            }
            return Some(name);
        }
        proof {
            assert(!is_named_segment(spec_segs[i - 1])) by {
                if seg@.len() == 1 && seg@[0] == '.' {
                    assert(seg@ =~= seq!['.']);
                }
            }
        }
        i = i - 1;
    }
    None
}

/// The extension of a file name, as `Path::extension` gives it.
pub fn extension(name: &[char]) -> (r: Option<Vec<char>>)
    ensures
        match r {
            Some(ext) => extension_spec(name@) == Some(ext@),
            None => extension_spec(name@) is None,
        },
{
    let mut i: usize = name.len();
    while i > 1
        invariant
            i <= name@.len(),
            forall|j: int| i <= j < name@.len() ==> name@[j] != '.',
        decreases i,
    {
        if name[i - 1] == '.' {
            let mut ext: Vec<char> = Vec::new();
            let mut k: usize = i;
            while k < name.len()
                invariant
                    i <= k <= name@.len(),
                    ext@ == name@.subrange(i as int, k as int),
                decreases name@.len() - k,
            {
                ext.push(name[k]);
                k = k + 1;
                assert(ext@ =~= name@.subrange(i as int, k as int));
            }
            proof {
                let p = (i - 1) as int;
                assert(0 < p < name@.len() && name@[p] == '.' && forall|j: int| p < j < name@.len() ==> name@[j] != '.');
                let q = choose|q: int|
                    0 < q < name@.len() && name@[q] == '.' && forall|j: int| q < j < name@.len() ==> name@[j] != '.';
                if q < p {
                    assert(name@[p] != '.');
                }
                if q > p {
                    assert(name@[q] != '.');
                }
                assert(ext@ =~= name@.skip(p + 1));
            }
            return Some(ext);
        }
        i = i - 1;
    }
    None
}

/// The extensions of JavaScript and TypeScript sources.
pub open spec fn is_source_extension(ext: Seq<char>) -> bool {
    ||| ext == seq!['j', 's']
    ||| ext == seq!['j', 's', 'x']
    ||| ext == seq!['m', 'j', 's']
    ||| ext == seq!['c', 'j', 's']
    ||| ext == seq!['t', 's']
    ||| ext == seq!['t', 's', 'x']
    ||| ext == seq!['m', 't', 's']
    ||| ext == seq!['c', 't', 's']
}

fn source_extension(ext: &[char]) -> (r: bool)
    ensures
        r == is_source_extension(ext@),
{
    let n = ext.len();
    let r = (n == 2 && ext[0] == 'j' && ext[1] == 's') || (n == 3 && ext[0] == 'j' && ext[1] == 's'
        && ext[2] == 'x') || (n == 3 && ext[0] == 'm' && ext[1] == 'j' && ext[2] == 's') || (n == 3
        && ext[0] == 'c' && ext[1] == 'j' && ext[2] == 's') || (n == 2 && ext[0] == 't' && ext[1]
        == 's') || (n == 3 && ext[0] == 't' && ext[1] == 's' && ext[2] == 'x') || (n == 3 && ext[0]
        == 'm' && ext[1] == 't' && ext[2] == 's') || (n == 3 && ext[0] == 'c' && ext[1] == 't'
        && ext[2] == 's');
    proof {
        if r {
        } else {
            if ext@ == seq!['j', 's'] || ext@ == seq!['t', 's'] {
                assert(ext@.len() == 2);
            }
            if ext@ == seq!['j', 's', 'x'] || ext@ == seq!['m', 'j', 's'] || ext@ == seq!['c', 'j', 's']
                || ext@ == seq!['t', 's', 'x'] || ext@ == seq!['m', 't', 's'] || ext@ == seq!['c', 't', 's'] {
                assert(ext@.len() == 3);
            }
        }
        if r {
            if n == 2 {
                assert(ext@ =~= seq![ext@[0], ext@[1]]);
            } else {
                assert(ext@ =~= seq![ext@[0], ext@[1], ext@[2]]);
            }
        }
    }
    r
}

/// Whether the path names a JavaScript or TypeScript source file, by its
/// extension.
pub open spec fn is_source_file_spec(path: Seq<char>) -> bool {
    match file_name_spec(path) {
        Some(name) => match extension_spec(name) {
            Some(ext) => is_source_extension(ext),
            None => false,
        },
        None => false,
    }
}

/// A path is a source file exactly when its file name has one of the
/// extensions `js`, `jsx`, `mjs`, `cjs`, `ts`, `tsx`, `mts` or `cts`.
pub proof fn lemma_source_files_by_extension(path: Seq<char>)
    ensures
        is_source_file_spec(path) <==> (file_name_spec(path) matches Some(name) && extension_spec(name) matches Some(
            ext,
        ) && {
            ||| ext == "js"@
            ||| ext == "jsx"@
            ||| ext == "mjs"@
            ||| ext == "cjs"@
            ||| ext == "ts"@
            ||| ext == "tsx"@
            ||| ext == "mts"@
            ||| ext == "cts"@
        }),
{
    reveal_strlit("js");
    reveal_strlit("jsx");
    reveal_strlit("mjs");
    reveal_strlit("cjs");
    reveal_strlit("ts");
    reveal_strlit("tsx");
    reveal_strlit("mts");
    reveal_strlit("cts");
    assert("js"@ =~= seq!['j', 's']);
    assert("jsx"@ =~= seq!['j', 's', 'x']);
    assert("mjs"@ =~= seq!['m', 'j', 's']);
    assert("cjs"@ =~= seq!['c', 'j', 's']);
    assert("ts"@ =~= seq!['t', 's']);
    assert("tsx"@ =~= seq!['t', 's', 'x']);
    assert("mts"@ =~= seq!['m', 't', 's']);
    assert("cts"@ =~= seq!['c', 't', 's']);
}

/// Whether `path` is a `.js`, `.jsx`, `.mjs`, `.cjs`, `.ts`, `.tsx`, `.mts`
/// or `.cts` file.
pub fn is_source_file(path: &str) -> (r: bool)
    ensures
        r == is_source_file_spec(path@),
{
    match file_name(path) {
        Some(name) => match extension(name.as_slice()) {
            Some(ext) => source_extension(ext.as_slice()),
            None => false,
        },
        None => false,
    }
}

/// The directory names that discovery skips.
pub open spec fn is_ignored_name(name: Seq<char>) -> bool {
    ||| name == ".git"@
    ||| name == "node_modules"@
    ||| name == "dist"@
    ||| name == "build"@
    ||| name == "coverage"@
    ||| name == "target"@
}

/// Whether discovery skips the directory at `path`: `.git`,
/// `node_modules`, `dist`, `build`, `coverage` or `target`.
pub fn is_ignored_dir(path: &str) -> (r: bool)
    ensures
        r == match file_name_spec(path@) {
            Some(name) => is_ignored_name(name),
            None => false,
        },
{
    let name = match file_name(path) {
        Some(name) => name,
        None => return false,
    };
    let n = name.as_slice();
    let a = chars_of(".git");
    let b = chars_of("node_modules");
    let c = chars_of("dist");
    let d = chars_of("build");
    let e = chars_of("coverage");
    let f = chars_of("target");
    crate::text::chars_eq(n, a.as_slice()) || crate::text::chars_eq(n, b.as_slice())
        || crate::text::chars_eq(n, c.as_slice()) || crate::text::chars_eq(n, d.as_slice())
        || crate::text::chars_eq(n, e.as_slice()) || crate::text::chars_eq(n, f.as_slice())
}

// ---------------------------------------------------------------------
// Counting lines
// ---------------------------------------------------------------------

/// The number of `\n` in `s`.
pub open spec fn newline_count(s: Seq<char>) -> nat
    decreases s.len(),
{
    if s.len() == 0 {
        0
    } else {
        newline_count(s.drop_last()) + if s.last() == '\n' {
            1nat
        } else {
            0nat
        }
    }
}

proof fn lemma_newline_count_le(s: Seq<char>)
    ensures
        newline_count(s) <= s.len(),
    decreases s.len(),
{
    if s.len() > 0 {
        lemma_newline_count_le(s.drop_last());
    }
}

/// The number of lines `str::lines` yields: one per line ending, plus one
/// for a last line without an ending.
pub open spec fn line_count_spec(s: Seq<char>) -> nat {
    if s.len() == 0 {
        0
    } else if s.last() == '\n' {
        newline_count(s)
    } else {
        newline_count(s) + 1
    }
}

/// The number of lines in `text`; an empty text has none.
pub fn count_lines(text: &str) -> (r: usize)
    ensures
        r == line_count_spec(text@),
{
    let s = chars_of(text);
    let mut count: usize = 0;
    let mut i: usize = 0;
    while i < s.len()
        invariant
            i <= s@.len(),
            count == newline_count(s@.take(i as int)),
            count <= i,
        decreases s@.len() - i,
    {
        assert(s@.take(i + 1).drop_last() =~= s@.take(i as int));
        if s[i] == '\n' {
            count = count + 1;
        }
        i = i + 1;
    }
    assert(s@.take(s@.len() as int) =~= s@);
    proof {
        if s@.len() > 0 && s@.last() != '\n' {
            lemma_newline_count_le(s@.drop_last());
            assert(count == newline_count(s@.drop_last()));
        }
    }
    if s.len() == 0 {
        0
    } else if s[s.len() - 1] == '\n' {
        count
    } else {
        count + 1
    }
}

/// Adds the lines of one discovered file to the totals.
pub fn add_file_lines(stats: &mut ScanStats, text: &str)
    requires
        old(stats).line_count + line_count_spec(text@) <= usize::MAX,
    ensures
        final(stats).line_count == old(stats).line_count + line_count_spec(text@),
{
    let n = count_lines(text);
    stats.line_count = stats.line_count + n;
}


// ---------------------------------------------------------------------
// Characters around a byte offset
// ---------------------------------------------------------------------

/// The number of bytes in the UTF-8 encoding of `c`.
pub open spec fn utf8_width(c: char) -> int {
    if (c as u32) < 0x80 {
        1
    } else if (c as u32) < 0x800 {
        2
    } else if (c as u32) < 0x10000 {
        3
    } else {
        4
    }
}

fn width_of(c: char) -> (w: u128)
    ensures
        w == utf8_width(c),
{
    let v = c as u32;
    if v < 0x80 {
        1
    } else if v < 0x800 {
        2
    } else if v < 0x10000 {
        3
    } else {
        4
    }
}

/// The character whose UTF-8 encoding ends at byte offset `index` of the
/// text `s`; `None` at offset 0, past the end, or inside a character.
pub open spec fn char_ending_at(s: Seq<char>, index: int) -> Option<char>
    decreases s.len(),
{
    if index <= 0 || s.len() == 0 {
        None
    } else if index == utf8_width(s[0]) {
        Some(s[0])
    } else if index < utf8_width(s[0]) {
        None
    } else {
        char_ending_at(s.drop_first(), index - utf8_width(s[0]))
    }
}

/// The character whose UTF-8 encoding starts at byte offset `index` of the
/// text `s`; `None` at or past the end, or inside a character.
pub open spec fn char_starting_at(s: Seq<char>, index: int) -> Option<char>
    decreases s.len(),
{
    if index < 0 || s.len() == 0 {
        None
    } else if index == 0 {
        Some(s[0])
    } else if index < utf8_width(s[0]) {
        None
    } else {
        char_starting_at(s.drop_first(), index - utf8_width(s[0]))
    }
}

/// The character before byte offset `index`, as
/// `text.get(..index)?.chars().next_back()` gives it.
pub fn previous_char(text: &str, index: usize) -> (r: Option<char>)
    ensures
        r == char_ending_at(text@, index as int),
{
    let s = chars_of(text);
    if index == 0 {
        return None;
    }
    let target = index as u128;
    let mut k: usize = 0;
    let mut pos: u128 = 0;
    assert(s@.skip(0) =~= s@);
    while k < s.len()
        invariant
            k <= s@.len(),
            s@ == text@,
            pos < target,
            target == index,
            char_ending_at(s@, index as int) == char_ending_at(s@.skip(k as int), target - pos),
        decreases s@.len() - k,
    {
        let w = width_of(s[k]);
        let ghost t = s@.skip(k as int);
        assert(t[0] == s@[k as int]);
        assert(t.drop_first() =~= s@.skip(k + 1));
        assert(t.len() > 0);
        assert(char_ending_at(t, target - pos) == if target - pos == utf8_width(t[0]) {
            Some(t[0])
        } else if target - pos < utf8_width(t[0]) {
            None
        } else {
            char_ending_at(t.drop_first(), target - pos - utf8_width(t[0]))
        });
        if pos + w == target {
            assert(char_ending_at(t, target - pos) == Some(s@[k as int]));
            assert(char_ending_at(s@, index as int) == Some(s@[k as int]));
            return Some(s[k]);
        }
        if pos + w > target {
            return None;
        }
        pos = pos + w;
        k = k + 1;
    }
    None
}

/// The character at byte offset `index`, as
/// `text.get(index..)?.chars().next()` gives it.
pub fn next_char(text: &str, index: usize) -> (r: Option<char>)
    ensures
        r == char_starting_at(text@, index as int),
{
    let s = chars_of(text);
    let target = index as u128;
    let mut k: usize = 0;
    let mut pos: u128 = 0;
    assert(s@.skip(0) =~= s@);
    while k < s.len()
        invariant
            k <= s@.len(),
            s@ == text@,
            pos <= target,
            target == index,
            char_starting_at(s@, index as int) == char_starting_at(s@.skip(k as int), target - pos),
        decreases s@.len() - k,
    {
        let w = width_of(s[k]);
        let ghost t = s@.skip(k as int);
        assert(t[0] == s@[k as int]);
        assert(t.drop_first() =~= s@.skip(k + 1));
        assert(t.len() > 0);
        assert(char_starting_at(t, target - pos) == if target - pos == 0 {
            Some(t[0])
        } else if target - pos < utf8_width(t[0]) {
            None
        } else {
            char_starting_at(t.drop_first(), target - pos - utf8_width(t[0]))
        });
        if pos == target {
            return Some(s[k]);
        }
        if pos + w > target {
            return None;
        }
        pos = pos + w;
        k = k + 1;
    }
    None
}

/// Characters that may continue a JavaScript identifier (ASCII only).
pub open spec fn is_js_identifier_part_spec(c: char) -> bool {
    crate::text::is_ascii_alnum(c) || c == '_' || c == '$'
}

pub fn is_js_identifier_part(c: char) -> (r: bool)
    ensures
        r == is_js_identifier_part_spec(c),
{
    crate::text::ascii_alnum(c) || c == '_' || c == '$'
}

/// A match at bytes `start..end` is a property access: a `.` comes right
/// before it and no identifier character right after.
pub open spec fn is_property_access_spec(line: Seq<char>, start: int, end: int) -> bool {
    char_ending_at(line, start) == Some('.') && !(match char_starting_at(line, end) {
        Some(c) => is_js_identifier_part_spec(c),
        None => false,
    })
}

/// A match at bytes `start..end` stands alone: neither an identifier
/// character nor `.` right before it, no identifier character right after.
pub open spec fn has_identifier_boundaries_spec(line: Seq<char>, start: int, end: int) -> bool {
    !(match char_ending_at(line, start) {
        Some(c) => is_js_identifier_part_spec(c) || c == '.',
        None => false,
    }) && !(match char_starting_at(line, end) {
        Some(c) => is_js_identifier_part_spec(c),
        None => false,
    })
}

pub fn is_property_access(line: &str, start: usize, end: usize) -> (r: bool)
    ensures
        r == is_property_access_spec(line@, start as int, end as int),
{
    let before = previous_char(line, start);
    let after = next_char(line, end);
    let dot = match before {
        Some(c) => c == '.',
        None => false,
    };
    let ident_after = match after {
        Some(c) => is_js_identifier_part(c),
        None => false,
    };
    dot && !ident_after
}

pub fn has_identifier_boundaries(line: &str, start: usize, end: usize) -> (r: bool)
    ensures
        r == has_identifier_boundaries_spec(line@, start as int, end as int),
{
    let before = match previous_char(line, start) {
        Some(c) => is_js_identifier_part(c) || c == '.',
        None => false,
    };
    let after = match next_char(line, end) {
        Some(c) => is_js_identifier_part(c),
        None => false,
    };
    !before && !after
}

/// Lowercase globals that are distinctive enough to count in text scans.
pub open spec fn is_known_safe_global(p: Seq<char>) -> bool {
    ||| p == "alert"@
    ||| p == "atob"@
    ||| p == "btoa"@
    ||| p == "caches"@
    ||| p == "cancelAnimationFrame"@
    ||| p == "cancelIdleCallback"@
    ||| p == "clearImmediate"@
    ||| p == "clearInterval"@
    ||| p == "clearTimeout"@
    ||| p == "console"@
    ||| p == "crypto"@
    ||| p == "document"@
    ||| p == "fetch"@
    ||| p == "global"@
    ||| p == "globalThis"@
    ||| p == "indexedDB"@
    ||| p == "localStorage"@
    ||| p == "location"@
    ||| p == "navigator"@
    ||| p == "performance"@
    ||| p == "process"@
    ||| p == "queueMicrotask"@
    ||| p == "reportError"@
    ||| p == "requestAnimationFrame"@
    ||| p == "requestIdleCallback"@
    ||| p == "self"@
    ||| p == "sessionStorage"@
    ||| p == "setImmediate"@
    ||| p == "setInterval"@
    ||| p == "setTimeout"@
    ||| p == "structuredClone"@
    ||| p == "window"@
}

/// A global or member pattern that text scanning may count: dotted, or
/// starting with an uppercase letter, or a distinctive lowercase global.
pub open spec fn is_safe_pattern_spec(p: Seq<char>) -> bool {
    p.contains('.') || (p.len() > 0 && crate::text::is_ascii_upper(p[0])) || is_known_safe_global(p)
}

fn known_safe_global(p: &str) -> (r: bool)
    ensures
        r == is_known_safe_global(p@),
{
    str_eq(p, "alert") || str_eq(p, "atob") || str_eq(p, "btoa") || str_eq(p, "caches") || str_eq(
        p,
        "cancelAnimationFrame",
    ) || str_eq(p, "cancelIdleCallback") || str_eq(p, "clearImmediate") || str_eq(
        p,
        "clearInterval",
    ) || str_eq(p, "clearTimeout") || str_eq(p, "console") || str_eq(p, "crypto") || str_eq(
        p,
        "document",
    ) || str_eq(p, "fetch") || str_eq(p, "global") || str_eq(p, "globalThis") || str_eq(
        p,
        "indexedDB",
    ) || str_eq(p, "localStorage") || str_eq(p, "location") || str_eq(p, "navigator") || str_eq(
        p,
        "performance",
    ) || str_eq(p, "process") || str_eq(p, "queueMicrotask") || str_eq(p, "reportError")
        || str_eq(p, "requestAnimationFrame") || str_eq(p, "requestIdleCallback") || str_eq(
        p,
        "self",
    ) || str_eq(p, "sessionStorage") || str_eq(p, "setImmediate") || str_eq(p, "setInterval")
        || str_eq(p, "setTimeout") || str_eq(p, "structuredClone") || str_eq(p, "window")
}

pub fn is_safe_global_or_member_pattern(pattern: &str) -> (r: bool)
    ensures
        r == is_safe_pattern_spec(pattern@),
{
    let s = chars_of(pattern);
    crate::text::chars_contain(s.as_slice(), '.') || (s.len() > 0 && crate::text::ascii_upper(s[0]))
        || known_safe_global(pattern)
}

/// Whether a text match of `pattern` at bytes `start..end` of `line` counts
/// for `runtime`.
pub open spec fn is_fast_match_spec(
    runtime: crate::data::RuntimeDb,
    line: Seq<char>,
    start: int,
    end: int,
    pattern: Seq<char>,
) -> bool {
    (crate::data::table_get(runtime.properties@, pattern) is Some && is_property_access_spec(line, start, end))
        || ((crate::data::table_get(runtime.globals@, pattern) is Some || crate::data::table_get(
        runtime.member_chains@,
        pattern,
    ) is Some) && is_safe_pattern_spec(pattern) && has_identifier_boundaries_spec(line, start, end))
}

pub fn is_fast_match(
    runtime: &crate::data::RuntimeDb,
    line: &str,
    start: usize,
    end: usize,
    pattern: &str,
) -> (r: bool)
    ensures
        r == is_fast_match_spec(*runtime, line@, start as int, end as int, pattern@),
{
    (runtime.is_property_pattern(pattern) && is_property_access(line, start, end)) || (
    runtime.is_global_or_member_pattern(pattern) && is_safe_global_or_member_pattern(pattern)
        && has_identifier_boundaries(line, start, end))
}

} // verus!
