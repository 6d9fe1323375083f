//! The state of an AST walk over one file for one runtime: imports and
//! scopes that resolve member chains, and the detections recorded so far.
//! The walk itself (parsing, and visiting nodes in order) hands this state
//! the parts of each node that matter, as plain values.

use vstd::prelude::*;
use crate::analysis::{LineIndex, join_from, join_parts, normalize_module_name, normalize_module_spec, position_spec, starts_well_formed, strings_view, is_iterator_helper_method, is_iterator_helper_spec, temporal_call_result_type, temporal_owner_spec, is_unresolved_alias_spec, is_unresolved_sqlite_instance_alias};
use crate::data::{Feature, RuntimeDb};
use crate::scanner::{DetectedFeature, DetectionKey, DetectionSeen, DetectionView, detections_view, new_detection, push_detection, extension, extension_spec, file_name, file_name_spec};
use crate::syntax::{EmitTable, ExpressionKind, StatementKind, expression_syntax, expression_syntax_spec, statement_keys, statement_keys_spec, key_views, str_views, AssignmentOperator, LogicalOperator, VariableDeclarationKind, assignment_operator_syntax, assignment_operator_syntax_spec, logical_operator_syntax, logical_operator_syntax_spec, variable_declaration_syntax, variable_declaration_syntax_spec};
use crate::labels::chars_match;
use crate::text::{chars_of, is_prefix, push_char, push_text, str_eq, str_starts_with};

verus! {

// ---------------------------------------------------------------------
// Expressions as far as chains go
// ---------------------------------------------------------------------

/// What the analysis reads of an expression: identifiers and static
/// member accesses (which form member chains), calls and constructions,
/// and the wrappers it looks through.
pub enum ExprShape {
    Identifier(String),
    /// `object.property`.
    StaticMember(Box<ExprShape>, String),
    /// A call, with its first argument when that is a string literal.
    Call(Box<ExprShape>, Option<String>),
    /// `new callee(...)`.
    New(Box<ExprShape>),
    /// `(inner)`.
    Parenthesized(Box<ExprShape>),
    /// A TypeScript `as`, `satisfies`, `!` or `<T>` around `inner`.
    TypeWrapped(Box<ExprShape>),
    /// A function or arrow function expression.
    Function,
    /// Anything else.
    Other,
}

/// The member chain an expression spells, such as `fs.promises.cp`.
pub open spec fn chain_spec(e: ExprShape) -> Option<Seq<Seq<char>>>
    decreases e,
{
    match e {
        ExprShape::Identifier(name) => Some(seq![name@]),
        ExprShape::StaticMember(object, property) => match chain_spec(*object) {
            Some(c) => Some(c.push(property@)),
            None => None,
        },
        ExprShape::Parenthesized(inner) => chain_spec(*inner),
        ExprShape::TypeWrapped(inner) => chain_spec(*inner),
        _ => None,
    }
}

pub fn expression_chain(e: &ExprShape) -> (r: Option<Vec<String>>)
    ensures
        match r {
            Some(parts) => chain_spec(*e) == Some(strings_view(parts@)),
            None => chain_spec(*e) is None,
        },
    decreases e,
{
    match e {
        ExprShape::Identifier(name) => {
            let parts = vec![name.clone()];
            assert(strings_view(parts@) =~= seq![name@]);
            Some(parts)
        },
        ExprShape::StaticMember(object, property) => match expression_chain(object) {
            Some(mut parts) => {
                let ghost before = parts@;
                parts.push(property.clone());
                assert(strings_view(parts@) =~= strings_view(before).push(property@));
                Some(parts)
            },
            None => None,
        },
        ExprShape::Parenthesized(inner) => expression_chain(inner),
        ExprShape::TypeWrapped(inner) => expression_chain(inner),
        _ => None,
    }
}

/// A call of `require` by that name.
pub open spec fn is_require_callee(callee: ExprShape) -> bool {
    callee matches ExprShape::Identifier(name) && name@ == "require"@
}

fn require_callee(callee: &ExprShape) -> (r: bool)
    ensures
        r == is_require_callee(*callee),
{
    match callee {
        ExprShape::Identifier(name) => str_eq(name.as_str(), "require"),
        _ => false,
    }
}

/// A function called where it is written: an immediately invoked
/// function expression.
pub open spec fn is_iife_callee(callee: ExprShape) -> bool {
    ||| callee is Function
    ||| (callee matches ExprShape::Parenthesized(inner) && *inner is Function)
}

fn iife_callee(callee: &ExprShape) -> (r: bool)
    ensures
        r == is_iife_callee(*callee),
{
    match callee {
        ExprShape::Function => true,
        ExprShape::Parenthesized(inner) => match &**inner {
            ExprShape::Function => true,
            _ => false,
        },
        _ => false,
    }
}

/// The module a `require("...")` call loads, by its listed name.
pub open spec fn require_module_spec(e: ExprShape) -> Option<Seq<char>> {
    match e {
        ExprShape::Call(callee, argument) => if is_require_callee(*callee) {
            match argument {
                Some(a) => normalize_module_spec(a@),
                None => None,
            }
        } else {
            None
        },
        _ => None,
    }
}

pub fn require_module(e: &ExprShape) -> (r: Option<String>)
    ensures
        match r {
            Some(m) => require_module_spec(*e) == Some(m@),
            None => require_module_spec(*e) is None,
        },
{
    match e {
        ExprShape::Call(callee, argument) => {
            if !require_callee(callee) {
                return None;
            }
            match argument {
                Some(a) => normalize_module_name(a.as_str()),
                None => None,
            }
        },
        _ => None,
    }
}

/// The module format that a member chain shows: `module.exports` and
/// `exports` are CommonJS, `define.amd` is UMD.
pub open spec fn chain_support_spec(parts: Seq<Seq<char>>) -> Option<Seq<char>> {
    if (parts.len() >= 2 && parts[0] == "module"@ && parts[1] == "exports"@) || (parts.len() >= 1
        && parts[0] == "exports"@) {
        Some("module.commonjs"@)
    } else if parts.len() >= 2 && parts[0] == "define"@ && parts[1] == "amd"@ {
        Some("module.umd"@)
    } else {
        None
    }
}

fn chain_support(parts: &Vec<String>) -> (r: Option<&'static str>)
    ensures
        match r {
            Some(k) => chain_support_spec(strings_view(parts@)) == Some(k@),
            None => chain_support_spec(strings_view(parts@)) is None,
        },
{
    let ghost ps = strings_view(parts@);
    if parts.len() >= 1 {
        assert(ps[0] == parts@[0]@);
    }
    if parts.len() >= 2 {
        assert(ps[1] == parts@[1]@);
    }
    if (parts.len() >= 2 && str_eq(parts[0].as_str(), "module") && str_eq(parts[1].as_str(), "exports"))
        || (parts.len() >= 1 && str_eq(parts[0].as_str(), "exports")) {
        Some("module.commonjs")
    } else if parts.len() >= 2 && str_eq(parts[0].as_str(), "define") && str_eq(parts[1].as_str(), "amd") {
        Some("module.umd")
    } else {
        None
    }
}

// ---------------------------------------------------------------------
// Bindings
// ---------------------------------------------------------------------

/// One specifier of an import declaration.
pub enum ImportSpecifier {
    /// `* as local`.
    Namespace(String),
    /// `imported as local`, or `imported` alone (then both are the same).
    Named { imported: String, local: String },
    /// `local` as the default import.
    Default(String),
}

/// One property of an object pattern: its key when that is a plain name
/// or string, and its local name when the value is a plain binding.
pub struct ObjectBinding {
    pub key: Option<String>,
    pub local: Option<String>,
}

/// What a variable declarator binds.
pub enum BindingShape {
    Identifier(String),
    Object(Vec<ObjectBinding>),
    Other,
}

// ---------------------------------------------------------------------
// The state of a walk
// ---------------------------------------------------------------------

/// A map kept as pairs: a later pair for a key replaces earlier ones.
pub open spec fn pairs_view(v: Seq<(String, String)>) -> Seq<(Seq<char>, Seq<char>)> {
    v.map_values(|p: (String, String)| (p.0@, p.1@))
}

/// The value of the last pair with `key`.
pub open spec fn lookup_last(pairs: Seq<(Seq<char>, Seq<char>)>, key: Seq<char>) -> Option<Seq<char>>
    decreases pairs.len(),
{
    if pairs.len() == 0 {
        None
    } else if pairs.last().0 == key {
        Some(pairs.last().1)
    } else {
        lookup_last(pairs.drop_last(), key)
    }
}

/// The value of `key` in the innermost scope that has it.
pub open spec fn lookup_scopes(scopes: Seq<Seq<(Seq<char>, Seq<char>)>>, key: Seq<char>) -> Option<Seq<char>>
    decreases scopes.len(),
{
    if scopes.len() == 0 {
        None
    } else {
        match lookup_last(scopes.last(), key) {
            Some(v) => Some(v),
            None => lookup_scopes(scopes.drop_last(), key),
        }
    }
}

/// Whether some scope binds `name`.
pub open spec fn shadowed_in(scopes: Seq<Seq<Seq<char>>>, name: Seq<char>) -> bool {
    exists|i: int| 0 <= i < scopes.len() && (#[trigger] scopes[i]).contains(name)
}

/// The state of a walk as plain values.
pub struct VisitorState {
    /// Names bound to whole modules: `import * as fs`, `const fs = require("fs")`.
    pub namespaces: Seq<(Seq<char>, Seq<char>)>,
    /// Names bound to module members: `import { cp } from "fs"` binds `cp`
    /// to `fs.cp`.
    pub named: Seq<(Seq<char>, Seq<char>)>,
    /// The names bound in each open scope, outermost first.
    pub locals: Seq<Seq<Seq<char>>>,
    /// The runtime objects bound in each open scope, by name and type.
    pub objects: Seq<Seq<(Seq<char>, Seq<char>)>>,
    pub found: Seq<DetectionView>,
    pub keys: Seq<DetectionKey>,
}

/// Records `f` at `pos` unless it was recorded there already.
pub open spec fn record_at(st: VisitorState, f: Feature, path: Seq<char>, pos: (u64, u64)) -> VisitorState {
    let key = (f.id, 0usize, pos.0, pos.1);
    if st.keys.contains(key) {
        st
    } else {
        VisitorState {
            found: st.found.push(new_detection(f, path, pos.0, pos.1)),
            keys: st.keys.push(key),
            ..st
        }
    }
}

/// Recording a feature where it was just recorded changes nothing: each
/// feature is recorded once per place.
pub proof fn lemma_record_once(st: VisitorState, f: Feature, path: Seq<char>, pos: (u64, u64))
    ensures
        record_at(record_at(st, f, path, pos), f, path, pos) == record_at(st, f, path, pos),
{
    let key = (f.id, 0usize, pos.0, pos.1);
    let once = record_at(st, f, path, pos);
    if !st.keys.contains(key) {
        assert(once.keys[once.keys.len() - 1] == key);
        assert(once.keys.contains(key));
    }
}

/// Records `f`, if there is one.
pub open spec fn record_opt(st: VisitorState, f: Option<Feature>, path: Seq<char>, pos: (u64, u64)) -> VisitorState {
    match f {
        Some(f) => record_at(st, f, path, pos),
        None => st,
    }
}

/// The feature a key names in one of the tables.
pub open spec fn table_feature(db: RuntimeDb, table: EmitTable, key: Seq<char>) -> Option<Feature> {
    match table {
        EmitTable::Syntax => db.syntax_spec(key),
        EmitTable::Support => db.support_spec(key),
    }
}

/// Records the features of `keys`, in order, all at `pos`.
pub open spec fn record_keys(
    st: VisitorState,
    db: RuntimeDb,
    path: Seq<char>,
    pos: (u64, u64),
    keys: Seq<(EmitTable, Seq<char>)>,
) -> VisitorState
    decreases keys.len(),
{
    if keys.len() == 0 {
        st
    } else {
        let prev = record_keys(st, db, path, pos, keys.drop_last());
        record_opt(prev, table_feature(db, keys.last().0, keys.last().1), path, pos)
    }
}

/// The walk of one file for one runtime.
pub struct AstVisitor<'a> {
    runtime: &'a RuntimeDb,
    line_index: LineIndex,
    path: String,
    namespace_imports: Vec<(String, String)>,
    named_imports: Vec<(String, String)>,
    local_scopes: Vec<Vec<String>>,
    runtime_object_scopes: Vec<Vec<(String, String)>>,
    detections: Vec<DetectedFeature>,
    seen: DetectionSeen,
}

impl<'a> View for AstVisitor<'a> {
    type V = VisitorState;

    closed spec fn view(&self) -> VisitorState {
        VisitorState {
            namespaces: pairs_view(self.namespace_imports@),
            named: pairs_view(self.named_imports@),
            locals: self.local_scopes@.map_values(|s: Vec<String>| strings_view(s@)),
            objects: self.runtime_object_scopes@.map_values(|s: Vec<(String, String)>| pairs_view(s@)),
            found: detections_view(self.detections@),
            keys: self.seen.keys(),
        }
    }
}

impl<'a> AstVisitor<'a> {
    /// The runtime whose features are recorded.
    pub closed spec fn db(&self) -> RuntimeDb {
        *self.runtime
    }

    /// The file's path, as detections carry it.
    pub closed spec fn path_spec(&self) -> Seq<char> {
        self.path@
    }

    /// The file's line starts.
    pub closed spec fn starts(&self) -> Seq<usize> {
        self.line_index.starts()
    }

    /// The line and column of a byte offset in the file.
    pub open spec fn pos(&self, offset: usize) -> (u64, u64) {
        position_spec(self.starts(), offset)
    }

    pub closed spec fn well_formed(&self) -> bool {
        &&& self.seen.well_formed()
        &&& starts_well_formed(self.line_index.starts())
    }

    /// The same file and runtime.
    pub open spec fn same_context(&self, other: &Self) -> bool {
        &&& self.db() == other.db()
        &&& self.path_spec() == other.path_spec()
        &&& self.starts() == other.starts()
        &&& self.well_formed() == other.well_formed()
    }

    /// Starts a walk of the file at `path` with contents `text`: nothing
    /// imported or recorded, and one open scope.
    pub fn new(runtime: &'a RuntimeDb, path: &str, text: &str) -> (r: Self)
        ensures
            r.db() == *runtime,
            r.path_spec() == path@,
            r.well_formed(),
            r@ == (VisitorState {
                namespaces: seq![],
                named: seq![],
                locals: seq![seq![]],
                objects: seq![seq![]],
                found: seq![],
                keys: seq![],
            }),
    {
        let line_index = LineIndex::new(text);
        let local_scopes: Vec<Vec<String>> = vec![Vec::new()];
        let runtime_object_scopes: Vec<Vec<(String, String)>> = vec![Vec::new()];
        let r = AstVisitor {
            runtime,
            line_index,
            path: path.to_owned(),
            namespace_imports: Vec::new(),
            named_imports: Vec::new(),
            local_scopes,
            runtime_object_scopes,
            detections: Vec::new(),
            seen: DetectionSeen::new(),
        };
        assert(strings_view(r.local_scopes@[0]@) =~= Seq::<Seq<char>>::empty());
        assert(pairs_view(r.runtime_object_scopes@[0]@) =~= Seq::<(Seq<char>, Seq<char>)>::empty());
        assert(r@.locals =~= seq![seq![]]);
        assert(r@.objects =~= seq![seq![]]);
        assert(r@.namespaces =~= seq![]);
        assert(r@.named =~= seq![]);
        assert(r@.found =~= seq![]);
        r
    }

    /// The detections recorded, in order.
    pub fn into_detections(self) -> (r: Vec<DetectedFeature>)
        ensures
            detections_view(r@) == self@.found,
    {
        self.detections
    }

    /// Records `feature` at the position of `offset`.
    fn emit(&mut self, feature: &Feature, offset: usize)
        requires
            old(self).well_formed(),
            offset < usize::MAX,
        ensures
            final(self).same_context(old(self)),
            final(self)@ == record_at(old(self)@, *feature, old(self).path_spec(), old(self).pos(offset)),
    {
        let (line, column) = self.line_index.line_column(offset);
        let ghost before = self@;
        push_detection(&mut self.detections, &mut self.seen, feature, 0, self.path.as_str(), line, column);
        proof {
            let after = record_at(before, *feature, self.path@, (line, column));
            assert(self@.found == after.found);
            assert(self@.keys == after.keys);
            assert(self@ == after);
        }
    }

    /// Records the feature that `key` names in `table`, if any.
    fn emit_key(&mut self, table: EmitTable, key: &str, offset: usize)
        requires
            old(self).well_formed(),
            offset < usize::MAX,
        ensures
            final(self).same_context(old(self)),
            final(self)@ == record_opt(
                old(self)@,
                table_feature(old(self).db(), table, key@),
                old(self).path_spec(),
                old(self).pos(offset),
            ),
    {
        let found = match table {
            EmitTable::Syntax => self.runtime.match_syntax(key),
            EmitTable::Support => self.runtime.match_support(key),
        };
        match found {
            Some(feature) => self.emit(feature, offset),
            None => {},
        }
    }

    /// Records the features of `keys`, in order, at the position of `offset`.
    fn emit_keys(&mut self, keys: &Vec<(EmitTable, &'static str)>, offset: usize)
        requires
            old(self).well_formed(),
            offset < usize::MAX,
        ensures
            final(self).same_context(old(self)),
            final(self)@ == record_keys(
                old(self)@,
                old(self).db(),
                old(self).path_spec(),
                old(self).pos(offset),
                key_views(keys@),
            ),
    {
        let ghost start = self@;
        let ghost kv = key_views(keys@);
        let mut i: usize = 0;
        while i < keys.len()
            invariant
                i <= keys@.len(),
                kv == key_views(keys@),
                self.same_context(old(self)),
                old(self).well_formed(),
                offset < usize::MAX,
                start == old(self)@,
                self@ == record_keys(start, self.db(), self.path_spec(), self.pos(offset), kv.take(i as int)),
            decreases keys@.len() - i,
        {
            let (table, key) = keys[i];
            proof {
                assert(kv.take(i + 1).drop_last() =~= kv.take(i as int));
                assert(kv.take(i + 1).last() == (table, key@));
            }
            self.emit_key(table, key, offset);
            i = i + 1;
        }
        assert(kv.take(kv.len() as int) =~= kv);
    }
}


// ---------------------------------------------------------------------
// Resolving chains
// ---------------------------------------------------------------------

/// What the root of a chain stands for: a runtime object's type, else a
/// named import, else a namespace import, else itself.
pub open spec fn resolve_root(st: VisitorState, root: Seq<char>) -> Seq<char> {
    match lookup_scopes(st.objects, root) {
        Some(t) => t,
        None => match lookup_last(st.named, root) {
            Some(n) => n,
            None => match lookup_last(st.namespaces, root) {
                Some(m) => m,
                None => root,
            },
        },
    }
}

/// A chain with its root resolved, joined with `.`.
pub open spec fn canonical_spec(st: VisitorState, parts: Seq<Seq<char>>) -> Seq<char> {
    if parts.len() == 0 {
        Seq::empty()
    } else {
        join_from(resolve_root(st, parts[0]), parts, parts.len() as int)
    }
}

/// The resolved chain of an expression, if it spells one.
pub open spec fn canonical_expr(st: VisitorState, e: ExprShape) -> Option<Seq<char>> {
    match chain_spec(e) {
        Some(parts) => Some(canonical_spec(st, parts)),
        None => None,
    }
}

/// The runtime object type an expression evaluates to, as far as the
/// analysis follows them: `new DatabaseSync(...)` and `db.prepare(...)`.
pub open spec fn runtime_type_spec(st: VisitorState, e: ExprShape) -> Option<Seq<char>>
    decreases e,
{
    match e {
        ExprShape::New(callee) => match canonical_expr(st, *callee) {
            Some(c) => if c == "sqlite.DatabaseSync"@ {
                Some("sqlite.DatabaseSync"@)
            } else {
                None
            },
            None => None,
        },
        ExprShape::Call(callee, _) => match canonical_expr(st, *callee) {
            Some(c) => if c == "sqlite.DatabaseSync.prepare"@ {
                Some("sqlite.StatementSync"@)
            } else {
                None
            },
            None => None,
        },
        ExprShape::Parenthesized(inner) => runtime_type_spec(st, *inner),
        ExprShape::TypeWrapped(inner) => runtime_type_spec(st, *inner),
        _ => None,
    }
}

/// A call of `Iterator.from` or of an iterator helper on `Iterator`.
pub open spec fn is_iterator_call_spec(st: VisitorState, callee: ExprShape) -> bool {
    match canonical_expr(st, callee) {
        Some(c) => c == "Iterator.from"@ || (is_prefix("Iterator."@, c) && is_iterator_helper_spec(c.skip(9))),
        None => false,
    }
}

/// An expression known to produce an iterator.
pub open spec fn is_iterator_expr_spec(st: VisitorState, e: ExprShape) -> bool
    decreases e,
{
    match e {
        ExprShape::Call(callee, _) => is_iterator_call_spec(st, *callee),
        ExprShape::Parenthesized(inner) => is_iterator_expr_spec(st, *inner),
        ExprShape::TypeWrapped(inner) => is_iterator_expr_spec(st, *inner),
        _ => false,
    }
}

/// `Iterator.method` when `object.method` is an iterator helper on an
/// iterator.
pub open spec fn iterator_member_spec(st: VisitorState, object: ExprShape, property: Seq<char>) -> Option<Seq<char>> {
    if is_iterator_helper_spec(property) && is_iterator_expr_spec(st, object) {
        Some("Iterator."@ + property)
    } else {
        None
    }
}

/// The Temporal type an expression evaluates to: a call of a Temporal
/// type's member, or a call of a listed method on such a value.
pub open spec fn temporal_type_spec(st: VisitorState, db: RuntimeDb, e: ExprShape) -> Option<Seq<char>>
    decreases e,
{
    match e {
        ExprShape::Call(callee, _) => match canonical_expr(st, *callee) {
            Some(c) => temporal_owner_spec(c),
            None => match *callee {
                ExprShape::StaticMember(object, property) => match temporal_type_spec(st, db, *object) {
                    Some(owner) => if db.member_chain_spec(owner.push('.') + property@) is Some {
                        Some(owner)
                    } else {
                        None
                    },
                    None => None,
                },
                _ => None,
            },
        },
        ExprShape::Parenthesized(inner) => temporal_type_spec(st, db, *inner),
        ExprShape::TypeWrapped(inner) => temporal_type_spec(st, db, *inner),
        _ => None,
    }
}

/// `Owner.property` when `object` is a value of Temporal type `Owner`.
pub open spec fn temporal_member_spec(
    st: VisitorState,
    db: RuntimeDb,
    object: ExprShape,
    property: Seq<char>,
) -> Option<Seq<char>> {
    match temporal_type_spec(st, db, object) {
        Some(owner) => Some(owner.push('.') + property),
        None => None,
    }
}

fn lookup_pairs(pairs: &Vec<(String, String)>, key: &str) -> (r: Option<String>)
    ensures
        match r {
            Some(v) => lookup_last(pairs_view(pairs@), key@) == Some(v@),
            None => lookup_last(pairs_view(pairs@), key@) is None,
        },
{
    let ghost pv = pairs_view(pairs@);
    let mut i: usize = pairs.len();
    assert(pv.take(i as int) =~= pv);
    while i > 0
        invariant
            i <= pairs@.len(),
            pv == pairs_view(pairs@),
            lookup_last(pv, key@) == lookup_last(pv.take(i as int), key@),
        decreases i,
    {
        proof {
            assert(pv.take(i as int).drop_last() =~= pv.take(i - 1));
            assert(pv.take(i as int).last() == pv[i - 1]);
            assert(pv[i - 1] == (pairs@[i - 1].0@, pairs@[i - 1].1@));
        }
        if str_eq(pairs[i - 1].0.as_str(), key) {
            return Some(pairs[i - 1].1.clone());
        }
        i = i - 1;
    }
    None
}

fn suffix_from(s: &str, n: usize) -> (r: String)
    requires
        n <= s@.len(),
    ensures
        r@ == s@.skip(n as int),
{
    let chars = chars_of(s);
    let mut out = String::new();
    let mut i: usize = n;
    if i > chars.len() {
        i = chars.len();
    }
    assert(out@ =~= chars@.subrange(i as int, i as int));
    let start = i;
    while i < chars.len()
        invariant
            start <= i <= chars@.len(),
            chars@ == s@,
            out@ == chars@.subrange(start as int, i as int),
        decreases chars@.len() - i,
    {
        push_char(&mut out, chars[i]);
        i = i + 1;
        assert(out@ =~= chars@.subrange(start as int, i as int));
    }
    assert(out@ =~= s@.skip(n as int));
    out
}

fn dotted(owner: &str, property: &str) -> (r: String)
    ensures
        r@ == owner@.push('.') + property@,
{
    let mut out = String::new();
    push_text(&mut out, owner);
    push_char(&mut out, '.');
    push_text(&mut out, property);
    assert(out@ =~= owner@.push('.') + property@);
    out
}

impl<'a> AstVisitor<'a> {
    /// The type of the runtime object `name` is bound to, innermost scope
    /// first.
    fn runtime_object_type(&self, name: &str) -> (r: Option<String>)
        ensures
            match r {
                Some(t) => lookup_scopes(self@.objects, name@) == Some(t@),
                None => lookup_scopes(self@.objects, name@) is None,
            },
    {
        let ghost scopes = self@.objects;
        let mut i: usize = self.runtime_object_scopes.len();
        assert(scopes.take(i as int) =~= scopes);
        while i > 0
            invariant
                i <= self.runtime_object_scopes@.len(),
                scopes == self@.objects,
                lookup_scopes(scopes, name@) == lookup_scopes(scopes.take(i as int), name@),
            decreases i,
        {
            proof {
                assert(scopes.take(i as int).drop_last() =~= scopes.take(i - 1));
                assert(scopes.take(i as int).last() == scopes[i - 1]);
                assert(scopes[i - 1] == pairs_view(self.runtime_object_scopes@[i - 1]@));
            }
            match lookup_pairs(&self.runtime_object_scopes[i - 1], name) {
                Some(t) => return Some(t),
                None => {},
            }
            i = i - 1;
        }
        None
    }

    /// Whether an open scope binds `name`.
    fn is_shadowed(&self, name: &str) -> (r: bool)
        ensures
            r == shadowed_in(self@.locals, name@),
    {
        let ghost scopes = self@.locals;
        let mut i: usize = self.local_scopes.len();
        assert(scopes.len() == self.local_scopes@.len());
        while i > 0
            invariant
                i <= self.local_scopes@.len(),
                scopes == self@.locals,
                scopes.len() == self.local_scopes@.len(),
                forall|k: int| i <= k < scopes.len() ==> !(#[trigger] scopes[k]).contains(name@),
            decreases i,
        {
            let scope = &self.local_scopes[i - 1];
            assert(scopes[i - 1] == strings_view(scope@));
            let mut j: usize = 0;
            while j < scope.len()
                invariant
                    0 < i <= self.local_scopes@.len(),
                    scopes == self@.locals,
                    scopes.len() == self.local_scopes@.len(),
                    j <= scope@.len(),
                    scopes[i - 1] == strings_view(scope@),
                    forall|k: int| 0 <= k < j ==> (#[trigger] scope@[k])@ != name@,
                decreases scope@.len() - j,
            {
                if str_eq(scope[j].as_str(), name) {
                    assert(strings_view(scope@)[j as int] == name@);
                    assert(scopes[i - 1].contains(name@));
                    assert(shadowed_in(scopes, name@));
                    return true;
                }
                j = j + 1;
            }
            proof {
                let sv = scopes[i - 1];
                if sv.contains(name@) {
                    let k = choose|k: int| 0 <= k < sv.len() && #[trigger] sv[k] == name@;
                    assert(sv[k] == scope@[k]@);
                }
            }
            i = i - 1;
        }
        false
    }

    /// The chain with its root resolved, joined with `.`.
    fn canonicalize_chain(&self, parts: &Vec<String>) -> (r: String)
        ensures
            r@ == canonical_spec(self@, strings_view(parts@)),
    {
        if parts.len() == 0 {
            return String::new();
        }
        let root = parts[0].as_str();
        assert(strings_view(parts@)[0] == root@);
        let resolved = match self.runtime_object_type(root) {
            Some(t) => t,
            None => match lookup_pairs(&self.named_imports, root) {
                Some(n) => n,
                None => match lookup_pairs(&self.namespace_imports, root) {
                    Some(m) => m,
                    None => root.to_owned(),
                },
            },
        };
        join_parts(resolved.as_str(), parts)
    }

    fn canonicalize_expression_chain(&self, e: &ExprShape) -> (r: Option<String>)
        ensures
            match r {
                Some(c) => canonical_expr(self@, *e) == Some(c@),
                None => canonical_expr(self@, *e) is None,
            },
    {
        match expression_chain(e) {
            Some(parts) => Some(self.canonicalize_chain(&parts)),
            None => None,
        }
    }

    fn expression_runtime_type(&self, e: &ExprShape) -> (r: Option<String>)
        ensures
            match r {
                Some(t) => runtime_type_spec(self@, *e) == Some(t@),
                None => runtime_type_spec(self@, *e) is None,
            },
        decreases e,
    {
        match e {
            ExprShape::New(callee) => match self.canonicalize_expression_chain(callee) {
                Some(c) => if str_eq(c.as_str(), "sqlite.DatabaseSync") {
                    Some("sqlite.DatabaseSync".to_owned())
                } else {
                    None
                },
                None => None,
            },
            ExprShape::Call(callee, _) => match self.canonicalize_expression_chain(callee) {
                Some(c) => if str_eq(c.as_str(), "sqlite.DatabaseSync.prepare") {
                    Some("sqlite.StatementSync".to_owned())
                } else {
                    None
                },
                None => None,
            },
            ExprShape::Parenthesized(inner) => self.expression_runtime_type(inner),
            ExprShape::TypeWrapped(inner) => self.expression_runtime_type(inner),
            _ => None,
        }
    }

    fn is_iterator_call(&self, callee: &ExprShape) -> (r: bool)
        ensures
            r == is_iterator_call_spec(self@, *callee),
    {
        match self.canonicalize_expression_chain(callee) {
            Some(c) => {
                if str_eq(c.as_str(), "Iterator.from") {
                    return true;
                }
                if str_starts_with(c.as_str(), "Iterator.") {
                    proof {
                        reveal_strlit("Iterator.");
                    }
                    let method = suffix_from(c.as_str(), 9);
                    is_iterator_helper_method(method.as_str())
                } else {
                    false
                }
            },
            None => false,
        }
    }

    fn is_iterator_expression(&self, e: &ExprShape) -> (r: bool)
        ensures
            r == is_iterator_expr_spec(self@, *e),
        decreases e,
    {
        match e {
            ExprShape::Call(callee, _) => self.is_iterator_call(callee),
            ExprShape::Parenthesized(inner) => self.is_iterator_expression(inner),
            ExprShape::TypeWrapped(inner) => self.is_iterator_expression(inner),
            _ => false,
        }
    }

    fn iterator_helper_member(&self, object: &ExprShape, property: &str) -> (r: Option<String>)
        ensures
            match r {
                Some(n) => iterator_member_spec(self@, *object, property@) == Some(n@),
                None => iterator_member_spec(self@, *object, property@) is None,
            },
    {
        if !is_iterator_helper_method(property) || !self.is_iterator_expression(object) {
            return None;
        }
        let mut name = String::new();
        push_text(&mut name, "Iterator.");
        push_text(&mut name, property);
        proof {
            reveal_strlit("Iterator.");
            assert(name@ =~= "Iterator."@ + property@);
        }
        Some(name)
    }

    fn temporal_expression_type(&self, e: &ExprShape) -> (r: Option<String>)
        ensures
            match r {
                Some(t) => temporal_type_spec(self@, self.db(), *e) == Some(t@),
                None => temporal_type_spec(self@, self.db(), *e) is None,
            },
        decreases e,
    {
        match e {
            ExprShape::Call(callee, _) => {
                match self.canonicalize_expression_chain(callee) {
                    Some(c) => {
                        return match temporal_call_result_type(c.as_str()) {
                            Some(owner) => Some(owner.to_owned()),
                            None => None,
                        };
                    },
                    None => {},
                }
                match &**callee {
                    ExprShape::StaticMember(object, property) => match self.temporal_expression_type(object) {
                        Some(owner) => {
                            let name = dotted(owner.as_str(), property.as_str());
                            if self.runtime.match_member_chain(name.as_str()).is_some() {
                                Some(owner)
                            } else {
                                None
                            }
                        },
                        None => None,
                    },
                    _ => None,
                }
            },
            ExprShape::Parenthesized(inner) => self.temporal_expression_type(inner),
            ExprShape::TypeWrapped(inner) => self.temporal_expression_type(inner),
            _ => None,
        }
    }

    fn temporal_instance_member(&self, object: &ExprShape, property: &str) -> (r: Option<String>)
        ensures
            match r {
                Some(n) => temporal_member_spec(self@, self.db(), *object, property@) == Some(n@),
                None => temporal_member_spec(self@, self.db(), *object, property@) is None,
            },
    {
        match self.temporal_expression_type(object) {
            Some(owner) => Some(dotted(owner.as_str(), property)),
            None => None,
        }
    }
}

// ---------------------------------------------------------------------
// How visiting nodes changes the state
// ---------------------------------------------------------------------

/// Syntax keys as keys of the syntax table.
pub open spec fn syntax_table_keys(keys: Seq<Seq<char>>) -> Seq<(EmitTable, Seq<char>)> {
    keys.map_values(|k: Seq<char>| (EmitTable::Syntax, k))
}

/// Binds the specifiers of an import of `module`.
pub open spec fn import_bindings(st: VisitorState, module: Seq<char>, specs: Seq<ImportSpecifier>) -> VisitorState
    decreases specs.len(),
{
    if specs.len() == 0 {
        st
    } else {
        let prev = import_bindings(st, module, specs.drop_last());
        match specs.last() {
            ImportSpecifier::Namespace(local) => VisitorState {
                namespaces: prev.namespaces.push((local@, module)),
                ..prev
            },
            ImportSpecifier::Default(local) => VisitorState {
                namespaces: prev.namespaces.push((local@, module)),
                ..prev
            },
            ImportSpecifier::Named { imported, local } => VisitorState {
                named: prev.named.push((local@, module.push('.') + imported@)),
                ..prev
            },
        }
    }
}

/// Binds the properties of an object pattern that destructures a
/// required `module`.
pub open spec fn object_bindings(st: VisitorState, module: Seq<char>, props: Seq<ObjectBinding>) -> VisitorState
    decreases props.len(),
{
    if props.len() == 0 {
        st
    } else {
        let prev = object_bindings(st, module, props.drop_last());
        let p = props.last();
        match (p.key, p.local) {
            (Some(key), Some(local)) => VisitorState {
                named: prev.named.push((local@, module.push('.') + key@)),
                ..prev
            },
            _ => prev,
        }
    }
}

proof fn lemma_object_bindings_named(st: VisitorState, module: Seq<char>, props: Seq<ObjectBinding>, i: int)
    requires
        0 <= i < props.len(),
        props[i].key is Some,
        props[i].local is Some,
    ensures
        object_bindings(st, module, props).named.contains(
            (props[i].local.unwrap()@, module.push('.') + props[i].key.unwrap()@),
        ),
    decreases props.len(),
{
    let prev = object_bindings(st, module, props.drop_last());
    if i < props.len() - 1 {
        assert(props.drop_last()[i] == props[i]);
        lemma_object_bindings_named(st, module, props.drop_last(), i);
        let x = (props[i].local.unwrap()@, module.push('.') + props[i].key.unwrap()@);
        let k = choose|k: int| 0 <= k < prev.named.len() && prev.named[k] == x;
        match (props.last().key, props.last().local) {
            (Some(key), Some(local)) => {
                assert(object_bindings(st, module, props).named[k] == x);
            },
            _ => {},
        }
    } else {
        let r = object_bindings(st, module, props);
        assert(r.named[r.named.len() - 1] == (props[i].local.unwrap()@, module.push('.') + props[i].key.unwrap()@));
    }
}

/// Destructuring a required module binds each property's local name to
/// the module's member: after `{ key: local } = require(m)`, the names
/// bound by named imports hold `local` as `m.key` for every property with
/// a plain key and local, and a reference to the last property's `local`
/// resolves to `m.key`.
pub proof fn lemma_required_properties_bind_members(
    st: VisitorState,
    db: RuntimeDb,
    path: Seq<char>,
    pos: (u64, u64),
    props: Vec<ObjectBinding>,
    init: ExprShape,
    i: int,
)
    requires
        require_module_spec(init) is Some,
        0 <= i < props@.len(),
        props@[i].key is Some,
        props@[i].local is Some,
    ensures
        declarator_spec(st, db, path, pos, BindingShape::Object(props), Some(init)).named.contains(
            (props@[i].local.unwrap()@, require_module_spec(init).unwrap().push('.') + props@[i].key.unwrap()@),
        ),
        i == props@.len() - 1 ==> lookup_last(
            declarator_spec(st, db, path, pos, BindingShape::Object(props), Some(init)).named,
            props@[i].local.unwrap()@,
        ) == Some(require_module_spec(init).unwrap().push('.') + props@[i].key.unwrap()@),
{
    let m = require_module_spec(init).unwrap();
    let st0 = record_opt(st, db.support_spec("module.commonjs"@), path, pos);
    lemma_object_bindings_named(st0, m, props@, i);
    let r = declarator_spec(st, db, path, pos, BindingShape::Object(props), Some(init));
    assert(r == object_bindings(st0, m, props@));
}

/// Binds what a declarator binds to a required `module`.
pub open spec fn require_bindings(st: VisitorState, module: Seq<char>, id: BindingShape) -> VisitorState {
    match id {
        BindingShape::Identifier(name) => VisitorState { namespaces: st.namespaces.push((name@, module)), ..st },
        BindingShape::Object(props) => object_bindings(st, module, props@),
        BindingShape::Other => st,
    }
}

/// Binds `name` to a runtime object of type `t` in the innermost scope.
pub open spec fn bind_object(st: VisitorState, name: Seq<char>, t: Seq<char>) -> VisitorState {
    if st.objects.len() > 0 {
        VisitorState {
            objects: st.objects.update(st.objects.len() - 1, st.objects.last().push((name, t))),
            ..st
        }
    } else {
        st
    }
}

/// A declarator `id = init`: a `require` records CommonJS and binds the
/// module; a runtime object bound to a plain name is remembered.
pub open spec fn declarator_spec(
    st: VisitorState,
    db: RuntimeDb,
    path: Seq<char>,
    init_pos: (u64, u64),
    id: BindingShape,
    init: Option<ExprShape>,
) -> VisitorState {
    let st1 = match init {
        Some(e) => match require_module_spec(e) {
            Some(m) => require_bindings(
                record_opt(st, db.support_spec("module.commonjs"@), path, init_pos),
                m,
                id,
            ),
            None => st,
        },
        None => st,
    };
    match init {
        Some(e) => match runtime_type_spec(st1, e) {
            Some(t) => match id {
                BindingShape::Identifier(name) => bind_object(st1, name@, t),
                _ => st1,
            },
            None => st1,
        },
        None => st1,
    }
}

/// An identifier reference: a global that no scope shadows, and a name
/// bound by a named import.
pub open spec fn identifier_spec(
    st: VisitorState,
    db: RuntimeDb,
    path: Seq<char>,
    pos: (u64, u64),
    name: Seq<char>,
    is_global_reference: bool,
) -> VisitorState {
    let st1 = if !shadowed_in(st.locals, name) && is_global_reference {
        record_opt(st, db.global_spec(name), path, pos)
    } else {
        st
    };
    match lookup_last(st.named, name) {
        Some(feature_name) => record_opt(st1, db.member_chain_spec(feature_name), path, pos),
        None => st1,
    }
}

/// Records a member feature found by name, and notes its id.
pub open spec fn record_member(
    st: VisitorState,
    emitted: Option<usize>,
    db: RuntimeDb,
    path: Seq<char>,
    pos: (u64, u64),
    name: Option<Seq<char>>,
) -> (VisitorState, Option<usize>) {
    match name {
        Some(n) => match db.member_chain_spec(n) {
            Some(f) => (record_at(st, f, path, pos), Some(f.id)),
            None => (st, emitted),
        },
        None => (st, emitted),
    }
}

/// After the chain: iterator helpers, Temporal members, and the property
/// itself unless the same feature was just recorded for the member.
pub open spec fn member_rest_spec(
    st: VisitorState,
    emitted: Option<usize>,
    db: RuntimeDb,
    path: Seq<char>,
    pos: (u64, u64),
    property_pos: (u64, u64),
    object: ExprShape,
    property: Seq<char>,
) -> VisitorState {
    let (st2, em2) = record_member(st, emitted, db, path, pos, iterator_member_spec(st, object, property));
    let (st3, em3) = record_member(st2, em2, db, path, pos, temporal_member_spec(st2, db, object, property));
    match db.property_spec(property) {
        Some(f) => if em3 != Some(f.id) {
            record_at(st3, f, path, property_pos)
        } else {
            st3
        },
        None => st3,
    }
}

/// A static member access `object.property`.
pub open spec fn static_member_spec(
    st: VisitorState,
    db: RuntimeDb,
    path: Seq<char>,
    pos: (u64, u64),
    property_pos: (u64, u64),
    object: ExprShape,
    property: Seq<char>,
) -> VisitorState {
    match chain_spec(object) {
        Some(c) => {
            let raw = c.push(property);
            let st1 = match chain_support_spec(raw) {
                Some(k) => record_opt(st, db.support_spec(k), path, pos),
                None => st,
            };
            let chain = canonical_spec(st1, raw);
            if is_unresolved_alias_spec(raw, chain) {
                st1
            } else {
                let (st2, em2) = record_member(st1, None, db, path, pos, Some(chain));
                member_rest_spec(st2, em2, db, path, pos, property_pos, object, property)
            }
        },
        None => member_rest_spec(st, None, db, path, pos, property_pos, object, property),
    }
}

/// The extension of the file a path names.
pub open spec fn path_extension_spec(path: Seq<char>) -> Option<Seq<char>> {
    match file_name_spec(path) {
        Some(name) => extension_spec(name),
        None => None,
    }
}

/// What a file's extension says: `.mjs`/`.mts` are ES modules,
/// `.cjs`/`.cts` CommonJS, and TypeScript extensions need native type
/// stripping.
pub open spec fn file_support_keys(ext: Option<Seq<char>>) -> Seq<(EmitTable, Seq<char>)> {
    let first: Seq<(EmitTable, Seq<char>)> = if ext == Some("mjs"@) || ext == Some("mts"@) {
        seq![(EmitTable::Support, "module.esm"@)]
    } else if ext == Some("cjs"@) || ext == Some("cts"@) {
        seq![(EmitTable::Support, "module.commonjs"@)]
    } else {
        seq![]
    };
    if ext == Some("ts"@) || ext == Some("tsx"@) || ext == Some("mts"@) || ext == Some("cts"@) {
        first.push((EmitTable::Support, "typescript.native"@))
    } else {
        first
    }
}

/// Every TypeScript file needs native type stripping: a file whose
/// extension is `ts`, `tsx`, `mts` or `cts` records `typescript.native`,
/// and no other file does.
pub proof fn lemma_typescript_files_need_type_stripping(path: Seq<char>)
    ensures
        file_support_keys(path_extension_spec(path)).contains((EmitTable::Support, "typescript.native"@)) <==> (
        path_extension_spec(path) matches Some(ext) && {
            ||| ext == "ts"@
            ||| ext == "tsx"@
            ||| ext == "mts"@
            ||| ext == "cts"@
        }),
{
    let e = path_extension_spec(path);
    let keys = file_support_keys(e);
    let t = (EmitTable::Support, "typescript.native"@);
    reveal_strlit("typescript.native");
    reveal_strlit("module.esm");
    reveal_strlit("module.commonjs");
    if keys.contains(t) {
        let k = choose|k: int| 0 <= k < keys.len() && keys[k] == t;
        if !(e == Some("ts"@) || e == Some("tsx"@) || e == Some("mts"@) || e == Some("cts"@)) {
            assert(("module.esm"@).len() == 10);
            assert(("module.commonjs"@).len() == 15);
            assert(("typescript.native"@).len() == 17);
            assert(keys[k].1.len() != t.1.len());
        }
    } else {
        if e == Some("ts"@) || e == Some("tsx"@) || e == Some("mts"@) || e == Some("cts"@) {
            assert(keys[keys.len() - 1] == t);
        }
    }
}

impl<'a> AstVisitor<'a> {
    /// A function or block opens a scope.
    pub fn enter_scope(&mut self)
        ensures
            final(self).same_context(old(self)),
            final(self)@ == (VisitorState {
                locals: old(self)@.locals.push(seq![]),
                objects: old(self)@.objects.push(seq![]),
                ..old(self)@
            }),
    {
        let ghost before = self@;
        self.local_scopes.push(Vec::new());
        self.runtime_object_scopes.push(Vec::new());
        proof {
            assert(strings_view(self.local_scopes@.last()@) =~= Seq::<Seq<char>>::empty());
            assert(pairs_view(self.runtime_object_scopes@.last()@) =~= Seq::<(Seq<char>, Seq<char>)>::empty());
            assert(self@.locals =~= before.locals.push(seq![]));
            assert(self@.objects =~= before.objects.push(seq![]));
        }
    }

    /// Leaving a function or block closes its scope.
    pub fn exit_scope(&mut self)
        ensures
            final(self).same_context(old(self)),
            final(self)@ == (VisitorState {
                locals: if old(self)@.locals.len() > 0 {
                    old(self)@.locals.drop_last()
                } else {
                    old(self)@.locals
                },
                objects: if old(self)@.objects.len() > 0 {
                    old(self)@.objects.drop_last()
                } else {
                    old(self)@.objects
                },
                ..old(self)@
            }),
    {
        let ghost before = self@;
        let _ = self.runtime_object_scopes.pop();
        let _ = self.local_scopes.pop();
        proof {
            if before.locals.len() > 0 {
                assert(self@.locals =~= before.locals.drop_last());
            }
            if before.objects.len() > 0 {
                assert(self@.objects =~= before.objects.drop_last());
            }
        }
    }

    /// A binding identifier binds its name in the innermost scope.
    pub fn visit_binding_identifier(&mut self, name: &str)
        ensures
            final(self).same_context(old(self)),
            final(self)@ == (VisitorState {
                locals: if old(self)@.locals.len() > 0 {
                    old(self)@.locals.update(
                        old(self)@.locals.len() - 1,
                        old(self)@.locals.last().push(name@),
                    )
                } else {
                    old(self)@.locals
                },
                ..old(self)@
            }),
    {
        let ghost before = self@;
        if self.local_scopes.len() > 0 {
            let mut scope = self.local_scopes.pop().unwrap();
            let ghost inner = scope@;
            scope.push(name.to_owned());
            self.local_scopes.push(scope);
            proof {
                assert(strings_view(scope@) =~= strings_view(inner).push(name@));
                assert(self@.locals =~= before.locals.update(before.locals.len() - 1, before.locals.last().push(name@)));
            }
        }
    }

    /// Records the syntax of an expression node.
    pub fn visit_expression(&mut self, kind: ExpressionKind, start: usize)
        requires
            old(self).well_formed(),
            start < usize::MAX,
        ensures
            final(self).same_context(old(self)),
            final(self)@ == record_keys(
                old(self)@,
                old(self).db(),
                old(self).path_spec(),
                old(self).pos(start),
                syntax_table_keys(expression_syntax_spec(kind)),
            ),
    {
        let keys = expression_syntax(kind);
        let mut table_keys: Vec<(EmitTable, &'static str)> = Vec::new();
        let mut i: usize = 0;
        while i < keys.len()
            invariant
                i <= keys@.len(),
                key_views(table_keys@) == syntax_table_keys(str_views(keys@).take(i as int)),
            decreases keys@.len() - i,
        {
            let ghost before = table_keys@;
            table_keys.push((EmitTable::Syntax, keys[i]));
            proof {
                let sv = str_views(keys@);
                assert(sv.take(i + 1) =~= sv.take(i as int).push(keys@[i as int]@));
                assert(key_views(table_keys@) =~= key_views(before).push((EmitTable::Syntax, keys@[i as int]@)));
                assert(syntax_table_keys(sv.take(i + 1)) =~= syntax_table_keys(sv.take(i as int)).push(
                    (EmitTable::Syntax, keys@[i as int]@),
                ));
            }
            i = i + 1;
        }
        assert(str_views(keys@).take(keys@.len() as int) =~= str_views(keys@));
        self.emit_keys(&table_keys, start);
    }

    /// Records the syntax (and module format) of a statement node.
    pub fn visit_statement(&mut self, kind: StatementKind, start: usize)
        requires
            old(self).well_formed(),
            start < usize::MAX,
        ensures
            final(self).same_context(old(self)),
            final(self)@ == record_keys(
                old(self)@,
                old(self).db(),
                old(self).path_spec(),
                old(self).pos(start),
                statement_keys_spec(kind),
            ),
    {
        let keys = statement_keys(kind);
        self.emit_keys(&keys, start);
    }

    /// Records the keyword of a variable declaration.
    pub fn visit_variable_declaration(&mut self, kind: VariableDeclarationKind, start: usize)
        requires
            old(self).well_formed(),
            start < usize::MAX,
        ensures
            final(self).same_context(old(self)),
            final(self)@ == record_opt(
                old(self)@,
                old(self).db().syntax_spec(variable_declaration_syntax_spec(kind)),
                old(self).path_spec(),
                old(self).pos(start),
            ),
    {
        match variable_declaration_syntax(kind) {
            Some(key) => self.emit_key(EmitTable::Syntax, key, start),
            None => {},
        }
    }

    /// Records an assignment operator.
    pub fn visit_assignment_expression(&mut self, operator: AssignmentOperator, start: usize)
        requires
            old(self).well_formed(),
            start < usize::MAX,
        ensures
            final(self).same_context(old(self)),
            final(self)@ == record_opt(
                old(self)@,
                old(self).db().syntax_spec(assignment_operator_syntax_spec(operator)),
                old(self).path_spec(),
                old(self).pos(start),
            ),
    {
        match assignment_operator_syntax(operator) {
            Some(key) => self.emit_key(EmitTable::Syntax, key, start),
            None => {},
        }
    }

    /// Records a logical operator.
    pub fn visit_logical_expression(&mut self, operator: LogicalOperator, start: usize)
        requires
            old(self).well_formed(),
            start < usize::MAX,
        ensures
            final(self).same_context(old(self)),
            final(self)@ == record_opt(
                old(self)@,
                old(self).db().syntax_spec(logical_operator_syntax_spec(operator)),
                old(self).path_spec(),
                old(self).pos(start),
            ),
    {
        match logical_operator_syntax(operator) {
            Some(key) => self.emit_key(EmitTable::Syntax, key, start),
            None => {},
        }
    }

    /// Records optional chaining (`a?.b`).
    pub fn visit_chain_expression(&mut self, start: usize)
        requires
            old(self).well_formed(),
            start < usize::MAX,
        ensures
            final(self).same_context(old(self)),
            final(self)@ == record_opt(
                old(self)@,
                old(self).db().syntax_spec("operators.optional_chaining"@),
                old(self).path_spec(),
                old(self).pos(start),
            ),
    {
        self.emit_key(EmitTable::Syntax, "operators.optional_chaining", start);
    }

    /// Records spread syntax (`...value`).
    pub fn visit_spread_element(&mut self, start: usize)
        requires
            old(self).well_formed(),
            start < usize::MAX,
        ensures
            final(self).same_context(old(self)),
            final(self)@ == record_opt(
                old(self)@,
                old(self).db().syntax_spec("operators.spread"@),
                old(self).path_spec(),
                old(self).pos(start),
            ),
    {
        self.emit_key(EmitTable::Syntax, "operators.spread", start);
    }

    /// Records rest parameters (`...args`).
    pub fn visit_formal_parameter_rest(&mut self, start: usize)
        requires
            old(self).well_formed(),
            start < usize::MAX,
        ensures
            final(self).same_context(old(self)),
            final(self)@ == record_opt(
                old(self)@,
                old(self).db().syntax_spec("functions.rest_parameters"@),
                old(self).path_spec(),
                old(self).pos(start),
            ),
    {
        self.emit_key(EmitTable::Syntax, "functions.rest_parameters", start);
    }

    /// A call: `require(...)` is CommonJS, a function called where it is
    /// written is an IIFE.
    pub fn visit_call_expression(&mut self, callee: &ExprShape, start: usize)
        requires
            old(self).well_formed(),
            start < usize::MAX,
        ensures
            final(self).same_context(old(self)),
            final(self)@ == ({
                let st1 = if is_require_callee(*callee) {
                    record_opt(old(self)@, old(self).db().support_spec("module.commonjs"@), old(self).path_spec(), old(self).pos(start))
                } else {
                    old(self)@
                };
                if is_iife_callee(*callee) {
                    record_opt(st1, old(self).db().support_spec("module.iife"@), old(self).path_spec(), old(self).pos(start))
                } else {
                    st1
                }
            }),
    {
        if require_callee(callee) {
            self.emit_key(EmitTable::Support, "module.commonjs", start);
        }
        if iife_callee(callee) {
            self.emit_key(EmitTable::Support, "module.iife", start);
        }
    }

    /// An identifier reference. Whether it refers to a global variable is
    /// the parser's semantic analysis, handed in as `is_global_reference`.
    pub fn visit_identifier_reference(&mut self, name: &str, is_global_reference: bool, start: usize)
        requires
            old(self).well_formed(),
            start < usize::MAX,
        ensures
            final(self).same_context(old(self)),
            final(self)@ == identifier_spec(
                old(self)@,
                old(self).db(),
                old(self).path_spec(),
                old(self).pos(start),
                name@,
                is_global_reference,
            ),
    {
        let ghost before = self@;
        let named = lookup_pairs(&self.named_imports, name);
        if !self.is_shadowed(name) && is_global_reference {
            match self.runtime.match_global(name) {
                Some(feature) => self.emit(feature, start),
                None => {},
            }
        }
        match named {
            Some(feature_name) => match self.runtime.match_member_chain(feature_name.as_str()) {
                Some(feature) => self.emit(feature, start),
                None => {},
            },
            None => {},
        }
    }
}

fn module_member(module: &str, member: &str) -> (r: String)
    ensures
        r@ == module@.push('.') + member@,
{
    dotted(module, member)
}

impl<'a> AstVisitor<'a> {
    fn bind_namespace(&mut self, local: &str, module: &str)
        ensures
            final(self).same_context(old(self)),
            final(self)@ == (VisitorState {
                namespaces: old(self)@.namespaces.push((local@, module@)),
                ..old(self)@
            }),
    {
        let ghost before = self@;
        self.namespace_imports.push((local.to_owned(), module.to_owned()));
        assert(self@.namespaces =~= before.namespaces.push((local@, module@)));
    }

    fn bind_named(&mut self, local: &str, module: &str, member: &str)
        ensures
            final(self).same_context(old(self)),
            final(self)@ == (VisitorState {
                named: old(self)@.named.push((local@, module@.push('.') + member@)),
                ..old(self)@
            }),
    {
        let ghost before = self@;
        let value = module_member(module, member);
        self.named_imports.push((local.to_owned(), value));
        assert(self@.named =~= before.named.push((local@, module@.push('.') + member@)));
    }

    /// An import declaration: an ES module, whose specifiers bind the
    /// module (`* as`, default) or its members (named).
    pub fn visit_import_declaration(
        &mut self,
        source: &str,
        specifiers: &Option<Vec<ImportSpecifier>>,
        start: usize,
    )
        requires
            old(self).well_formed(),
            start < usize::MAX,
        ensures
            final(self).same_context(old(self)),
            final(self)@ == ({
                let st1 = record_opt(
                    old(self)@,
                    old(self).db().support_spec("module.esm"@),
                    old(self).path_spec(),
                    old(self).pos(start),
                );
                match normalize_module_spec(source@) {
                    Some(m) => match specifiers {
                        Some(specs) => import_bindings(st1, m, specs@),
                        None => st1,
                    },
                    None => st1,
                }
            }),
    {
        self.emit_key(EmitTable::Support, "module.esm", start);
        let module = match normalize_module_name(source) {
            Some(m) => m,
            None => return,
        };
        let specs = match specifiers {
            Some(specs) => specs,
            None => return,
        };
        let ghost st1 = self@;
        let mut i: usize = 0;
        while i < specs.len()
            invariant
                i <= specs@.len(),
                self.same_context(old(self)),
                self@ == import_bindings(st1, module@, specs@.take(i as int)),
            decreases specs@.len() - i,
        {
            proof {
                assert(specs@.take(i + 1).drop_last() =~= specs@.take(i as int));
                assert(specs@.take(i + 1).last() == specs@[i as int]);
            }
            match &specs[i] {
                ImportSpecifier::Namespace(local) => self.bind_namespace(local.as_str(), module.as_str()),
                ImportSpecifier::Default(local) => self.bind_namespace(local.as_str(), module.as_str()),
                ImportSpecifier::Named { imported, local } => self.bind_named(
                    local.as_str(),
                    module.as_str(),
                    imported.as_str(),
                ),
            }
            i = i + 1;
        }
        assert(specs@.take(specs@.len() as int) =~= specs@);
    }

    fn bind_required(&mut self, id: &BindingShape, module: &str)
        ensures
            final(self).same_context(old(self)),
            final(self)@ == require_bindings(old(self)@, module@, *id),
    {
        match id {
            BindingShape::Identifier(name) => self.bind_namespace(name.as_str(), module),
            BindingShape::Object(props) => {
                let ghost st0 = self@;
                let mut i: usize = 0;
                while i < props.len()
                    invariant
                        i <= props@.len(),
                        self.same_context(old(self)),
                        st0 == old(self)@,
                        self@ == object_bindings(st0, module@, props@.take(i as int)),
                    decreases props@.len() - i,
                {
                    proof {
                        assert(props@.take(i + 1).drop_last() =~= props@.take(i as int));
                        assert(props@.take(i + 1).last() == props@[i as int]);
                    }
                    let p = &props[i];
                    match (&p.key, &p.local) {
                        (Some(key), Some(local)) => self.bind_named(local.as_str(), module, key.as_str()),
                        _ => {},
                    }
                    i = i + 1;
                }
                assert(props@.take(props@.len() as int) =~= props@);
            },
            BindingShape::Other => {},
        }
    }

    fn bind_runtime_object(&mut self, name: &str, t: &str)
        ensures
            final(self).same_context(old(self)),
            final(self)@ == bind_object(old(self)@, name@, t@),
    {
        let ghost before = self@;
        if self.runtime_object_scopes.len() > 0 {
            let mut scope = self.runtime_object_scopes.pop().unwrap();
            let ghost inner = scope@;
            scope.push((name.to_owned(), t.to_owned()));
            self.runtime_object_scopes.push(scope);
            proof {
                assert(pairs_view(scope@) =~= pairs_view(inner).push((name@, t@)));
                assert(self@.objects =~= before.objects.update(
                    before.objects.len() - 1,
                    before.objects.last().push((name@, t@)),
                ));
            }
        }
    }

    /// A variable declarator `id = init`, where `init` starts at
    /// `init_start`.
    pub fn visit_variable_declarator(&mut self, id: &BindingShape, init: &Option<ExprShape>, init_start: usize)
        requires
            old(self).well_formed(),
            init_start < usize::MAX,
        ensures
            final(self).same_context(old(self)),
            final(self)@ == declarator_spec(
                old(self)@,
                old(self).db(),
                old(self).path_spec(),
                old(self).pos(init_start),
                *id,
                *init,
            ),
    {
        match init {
            Some(e) => match require_module(e) {
                Some(module) => {
                    self.emit_key(EmitTable::Support, "module.commonjs", init_start);
                    self.bind_required(id, module.as_str());
                },
                None => {},
            },
            None => {},
        }
        match init {
            Some(e) => match self.expression_runtime_type(e) {
                Some(t) => match id {
                    BindingShape::Identifier(name) => self.bind_runtime_object(name.as_str(), t.as_str()),
                    _ => {},
                },
                None => {},
            },
            None => {},
        }
    }

    fn emit_member(&mut self, name: &Option<String>, emitted: Option<usize>, start: usize) -> (r: Option<usize>)
        requires
            old(self).well_formed(),
            start < usize::MAX,
        ensures
            final(self).same_context(old(self)),
            (final(self)@, r) == record_member(
                old(self)@,
                emitted,
                old(self).db(),
                old(self).path_spec(),
                old(self).pos(start),
                match name {
                    Some(n) => Some(n@),
                    None => None,
                },
            ),
    {
        match name {
            Some(n) => match self.runtime.match_member_chain(n.as_str()) {
                Some(feature) => {
                    let id = feature.id;
                    self.emit(feature, start);
                    Some(id)
                },
                None => emitted,
            },
            None => emitted,
        }
    }

    fn visit_member_rest(
        &mut self,
        emitted: Option<usize>,
        object: &ExprShape,
        property: &str,
        start: usize,
        property_start: usize,
    )
        requires
            old(self).well_formed(),
            start < usize::MAX,
            property_start < usize::MAX,
        ensures
            final(self).same_context(old(self)),
            final(self)@ == member_rest_spec(
                old(self)@,
                emitted,
                old(self).db(),
                old(self).path_spec(),
                old(self).pos(start),
                old(self).pos(property_start),
                *object,
                property@,
            ),
    {
        let iterator_name = self.iterator_helper_member(object, property);
        let em2 = self.emit_member(&iterator_name, emitted, start);
        let temporal_name = self.temporal_instance_member(object, property);
        let em3 = self.emit_member(&temporal_name, em2, start);
        match self.runtime.match_property(property) {
            Some(feature) => {
                let is_same = match em3 {
                    Some(id) => id == feature.id,
                    None => false,
                };
                if !is_same {
                    self.emit(feature, property_start);
                }
            },
            None => {},
        }
    }

    /// A static member access `object.property` starting at `start`, with
    /// the property starting at `property_start`: the module format a
    /// chain shows, the member chain with its root resolved, iterator
    /// helpers, Temporal members, and the property on its own.
    pub fn visit_static_member_expression(
        &mut self,
        object: &ExprShape,
        property: &str,
        start: usize,
        property_start: usize,
    )
        requires
            old(self).well_formed(),
            start < usize::MAX,
            property_start < usize::MAX,
        ensures
            final(self).same_context(old(self)),
            final(self)@ == static_member_spec(
                old(self)@,
                old(self).db(),
                old(self).path_spec(),
                old(self).pos(start),
                old(self).pos(property_start),
                *object,
                property@,
            ),
    {
        match expression_chain(object) {
            Some(mut raw) => {
                let ghost c = strings_view(raw@);
                raw.push(property.to_owned());
                proof {
                    assert(strings_view(raw@) =~= c.push(property@));
                }
                match chain_support(&raw) {
                    Some(key) => self.emit_key(EmitTable::Support, key, start),
                    None => {},
                }
                let chain = self.canonicalize_chain(&raw);
                if is_unresolved_sqlite_instance_alias(&raw, chain.as_str()) {
                    return;
                }
                let em2 = self.emit_member(&Some(chain), None, start);
                self.visit_member_rest(em2, object, property, start, property_start);
            },
            None => {
                self.visit_member_rest(None, object, property, start, property_start);
            },
        }
    }

    /// Records what the file's extension says about module format and
    /// TypeScript, at the start of the file.
    pub fn emit_file_support(&mut self)
        requires
            old(self).well_formed(),
        ensures
            final(self).same_context(old(self)),
            final(self)@ == record_keys(
                old(self)@,
                old(self).db(),
                old(self).path_spec(),
                old(self).pos(0),
                file_support_keys(path_extension_spec(old(self).path_spec())),
            ),
    {
        let ext: Option<Vec<char>> = match file_name(self.path.as_str()) {
            Some(name) => extension(name.as_slice()),
            None => None,
        };
        let ghost e = path_extension_spec(self.path@);
        assert(match ext {
            Some(x) => e == Some(x@),
            None => e is None,
        });
        let (mjs, mts, cjs, cts, ts, tsx) = match &ext {
            Some(x) => (
                chars_match(x, "mjs"),
                chars_match(x, "mts"),
                chars_match(x, "cjs"),
                chars_match(x, "cts"),
                chars_match(x, "ts"),
                chars_match(x, "tsx"),
            ),
            None => (false, false, false, false, false, false),
        };
        let mut keys: Vec<(EmitTable, &'static str)> = Vec::new();
        if mjs || mts {
            keys.push((EmitTable::Support, "module.esm"));
        } else if cjs || cts {
            keys.push((EmitTable::Support, "module.commonjs"));
        }
        if ts || tsx || mts || cts {
            keys.push((EmitTable::Support, "typescript.native"));
        }
        assert(key_views(keys@) =~= file_support_keys(e));
        self.emit_keys(&keys, 0);
    }
}
} // verus!
