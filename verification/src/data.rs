//! Runtime databases: which features each runtime has, from which version,
//! and the names under which a scan finds them.

use vstd::prelude::*;
use crate::cli::RuntimeKind;
use crate::text::str_eq;
use crate::version::RuntimeVersion;

verus! {

/// A feature of a runtime and the first version that has it.
#[derive(Debug, Clone)]
pub struct Feature {
    pub id: usize,
    pub name: String,
    pub version: RuntimeVersion,
}

/// The index that a lookup table gives for `key`: its first entry with
/// that key.
pub open spec fn table_get(table: Seq<(String, usize)>, key: Seq<char>) -> Option<usize>
    decreases table.len(),
{
    if table.len() == 0 {
        None
    } else if table[0].0@ == key {
        Some(table[0].1)
    } else {
        table_get(table.drop_first(), key)
    }
}

/// The feature that `table` names for `key`, if the index is in range.
pub open spec fn feature_get(features: Seq<Feature>, table: Seq<(String, usize)>, key: Seq<char>) -> Option<Feature> {
    match table_get(table, key) {
        Some(index) => if index < features.len() {
            Some(features[index as int])
        } else {
            None
        },
        None => None,
    }
}

/// The static database of one runtime.
#[derive(Debug, Clone)]
pub struct RuntimeDb {
    pub name: String,
    pub features: Vec<Feature>,
    /// Global identifiers, such as `Temporal`.
    pub globals: Vec<(String, usize)>,
    /// Dotted member chains, such as `fs.cp`.
    pub member_chains: Vec<(String, usize)>,
    /// Property names, such as `toSorted`.
    pub properties: Vec<(String, usize)>,
    /// Syntax keys, such as `operators.logical_or_assignment`.
    pub syntax: Vec<(String, usize)>,
    /// Module format and TypeScript support keys, such as `module.esm`.
    pub support: Vec<(String, usize)>,
    /// The tokens that text scanning looks for.
    pub fast_patterns: Vec<String>,
}

fn table_lookup(table: &Vec<(String, usize)>, key: &str) -> (r: Option<usize>)
    ensures
        r == table_get(table@, key@),
{
    let mut i: usize = 0;
    assert(table@.skip(0) =~= table@);
    while i < table.len()
        invariant
            i <= table.len(),
            table_get(table@, key@) == table_get(table@.skip(i as int), key@),
        decreases table.len() - i,
    {
        assert(table@.skip(i as int).drop_first() =~= table@.skip(i + 1));
        if str_eq(table[i].0.as_str(), key) {
            return Some(table[i].1);
        }
        i = i + 1;
    }
    None
}

impl RuntimeDb {
    /// The feature for `key` in one of the lookup tables.
    pub open spec fn lookup_spec(&self, table: Seq<(String, usize)>, key: Seq<char>) -> Option<Feature> {
        feature_get(self.features@, table, key)
    }

    pub open spec fn global_spec(&self, key: Seq<char>) -> Option<Feature> {
        self.lookup_spec(self.globals@, key)
    }

    pub open spec fn member_chain_spec(&self, key: Seq<char>) -> Option<Feature> {
        self.lookup_spec(self.member_chains@, key)
    }

    pub open spec fn property_spec(&self, key: Seq<char>) -> Option<Feature> {
        self.lookup_spec(self.properties@, key)
    }

    pub open spec fn syntax_spec(&self, key: Seq<char>) -> Option<Feature> {
        self.lookup_spec(self.syntax@, key)
    }

    pub open spec fn support_spec(&self, key: Seq<char>) -> Option<Feature> {
        self.lookup_spec(self.support@, key)
    }

    /// The feature a text-scan pattern stands for: as a global, else as a
    /// member chain, else as a property.
    pub open spec fn pattern_spec(&self, key: Seq<char>) -> Option<Feature> {
        match self.global_spec(key) {
            Some(f) => Some(f),
            None => match self.member_chain_spec(key) {
                Some(f) => Some(f),
                None => self.property_spec(key),
            },
        }
    }

    pub fn name(&self) -> (r: &str)
        ensures
            r@ == self.name@,
    {
        self.name.as_str()
    }

    pub fn fast_patterns(&self) -> (r: &Vec<String>)
        ensures
            r@ == self.fast_patterns@,
    {
        &self.fast_patterns
    }

    fn lookup(&self, table: &Vec<(String, usize)>, key: &str) -> (r: Option<&Feature>)
        ensures
            r matches Some(f) ==> self.lookup_spec(table@, key@) == Some(*f),
            r is None ==> self.lookup_spec(table@, key@) is None,
    {
        match table_lookup(table, key) {
            Some(index) => if index < self.features.len() {
                Some(&self.features[index])
            } else {
                None
            },
            None => None,
        }
    }

    pub fn match_global(&self, name: &str) -> (r: Option<&Feature>)
        ensures
            r matches Some(f) ==> self.global_spec(name@) == Some(*f),
            r is None ==> self.global_spec(name@) is None,
    {
        self.lookup(&self.globals, name)
    }

    pub fn match_member_chain(&self, name: &str) -> (r: Option<&Feature>)
        ensures
            r matches Some(f) ==> self.member_chain_spec(name@) == Some(*f),
            r is None ==> self.member_chain_spec(name@) is None,
    {
        self.lookup(&self.member_chains, name)
    }

    pub fn match_property(&self, name: &str) -> (r: Option<&Feature>)
        ensures
            r matches Some(f) ==> self.property_spec(name@) == Some(*f),
            r is None ==> self.property_spec(name@) is None,
    {
        self.lookup(&self.properties, name)
    }

    pub fn match_syntax(&self, name: &str) -> (r: Option<&Feature>)
        ensures
            r matches Some(f) ==> self.syntax_spec(name@) == Some(*f),
            r is None ==> self.syntax_spec(name@) is None,
    {
        self.lookup(&self.syntax, name)
    }

    pub fn match_support(&self, name: &str) -> (r: Option<&Feature>)
        ensures
            r matches Some(f) ==> self.support_spec(name@) == Some(*f),
            r is None ==> self.support_spec(name@) is None,
    {
        self.lookup(&self.support, name)
    }

    /// The feature a text-scan pattern stands for.
    pub fn feature_for_pattern(&self, pattern: &str) -> (r: Option<&Feature>)
        ensures
            r matches Some(f) ==> self.pattern_spec(pattern@) == Some(*f),
            r is None ==> self.pattern_spec(pattern@) is None,
    {
        match self.match_global(pattern) {
            Some(f) => Some(f),
            None => match self.match_member_chain(pattern) {
                Some(f) => Some(f),
                None => self.match_property(pattern),
            },
        }
    }

    /// Whether `pattern` is a global or a member chain of this runtime.
    pub fn is_global_or_member_pattern(&self, pattern: &str) -> (r: bool)
        ensures
            r == (table_get(self.globals@, pattern@) is Some || table_get(
                self.member_chains@,
                pattern@,
            ) is Some),
    {
        table_lookup(&self.globals, pattern).is_some() || table_lookup(
            &self.member_chains,
            pattern,
        ).is_some()
    }

    /// Whether `pattern` is a property name of this runtime.
    pub fn is_property_pattern(&self, pattern: &str) -> (r: bool)
        ensures
            r == table_get(self.properties@, pattern@) is Some,
    {
        table_lookup(&self.properties, pattern).is_some()
    }
}

/// The databases of the six concrete runtimes.
#[derive(Debug, Clone)]
pub struct RuntimeRegistry {
    pub node: RuntimeDb,
    pub deno: RuntimeDb,
    pub bun: RuntimeDb,
    pub safari: RuntimeDb,
    pub chrome: RuntimeDb,
    pub firefox: RuntimeDb,
}

/// `All` names no single database.
#[derive(Debug, Clone, Copy, PartialEq, Eq, Structural)]
pub enum DataError {
    NotConcreteRuntime,
}

/// The name of a concrete runtime's database: `node`, `deno`, `bun`,
/// `safari`, `chrome` or `firefox`.
pub open spec fn kind_name(kind: RuntimeKind) -> Seq<char> {
    match kind {
        RuntimeKind::All => Seq::empty(),
        RuntimeKind::Node => "node"@,
        RuntimeKind::Deno => "deno"@,
        RuntimeKind::Bun => "bun"@,
        RuntimeKind::Safari => "safari"@,
        RuntimeKind::Chrome => "chrome"@,
        RuntimeKind::Firefox => "firefox"@,
    }
}

impl RuntimeRegistry {
    /// Each database carries the name of its runtime.
    pub open spec fn well_named(self) -> bool {
        &&& self.node.name@ == "node"@
        &&& self.deno.name@ == "deno"@
        &&& self.bun.name@ == "bun"@
        &&& self.safari.name@ == "safari"@
        &&& self.chrome.name@ == "chrome"@
        &&& self.firefox.name@ == "firefox"@
    }

    pub open spec fn db_spec(self, kind: RuntimeKind) -> Option<RuntimeDb> {
        match kind {
            RuntimeKind::All => None,
            RuntimeKind::Node => Some(self.node),
            RuntimeKind::Deno => Some(self.deno),
            RuntimeKind::Bun => Some(self.bun),
            RuntimeKind::Safari => Some(self.safari),
            RuntimeKind::Chrome => Some(self.chrome),
            RuntimeKind::Firefox => Some(self.firefox),
        }
    }
}

/// The database of a concrete runtime; `All` is an error.
pub fn runtime(registry: &RuntimeRegistry, kind: RuntimeKind) -> (r: Result<&RuntimeDb, DataError>)
    ensures
        kind == RuntimeKind::All ==> r == Err::<&RuntimeDb, DataError>(DataError::NotConcreteRuntime),
        kind != RuntimeKind::All ==> (r matches Ok(db) && registry.db_spec(kind) == Some(*db)),
        registry.well_named() && kind != RuntimeKind::All ==> (r matches Ok(db) && db.name@ == kind_name(kind)),
{
    match kind {
        RuntimeKind::All => Err(DataError::NotConcreteRuntime),
        RuntimeKind::Node => Ok(&registry.node),
        RuntimeKind::Deno => Ok(&registry.deno),
        RuntimeKind::Bun => Ok(&registry.bun),
        RuntimeKind::Safari => Ok(&registry.safari),
        RuntimeKind::Chrome => Ok(&registry.chrome),
        RuntimeKind::Firefox => Ok(&registry.firefox),
    }
}

/// The Node.js database.
pub fn node_runtime(registry: &RuntimeRegistry) -> (r: &RuntimeDb)
    ensures
        *r == registry.node,
        registry.well_named() ==> r.name@ == "node"@,
{
    &registry.node
}

} // verus!
