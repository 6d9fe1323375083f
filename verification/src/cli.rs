//! The options of a run: which runtimes to target and how to report.

use vstd::prelude::*;

verus! {

/// A runtime compatibility target; `All` stands for every concrete one.
#[derive(Debug, Clone, Copy, PartialEq, Eq, Structural)]
pub enum RuntimeKind {
    All,
    Node,
    Deno,
    Bun,
    Safari,
    Chrome,
    Firefox,
}

/// The concrete runtimes that `kind` targets, in report order.
pub open spec fn targets_spec(kind: RuntimeKind) -> Seq<RuntimeKind> {
    match kind {
        RuntimeKind::All => seq![
            RuntimeKind::Node,
            RuntimeKind::Deno,
            RuntimeKind::Bun,
            RuntimeKind::Safari,
            RuntimeKind::Chrome,
            RuntimeKind::Firefox,
        ],
        other => seq![other],
    }
}

impl RuntimeKind {
    /// The concrete runtimes to scan for: all six for `All`, otherwise the
    /// runtime itself.
    pub fn targets(self) -> (r: Vec<RuntimeKind>)
        ensures
            r@ == targets_spec(self),
    {
        match self {
            RuntimeKind::All => vec![
                RuntimeKind::Node,
                RuntimeKind::Deno,
                RuntimeKind::Bun,
                RuntimeKind::Safari,
                RuntimeKind::Chrome,
                RuntimeKind::Firefox,
            ],
            RuntimeKind::Node => vec![RuntimeKind::Node],
            RuntimeKind::Deno => vec![RuntimeKind::Deno],
            RuntimeKind::Bun => vec![RuntimeKind::Bun],
            RuntimeKind::Safari => vec![RuntimeKind::Safari],
            RuntimeKind::Chrome => vec![RuntimeKind::Chrome],
            RuntimeKind::Firefox => vec![RuntimeKind::Firefox],
        }
    }
}

/// Every target list names concrete runtimes only, each once.
pub proof fn lemma_targets_concrete(kind: RuntimeKind)
    ensures
        targets_spec(kind).len() >= 1,
        forall|i: int| 0 <= i < targets_spec(kind).len() ==> #[trigger] targets_spec(kind)[i] != RuntimeKind::All,
        forall|i: int, j: int| 0 <= i < j < targets_spec(kind).len() ==> targets_spec(kind)[i] != targets_spec(kind)[j],
{
}

/// The command line of a run.
#[derive(Debug, Clone)]
pub struct Cli {
    /// Directory to scan.
    pub dir: String,
    /// Use text matching only.
    pub fast: bool,
    /// Runtime compatibility target.
    pub runtime: RuntimeKind,
    /// Print only the summary panel.
    pub summary: bool,
    /// Print every detection for one feature instead of grouped summaries.
    pub inspect: Option<String>,
    /// Update package.json engines.node when it is missing or too low.
    pub fix: bool,
}

} // verus!
