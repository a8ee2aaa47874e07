//! The core's render-agnostic output: a flat, sorted `Vec<Finding>`. The core never formats display
//! strings — it emits structured findings carrying a stable reason code.

use vstd::prelude::*;

use crate::engine::model::{EntityKind, Reason, ReasonV};

verus! {

#[derive(Clone, Copy, Debug, PartialEq, Eq, Structural)]
pub enum Category {
    /// Locality penalty (excess nesting or a wedged definition).
    ScopeDebt,
    /// A name used before its textual definition (or against the declare-order convention).
    DeclBeforeUse,
    /// An actionable suggestion (not a metric penalty).
    Suggestion,
    ParseError,
}

#[derive(Clone, Copy, Debug, PartialEq, Eq, Structural)]
pub enum Severity {
    Error,
    Warning,
    Info,
}

/// One structured finding. Human wording lives in `render`, not here.
#[derive(Clone, Debug, PartialEq, Eq)]
pub struct Finding {
    pub file: String,
    pub line: u32,
    pub entity: String,
    pub entity_kind: EntityKind,
    pub category: Category,
    pub severity: Severity,
    /// Metric score (ScopeDebt); 0 for non-metric findings.
    pub score: u32,
    pub reason: Reason,
}

/// The abstract finding: strings as character sequences.
pub struct FindingV {
    pub file: Seq<char>,
    pub line: u32,
    pub entity: Seq<char>,
    pub entity_kind: EntityKind,
    pub category: Category,
    pub severity: Severity,
    pub score: u32,
    pub reason: ReasonV,
}

impl View for Finding {
    type V = FindingV;

    open spec fn view(&self) -> FindingV {
        FindingV {
            file: self.file@,
            line: self.line,
            entity: self.entity@,
            entity_kind: self.entity_kind,
            category: self.category,
            severity: self.severity,
            score: self.score,
            reason: self.reason@,
        }
    }
}

/// The views of a list of findings.
pub open spec fn findings_view(fs: Seq<Finding>) -> Seq<FindingV> {
    fs.map_values(|f: Finding| f@)
}

} // verus!
