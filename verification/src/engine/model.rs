//! Shared finding vocabulary: the kind of entity a finding is about, and the stable reason codes.

use vstd::prelude::*;

verus! {

/// What kind of named thing an entity is.
#[derive(Clone, Copy, PartialEq, Eq, Debug, Hash, Structural)]
pub enum EntityKind {
    Function,
    Method,
    Class,
    /// The synthetic `<module>` entity for top-level code.
    Module,
    /// A name binding (used by the scope analysis).
    Binding,
}

/// A stable reason code for a finding (human wording lives in `render`).
#[derive(Clone, Debug, PartialEq, Eq)]
pub enum Reason {
    /// Scope-debt: the binding could be pushed `n` nesting levels deeper.
    ExcessLevels(u32),
    /// Scope-debt: `n` unrelated definitions wedged between it and what it connects to.
    Misplaced(u32),
    /// A local name read before its first binding in the same scope.
    UseBeforeDecl,
    /// Declare-order: this definition references `callee`, a sibling declared on the wrong side of
    /// it for the chosen reading convention (`below`: the callee sits below the referrer).
    ForwardRef { callee: String, below: bool },
    /// Suggestion: shared infrastructure referenced `n` times by others in the file.
    ExtractShared(u32),
    /// Suggestion: a bag of independent mutable locals carrying `n` scope-debt.
    CrowdedScope(u32),
    /// Suggestion: declared `wedged` unrelated definitions above its first use (line `first_use`).
    ReorderBinding { first_use: u32, wedged: u32 },
    /// Suggestion: used only inside a block `levels` deeper (first used on line `first_use`).
    NarrowToBlock { first_use: u32, levels: u32 },
    /// The file could not be parsed (carries the parser's message).
    ParseError(String),
}

/// The abstract reason: strings as character sequences.
pub enum ReasonV {
    ExcessLevels(u32),
    Misplaced(u32),
    UseBeforeDecl,
    ForwardRef { callee: Seq<char>, below: bool },
    ExtractShared(u32),
    CrowdedScope(u32),
    ReorderBinding { first_use: u32, wedged: u32 },
    NarrowToBlock { first_use: u32, levels: u32 },
    ParseError(Seq<char>),
}

impl View for Reason {
    type V = ReasonV;

    open spec fn view(&self) -> ReasonV {
        match self {
            Reason::ExcessLevels(n) => ReasonV::ExcessLevels(*n),
            Reason::Misplaced(n) => ReasonV::Misplaced(*n),
            Reason::UseBeforeDecl => ReasonV::UseBeforeDecl,
            Reason::ForwardRef { callee, below } => ReasonV::ForwardRef { callee: callee@, below: *below },
            Reason::ExtractShared(n) => ReasonV::ExtractShared(*n),
            Reason::CrowdedScope(n) => ReasonV::CrowdedScope(*n),
            Reason::ReorderBinding { first_use, wedged } => ReasonV::ReorderBinding { first_use: *first_use, wedged: *wedged },
            Reason::NarrowToBlock { first_use, levels } => ReasonV::NarrowToBlock { first_use: *first_use, levels: *levels },
            Reason::ParseError(m) => ReasonV::ParseError(m@),
        }
    }
}

} // verus!
