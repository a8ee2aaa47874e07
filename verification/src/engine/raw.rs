//! The language-agnostic raw IR a frontend produces (the handoff to the core). A `Frontend` parses
//! source into a [`RawModule`]; `core::analyze` then builds the definition graph and scores
//! locality — none of that touches a parser or an AST.

use vstd::prelude::*;

verus! {

/// What a definition is, at the raw (pre-resolution) stage.
#[derive(Clone, Copy, Debug, PartialEq, Eq, Structural)]
pub enum RawKind {
    /// The synthetic `<module>` entity (top-level code).
    Module,
    Function,
    Method,
    Class,
    /// A module-/class-level value binding (a constant / attribute) — a DATA definition.
    Data,
}

/// One entity (function / method / class / data / `<module>`), derived from the scope graph.
#[derive(Clone, Debug, PartialEq, Eq)]
pub struct RawEntity {
    pub qualname: String,
    pub kind: RawKind,
    pub line: u32,
}

/// A scope-debt entry for one local binding. Weights are applied later (at analysis time).
#[derive(Clone, Debug, PartialEq, Eq)]
pub struct RawScope {
    /// Qualname of the binding (`owner.name`).
    pub entity: String,
    pub name: String,
    pub line: u32,
    pub levels_excess: u32,
    /// Unrelated sibling definitions wedged between this binding and what it connects to.
    pub wedges: u32,
    /// The use-side subset of `wedges` (between the declaration and the first use).
    pub use_wedges: u32,
    /// Line of the first lexical use in the binding's own scope below its declaration (0 if it
    /// has none below its declaration).
    pub first_use: u32,
    /// This binding reads nothing (no right-hand-side dependencies).
    pub independent: bool,
}

/// The abstract entity: qualname as characters, kind, line.
pub struct RawEntityV {
    pub qualname: Seq<char>,
    pub kind: RawKind,
    pub line: u32,
}

impl View for RawEntity {
    type V = RawEntityV;

    open spec fn view(&self) -> RawEntityV {
        RawEntityV { qualname: self.qualname@, kind: self.kind, line: self.line }
    }
}

/// The views of a list of entities.
pub open spec fn entities_view(s: Seq<RawEntity>) -> Seq<RawEntityV> {
    s.map_values(|e: RawEntity| e@)
}

/// The abstract scope-debt entry.
pub struct RawScopeV {
    pub entity: Seq<char>,
    pub name: Seq<char>,
    pub line: u32,
    pub levels_excess: u32,
    pub wedges: u32,
    pub use_wedges: u32,
    pub first_use: u32,
    pub independent: bool,
}

impl View for RawScope {
    type V = RawScopeV;

    open spec fn view(&self) -> RawScopeV {
        RawScopeV {
            entity: self.entity@,
            name: self.name@,
            line: self.line,
            levels_excess: self.levels_excess,
            wedges: self.wedges,
            use_wedges: self.use_wedges,
            first_use: self.first_use,
            independent: self.independent,
        }
    }
}

/// The views of a list of scope-debt entries.
pub open spec fn debts_view(s: Seq<RawScope>) -> Seq<RawScopeV> {
    s.map_values(|e: RawScope| e@)
}

/// The views of `(qualname, qualname)` pairs.
pub open spec fn pairs_view(s: Seq<(String, String)>) -> Seq<(Seq<char>, Seq<char>)> {
    s.map_values(|e: (String, String)| (e.0@, e.1@))
}

/// The views of `(qualname, line)` pairs.
pub open spec fn lines_view(s: Seq<(String, u32)>) -> Seq<(Seq<char>, u32)> {
    s.map_values(|e: (String, u32)| (e.0@, e.1))
}

/// A parsed module: its entities + the scope-graph outputs (scope-debt, edges, warnings).
#[derive(Clone, Debug)]
pub struct RawModule {
    pub file: String,
    /// Dotted module path derived from the file (e.g. `pkg/a.py` → `pkg.a`).
    pub module: String,
    pub entities: Vec<RawEntity>,
    pub scope: Vec<RawScope>,
    /// Definition-reference edges `(caller_qual, callee_qual)` (module-local qualnames).
    pub def_edges: Vec<(String, String)>,
    /// Use-before-binding warnings: `(entity, line)`.
    pub decl_warnings: Vec<(String, u32)>,
}

/// A language frontend: a parsed syntax tree → [`RawModule`]. Parsing itself is the caller's; the
/// frontend lowers the tree it is handed.
pub trait Frontend {
    /// The syntax tree the frontend lowers.
    type Syntax;

    fn parse_module(&self, syntax: &Self::Syntax, file: &str) -> (r: Result<RawModule, String>)
        ensures
            r matches Ok(m) ==> m.file@ == file@,
    ;
}

} // verus!
