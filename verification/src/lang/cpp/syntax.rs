//! The C++ syntax the lowering reads: the translation unit's cursors, each with its kind, name,
//! line and children (the AST is concrete — statements, sub-expressions and nested declarations
//! are all children).

use vstd::prelude::*;

verus! {

/// What a cursor is, as far as the lowering tells kinds apart.
#[derive(Clone, Copy, PartialEq, Eq, Structural)]
pub enum CursorKind {
    /// A free function, method, constructor, destructor or function template.
    Function,
    /// A `struct`, `class`, `union` or class template.
    Class,
    Namespace,
    /// A variable: a local, a namespace global or a `static` member.
    Var,
    /// An instance field.
    Field,
    /// A `for`, `while`, `do` or range-`for` statement.
    Loop,
    /// A brace block.
    Compound,
    /// A reference to a declared name.
    DeclRef,
    /// A member reference (`MemberRefExpr`, `MemberRef`).
    MemberRef,
    /// A function parameter.
    Param,
    Lambda,
    /// Everything else: declaration statements, control flow, sub-expressions, literals.
    Other,
}

/// A cursor: its kind, name, line, whether it is a definition (a class with a body), and its
/// children in order.
pub struct Cursor {
    pub kind: CursorKind,
    pub name: Option<String>,
    pub line: u32,
    pub is_definition: bool,
    pub children: Vec<Cursor>,
}

/// A parsed translation unit: the top-level cursors declared in the main file.
pub struct Unit {
    pub roots: Vec<Cursor>,
}

} // verus!
