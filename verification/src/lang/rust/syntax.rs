//! The Rust syntax the lowering reads: items, statements, expressions and patterns, each name
//! carrying the line it is reported at. Types appear only as far as an `impl` names its self type.

use vstd::prelude::*;

verus! {

/// A name with the line it appears on.
pub struct Name {
    pub name: String,
    pub line: u32,
}

/// A pattern.
pub enum Pat {
    /// A binding (`x`, `ref mut x`), with its `@ subpattern`.
    Ident { name: Name, sub: Option<Box<Pat>> },
    /// The parts of a tuple, tuple-struct, slice, struct or or-pattern.
    Group(Vec<Pat>),
    /// `&pat`.
    Reference(Box<Pat>),
    /// `pat: Type`.
    Typed(Box<Pat>),
    /// `(pat)`.
    Paren(Box<Pat>),
    /// Wildcards, rests, literals, paths, ranges, macros: no bindings.
    Other,
}

/// One segment of a path: its name, and whether it carries generic arguments.
pub struct Segment {
    pub name: String,
    pub args: bool,
}

/// A path: whether it starts with `::`, and its segments.
pub struct Path {
    pub global: bool,
    pub segments: Vec<Segment>,
}

/// A macro invocation: its line, and the expressions of its body when that parses as a
/// comma-separated list of expressions.
pub struct Macro {
    pub line: u32,
    pub args: Option<Vec<Expr>>,
}

/// A `match` arm.
pub struct Arm {
    pub pat: Pat,
    pub guard: Option<Expr>,
    pub body: Expr,
}

/// An expression. A brace block is its statements.
pub enum Expr {
    /// A path expression, with its line.
    Path { path: Path, line: u32 },
    Call { func: Box<Expr>, args: Vec<Expr> },
    MethodCall { receiver: Box<Expr>, method: Name, args: Vec<Expr> },
    /// A field access: its base.
    Field(Box<Expr>),
    /// A struct literal: its path (at `line`), its field values, its `..rest`.
    Struct { path: Path, line: u32, fields: Vec<Expr>, rest: Option<Box<Expr>> },
    /// A binary operation; `and` when the operator is `&&`.
    Binary { left: Box<Expr>, right: Box<Expr>, and: bool },
    Unary(Box<Expr>),
    Reference(Box<Expr>),
    Paren(Box<Expr>),
    Group(Box<Expr>),
    Cast(Box<Expr>),
    Try(Box<Expr>),
    Await(Box<Expr>),
    Index(Box<Expr>, Box<Expr>),
    Assign(Box<Expr>, Box<Expr>),
    Array(Vec<Expr>),
    Tuple(Vec<Expr>),
    /// `[expr; len]`.
    Repeat(Box<Expr>, Box<Expr>),
    Range(Option<Box<Expr>>, Option<Box<Expr>>),
    Return(Option<Box<Expr>>),
    Break(Option<Box<Expr>>),
    If { cond: Box<Expr>, then_branch: Vec<Stmt>, else_branch: Option<Box<Expr>> },
    Match { expr: Box<Expr>, arms: Vec<Arm> },
    ForLoop { pat: Pat, expr: Box<Expr>, body: Vec<Stmt> },
    While { cond: Box<Expr>, body: Vec<Stmt> },
    Loop(Vec<Stmt>),
    /// A plain, `unsafe`, `async` or `try` block.
    Block(Vec<Stmt>),
    Closure { inputs: Vec<Pat>, body: Box<Expr> },
    Let { pat: Pat, expr: Box<Expr> },
    Macro(Macro),
    /// Literals and the like: no references.
    Other,
}

/// A `let`: its pattern, initializer and `else` block (as an expression).
pub struct Local {
    pub pat: Pat,
    pub init: Option<Expr>,
    pub diverge: Option<Expr>,
}

/// A statement.
pub enum Stmt {
    Local(Local),
    Item(Item),
    Expr(Expr),
    Macro(Macro),
}

/// A function's name and the patterns of its typed parameters (the receiver is left out).
pub struct Signature {
    pub name: Name,
    pub params: Vec<Pat>,
}

/// An item of an `impl`.
pub enum ImplItem {
    Fn { sig: Signature, body: Vec<Stmt> },
    Const { name: Name, expr: Expr },
    Other,
}

/// A type, as far as an `impl`'s self type is read.
pub enum Ty {
    /// A path type: its segments' names.
    Path(Vec<String>),
    Reference(Box<Ty>),
    Other,
}

/// A `use` tree.
pub enum UseTree {
    Path(Box<UseTree>),
    Name(Name),
    /// `x as y`: the new name.
    Rename(Name),
    Group(Vec<UseTree>),
    Glob,
}

/// An item.
pub enum Item {
    Fn { sig: Signature, body: Vec<Stmt> },
    Impl { self_ty: Ty, items: Vec<ImplItem> },
    /// A `struct`, `enum`, `union` or `trait`.
    TypeDef(Name),
    /// A `const` or `static`.
    Data { name: Name, expr: Expr },
    Use(UseTree),
    /// A module, with its items when inline.
    Mod { name: Name, content: Option<Vec<Item>> },
    Other,
}

/// A parsed file: its items, with the line of the first.
pub struct File {
    pub items: Vec<Item>,
    /// The line the first item starts on (`None` for an empty file).
    pub first_line: Option<u32>,
}

} // verus!
