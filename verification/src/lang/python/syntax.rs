//! The Python syntax the lowering reads: statements, expressions and match patterns, each carrying
//! the line a binding or reference it makes is reported at.

use vstd::prelude::*;

verus! {

/// The context of a name expression.
#[derive(Clone, Copy, PartialEq, Eq, Structural)]
pub enum Ctx {
    Load,
    Store,
    Other,
}

/// A name with the line it appears on.
pub struct Ident {
    pub name: String,
    pub line: u32,
}

/// A parameter and its default value, if any.
pub struct Param {
    pub name: Ident,
    pub default: Option<Expr>,
}

/// A parameter list: the positional-only, positional and keyword-only parameters in order, then
/// `*args` and `**kwargs`.
pub struct Params {
    pub plain: Vec<Param>,
    pub vararg: Option<Ident>,
    pub kwarg: Option<Ident>,
}

/// One `for … in … if …` clause of a comprehension.
pub struct Comprehension {
    pub target: Expr,
    pub iter: Expr,
    pub ifs: Vec<Expr>,
}

/// An expression.
pub enum Expr {
    Name { id: String, ctx: Ctx, line: u32 },
    /// `target := value`.
    Named { target: Box<Expr>, value: Box<Expr> },
    BoolOp(Vec<Expr>),
    BinOp(Box<Expr>, Box<Expr>),
    UnaryOp(Box<Expr>),
    /// The left operand and the comparators.
    Compare(Box<Expr>, Vec<Expr>),
    /// `body if test else orelse`, as (test, body, orelse).
    IfExp(Box<Expr>, Box<Expr>, Box<Expr>),
    /// The callee, the positional arguments, the keyword arguments' values.
    Call { func: Box<Expr>, args: Vec<Expr>, keywords: Vec<Expr> },
    Attribute { value: Box<Expr>, attr: String },
    Subscript(Box<Expr>, Box<Expr>),
    Starred(Box<Expr>),
    Await(Box<Expr>),
    ListLit(Vec<Expr>),
    TupleLit(Vec<Expr>),
    SetLit(Vec<Expr>),
    /// The items: a key (absent for `**mapping`) and a value.
    Dict(Vec<(Option<Expr>, Expr)>),
    Lambda { params: Option<Params>, body: Box<Expr> },
    ListComp { elt: Box<Expr>, generators: Vec<Comprehension> },
    SetComp { elt: Box<Expr>, generators: Vec<Comprehension> },
    Generator { elt: Box<Expr>, generators: Vec<Comprehension> },
    DictComp { key: Box<Expr>, value: Box<Expr>, generators: Vec<Comprehension> },
    Yield(Option<Box<Expr>>),
    YieldFrom(Box<Expr>),
    /// Lower, upper, step.
    Slice(Option<Box<Expr>>, Option<Box<Expr>>, Option<Box<Expr>>),
    /// The interpolated expressions of an f-string.
    FString(Vec<Expr>),
    /// A literal, or anything else that references nothing.
    Other,
}

/// A `match` pattern.
pub enum Pattern {
    Value(Expr),
    Singleton,
    Sequence(Vec<Pattern>),
    Mapping { keys: Vec<Expr>, patterns: Vec<Pattern>, rest: Option<Ident> },
    /// The class, then the positional and keyword sub-patterns.
    Class { cls: Expr, patterns: Vec<Pattern> },
    Star(Option<Ident>),
    As { pattern: Option<Box<Pattern>>, name: Option<Ident> },
    Or(Vec<Pattern>),
}

/// An imported name and its `as` alias.
pub struct Alias {
    pub name: String,
    pub asname: Option<String>,
}

/// An `elif`/`else` clause.
pub struct Clause {
    pub test: Option<Expr>,
    pub body: Vec<Stmt>,
}

/// One `with` item.
pub struct WithItem {
    pub context: Expr,
    pub vars: Option<Expr>,
}

/// An `except` handler.
pub struct Handler {
    pub name: Option<Ident>,
    pub body: Vec<Stmt>,
}

/// A `case` of a `match`.
pub struct Case {
    pub pattern: Pattern,
    pub guard: Option<Expr>,
    pub body: Vec<Stmt>,
}

/// A statement.
pub enum Stmt {
    FunctionDef { name: String, line: u32, decorators: Vec<Expr>, params: Params, body: Vec<Stmt> },
    /// `bases`: the positional and keyword arguments' values of the class header, when it has one.
    ClassDef { name: String, line: u32, decorators: Vec<Expr>, bases: Option<(Vec<Expr>, Vec<Expr>)>, body: Vec<Stmt> },
    Import { line: u32, names: Vec<Alias> },
    ImportFrom { line: u32, names: Vec<Alias> },
    Assign { targets: Vec<Expr>, value: Expr },
    AnnAssign { target: Expr, value: Option<Expr> },
    AugAssign { target: Expr, value: Expr },
    Return(Option<Expr>),
    Expr(Expr),
    Delete(Vec<Expr>),
    Assert(Expr),
    /// The exception and its cause.
    Raise(Option<Expr>, Option<Expr>),
    If { test: Expr, body: Vec<Stmt>, clauses: Vec<Clause> },
    For { target: Expr, iter: Expr, body: Vec<Stmt>, orelse: Vec<Stmt> },
    While { test: Expr, body: Vec<Stmt>, orelse: Vec<Stmt> },
    With { items: Vec<WithItem>, body: Vec<Stmt> },
    Try { body: Vec<Stmt>, handlers: Vec<Handler>, orelse: Vec<Stmt>, finalbody: Vec<Stmt> },
    Match { subject: Expr, cases: Vec<Case> },
    Global(Vec<String>),
    Nonlocal(Vec<String>),
    /// `pass`, `break`, `continue` and the like: no references.
    Other,
}

/// A parsed module: its statements, with the line of the first.
pub struct Module {
    pub body: Vec<Stmt>,
    /// The line the first statement starts on (`None` for an empty module).
    pub first_line: Option<u32>,
}

} // verus!
