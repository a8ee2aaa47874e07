//! The TypeScript/JavaScript syntax the lowering reads: statements, expressions, binding patterns
//! and JSX, each name carrying the line it is reported at. Type-only syntax (type aliases,
//! interfaces, enums, namespaces) has no runtime locality and appears only as `Other`.

use vstd::prelude::*;

verus! {

/// A name with the line it appears on.
pub struct Name {
    pub name: String,
    pub line: u32,
}

/// A binding pattern. Array holes are left out of `Array`'s elements.
pub enum Pattern {
    Ident(Name),
    /// The property patterns, then the `...rest` pattern.
    Object(Vec<Pattern>, Option<Box<Pattern>>),
    /// The element patterns, then the `...rest` pattern.
    Array(Vec<Pattern>, Option<Box<Pattern>>),
    /// `left = default`: only the left side binds.
    Assign(Box<Pattern>),
}

/// A parameter list: the parameters' patterns, then the `...rest` pattern.
pub struct Params {
    pub items: Vec<Pattern>,
    pub rest: Option<Pattern>,
}

/// One declarator of a `var`/`let`/`const`: its pattern (at `line`) and initializer.
pub struct Declarator {
    pub id: Pattern,
    pub line: u32,
    pub init: Option<Expr>,
}

/// A `var`/`let`/`const` declaration.
pub struct VarDecl {
    pub declarations: Vec<Declarator>,
}

/// A function (declaration, expression or method): its name, parameters and body.
pub struct Function {
    pub id: Option<Name>,
    pub params: Params,
    pub body: Option<Vec<Stmt>>,
}

/// An arrow function: an expression body is one expression statement.
pub struct Arrow {
    pub params: Params,
    pub body: Vec<Stmt>,
}

/// A member of a class body. A key is named (`Some`) when it is an identifier or a private name.
pub enum ClassElement {
    /// A method: its key, the line of the whole method, its function.
    Method { key: Option<Name>, line: u32, value: Function },
    /// A field and its initializer.
    Property { key: Option<Name>, value: Option<Expr> },
    StaticBlock(Vec<Stmt>),
    /// An `accessor` field's initializer.
    Accessor(Option<Expr>),
    /// An index signature: no runtime content.
    IndexSignature,
}

/// A class: its name, the line of the whole class, its superclass and its body.
pub struct Class {
    pub id: Option<Name>,
    pub line: u32,
    pub super_class: Option<Expr>,
    pub body: Vec<ClassElement>,
}

/// A declaration that can be exported.
pub enum Decl {
    Var(VarDecl),
    Function(Function),
    Class(Class),
    /// A type-only declaration.
    Other,
}

/// What `export default` exports.
pub enum DefaultExport {
    Function(Function),
    Class(Class),
    Expr(Expr),
    /// A type-only declaration.
    Other,
}

/// The head of a `for (init; test; update)`.
pub enum ForInit {
    Var(VarDecl),
    Expr(Expr),
}

/// The left side of a `for … of`/`for … in`: a declaration, or an existing target.
pub enum ForLeft {
    Var(VarDecl),
    Other,
}

/// A `catch` clause: its parameter pattern and body.
pub struct CatchClause {
    pub param: Option<Pattern>,
    pub body: Vec<Stmt>,
}

/// A `case`/`default` of a `switch`.
pub struct SwitchCase {
    pub test: Option<Expr>,
    pub consequent: Vec<Stmt>,
}

/// A statement.
pub enum Stmt {
    Var(VarDecl),
    Function(Function),
    Class(Class),
    /// The local names an `import` declaration binds (`None` for a side-effect import).
    Import(Option<Vec<Name>>),
    /// `export` of a declaration (`None` for a re-export list).
    ExportNamed(Option<Decl>),
    /// `export default …`, with the line of the whole statement.
    ExportDefault { line: u32, decl: DefaultExport },
    Expr(Expr),
    Block(Vec<Stmt>),
    If { test: Expr, consequent: Box<Stmt>, alternate: Option<Box<Stmt>> },
    For { init: Option<ForInit>, test: Option<Expr>, update: Option<Expr>, body: Box<Stmt> },
    /// `for … of` and `for … in`.
    ForEach { left: ForLeft, right: Expr, body: Box<Stmt> },
    While { test: Expr, body: Box<Stmt> },
    DoWhile { body: Box<Stmt>, test: Expr },
    Return(Option<Expr>),
    Throw(Expr),
    Try { block: Vec<Stmt>, handler: Option<CatchClause>, finalizer: Option<Vec<Stmt>> },
    Switch { discriminant: Expr, cases: Vec<SwitchCase> },
    Labeled(Box<Stmt>),
    /// `break`, `continue`, `debugger`, type-only declarations and the like: no references.
    Other,
}

/// An object literal's member: a property's value, or a spread.
pub enum ObjectMember {
    Property(Expr),
    Spread(Expr),
}

/// An expression. Argument and element lists hold only the plain expressions (no spreads or
/// holes).
pub enum Expr {
    Ident(Name),
    This,
    Call { callee: Box<Expr>, args: Vec<Expr> },
    New { callee: Box<Expr>, args: Vec<Expr> },
    /// `object.property`.
    StaticMember { object: Box<Expr>, property: Name },
    /// `object[expression]`.
    ComputedMember(Box<Expr>, Box<Expr>),
    /// `object.#field`.
    PrivateField(Box<Expr>),
    /// An optional chain `a?.b…`: its member expression, or `Other` when the chain ends in a call.
    Chain(Box<Expr>),
    Binary(Box<Expr>, Box<Expr>),
    Logical(Box<Expr>, Box<Expr>),
    Unary(Box<Expr>),
    Update,
    Await(Box<Expr>),
    Yield(Option<Box<Expr>>),
    Paren(Box<Expr>),
    /// `test ? consequent : alternate`.
    Conditional(Box<Expr>, Box<Expr>, Box<Expr>),
    /// An assignment: its right side, and its left side when that is a simple expression target.
    Assign { right: Box<Expr>, left: Option<Box<Expr>> },
    Sequence(Vec<Expr>),
    Array(Vec<Expr>),
    Object(Vec<ObjectMember>),
    /// A template literal's embedded expressions.
    Template(Vec<Expr>),
    TaggedTemplate { tag: Box<Expr>, exprs: Vec<Expr> },
    Arrow(Arrow),
    Function(Function),
    Class(Box<Class>),
    Jsx(JsxElement),
    JsxFragment(Vec<JsxChild>),
    /// Literals, `super`, `import.meta`, type assertions and the like.
    Other,
}

/// A JSX element: its tag when that is an identifier reference (a component), its attributes and
/// children.
pub struct JsxElement {
    pub name: Option<Name>,
    pub attrs: Vec<JsxAttr>,
    pub children: Vec<JsxChild>,
}

/// A JSX attribute.
pub enum JsxAttr {
    /// `name={…}`.
    Container(JsxExpr),
    /// `{...spread}`.
    Spread(Expr),
    /// A string value, or no value.
    Other,
}

/// The inside of a JSX `{…}`: an expression, or nothing (a comment).
pub enum JsxExpr {
    Expr(Expr),
    Empty,
}

/// A child of a JSX element.
pub enum JsxChild {
    Element(JsxElement),
    Fragment(Vec<JsxChild>),
    Container(JsxExpr),
    Spread(Expr),
    Text,
}

/// A parsed module: its statements, with the line of the first.
pub struct Program {
    pub body: Vec<Stmt>,
    /// The line the first statement starts on (`None` for an empty program).
    pub first_line: Option<u32>,
}

} // verus!
