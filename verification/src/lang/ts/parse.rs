//! Parsing TypeScript/JavaScript source text with `oxc`, and the conversion of `oxc`'s tree into
//! the library's TS syntax ([`crate::lang::ts::syntax`]), node kind by node kind. Spans become
//! lines through the library's [`LineIndex`].

use oxc_allocator::Allocator;
use oxc_ast::ast::{
    ArrowFunctionExpression as OxArrow, BindingPattern as OxPattern, Class as OxClass, ClassElement as OxClassElement,
    Declaration as OxDeclaration, Expression as OxExpr, ForStatementLeft as OxForLeft, FormalParameters as OxParams,
    Function as OxFunction, JSXChild as OxJsxChild, JSXElement as OxJsxElement, JSXExpression as OxJsxExpr,
    MemberExpression as OxMember, PropertyKey as OxKey, Statement as OxStmt, VariableDeclaration as OxVarDecl,
};
use oxc_parser::Parser;
use oxc_span::{GetSpan, SourceType, Span as OxSpan};

use vstd::prelude::*;

use crate::lang::LineIndex;
use crate::lang::ts::syntax as ts;

verus! {

#[verifier::external_type_specification]
#[verifier::external_body]
pub struct ExOxSpan(OxSpan);

#[verifier::external_type_specification]
#[verifier::external_body]
pub struct ExOxArrow<'a>(OxArrow<'a>);

#[verifier::external_type_specification]
#[verifier::external_body]
pub struct ExOxPattern<'a>(OxPattern<'a>);

#[verifier::external_type_specification]
#[verifier::external_body]
pub struct ExOxClass<'a>(OxClass<'a>);

#[verifier::external_type_specification]
#[verifier::external_body]
pub struct ExOxClassElement<'a>(OxClassElement<'a>);

#[verifier::external_type_specification]
#[verifier::external_body]
pub struct ExOxDeclaration<'a>(OxDeclaration<'a>);

#[verifier::external_type_specification]
#[verifier::external_body]
pub struct ExOxExpr<'a>(OxExpr<'a>);

#[verifier::external_type_specification]
#[verifier::external_body]
pub struct ExOxForLeft<'a>(OxForLeft<'a>);

#[verifier::external_type_specification]
#[verifier::external_body]
pub struct ExOxParams<'a>(OxParams<'a>);

#[verifier::external_type_specification]
#[verifier::external_body]
pub struct ExOxFunction<'a>(OxFunction<'a>);

#[verifier::external_type_specification]
#[verifier::external_body]
pub struct ExOxJsxChild<'a>(OxJsxChild<'a>);

#[verifier::external_type_specification]
#[verifier::external_body]
pub struct ExOxJsxElement<'a>(OxJsxElement<'a>);

#[verifier::external_type_specification]
#[verifier::external_body]
pub struct ExOxJsxExpr<'a>(OxJsxExpr<'a>);

#[verifier::external_type_specification]
#[verifier::external_body]
pub struct ExOxMember<'a>(OxMember<'a>);

#[verifier::external_type_specification]
#[verifier::external_body]
pub struct ExOxKey<'a>(OxKey<'a>);

#[verifier::external_type_specification]
#[verifier::external_body]
pub struct ExOxStmt<'a>(OxStmt<'a>);

#[verifier::external_type_specification]
#[verifier::external_body]
pub struct ExOxVarDecl<'a>(OxVarDecl<'a>);

/// What `oxc`'s parser makes of a source text, parsed as the source type of the file's path
/// (`.tsx` when the path names none), as the library's syntax: the program, or, when the parser
/// gave up, its first message (`None` when it gave none).
pub uninterp spec fn ts_parse(src: Seq<char>, file: Seq<char>) -> Result<ts::Program, Option<Seq<char>>>;

/// Parse `src` with `oxc_parser::Parser` (source type from `SourceType::from_path`, `.tsx`
/// when that fails) and convert the program (see the converters below); the result is named by
/// [`ts_parse`], a function of the text and the path. A parse the parser gave up on (`panicked`)
/// is its first diagnostic.
#[verifier::external_body]
fn oxc_parse(src: &str, file: &str) -> (r: Result<ts::Program, Option<String>>)
    ensures
        match ts_parse(src@, file@) {
            Ok(p) => r == Ok::<ts::Program, Option<String>>(p),
            Err(None) => r == Err::<ts::Program, Option<String>>(None),
            Err(Some(m)) => r matches Err(Some(e)) && e@ == m,
        },
{
    let allocator = Allocator::default();
    let ret = Parser::new(&allocator, src, SourceType::from_path(file).unwrap_or_else(|_| SourceType::tsx())).parse();
    if ret.panicked {
        return Err(ret.diagnostics.first().map(|d| d.to_string()));
    }
    let lx = LineIndex::new(src);
    Ok(ts::Program { body: ret.program.body.iter().map(|s| stmt(&lx, s)).collect(), first_line: ret.program.body.first().map(|s| ln(&lx, s.span())) })
}

/// The message of a parse the parser gave up on: its first diagnostic, else `parse failed`.
pub open spec fn ts_parse_message(m: Option<Seq<char>>) -> Seq<char> {
    match m {
        Some(m) => m,
        None => "parse failed"@,
    }
}

/// Parse a TypeScript/JavaScript source text (see [`ts_parse`]): the program, or the parser's
/// message.
pub fn parse_ts(src: &str, file: &str) -> (r: Result<ts::Program, String>)
    ensures
        match ts_parse(src@, file@) {
            Ok(p) => r == Ok::<ts::Program, String>(p),
            Err(m) => r matches Err(e) && e@ == ts_parse_message(m),
        },
{
    match oxc_parse(src, file) {
        Ok(p) => Ok(p),
        Err(Some(m)) => Err(m),
        Err(None) => Err("parse failed".to_string()),
    }
}

/// The line of a span's start (`Span::start`, through the line index).
#[verifier::external_body]
fn ln(lx: &LineIndex, span: OxSpan) -> u32 {
    lx.row(span.start as usize)
}

/// A name and the line of its span.
#[verifier::external_body]
fn name(lx: &LineIndex, n: &str, span: OxSpan) -> ts::Name {
    ts::Name { name: n.to_string(), line: ln(lx, span) }
}

/// A boxed expression.
#[verifier::external_body]
fn boxed(lx: &LineIndex, e: &OxExpr) -> Box<ts::Expr> {
    Box::new(expr(lx, e))
}

/// A list of statements.
#[verifier::external_body]
fn stmts(lx: &LineIndex, ss: &[OxStmt]) -> Vec<ts::Stmt> {
    ss.iter().map(|s| stmt(lx, s)).collect()
}

/// A binding pattern (`BindingPattern`): a name, a default (`x = …`), or an array pattern (holes
/// left out); object patterns follow below.
#[verifier::external_body]
fn pattern(lx: &LineIndex, p: &OxPattern) -> ts::Pattern {
    match p {
        OxPattern::BindingIdentifier(b) => ts::Pattern::Ident(name(lx, b.name.as_str(), b.span)),
        OxPattern::AssignmentPattern(ap) => ts::Pattern::Assign(Box::new(pattern(lx, &ap.left))),
        OxPattern::ArrayPattern(a) => ts::Pattern::Array(
            a.elements.iter().flatten().map(|e| pattern(lx, e)).collect(),
            a.rest.as_ref().map(|r| Box::new(pattern(lx, &r.argument))),
        ),
        _ => object_pattern(lx, p),
    }
}

/// An object pattern: its properties' patterns and its rest.
#[verifier::external_body]
fn object_pattern(lx: &LineIndex, p: &OxPattern) -> ts::Pattern {
    match p {
        OxPattern::ObjectPattern(o) => ts::Pattern::Object(
            o.properties.iter().map(|p| pattern(lx, &p.value)).collect(),
            o.rest.as_ref().map(|r| Box::new(pattern(lx, &r.argument))),
        ),
        _ => ts::Pattern::Object(Vec::new(), None),
    }
}

/// Formal parameters (`FormalParameters`).
#[verifier::external_body]
fn params(lx: &LineIndex, fp: &OxParams) -> ts::Params {
    ts::Params {
        items: fp.items.iter().map(|p| pattern(lx, &p.pattern)).collect(),
        rest: fp.rest.as_ref().map(|r| pattern(lx, &r.rest.argument)),
    }
}

/// A variable declaration (`VariableDeclaration`): each declarator's pattern, line and initializer.
#[verifier::external_body]
fn var_decl(lx: &LineIndex, v: &OxVarDecl) -> ts::VarDecl {
    ts::VarDecl {
        declarations: v
            .declarations
            .iter()
            .map(|d| ts::Declarator { id: pattern(lx, &d.id), line: ln(lx, d.id.span()), init: d.init.as_ref().map(|e| expr(lx, e)) })
            .collect(),
    }
}

/// A function (`Function`): its name, parameters and body.
#[verifier::external_body]
fn function(lx: &LineIndex, f: &OxFunction) -> ts::Function {
    ts::Function {
        id: f.id.as_ref().map(|id| name(lx, id.name.as_str(), id.span)),
        params: params(lx, &f.params),
        body: f.body.as_ref().map(|b| stmts(lx, &b.statements)),
    }
}

/// An arrow (`ArrowFunctionExpression`): a block body's statements, or an expression body as one
/// expression statement.
#[verifier::external_body]
fn arrow(lx: &LineIndex, a: &OxArrow) -> ts::Arrow {
    let body = match a.body.as_function_body() {
        Some(b) => stmts(lx, &b.statements),
        None => a.body.as_expression().map(|e| vec![ts::Stmt::Expr(expr(lx, e))]).unwrap_or_default(),
    };
    ts::Arrow { params: params(lx, &a.params), body }
}

/// A property key (`PropertyKey`): an identifier or a private name; computed, string and numeric
/// keys have none.
#[verifier::external_body]
fn key(lx: &LineIndex, k: &OxKey) -> Option<ts::Name> {
    match k {
        OxKey::StaticIdentifier(i) => Some(name(lx, i.name.as_str(), k.span())),
        OxKey::PrivateIdentifier(i) => Some(name(lx, i.name.as_str(), k.span())),
        _ => None,
    }
}

/// A class member (`ClassElement`).
#[verifier::external_body]
fn class_element(lx: &LineIndex, el: &OxClassElement) -> ts::ClassElement {
    match el {
        OxClassElement::MethodDefinition(m) => ts::ClassElement::Method { key: key(lx, &m.key), line: ln(lx, m.span), value: function(lx, &m.value) },
        OxClassElement::PropertyDefinition(p) => ts::ClassElement::Property { key: key(lx, &p.key), value: p.value.as_ref().map(|v| expr(lx, v)) },
        OxClassElement::StaticBlock(b) => ts::ClassElement::StaticBlock(stmts(lx, &b.body)),
        OxClassElement::AccessorProperty(a) => ts::ClassElement::Accessor(a.value.as_ref().map(|v| expr(lx, v))),
        OxClassElement::TSIndexSignature(_) => ts::ClassElement::IndexSignature,
    }
}

/// A class (`Class`): its name, line, superclass and members.
#[verifier::external_body]
fn class(lx: &LineIndex, c: &OxClass) -> ts::Class {
    ts::Class {
        id: c.id.as_ref().map(|id| name(lx, id.name.as_str(), id.span)),
        line: ln(lx, c.span),
        super_class: c.super_class.as_ref().map(|s| expr(lx, s)),
        body: c.body.body.iter().map(|el| class_element(lx, el)).collect(),
    }
}

/// A declaration (`Declaration`); type-level declarations are `Other`.
#[verifier::external_body]
fn declaration(lx: &LineIndex, d: &OxDeclaration) -> ts::Decl {
    match d {
        OxDeclaration::VariableDeclaration(v) => ts::Decl::Var(var_decl(lx, v)),
        OxDeclaration::FunctionDeclaration(f) => ts::Decl::Function(function(lx, f)),
        OxDeclaration::ClassDeclaration(c) => ts::Decl::Class(class(lx, c)),
        _ => ts::Decl::Other,
    }
}

/// A statement (`Statement`): declarations and imports; the other kinds follow below.
#[verifier::external_body]
fn stmt(lx: &LineIndex, s: &OxStmt) -> ts::Stmt {
    match s {
        OxStmt::VariableDeclaration(v) => ts::Stmt::Var(var_decl(lx, v)),
        OxStmt::FunctionDeclaration(f) => ts::Stmt::Function(function(lx, f)),
        OxStmt::ClassDeclaration(c) => ts::Stmt::Class(class(lx, c)),
        OxStmt::ImportDeclaration(i) => ts::Stmt::Import(
            i.specifiers.as_ref().map(|specs| specs.iter().map(|sp| name(lx, sp.local().name.as_str(), sp.local().span)).collect()),
        ),
        _ => stmt_exports(lx, s),
    }
}

/// Exports: `export <declaration>`, an `export { … }` list (which declares nothing), and
/// `export default`.
#[verifier::external_body]
fn stmt_exports(lx: &LineIndex, s: &OxStmt) -> ts::Stmt {
    match s {
        OxStmt::ExportDeclaration(e) => ts::Stmt::ExportNamed(Some(declaration(lx, &e.declaration))),
        OxStmt::ExportNamedDeclaration(_) => ts::Stmt::ExportNamed(None),
        OxStmt::ExportDefaultDeclaration(e) => ts::Stmt::ExportDefault { line: ln(lx, e.span), decl: default_export(lx, &e.declaration) },
        _ => stmt_flow(lx, s),
    }
}

#[verifier::external_type_specification]
#[verifier::external_body]
pub struct ExOxDefaultKind<'a>(oxc_ast::ast::ExportDefaultDeclarationKind<'a>);

/// What an `export default` exports (`ExportDefaultDeclarationKind`).
#[verifier::external_body]
fn default_export(lx: &LineIndex, d: &oxc_ast::ast::ExportDefaultDeclarationKind) -> ts::DefaultExport {
    match d {
        oxc_ast::ast::ExportDefaultDeclarationKind::FunctionDeclaration(f) => ts::DefaultExport::Function(function(lx, f)),
        oxc_ast::ast::ExportDefaultDeclarationKind::ClassDeclaration(c) => ts::DefaultExport::Class(class(lx, c)),
        other => match other.as_expression() {
            Some(x) => ts::DefaultExport::Expr(expr(lx, x)),
            None => ts::DefaultExport::Other,
        },
    }
}

#[verifier::external_type_specification]
#[verifier::external_body]
pub struct ExOxFor<'a>(oxc_ast::ast::ForStatement<'a>);

#[verifier::external_type_specification]
#[verifier::external_body]
pub struct ExOxTry<'a>(oxc_ast::ast::TryStatement<'a>);

#[verifier::external_type_specification]
#[verifier::external_body]
pub struct ExOxSwitch<'a>(oxc_ast::ast::SwitchStatement<'a>);

/// Expression statements, blocks, `if` and `for`.
#[verifier::external_body]
fn stmt_flow(lx: &LineIndex, s: &OxStmt) -> ts::Stmt {
    match s {
        OxStmt::ExpressionStatement(e) => ts::Stmt::Expr(expr(lx, &e.expression)),
        OxStmt::BlockStatement(b) => ts::Stmt::Block(stmts(lx, &b.body)),
        OxStmt::IfStatement(i) => ts::Stmt::If {
            test: expr(lx, &i.test),
            consequent: Box::new(stmt(lx, &i.consequent)),
            alternate: i.alternate.as_ref().map(|a| Box::new(stmt(lx, a))),
        },
        OxStmt::ForStatement(f) => for_stmt(lx, f),
        _ => stmt_loops(lx, s),
    }
}

/// A `for (init; test; update)` loop (`ForStatement`).
#[verifier::external_body]
fn for_stmt(lx: &LineIndex, f: &oxc_ast::ast::ForStatement) -> ts::Stmt {
    let init = match &f.init {
        Some(oxc_ast::ast::ForStatementInit::VariableDeclaration(v)) => Some(ts::ForInit::Var(var_decl(lx, v))),
        Some(other) => other.as_expression().map(|e| ts::ForInit::Expr(expr(lx, e))),
        None => None,
    };
    let test = f.test.as_ref().map(|t| expr(lx, t));
    ts::Stmt::For { init, test, update: f.update.as_ref().map(|u| expr(lx, u)), body: Box::new(stmt(lx, &f.body)) }
}

/// `for … of`, `for … in` and `while` loops.
#[verifier::external_body]
fn stmt_loops(lx: &LineIndex, s: &OxStmt) -> ts::Stmt {
    match s {
        OxStmt::ForOfStatement(f) => ts::Stmt::ForEach { left: for_left(lx, &f.left), right: expr(lx, &f.right), body: Box::new(stmt(lx, &f.body)) },
        OxStmt::ForInStatement(f) => ts::Stmt::ForEach { left: for_left(lx, &f.left), right: expr(lx, &f.right), body: Box::new(stmt(lx, &f.body)) },
        OxStmt::WhileStatement(w) => ts::Stmt::While { test: expr(lx, &w.test), body: Box::new(stmt(lx, &w.body)) },
        _ => stmt_jumps(lx, s),
    }
}

/// `do … while` loops, `return`, `throw`, `try`, `switch` and labeled statements; other kinds
/// are `Other`.
#[verifier::external_body]
fn stmt_jumps(lx: &LineIndex, s: &OxStmt) -> ts::Stmt {
    match s {
        OxStmt::DoWhileStatement(d) => ts::Stmt::DoWhile { body: Box::new(stmt(lx, &d.body)), test: expr(lx, &d.test) },
        OxStmt::ReturnStatement(r) => ts::Stmt::Return(r.argument.as_ref().map(|e| expr(lx, e))),
        OxStmt::ThrowStatement(t) => ts::Stmt::Throw(expr(lx, &t.argument)),
        OxStmt::TryStatement(t) => try_stmt(lx, t),
        OxStmt::SwitchStatement(w) => switch_stmt(lx, w),
        OxStmt::LabeledStatement(l) => ts::Stmt::Labeled(Box::new(stmt(lx, &l.body))),
        _ => ts::Stmt::Other,
    }
}

/// A `try` statement (`TryStatement`): its block, its handler's parameter and body, its finalizer.
#[verifier::external_body]
fn try_stmt(lx: &LineIndex, t: &oxc_ast::ast::TryStatement) -> ts::Stmt {
    ts::Stmt::Try {
        block: stmts(lx, &t.block.body),
        handler: t.handler.as_ref().map(|h| ts::CatchClause {
            param: h.param.as_ref().map(|p| pattern(lx, &p.pattern)),
            body: stmts(lx, &h.body.body),
        }),
        finalizer: t.finalizer.as_ref().map(|f| stmts(lx, &f.body)),
    }
}

/// A `switch` statement (`SwitchStatement`): its discriminant and each case's test and body.
#[verifier::external_body]
fn switch_stmt(lx: &LineIndex, w: &oxc_ast::ast::SwitchStatement) -> ts::Stmt {
    ts::Stmt::Switch {
        discriminant: expr(lx, &w.discriminant),
        cases: w.cases.iter().map(|c| ts::SwitchCase { test: c.test.as_ref().map(|t| expr(lx, t)), consequent: stmts(lx, &c.consequent) }).collect(),
    }
}

/// The left side of `for … of` / `for … in` (`ForStatementLeft`): a declaration, or `Other`.
#[verifier::external_body]
fn for_left(lx: &LineIndex, left: &OxForLeft) -> ts::ForLeft {
    match left {
        OxForLeft::VariableDeclaration(v) => ts::ForLeft::Var(var_decl(lx, v)),
        _ => ts::ForLeft::Other,
    }
}

/// A member expression (`MemberExpression`).
#[verifier::external_body]
fn member(lx: &LineIndex, me: &OxMember) -> ts::Expr {
    match me {
        OxMember::StaticMemberExpression(m) => ts::Expr::StaticMember { object: boxed(lx, &m.object), property: name(lx, m.property.name.as_str(), m.property.span) },
        OxMember::ComputedMemberExpression(m) => ts::Expr::ComputedMember(boxed(lx, &m.object), boxed(lx, &m.expression)),
        OxMember::PrivateFieldExpression(m) => ts::Expr::PrivateField(boxed(lx, &m.object)),
    }
}

/// An expression (`Expression`): names, `this`, calls and `new`; the other kinds follow below.
/// Spread arguments are left out of argument lists.
#[verifier::external_body]
fn expr(lx: &LineIndex, e: &OxExpr) -> ts::Expr {
    match e {
        OxExpr::Identifier(i) => ts::Expr::Ident(name(lx, i.name.as_str(), i.span)),
        OxExpr::ThisExpression(_) => ts::Expr::This,
        OxExpr::CallExpression(c) => ts::Expr::Call { callee: boxed(lx, &c.callee), args: c.arguments.iter().filter_map(|a| a.as_expression()).map(|a| expr(lx, a)).collect() },
        OxExpr::NewExpression(n) => ts::Expr::New { callee: boxed(lx, &n.callee), args: n.arguments.iter().filter_map(|a| a.as_expression()).map(|a| expr(lx, a)).collect() },
        _ => expr_members(lx, e),
    }
}

/// Member accesses and optional chains (a chain that is no member access is `Other`).
#[verifier::external_body]
fn expr_members(lx: &LineIndex, e: &OxExpr) -> ts::Expr {
    match e {
        OxExpr::StaticMemberExpression(m) => ts::Expr::StaticMember { object: boxed(lx, &m.object), property: name(lx, m.property.name.as_str(), m.property.span) },
        OxExpr::ComputedMemberExpression(m) => ts::Expr::ComputedMember(boxed(lx, &m.object), boxed(lx, &m.expression)),
        OxExpr::PrivateFieldExpression(m) => ts::Expr::PrivateField(boxed(lx, &m.object)),
        OxExpr::ChainExpression(c) => ts::Expr::Chain(Box::new(c.expression.as_member_expression().map_or(ts::Expr::Other, |me| member(lx, me)))),
        _ => expr_ops(lx, e),
    }
}

/// Operators: binary, logical, unary and update.
#[verifier::external_body]
fn expr_ops(lx: &LineIndex, e: &OxExpr) -> ts::Expr {
    match e {
        OxExpr::BinaryExpression(b) => ts::Expr::Binary(boxed(lx, &b.left), boxed(lx, &b.right)),
        OxExpr::LogicalExpression(b) => ts::Expr::Logical(boxed(lx, &b.left), boxed(lx, &b.right)),
        OxExpr::UnaryExpression(u) => ts::Expr::Unary(boxed(lx, &u.argument)),
        OxExpr::UpdateExpression(_) => ts::Expr::Update,
        _ => expr_suspends(lx, e),
    }
}

/// `await`, `yield`, parentheses and `?:`.
#[verifier::external_body]
fn expr_suspends(lx: &LineIndex, e: &OxExpr) -> ts::Expr {
    match e {
        OxExpr::AwaitExpression(a) => ts::Expr::Await(boxed(lx, &a.argument)),
        OxExpr::YieldExpression(y) => ts::Expr::Yield(y.argument.as_ref().map(|a| boxed(lx, a))),
        OxExpr::ParenthesizedExpression(p) => ts::Expr::Paren(boxed(lx, &p.expression)),
        OxExpr::ConditionalExpression(c) => ts::Expr::Conditional(boxed(lx, &c.test), boxed(lx, &c.consequent), boxed(lx, &c.alternate)),
        _ => expr_literals(lx, e),
    }
}

/// Assignments (to a simple or member target), sequences, and array and object literals
/// (holes and spreads of arrays are left out).
#[verifier::external_body]
fn expr_literals(lx: &LineIndex, e: &OxExpr) -> ts::Expr {
    match e {
        OxExpr::AssignmentExpression(a) => ts::Expr::Assign { right: boxed(lx, &a.right), left: a.left.get_expression().map(|t| boxed(lx, t)) },
        OxExpr::SequenceExpression(s) => ts::Expr::Sequence(s.expressions.iter().map(|x| expr(lx, x)).collect()),
        OxExpr::ArrayExpression(a) => ts::Expr::Array(a.elements.iter().filter_map(|el| el.as_expression()).map(|x| expr(lx, x)).collect()),
        OxExpr::ObjectExpression(o) => ts::Expr::Object(o.properties.iter().map(|p| object_member(lx, p)).collect()),
        _ => expr_functions(lx, e),
    }
}

#[verifier::external_type_specification]
#[verifier::external_body]
pub struct ExOxObjectMember<'a>(oxc_ast::ast::ObjectPropertyKind<'a>);

/// An object literal's member (`ObjectPropertyKind`).
#[verifier::external_body]
fn object_member(lx: &LineIndex, p: &oxc_ast::ast::ObjectPropertyKind) -> ts::ObjectMember {
    match p {
        oxc_ast::ast::ObjectPropertyKind::ObjectProperty(op) => ts::ObjectMember::Property(expr(lx, &op.value)),
        oxc_ast::ast::ObjectPropertyKind::SpreadProperty(s) => ts::ObjectMember::Spread(expr(lx, &s.argument)),
    }
}

/// Templates, tagged templates, arrows, function and class expressions.
#[verifier::external_body]
fn expr_functions(lx: &LineIndex, e: &OxExpr) -> ts::Expr {
    match e {
        OxExpr::TemplateLiteral(t) => ts::Expr::Template(t.expressions.iter().map(|x| expr(lx, x)).collect()),
        OxExpr::TaggedTemplateExpression(t) => ts::Expr::TaggedTemplate { tag: boxed(lx, &t.tag), exprs: t.quasi.expressions.iter().map(|x| expr(lx, x)).collect() },
        OxExpr::ArrowFunctionExpression(a) => ts::Expr::Arrow(arrow(lx, a)),
        OxExpr::FunctionExpression(f) => ts::Expr::Function(function(lx, f)),
        OxExpr::ClassExpression(c) => ts::Expr::Class(Box::new(class(lx, c))),
        _ => expr_jsx(lx, e),
    }
}

/// JSX elements and fragments; kinds that read nothing are `Other`.
#[verifier::external_body]
fn expr_jsx(lx: &LineIndex, e: &OxExpr) -> ts::Expr {
    match e {
        OxExpr::JSXElement(j) => ts::Expr::Jsx(jsx_element(lx, j)),
        OxExpr::JSXFragment(f) => ts::Expr::JsxFragment(f.children.iter().map(|c| jsx_child(lx, c)).collect()),
        _ => ts::Expr::Other,
    }
}

/// A JSX expression container's content (`JSXExpression`): an expression, or empty.
#[verifier::external_body]
fn jsx_expr(lx: &LineIndex, je: &OxJsxExpr) -> ts::JsxExpr {
    match je.as_expression() {
        Some(e) => ts::JsxExpr::Expr(expr(lx, e)),
        None => ts::JsxExpr::Empty,
    }
}

#[verifier::external_type_specification]
#[verifier::external_body]
pub struct ExOxJsxAttr<'a>(oxc_ast::ast::JSXAttributeItem<'a>);

/// A JSX attribute (`JSXAttributeItem`): an expression container value, a spread, or `Other`.
#[verifier::external_body]
fn jsx_attr(lx: &LineIndex, attr: &oxc_ast::ast::JSXAttributeItem) -> ts::JsxAttr {
    match attr {
        oxc_ast::ast::JSXAttributeItem::Attribute(a) => match &a.value {
            Some(oxc_ast::ast::JSXAttributeValue::ExpressionContainer(c)) => ts::JsxAttr::Container(jsx_expr(lx, &c.expression)),
            _ => ts::JsxAttr::Other,
        },
        oxc_ast::ast::JSXAttributeItem::SpreadAttribute(s) => ts::JsxAttr::Spread(expr(lx, &s.argument)),
    }
}

/// A JSX element (`JSXElement`): its name when it is an identifier reference, its attributes and
/// its children.
#[verifier::external_body]
fn jsx_element(lx: &LineIndex, j: &OxJsxElement) -> ts::JsxElement {
    let name = match &j.opening_element.name {
        oxc_ast::ast::JSXElementName::IdentifierReference(r) => Some(name(lx, r.name.as_str(), r.span)),
        _ => None,
    };
    let attrs = j.opening_element.attributes.iter().map(|a| jsx_attr(lx, a)).collect();
    ts::JsxElement { name, attrs, children: j.children.iter().map(|c| jsx_child(lx, c)).collect() }
}

/// A JSX child (`JSXChild`).
#[verifier::external_body]
fn jsx_child(lx: &LineIndex, c: &OxJsxChild) -> ts::JsxChild {
    match c {
        OxJsxChild::Element(e) => ts::JsxChild::Element(jsx_element(lx, e)),
        OxJsxChild::Fragment(f) => ts::JsxChild::Fragment(f.children.iter().map(|c| jsx_child(lx, c)).collect()),
        OxJsxChild::ExpressionContainer(ec) => ts::JsxChild::Container(jsx_expr(lx, &ec.expression)),
        OxJsxChild::Spread(s) => ts::JsxChild::Spread(expr(lx, &s.expression)),
        OxJsxChild::Text(_) => ts::JsxChild::Text,
    }
}

} // verus!
