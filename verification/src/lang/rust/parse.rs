//! Parsing Rust source text with `syn`, and the conversion of `syn`'s tree into the library's
//! Rust syntax ([`crate::lang::rust::syntax`]), node kind by node kind.

use syn::spanned::Spanned;
use proc_macro2::Span as SynSpan;
use syn::{Block as SynBlock, Expr as SynExpr, Ident as SynIdent, ImplItem as SynImplItem, Item as SynItem, Macro as SynMacro, Pat as SynPat, Path as SynPath, Signature as SynSignature, Stmt as SynStmt, Type as SynType, UseTree as SynUseTree};

use vstd::prelude::*;

use crate::lang::rust::syntax as rs;

verus! {

#[verifier::external_type_specification]
#[verifier::external_body]
pub struct ExSpan(SynSpan);

#[verifier::external_type_specification]
#[verifier::external_body]
pub struct ExIdent(SynIdent);

#[verifier::external_type_specification]
#[verifier::external_body]
pub struct ExPat(SynPat);

#[verifier::external_type_specification]
#[verifier::external_body]
pub struct ExPath(SynPath);

#[verifier::external_type_specification]
#[verifier::external_body]
pub struct ExExpr(SynExpr);

#[verifier::external_type_specification]
#[verifier::external_body]
pub struct ExBlock(SynBlock);

#[verifier::external_type_specification]
#[verifier::external_body]
pub struct ExMacro(SynMacro);

#[verifier::external_type_specification]
#[verifier::external_body]
pub struct ExStmt(SynStmt);

#[verifier::external_type_specification]
#[verifier::external_body]
pub struct ExSignature(SynSignature);

#[verifier::external_type_specification]
#[verifier::external_body]
pub struct ExType(SynType);

#[verifier::external_type_specification]
#[verifier::external_body]
pub struct ExUseTree(SynUseTree);

#[verifier::external_type_specification]
#[verifier::external_body]
pub struct ExItem(SynItem);

#[verifier::external_type_specification]
#[verifier::external_body]
pub struct ExImplItem(SynImplItem);

/// What `syn::parse_file` makes of a source text, as the library's syntax: the file, or the
/// parser's message.
pub uninterp spec fn rust_parse(src: Seq<char>) -> Result<rs::File, Seq<char>>;

/// Parse `src` with `syn::parse_file` and convert the tree (see the converters below); the
/// result is named by [`rust_parse`], a function of the text alone. An error is `syn`'s message.
#[verifier::external_body]
pub fn parse_rust(src: &str) -> (r: Result<rs::File, String>)
    ensures
        match rust_parse(src@) {
            Ok(f) => r == Ok::<rs::File, String>(f),
            Err(m) => r matches Err(e) && e@ == m,
        },
{
    match syn::parse_file(src) {
        Ok(f) => Ok(rs::File { first_line: f.items.first().map(|i| span_line(i.span())), items: f.items.iter().map(item).collect() }),
        Err(e) => Err(e.to_string()),
    }
}

/// The 1-based start line of a span (`proc_macro2::Span::start`).
#[verifier::external_body]
fn span_line(s: proc_macro2::Span) -> u32 {
    s.start().line as u32
}

/// An identifier (`syn::Ident`): its text and line.
#[verifier::external_body]
fn name(id: &syn::Ident) -> rs::Name {
    rs::Name { name: id.to_string(), line: span_line(id.span()) }
}

/// A pattern (`syn::Pat`): a name, or a group of patterns; the other kinds follow below.
#[verifier::external_body]
fn pat(p: &syn::Pat) -> rs::Pat {
    match p {
        syn::Pat::Ident(p) => rs::Pat::Ident { name: name(&p.ident), sub: p.subpat.as_ref().map(|(_, s)| Box::new(pat(s))) },
        syn::Pat::Tuple(p) => rs::Pat::Group(p.elems.iter().map(pat).collect()),
        syn::Pat::TupleStruct(p) => rs::Pat::Group(p.elems.iter().map(pat).collect()),
        syn::Pat::Slice(p) => rs::Pat::Group(p.elems.iter().map(pat).collect()),
        _ => pat_rest(p),
    }
}

/// Struct, or-, reference, parenthesized and typed patterns; kinds that bind nothing are `Other`.
#[verifier::external_body]
fn pat_rest(p: &syn::Pat) -> rs::Pat {
    match p {
        syn::Pat::Struct(p) => rs::Pat::Group(p.fields.iter().map(|f| pat(&f.pat)).collect()),
        syn::Pat::Or(p) => rs::Pat::Group(p.cases.iter().map(pat).collect()),
        syn::Pat::Reference(p) => rs::Pat::Reference(Box::new(pat(&p.pat))),
        syn::Pat::Paren(p) => rs::Pat::Paren(Box::new(pat(&p.pat))),
        syn::Pat::Type(p) => rs::Pat::Typed(Box::new(pat(&p.pat))),
        _ => rs::Pat::Other,
    }
}

/// A path (`syn::Path`): leading `::`, and each segment's name and whether it has arguments.
#[verifier::external_body]
fn path(p: &syn::Path) -> rs::Path {
    rs::Path {
        global: p.leading_colon.is_some(),
        segments: p.segments.iter().map(|s| rs::Segment { name: s.ident.to_string(), args: !s.arguments.is_none() }).collect(),
    }
}

/// A boxed expression.
#[verifier::external_body]
fn boxed(e: &syn::Expr) -> Box<rs::Expr> {
    Box::new(expr(e))
}

/// A block's statements (`syn::Block`).
#[verifier::external_body]
fn block(b: &syn::Block) -> Vec<rs::Stmt> {
    b.stmts.iter().map(stmt).collect()
}

/// A macro invocation (`syn::Macro`): its line, and its body's expressions when
/// `Macro::parse_body_with` reads the body as a comma-separated list of expressions.
#[verifier::external_body]
fn mac(m: &syn::Macro) -> rs::Macro {
    let args = m
        .parse_body_with(syn::punctuated::Punctuated::<syn::Expr, syn::token::Comma>::parse_terminated)
        .ok()
        .map(|list| list.iter().map(expr).collect());
    rs::Macro { line: span_line(m.span()), args }
}

/// An expression (`syn::Expr`): `loop`, paths and calls; the other kinds follow in the functions
/// below.
#[verifier::external_body]
fn expr(e: &syn::Expr) -> rs::Expr {
    match e {
        syn::Expr::Loop(l) => rs::Expr::Loop(block(&l.body)),
        syn::Expr::Path(p) => rs::Expr::Path { path: path(&p.path), line: span_line(p.span()) },
        syn::Expr::Call(c) => rs::Expr::Call { func: boxed(&c.func), args: c.args.iter().map(expr).collect() },
        syn::Expr::MethodCall(m) => {
            rs::Expr::MethodCall { receiver: boxed(&m.receiver), method: name(&m.method), args: m.args.iter().map(expr).collect() }
        }
        _ => expr_ops(e),
    }
}

/// Invisible groups, operators, references, parentheses and casts (a binary operator is told apart only as `&&`
/// or not).
#[verifier::external_body]
fn expr_ops(e: &syn::Expr) -> rs::Expr {
    match e {
        syn::Expr::Group(g) => rs::Expr::Group(boxed(&g.expr)),
        syn::Expr::Binary(b) => rs::Expr::Binary { left: boxed(&b.left), right: boxed(&b.right), and: matches!(b.op, syn::BinOp::And(_)) },
        syn::Expr::Unary(u) => rs::Expr::Unary(boxed(&u.expr)),
        syn::Expr::Reference(r) => rs::Expr::Reference(boxed(&r.expr)),
        syn::Expr::Paren(p) => rs::Expr::Paren(boxed(&p.expr)),
        syn::Expr::Cast(c) => rs::Expr::Cast(boxed(&c.expr)),
        _ => expr_more(e),
    }
}

/// Awaits, indexing, assignments and array or tuple literals.
#[verifier::external_body]
fn expr_more(e: &syn::Expr) -> rs::Expr {
    match e {
        syn::Expr::Await(a) => rs::Expr::Await(boxed(&a.base)),
        syn::Expr::Index(i) => rs::Expr::Index(boxed(&i.expr), boxed(&i.index)),
        syn::Expr::Assign(a) => rs::Expr::Assign(boxed(&a.left), boxed(&a.right)),
        syn::Expr::Array(a) => rs::Expr::Array(a.elems.iter().map(expr).collect()),
        syn::Expr::Tuple(t) => rs::Expr::Tuple(t.elems.iter().map(expr).collect()),
        syn::Expr::Repeat(r) => rs::Expr::Repeat(boxed(&r.expr), boxed(&r.len)),
        _ => expr_jumps(e),
    }
}

/// Ranges, returns, breaks and `if`.
#[verifier::external_body]
fn expr_jumps(e: &syn::Expr) -> rs::Expr {
    match e {
        syn::Expr::Range(r) => rs::Expr::Range(r.start.as_ref().map(|s| boxed(s)), r.end.as_ref().map(|s| boxed(s))),
        syn::Expr::Return(r) => rs::Expr::Return(r.expr.as_ref().map(|x| boxed(x))),
        syn::Expr::Break(b) => rs::Expr::Break(b.expr.as_ref().map(|x| boxed(x))),
        syn::Expr::If(i) => rs::Expr::If {
            cond: boxed(&i.cond),
            then_branch: block(&i.then_branch),
            else_branch: i.else_branch.as_ref().map(|(_, els)| boxed(els)),
        },
        _ => expr_branches(e),
    }
}

/// `match` and the loops with a head.
#[verifier::external_body]
fn expr_branches(e: &syn::Expr) -> rs::Expr {
    match e {
        syn::Expr::Match(m) => rs::Expr::Match {
            expr: boxed(&m.expr),
            arms: m.arms.iter().map(|a| rs::Arm { pat: pat(&a.pat), guard: a.guard.as_ref().map(|(_, g)| expr(g)), body: expr(&a.body) }).collect(),
        },
        syn::Expr::ForLoop(f) => rs::Expr::ForLoop { pat: pat(&f.pat), expr: boxed(&f.expr), body: block(&f.body) },
        syn::Expr::While(w) => rs::Expr::While { cond: boxed(&w.cond), body: block(&w.body) },
        _ => expr_blocks(e),
    }
}

/// Struct literals and blocks (`unsafe`, `async` and `try` blocks are
/// blocks).
#[verifier::external_body]
fn expr_blocks(e: &syn::Expr) -> rs::Expr {
    match e {
        syn::Expr::Struct(s) => rs::Expr::Struct {
            path: path(&s.path),
            line: span_line(s.span()),
            fields: s.fields.iter().map(|f| expr(&f.expr)).collect(),
            rest: s.rest.as_ref().map(|r| boxed(r)),
        },
        syn::Expr::Block(b) => rs::Expr::Block(block(&b.block)),
        syn::Expr::Unsafe(u) => rs::Expr::Block(block(&u.block)),
        syn::Expr::Async(a) => rs::Expr::Block(block(&a.block)),
        syn::Expr::TryBlock(t) => rs::Expr::Block(block(&t.block)),
        _ => expr_rest(e),
    }
}

/// Field reads, `?`, closures, `let` conditions and macros; kinds that read nothing are `Other`.
#[verifier::external_body]
fn expr_rest(e: &syn::Expr) -> rs::Expr {
    match e {
        syn::Expr::Try(t) => rs::Expr::Try(boxed(&t.expr)),
        syn::Expr::Field(f) => rs::Expr::Field(boxed(&f.base)),
        syn::Expr::Closure(c) => rs::Expr::Closure { inputs: c.inputs.iter().map(pat).collect(), body: boxed(&c.body) },
        syn::Expr::Let(l) => rs::Expr::Let { pat: pat(&l.pat), expr: boxed(&l.expr) },
        syn::Expr::Macro(m) => rs::Expr::Macro(mac(&m.mac)),
        _ => rs::Expr::Other,
    }
}

/// A statement (`syn::Stmt`).
#[verifier::external_body]
fn stmt(s: &syn::Stmt) -> rs::Stmt {
    match s {
        syn::Stmt::Local(local) => rs::Stmt::Local(rs::Local {
            pat: pat(&local.pat),
            init: local.init.as_ref().map(|i| expr(&i.expr)),
            diverge: local.init.as_ref().and_then(|i| i.diverge.as_ref()).map(|(_, d)| expr(d)),
        }),
        syn::Stmt::Item(i) => rs::Stmt::Item(item(i)),
        syn::Stmt::Expr(e, _) => rs::Stmt::Expr(expr(e)),
        syn::Stmt::Macro(m) => rs::Stmt::Macro(mac(&m.mac)),
    }
}

/// A signature (`syn::Signature`): its name and its typed parameters' patterns (`self` is not
/// a typed parameter).
#[verifier::external_body]
fn sig(s: &syn::Signature) -> rs::Signature {
    let params = s
        .inputs
        .iter()
        .filter_map(|arg| match arg {
            syn::FnArg::Typed(pt) => Some(pat(&pt.pat)),
            syn::FnArg::Receiver(_) => None,
        })
        .collect();
    rs::Signature { name: name(&s.ident), params }
}

/// A type (`syn::Type`): a path's segment names, a reference, or `Other`.
#[verifier::external_body]
fn ty(t: &syn::Type) -> rs::Ty {
    match t {
        syn::Type::Path(p) => rs::Ty::Path(p.path.segments.iter().map(|s| s.ident.to_string()).collect()),
        syn::Type::Reference(r) => rs::Ty::Reference(Box::new(ty(&r.elem))),
        _ => rs::Ty::Other,
    }
}

/// A `use` tree (`syn::UseTree`).
#[verifier::external_body]
fn use_tree(t: &syn::UseTree) -> rs::UseTree {
    match t {
        syn::UseTree::Path(p) => rs::UseTree::Path(Box::new(use_tree(&p.tree))),
        syn::UseTree::Name(n) => rs::UseTree::Name(name(&n.ident)),
        syn::UseTree::Rename(r) => rs::UseTree::Rename(name(&r.rename)),
        syn::UseTree::Group(g) => rs::UseTree::Group(g.items.iter().map(use_tree).collect()),
        syn::UseTree::Glob(_) => rs::UseTree::Glob,
    }
}

/// An `impl` item (`syn::ImplItem`).
#[verifier::external_body]
fn impl_item(it: &syn::ImplItem) -> rs::ImplItem {
    match it {
        syn::ImplItem::Fn(f) => rs::ImplItem::Fn { sig: sig(&f.sig), body: block(&f.block) },
        syn::ImplItem::Const(c) => rs::ImplItem::Const { name: name(&c.ident), expr: expr(&c.expr) },
        _ => rs::ImplItem::Other,
    }
}

/// An item (`syn::Item`): functions, `impl` blocks and type definitions (which keep only their
/// name); the other kinds follow below.
#[verifier::external_body]
fn item(i: &syn::Item) -> rs::Item {
    match i {
        syn::Item::Fn(f) => rs::Item::Fn { sig: sig(&f.sig), body: block(&f.block) },
        syn::Item::Impl(im) => rs::Item::Impl { self_ty: ty(&im.self_ty), items: im.items.iter().map(impl_item).collect() },
        syn::Item::Struct(s) => rs::Item::TypeDef(name(&s.ident)),
        syn::Item::Enum(e) => rs::Item::TypeDef(name(&e.ident)),
        syn::Item::Union(u) => rs::Item::TypeDef(name(&u.ident)),
        syn::Item::Trait(t) => rs::Item::TypeDef(name(&t.ident)),
        _ => item_rest(i),
    }
}

/// Constants, statics, `use` and `mod` items; other kinds are `Other`.
#[verifier::external_body]
fn item_rest(i: &syn::Item) -> rs::Item {
    match i {
        syn::Item::Const(c) => rs::Item::Data { name: name(&c.ident), expr: expr(&c.expr) },
        syn::Item::Static(s) => rs::Item::Data { name: name(&s.ident), expr: expr(&s.expr) },
        syn::Item::Use(u) => rs::Item::Use(use_tree(&u.tree)),
        syn::Item::Mod(m) => rs::Item::Mod { name: name(&m.ident), content: m.content.as_ref().map(|(_, items)| items.iter().map(item).collect()) },
        _ => rs::Item::Other,
    }
}

} // verus!
