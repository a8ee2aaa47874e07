//! The Python lowering rules: how each statement and expression maps to scope actions
//! ([`py_stmt_rule`], [`py_expr_rule`]). Every node's actions are bracketed — each block or scope
//! it opens it closes.

use vstd::prelude::*;

use crate::engine::scopegraph::{BindKind, names_view};
use crate::engine::scopelang::{
    Action, ActionV, ScopeLang, action_view, acts_view, balanced, emit, frame_delta, params_view, run_from,
};
use crate::lang::python::syntax::{
    Alias, Case, Clause, Comprehension, Ctx, Expr, Handler, Ident, Module, Param, Params, Pattern, Stmt, WithItem,
};
use crate::text::{chars_of, copy_strings, find_char, first_index, range_is, string_of, views};

verus! {

/// A node to lower: a statement or an expression.
#[derive(Clone, Copy)]
pub enum Py<'a> {
    Stmt(&'a Stmt),
    Expr(&'a Expr),
}

/// A lowered node, as the syntax it points at.
pub enum PyV {
    Stmt(Stmt),
    Expr(Expr),
}

/// A lowered node seen as the syntax it points at.
pub open spec fn py_node<'a>() -> spec_fn(Py<'a>) -> PyV {
    |n: Py<'a>|
        match n {
            Py::Stmt(s) => PyV::Stmt(*s),
            Py::Expr(e) => PyV::Expr(*e),
        }
}

/// The Python scope profile, over one module.
pub struct PyLang<'a> {
    pub module: &'a Module,
}

/// The lowering so far, as values.
pub open spec fn py_view<'a>(acts: Seq<Action<Py<'a>>>) -> Seq<ActionV<PyV>> {
    acts_view(acts, py_node())
}

/// `acts` grew by `part`, opening and closing as many frames as it closed and opened.
pub open spec fn grew<'a>(before: Seq<Action<Py<'a>>>, after: Seq<Action<Py<'a>>>, part: Seq<ActionV<PyV>>) -> bool {
    py_view(after) == py_view(before) + part && run_from(after, 0) == run_from(before, 0)
}

/// Append `a` to a lowering.
fn push_act<'a>(acts: &mut Vec<Action<Py<'a>>>, a: Action<Py<'a>>)
    ensures
        py_view(final(acts)@) == py_view(old(acts)@).push(action_view(a, py_node())),
        run_from(final(acts)@, 0) == match run_from(old(acts)@, 0) {
            Some(e) => if e + frame_delta(a) >= 0 { Some(e + frame_delta(a)) } else { None },
            None => None,
        },
{
    let ghost before = acts@;
    emit(acts, a);
    assert(py_view(acts@) =~= py_view(before).push(action_view(a, py_node())));
}

/// Recurse into one expression.
pub open spec fn rec_e(e: Expr) -> ActionV<PyV> {
    ActionV::Recurse(seq![PyV::Expr(e)])
}

pub open spec fn exprs_v(es: Seq<Expr>) -> Seq<PyV> {
    es.map_values(|e: Expr| PyV::Expr(e))
}

pub open spec fn stmts_v(ss: Seq<Stmt>) -> Seq<PyV> {
    ss.map_values(|s: Stmt| PyV::Stmt(s))
}

/// A binding that is no class definition.
pub open spec fn bind_v(name: Seq<char>, kind: BindKind, line: u32, intro: bool, deps: Seq<Seq<char>>) -> ActionV<PyV> {
    ActionV::Bind { name, kind, line, intro, deps, is_class_def: false }
}

/// A capture in a pattern or an `except … as` name: an introducer.
pub open spec fn capture_v(id: Ident) -> ActionV<PyV> {
    bind_v(id.name@, BindKind::Value, id.line, true, Seq::empty())
}

fn recurse_one<'a>(e: &'a Expr) -> (a: Action<Py<'a>>)
    ensures
        action_view(a, py_node()) == rec_e(*e),
        frame_delta(a) == 0,
{
    let mut v: Vec<Py<'a>> = Vec::new();
    v.push(Py::Expr(e));
    assert(v@.map_values(py_node()) =~= seq![PyV::Expr(*e)]);
    Action::Recurse(v)
}

/// Append a reference to each of `es` to `v`.
fn push_exprs<'a>(v: &mut Vec<Py<'a>>, es: &'a Vec<Expr>)
    ensures
        final(v)@.map_values(py_node()) == old(v)@.map_values(py_node()) + exprs_v(es@),
{
    let ghost v0 = v@.map_values(py_node());
    let mut i: usize = 0;
    while i < es.len()
        invariant
            i <= es@.len(),
            v@.map_values(py_node()) == v0 + exprs_v(es@.take(i as int)),
        decreases es@.len() - i,
    {
        let ghost w = v@;
        v.push(Py::Expr(&es[i]));
        assert(v@.map_values(py_node()) =~= w.map_values(py_node()).push(PyV::Expr(es@[i as int])));
        assert(exprs_v(es@.take(i + 1)) =~= exprs_v(es@.take(i as int)).push(PyV::Expr(es@[i as int])));
        i = i + 1;
    }
    assert(es@.take(es@.len() as int) =~= es@);
}

fn recurse_exprs<'a>(es: &'a Vec<Expr>) -> (a: Action<Py<'a>>)
    ensures
        action_view(a, py_node()) == ActionV::<PyV>::Recurse(exprs_v(es@)),
        frame_delta(a) == 0,
{
    let mut v: Vec<Py<'a>> = Vec::new();
    assert(v@.map_values(py_node()) =~= Seq::<PyV>::empty());
    push_exprs(&mut v, es);
    assert(v@.map_values(py_node()) =~= exprs_v(es@));
    Action::Recurse(v)
}

fn recurse_stmts<'a>(ss: &'a Vec<Stmt>) -> (a: Action<Py<'a>>)
    ensures
        action_view(a, py_node()) == ActionV::<PyV>::Recurse(stmts_v(ss@)),
        frame_delta(a) == 0,
{
    let mut v: Vec<Py<'a>> = Vec::new();
    let mut i: usize = 0;
    while i < ss.len()
        invariant
            i <= ss@.len(),
            v@.map_values(py_node()) == stmts_v(ss@.take(i as int)),
        decreases ss@.len() - i,
    {
        let ghost w = v@;
        v.push(Py::Stmt(&ss[i]));
        assert(v@.map_values(py_node()) =~= w.map_values(py_node()).push(PyV::Stmt(ss@[i as int])));
        assert(stmts_v(ss@.take(i + 1)) =~= stmts_v(ss@.take(i as int)).push(PyV::Stmt(ss@[i as int])));
        i = i + 1;
    }
    assert(ss@.take(ss@.len() as int) =~= ss@);
    Action::Recurse(v)
}

/// A block of statements, a loop body or not.
pub open spec fn block_rule(stmts: Seq<Stmt>, is_loop: bool) -> Seq<ActionV<PyV>> {
    seq![ActionV::OpenBlock { is_loop }, ActionV::Recurse(stmts_v(stmts)), ActionV::Close]
}

/// An `else`/`finally` body: a block when it has statements.
pub open spec fn else_rule(stmts: Seq<Stmt>) -> Seq<ActionV<PyV>> {
    if stmts.len() > 0 {
        block_rule(stmts, false)
    } else {
        Seq::empty()
    }
}

/// A recursion into an optional expression.
pub open spec fn opt_rule(o: Option<Expr>) -> Seq<ActionV<PyV>> {
    match o {
        Some(x) => seq![rec_e(x)],
        None => Seq::empty(),
    }
}

fn block<'a>(acts: &mut Vec<Action<Py<'a>>>, body: &'a Vec<Stmt>, is_loop: bool)
    ensures
        grew(old(acts)@, final(acts)@, block_rule(body@, is_loop)),
{
    let ghost a0 = acts@;
    push_act(acts, Action::OpenBlock { is_loop });
    push_act(acts, recurse_stmts(body));
    push_act(acts, Action::Close);
    assert(py_view(acts@) =~= py_view(a0) + block_rule(body@, is_loop));
}

fn else_block<'a>(acts: &mut Vec<Action<Py<'a>>>, body: &'a Vec<Stmt>)
    ensures
        grew(old(acts)@, final(acts)@, else_rule(body@)),
{
    let ghost a0 = acts@;
    if body.len() > 0 {
        block(acts, body, false);
    } else {
        assert(py_view(acts@) =~= py_view(a0) + Seq::<ActionV<PyV>>::empty());
    }
}

fn opt_rec<'a>(o: &'a Option<Expr>, acts: &mut Vec<Action<Py<'a>>>)
    ensures
        grew(old(acts)@, final(acts)@, opt_rule(*o)),
{
    let ghost a0 = acts@;
    match o {
        Some(x) => push_act(acts, recurse_one(x)),
        None => {},
    }
    assert(py_view(acts@) =~= py_view(a0) + opt_rule(*o));
}

// --- `global` / `nonlocal` ---------------------------------------------------------------------

/// The names a statement declares `global`/`nonlocal`, descending into its blocks but not into
/// nested function or class scopes.
pub open spec fn stmt_globals(s: Stmt) -> Seq<Seq<char>>
    decreases s, 0int,
{
    match s {
        Stmt::Global(ns) => views(ns@),
        Stmt::Nonlocal(ns) => views(ns@),
        Stmt::If { body, clauses, .. } => {
            proof {
                assert(decreases_to!(s => body@));
                assert(decreases_to!(s => clauses@));
            }
            body_globals(body@, body@.len() as int) + clauses_globals(clauses@, clauses@.len() as int)
        },
        Stmt::For { body, orelse, .. } => {
            proof {
                assert(decreases_to!(s => body@));
                assert(decreases_to!(s => orelse@));
            }
            body_globals(body@, body@.len() as int) + body_globals(orelse@, orelse@.len() as int)
        },
        Stmt::While { body, orelse, .. } => {
            proof {
                assert(decreases_to!(s => body@));
                assert(decreases_to!(s => orelse@));
            }
            body_globals(body@, body@.len() as int) + body_globals(orelse@, orelse@.len() as int)
        },
        Stmt::With { body, .. } => {
            proof {
                assert(decreases_to!(s => body@));
            }
            body_globals(body@, body@.len() as int)
        },
        Stmt::Try { body, handlers, orelse, finalbody } => {
            proof {
                assert(decreases_to!(s => body@));
                assert(decreases_to!(s => handlers@));
                assert(decreases_to!(s => orelse@));
                assert(decreases_to!(s => finalbody@));
            }
            body_globals(body@, body@.len() as int) + handlers_globals(handlers@, handlers@.len() as int) + body_globals(
                orelse@,
                orelse@.len() as int,
            ) + body_globals(finalbody@, finalbody@.len() as int)
        },
        _ => Seq::empty(),
    }
}

/// The names the first `n` statements declare `global`/`nonlocal`.
pub open spec fn body_globals(ss: Seq<Stmt>, n: int) -> Seq<Seq<char>>
    decreases ss, n,
{
    if n <= 0 || n > ss.len() {
        Seq::empty()
    } else {
        body_globals(ss, n - 1) + stmt_globals(ss[n - 1])
    }
}

/// The names the first `n` `elif`/`else` bodies declare `global`/`nonlocal`.
pub open spec fn clauses_globals(cs: Seq<Clause>, n: int) -> Seq<Seq<char>>
    decreases cs, n,
{
    if n <= 0 || n > cs.len() {
        Seq::empty()
    } else {
        proof {
            assert(decreases_to!(cs => cs[n - 1]));
            assert(decreases_to!(cs[n - 1] => cs[n - 1].body@));
        }
        clauses_globals(cs, n - 1) + body_globals(cs[n - 1].body@, cs[n - 1].body@.len() as int)
    }
}

/// The names the first `n` `except` bodies declare `global`/`nonlocal`.
pub open spec fn handlers_globals(hs: Seq<Handler>, n: int) -> Seq<Seq<char>>
    decreases hs, n,
{
    if n <= 0 || n > hs.len() {
        Seq::empty()
    } else {
        proof {
            assert(decreases_to!(hs => hs[n - 1]));
            assert(decreases_to!(hs[n - 1] => hs[n - 1].body@));
        }
        handlers_globals(hs, n - 1) + body_globals(hs[n - 1].body@, hs[n - 1].body@.len() as int)
    }
}

/// The `global`/`nonlocal` names of a function or class body.
pub open spec fn globals_of(body: Seq<Stmt>) -> Seq<Seq<char>> {
    body_globals(body, body.len() as int)
}

/// Append each of `names` to `out`.
fn push_names(names: &Vec<String>, out: &mut Vec<String>)
    ensures
        views(final(out)@) == views(old(out)@) + views(names@),
{
    let ghost o0 = views(out@);
    let mut k: usize = 0;
    while k < names.len()
        invariant
            k <= names@.len(),
            views(out@) == o0 + views(names@.take(k as int)),
        decreases names@.len() - k,
    {
        let ghost w = out@;
        out.push(names[k].clone());
        assert(views(out@) =~= views(w).push(names@[k as int]@));
        assert(views(names@.take(k + 1)) =~= views(names@.take(k as int)).push(names@[k as int]@));
        k = k + 1;
    }
    assert(names@.take(names@.len() as int) =~= names@);
}

/// Append the `global`/`nonlocal` names of `body` to `out` (see [`body_globals`]).
fn body_globals_into(body: &Vec<Stmt>, out: &mut Vec<String>)
    ensures
        views(final(out)@) == views(old(out)@) + body_globals(body@, body@.len() as int),
    decreases body@, 1int,
{
    let ghost o0 = views(out@);
    let mut i: usize = 0;
    while i < body.len()
        invariant
            i <= body@.len(),
            views(out@) == o0 + body_globals(body@, i as int),
        decreases body@.len() - i,
    {
        proof {
            assert(decreases_to!(body@ => body@[i as int]));
        }
        stmt_globals_into(&body[i], out);
        assert(body_globals(body@, i + 1) == body_globals(body@, i as int) + stmt_globals(body@[i as int]));
        i = i + 1;
    }
}

/// Append the `global`/`nonlocal` names of `s` to `out` (see [`stmt_globals`]).
fn stmt_globals_into(s: &Stmt, out: &mut Vec<String>)
    ensures
        views(final(out)@) == views(old(out)@) + stmt_globals(*s),
    decreases *s, 0int,
{
    let ghost o0 = views(out@);
    match s {
        Stmt::Global(names) | Stmt::Nonlocal(names) => push_names(names, out),
        Stmt::If { body, clauses, .. } => {
            proof {
                assert(decreases_to!(*s => body@));
            }
            body_globals_into(body, out);
            let ghost o1 = views(out@);
            let mut k: usize = 0;
            while k < clauses.len()
                invariant
                    k <= clauses@.len(),
                    views(out@) == o1 + clauses_globals(clauses@, k as int),
                    decreases_to!(*s => clauses@),
                decreases clauses@.len() - k,
            {
                proof {
                    assert(decreases_to!(clauses@ => clauses@[k as int]));
                    assert(decreases_to!(clauses@[k as int] => clauses@[k as int].body@));
                }
                body_globals_into(&clauses[k].body, out);
                assert(clauses_globals(clauses@, k + 1) == clauses_globals(clauses@, k as int) + body_globals(
                    clauses@[k as int].body@,
                    clauses@[k as int].body@.len() as int,
                ));
                k = k + 1;
            }
        },
        Stmt::For { body, orelse, .. } | Stmt::While { body, orelse, .. } => {
            proof {
                assert(decreases_to!(*s => body@));
                assert(decreases_to!(*s => orelse@));
            }
            body_globals_into(body, out);
            body_globals_into(orelse, out);
        },
        Stmt::With { body, .. } => {
            proof {
                assert(decreases_to!(*s => body@));
            }
            body_globals_into(body, out);
        },
        Stmt::Try { body, handlers, orelse, finalbody } => {
            proof {
                assert(decreases_to!(*s => body@));
                assert(decreases_to!(*s => orelse@));
                assert(decreases_to!(*s => finalbody@));
            }
            body_globals_into(body, out);
            let ghost o1 = views(out@);
            let mut k: usize = 0;
            while k < handlers.len()
                invariant
                    k <= handlers@.len(),
                    views(out@) == o1 + handlers_globals(handlers@, k as int),
                    decreases_to!(*s => handlers@),
                decreases handlers@.len() - k,
            {
                proof {
                    assert(decreases_to!(handlers@ => handlers@[k as int]));
                    assert(decreases_to!(handlers@[k as int] => handlers@[k as int].body@));
                }
                body_globals_into(&handlers[k].body, out);
                assert(handlers_globals(handlers@, k + 1) == handlers_globals(handlers@, k as int) + body_globals(
                    handlers@[k as int].body@,
                    handlers@[k as int].body@.len() as int,
                ));
                k = k + 1;
            }
            body_globals_into(orelse, out);
            body_globals_into(finalbody, out);
        },
        _ => {
            assert(views(out@) =~= o0 + Seq::<Seq<char>>::empty());
        },
    }
    assert(views(out@) =~= o0 + stmt_globals(*s));
}

/// The `global`/`nonlocal` names of a function or class body (see [`globals_of`]).
fn scope_globals(body: &Vec<Stmt>) -> (r: Vec<String>)
    ensures
        names_view(r@) == globals_of(body@),
{
    let mut out: Vec<String> = Vec::new();
    assert(views(out@) =~= Seq::<Seq<char>>::empty());
    body_globals_into(body, &mut out);
    assert(names_view(out@) =~= views(out@));
    assert(Seq::<Seq<char>>::empty() + body_globals(body@, body@.len() as int) =~= globals_of(body@));
    out
}

/// The bare names an expression reads (`Load` context), in order — a binding's right-hand-side
/// dependencies (shallow: lambda and comprehension scopes are not entered).
pub open spec fn py_loads(e: Expr) -> Seq<Seq<char>>
    decreases e, 0int,
{
    match e {
        Expr::Name { id, ctx, .. } => if ctx == Ctx::Load {
            seq![id@]
        } else {
            Seq::empty()
        },
        Expr::Named { value, .. } => py_loads(*value),
        Expr::BoolOp(vs) => {
            proof {
                assert(decreases_to!(e => vs@));
            }
            py_loads_list(vs@, vs@.len() as int)
        },
        Expr::ListLit(vs) => {
            proof {
                assert(decreases_to!(e => vs@));
            }
            py_loads_list(vs@, vs@.len() as int)
        },
        Expr::TupleLit(vs) => {
            proof {
                assert(decreases_to!(e => vs@));
            }
            py_loads_list(vs@, vs@.len() as int)
        },
        Expr::SetLit(vs) => {
            proof {
                assert(decreases_to!(e => vs@));
            }
            py_loads_list(vs@, vs@.len() as int)
        },
        Expr::BinOp(l, r) => py_loads(*l) + py_loads(*r),
        Expr::Subscript(l, r) => py_loads(*l) + py_loads(*r),
        Expr::UnaryOp(x) => py_loads(*x),
        Expr::Starred(x) => py_loads(*x),
        Expr::Await(x) => py_loads(*x),
        Expr::Attribute { value, .. } => py_loads(*value),
        Expr::Compare(l, cs) => {
            proof {
                assert(decreases_to!(e => cs@));
            }
            py_loads(*l) + py_loads_list(cs@, cs@.len() as int)
        },
        Expr::IfExp(t, b, o) => py_loads(*t) + py_loads(*b) + py_loads(*o),
        Expr::Call { func, args, keywords } => {
            proof {
                assert(decreases_to!(e => args@));
                assert(decreases_to!(e => keywords@));
            }
            py_loads(*func) + py_loads_list(args@, args@.len() as int) + py_loads_list(keywords@, keywords@.len() as int)
        },
        Expr::Dict(items) => {
            proof {
                assert(decreases_to!(e => items@));
            }
            py_item_loads(items@, items@.len() as int)
        },
        _ => Seq::empty(),
    }
}

/// The loads of the first `n` expressions of `es`, in order.
pub open spec fn py_loads_list(es: Seq<Expr>, n: int) -> Seq<Seq<char>>
    decreases es, n,
{
    if n <= 0 || n > es.len() {
        Seq::empty()
    } else {
        py_loads_list(es, n - 1) + py_loads(es[n - 1])
    }
}

/// The loads of the first `n` items of a dict literal: each key's (when it has one), then its
/// value's.
pub open spec fn py_item_loads(items: Seq<(Option<Expr>, Expr)>, n: int) -> Seq<Seq<char>>
    decreases items, n,
{
    if n <= 0 || n > items.len() {
        Seq::empty()
    } else {
        py_item_loads(items, n - 1) + match items[n - 1].0 {
            Some(k) => py_loads(k),
            None => Seq::empty(),
        } + py_loads(items[n - 1].1)
    }
}

/// Append the loads of each of `es` to `out`.
fn collect_loads_list(es: &Vec<Expr>, out: &mut Vec<String>)
    ensures
        views(final(out)@) == views(old(out)@) + py_loads_list(es@, es@.len() as int),
    decreases es@, 1int,
{
    let ghost o0 = views(out@);
    let mut k: usize = 0;
    while k < es.len()
        invariant
            k <= es@.len(),
            views(out@) == o0 + py_loads_list(es@, k as int),
        decreases es@.len() - k,
    {
        proof {
            assert(decreases_to!(es@ => es@[k as int]));
        }
        collect_loads(&es[k], out);
        assert(py_loads_list(es@, k + 1) == py_loads_list(es@, k as int) + py_loads(es@[k as int]));
        k = k + 1;
    }
}

/// Append the loads of a dict literal's items to `out`.
fn collect_item_loads(items: &Vec<(Option<Expr>, Expr)>, out: &mut Vec<String>)
    ensures
        views(final(out)@) == views(old(out)@) + py_item_loads(items@, items@.len() as int),
    decreases items@, 1int,
{
    let ghost o0 = views(out@);
    let mut k: usize = 0;
    while k < items.len()
        invariant
            k <= items@.len(),
            views(out@) == o0 + py_item_loads(items@, k as int),
        decreases items@.len() - k,
    {
        proof {
            assert(decreases_to!(items@ => items@[k as int]));
        }
        let ghost before = views(out@);
        match &items[k].0 {
            Some(key) => collect_loads(key, out),
            None => {
                assert(views(out@) =~= before + Seq::<Seq<char>>::empty());
            },
        }
        collect_loads(&items[k].1, out);
        assert(py_item_loads(items@, k + 1) == py_item_loads(items@, k as int) + match items@[k as int].0 {
            Some(kx) => py_loads(kx),
            None => Seq::<Seq<char>>::empty(),
        } + py_loads(items@[k as int].1));
        k = k + 1;
    }
}

/// Append the bare names `e` reads to `out` (see [`py_loads`]).
fn collect_loads(e: &Expr, out: &mut Vec<String>)
    ensures
        views(final(out)@) == views(old(out)@) + py_loads(*e),
    decreases *e, 0int,
{
    let ghost o0 = views(out@);
    match e {
        Expr::Name { id, ctx, .. } => {
            if *ctx == Ctx::Load {
                out.push(id.clone());
                assert(views(out@) =~= o0 + seq![id@]);
            } else {
                assert(views(out@) =~= o0 + Seq::<Seq<char>>::empty());
            }
        },
        Expr::Named { value, .. } => collect_loads(value, out),
        Expr::BoolOp(vs) | Expr::ListLit(vs) | Expr::TupleLit(vs) | Expr::SetLit(vs) => {
            proof {
                assert(decreases_to!(*e => vs@));
            }
            collect_loads_list(vs, out);
        },
        Expr::BinOp(l, r) | Expr::Subscript(l, r) => {
            collect_loads(l, out);
            collect_loads(r, out);
        },
        Expr::UnaryOp(x) | Expr::Starred(x) | Expr::Await(x) => collect_loads(x, out),
        Expr::Attribute { value, .. } => collect_loads(value, out),
        Expr::Compare(l, cs) => {
            collect_loads(l, out);
            proof {
                assert(decreases_to!(*e => cs@));
            }
            collect_loads_list(cs, out);
        },
        Expr::IfExp(t, b, o) => {
            collect_loads(t, out);
            collect_loads(b, out);
            collect_loads(o, out);
        },
        Expr::Call { func, args, keywords } => {
            collect_loads(func, out);
            proof {
                assert(decreases_to!(*e => args@));
                assert(decreases_to!(*e => keywords@));
            }
            collect_loads_list(args, out);
            collect_loads_list(keywords, out);
        },
        Expr::Dict(items) => {
            proof {
                assert(decreases_to!(*e => items@));
            }
            collect_item_loads(items, out);
        },
        _ => {
            assert(views(out@) =~= o0 + Seq::<Seq<char>>::empty());
        },
    }
    assert(views(out@) =~= o0 + py_loads(*e));
}

/// The loads of `e`, as a new list (see [`py_loads`]).
fn loads_of(e: &Expr) -> (r: Vec<String>)
    ensures
        views(r@) == py_loads(*e),
{
    let mut out: Vec<String> = Vec::new();
    assert(views(out@) =~= Seq::<Seq<char>>::empty());
    collect_loads(e, &mut out);
    assert(Seq::<Seq<char>>::empty() + py_loads(*e) =~= py_loads(*e));
    out
}


// --- targets, parameters, patterns -------------------------------------------------------------

/// What a binding target (a store position) lowers to: a name binds (an introducer when `intro`);
/// tuples, lists and starred targets bind their parts; a subscript's and an attribute's bases are
/// read.
pub open spec fn target_rule(e: Expr, intro: bool) -> Seq<ActionV<PyV>>
    decreases e, 0int,
{
    match e {
        Expr::Name { id, line, .. } => seq![bind_v(id@, BindKind::Value, line, intro, Seq::empty())],
        Expr::TupleLit(elts) => {
            proof {
                assert(decreases_to!(e => elts@));
            }
            targets_rule(elts@, elts@.len() as int, intro)
        },
        Expr::ListLit(elts) => {
            proof {
                assert(decreases_to!(e => elts@));
            }
            targets_rule(elts@, elts@.len() as int, intro)
        },
        Expr::Starred(x) => target_rule(*x, intro),
        Expr::Subscript(v, s) => seq![ActionV::Recurse(seq![PyV::Expr(*v), PyV::Expr(*s)])],
        Expr::Attribute { value, .. } => seq![rec_e(*value)],
        _ => Seq::empty(),
    }
}

/// The first `n` targets of a tuple or list target.
pub open spec fn targets_rule(es: Seq<Expr>, n: int, intro: bool) -> Seq<ActionV<PyV>>
    decreases es, n,
{
    if n <= 0 || n > es.len() {
        Seq::empty()
    } else {
        targets_rule(es, n - 1, intro) + target_rule(es[n - 1], intro)
    }
}

fn targets_into<'a>(es: &'a Vec<Expr>, intro: bool, acts: &mut Vec<Action<Py<'a>>>)
    ensures
        grew(old(acts)@, final(acts)@, targets_rule(es@, es@.len() as int, intro)),
    decreases es@, 1int,
{
    let ghost a0 = acts@;
    let mut k: usize = 0;
    while k < es.len()
        invariant
            k <= es@.len(),
            py_view(acts@) == py_view(a0) + targets_rule(es@, k as int, intro),
            run_from(acts@, 0) == run_from(a0, 0),
        decreases es@.len() - k,
    {
        proof {
            assert(decreases_to!(es@ => es@[k as int]));
        }
        target_actions(&es[k], intro, acts);
        assert(py_view(acts@) =~= py_view(a0) + targets_rule(es@, k + 1, intro));
        k = k + 1;
    }
}

fn target_actions<'a>(e: &'a Expr, intro: bool, acts: &mut Vec<Action<Py<'a>>>)
    ensures
        grew(old(acts)@, final(acts)@, target_rule(*e, intro)),
    decreases *e, 0int,
{
    let ghost a0 = acts@;
    match e {
        Expr::Name { id, line, .. } => {
            assert(names_view(Seq::<String>::empty()) =~= Seq::<Seq<char>>::empty());
            push_act(
                acts,
                Action::Bind { name: id.clone(), kind: BindKind::Value, line: *line, intro, deps: Vec::new(), is_class_def: false },
            );
        },
        Expr::TupleLit(elts) | Expr::ListLit(elts) => {
            proof {
                assert(decreases_to!(*e => elts@));
            }
            targets_into(elts, intro, acts);
        },
        Expr::Starred(x) => target_actions(x, intro, acts),
        Expr::Subscript(v, s) => {
            let mut r: Vec<Py<'a>> = Vec::new();
            r.push(Py::Expr(v));
            r.push(Py::Expr(s));
            assert(r@.map_values(py_node()) =~= seq![PyV::Expr(**v), PyV::Expr(**s)]);
            push_act(acts, Action::Recurse(r));
        },
        Expr::Attribute { value, .. } => push_act(acts, recurse_one(value)),
        _ => {},
    }
    assert(py_view(acts@) =~= py_view(a0) + target_rule(*e, intro));
}

/// A parameter that may be absent (`*args`, `**kwargs`).
pub open spec fn opt_param(o: Option<Ident>) -> Seq<(Seq<char>, u32)> {
    match o {
        Some(v) => seq![(v.name@, v.line)],
        None => Seq::empty(),
    }
}

/// The parameters a signature binds, with their lines: the positional-only, positional and
/// keyword-only ones in order, then `*args` and `**kwargs`.
pub open spec fn param_names(p: Params) -> Seq<(Seq<char>, u32)> {
    p.plain@.map_values(|q: Param| (q.name.name@, q.name.line)) + opt_param(p.vararg) + opt_param(p.kwarg)
}

fn params_of(p: &Params) -> (r: Vec<(String, u32)>)
    ensures
        params_view(r@) == param_names(*p),
{
    let mut out: Vec<(String, u32)> = Vec::new();
    let mut k: usize = 0;
    while k < p.plain.len()
        invariant
            k <= p.plain@.len(),
            params_view(out@) == p.plain@.take(k as int).map_values(|q: Param| (q.name.name@, q.name.line)),
        decreases p.plain@.len() - k,
    {
        let ghost w = out@;
        out.push((p.plain[k].name.name.clone(), p.plain[k].name.line));
        assert(params_view(out@) =~= params_view(w).push((p.plain@[k as int].name.name@, p.plain@[k as int].name.line)));
        assert(p.plain@.take(k + 1).map_values(|q: Param| (q.name.name@, q.name.line)) =~= p.plain@.take(k as int).map_values(
            |q: Param| (q.name.name@, q.name.line),
        ).push((p.plain@[k as int].name.name@, p.plain@[k as int].name.line)));
        k = k + 1;
    }
    assert(p.plain@.take(p.plain@.len() as int) =~= p.plain@);
    let ghost o1 = out@;
    match &p.vararg {
        Some(v) => out.push((v.name.clone(), v.line)),
        None => {},
    }
    assert(params_view(out@) =~= params_view(o1) + opt_param(p.vararg));
    let ghost o2 = out@;
    match &p.kwarg {
        Some(v) => out.push((v.name.clone(), v.line)),
        None => {},
    }
    assert(params_view(out@) =~= params_view(o2) + opt_param(p.kwarg));
    assert(params_view(out@) =~= param_names(*p));
    out
}

/// The default values among the first `n` parameters (evaluated at definition time, in the
/// enclosing scope).
pub open spec fn defaults_v(ps: Seq<Param>, n: int) -> Seq<PyV>
    decreases n,
{
    if n <= 0 || n > ps.len() {
        Seq::empty()
    } else {
        defaults_v(ps, n - 1) + match ps[n - 1].default {
            Some(d) => seq![PyV::Expr(d)],
            None => Seq::empty(),
        }
    }
}

fn param_defaults<'a>(p: &'a Params) -> (a: Action<Py<'a>>)
    ensures
        action_view(a, py_node()) == ActionV::<PyV>::Recurse(defaults_v(p.plain@, p.plain@.len() as int)),
        frame_delta(a) == 0,
{
    let mut v: Vec<Py<'a>> = Vec::new();
    let mut k: usize = 0;
    while k < p.plain.len()
        invariant
            k <= p.plain@.len(),
            v@.map_values(py_node()) == defaults_v(p.plain@, k as int),
        decreases p.plain@.len() - k,
    {
        let ghost w = v@;
        match &p.plain[k].default {
            Some(d) => v.push(Py::Expr(d)),
            None => {},
        }
        assert(v@.map_values(py_node()) =~= w.map_values(py_node()) + match p.plain@[k as int].default {
            Some(d) => seq![PyV::Expr(d)],
            None => Seq::<PyV>::empty(),
        });
        k = k + 1;
    }
    Action::Recurse(v)
}

/// A capture that may be absent.
pub open spec fn opt_capture(o: Option<Ident>) -> Seq<ActionV<PyV>> {
    match o {
        Some(id) => seq![capture_v(id)],
        None => Seq::empty(),
    }
}

/// What a `case` pattern contributes: the names it binds (captures and `*`/`**` rests, as
/// introducers, in the case block) and the references it reads (values, the matched class,
/// mapping keys, in the enclosing scope).
pub open spec fn pattern_rule(p: Pattern) -> Seq<ActionV<PyV>>
    decreases p, 0int,
{
    match p {
        Pattern::Value(v) => seq![rec_e(v)],
        Pattern::Singleton => Seq::empty(),
        Pattern::Sequence(ps) => {
            proof {
                assert(decreases_to!(p => ps@));
            }
            patterns_rule(ps@, ps@.len() as int)
        },
        Pattern::Or(ps) => {
            proof {
                assert(decreases_to!(p => ps@));
            }
            patterns_rule(ps@, ps@.len() as int)
        },
        Pattern::Mapping { keys, patterns, rest } => {
            proof {
                assert(decreases_to!(p => patterns@));
            }
            seq![ActionV::Recurse(exprs_v(keys@))] + patterns_rule(patterns@, patterns@.len() as int) + opt_capture(rest)
        },
        Pattern::Class { cls, patterns } => {
            proof {
                assert(decreases_to!(p => patterns@));
            }
            seq![rec_e(cls)] + patterns_rule(patterns@, patterns@.len() as int)
        },
        Pattern::Star(name) => opt_capture(name),
        Pattern::As { pattern, name } => (match pattern {
            Some(q) => pattern_rule(*q),
            None => Seq::empty(),
        }) + opt_capture(name),
    }
}

/// The first `n` sub-patterns.
pub open spec fn patterns_rule(ps: Seq<Pattern>, n: int) -> Seq<ActionV<PyV>>
    decreases ps, n,
{
    if n <= 0 || n > ps.len() {
        Seq::empty()
    } else {
        patterns_rule(ps, n - 1) + pattern_rule(ps[n - 1])
    }
}

fn capture_opt<'a>(o: &Option<Ident>, acts: &mut Vec<Action<Py<'a>>>)
    ensures
        grew(old(acts)@, final(acts)@, opt_capture(*o)),
{
    let ghost a0 = acts@;
    match o {
        Some(id) => {
            assert(names_view(Seq::<String>::empty()) =~= Seq::<Seq<char>>::empty());
            push_act(
                acts,
                Action::Bind { name: id.name.clone(), kind: BindKind::Value, line: id.line, intro: true, deps: Vec::new(), is_class_def: false },
            );
        },
        None => {},
    }
    assert(py_view(acts@) =~= py_view(a0) + opt_capture(*o));
}

fn patterns_into<'a>(ps: &'a Vec<Pattern>, acts: &mut Vec<Action<Py<'a>>>)
    ensures
        grew(old(acts)@, final(acts)@, patterns_rule(ps@, ps@.len() as int)),
    decreases ps@, 1int,
{
    let ghost a0 = acts@;
    let mut k: usize = 0;
    while k < ps.len()
        invariant
            k <= ps@.len(),
            py_view(acts@) == py_view(a0) + patterns_rule(ps@, k as int),
            run_from(acts@, 0) == run_from(a0, 0),
        decreases ps@.len() - k,
    {
        proof {
            assert(decreases_to!(ps@ => ps@[k as int]));
        }
        pattern_actions(&ps[k], acts);
        assert(py_view(acts@) =~= py_view(a0) + patterns_rule(ps@, k + 1));
        k = k + 1;
    }
}

fn pattern_actions<'a>(pat: &'a Pattern, acts: &mut Vec<Action<Py<'a>>>)
    ensures
        grew(old(acts)@, final(acts)@, pattern_rule(*pat)),
    decreases *pat, 0int,
{
    let ghost a0 = acts@;
    match pat {
        Pattern::Value(v) => push_act(acts, recurse_one(v)),
        Pattern::Singleton => {},
        Pattern::Sequence(ps) | Pattern::Or(ps) => {
            proof {
                assert(decreases_to!(*pat => ps@));
            }
            patterns_into(ps, acts);
        },
        Pattern::Mapping { keys, patterns, rest } => {
            proof {
                assert(decreases_to!(*pat => patterns@));
            }
            push_act(acts, recurse_exprs(keys));
            patterns_into(patterns, acts);
            capture_opt(rest, acts);
        },
        Pattern::Class { cls, patterns } => {
            proof {
                assert(decreases_to!(*pat => patterns@));
            }
            push_act(acts, recurse_one(cls));
            patterns_into(patterns, acts);
        },
        Pattern::Star(name) => capture_opt(name, acts),
        Pattern::As { pattern, name } => {
            let ghost a1 = acts@;
            match pattern {
                Some(q) => pattern_actions(q, acts),
                None => {},
            }
            assert(py_view(acts@) =~= py_view(a1) + match *pattern {
                Some(q) => pattern_rule(*q),
                None => Seq::<ActionV<PyV>>::empty(),
            });
            capture_opt(name, acts);
        },
    }
    assert(py_view(acts@) =~= py_view(a0) + pattern_rule(*pat));
}

/// A value's right-hand side, attributed to `leaf` when given (the driver routes the
/// attribution to a module or class data definition, or back to the enclosing function).
pub open spec fn rhs_rule(leaf: Option<Seq<char>>, value: Expr) -> Seq<ActionV<PyV>> {
    match leaf {
        Some(n) => seq![ActionV::OpenAttrib { leaf: n, fallback_to_scope: true }, rec_e(value), ActionV::CloseAttrib],
        None => seq![rec_e(value)],
    }
}

fn rhs_attributed<'a>(leaf: Option<&String>, value: &'a Expr, acts: &mut Vec<Action<Py<'a>>>)
    ensures
        grew(
            old(acts)@,
            final(acts)@,
            rhs_rule(
                match leaf {
                    Some(n) => Some(n@),
                    None => None,
                },
                *value,
            ),
        ),
{
    let ghost a0 = acts@;
    let ghost lv = match leaf {
        Some(n) => Some(n@),
        None => None::<Seq<char>>,
    };
    match leaf {
        Some(name) => {
            push_act(acts, Action::OpenAttrib { leaf: name.clone(), fallback_to_scope: true });
            push_act(acts, recurse_one(value));
            push_act(acts, Action::CloseAttrib);
        },
        None => push_act(acts, recurse_one(value)),
    }
    assert(py_view(acts@) =~= py_view(a0) + rhs_rule(lv, *value));
}

// --- imports ------------------------------------------------------------------------------------

/// The part of a dotted name before its first `.` (`import a.b` binds `a`).
pub open spec fn top_of(s: Seq<char>) -> Seq<char> {
    match first_index(s, '.') {
        Some(i) => s.subrange(0, i),
        None => s,
    }
}

fn top_name(s: &String) -> (r: String)
    ensures
        r@ == top_of(s@),
{
    let v = chars_of(s.as_str());
    assert(v@.subrange(0, v@.len() as int) =~= v@);
    match find_char(&v, 0, v.len(), '.') {
        Some(i) => string_of(&v, 0, i),
        None => s.clone(),
    }
}

/// The name an imported alias binds: its `as` name, else its own.
pub open spec fn bound_of(a: Alias) -> Seq<char> {
    match a.asname {
        Some(s) => s@,
        None => a.name@,
    }
}

/// An import binding.
pub open spec fn import_v(name: Seq<char>, line: u32) -> ActionV<PyV> {
    bind_v(name, BindKind::Import, line, false, Seq::empty())
}

/// `import a.b as c, d.e`: each alias binds its `as` name, or the top package of its dotted name.
pub open spec fn import_rule(line: u32, names: Seq<Alias>) -> Seq<ActionV<PyV>> {
    names.map_values(|a: Alias| import_v(top_of(bound_of(a)), line))
}

/// `from m import a as b, c` over the first `n` aliases: each binds its `as` name or its own; a
/// `*` binds nothing.
pub open spec fn import_from_rule(line: u32, names: Seq<Alias>, n: int) -> Seq<ActionV<PyV>>
    decreases n,
{
    if n <= 0 || n > names.len() {
        Seq::empty()
    } else {
        import_from_rule(line, names, n - 1) + if names[n - 1].name@ == "*"@ {
            Seq::empty()
        } else {
            seq![import_v(bound_of(names[n - 1]), line)]
        }
    }
}

fn import_binds<'a>(line: u32, names: &Vec<Alias>, acts: &mut Vec<Action<Py<'a>>>)
    ensures
        grew(old(acts)@, final(acts)@, import_rule(line, names@)),
{
    let ghost a0 = acts@;
    let mut k: usize = 0;
    while k < names.len()
        invariant
            k <= names@.len(),
            py_view(acts@) == py_view(a0) + import_rule(line, names@.take(k as int)),
            run_from(acts@, 0) == run_from(a0, 0),
        decreases names@.len() - k,
    {
        let a = &names[k];
        let bound = match &a.asname {
            Some(s) => s,
            None => &a.name,
        };
        assert(names_view(Seq::<String>::empty()) =~= Seq::<Seq<char>>::empty());
        push_act(
            acts,
            Action::Bind { name: top_name(bound), kind: BindKind::Import, line, intro: false, deps: Vec::new(), is_class_def: false },
        );
        assert(import_rule(line, names@.take(k + 1)) =~= import_rule(line, names@.take(k as int)).push(
            import_v(top_of(bound_of(names@[k as int])), line),
        ));
        k = k + 1;
    }
    assert(names@.take(names@.len() as int) =~= names@);
}

fn import_from_binds<'a>(line: u32, names: &Vec<Alias>, acts: &mut Vec<Action<Py<'a>>>)
    ensures
        grew(old(acts)@, final(acts)@, import_from_rule(line, names@, names@.len() as int)),
{
    let ghost a0 = acts@;
    let mut k: usize = 0;
    while k < names.len()
        invariant
            k <= names@.len(),
            py_view(acts@) == py_view(a0) + import_from_rule(line, names@, k as int),
            run_from(acts@, 0) == run_from(a0, 0),
        decreases names@.len() - k,
    {
        let a = &names[k];
        let nv = chars_of(a.name.as_str());
        assert(nv@.subrange(0, nv@.len() as int) =~= nv@);
        let ghost a1 = acts@;
        if !range_is(&nv, 0, nv.len(), "*") {
            let bound = match &a.asname {
                Some(s) => s,
                None => &a.name,
            };
            assert(names_view(Seq::<String>::empty()) =~= Seq::<Seq<char>>::empty());
            push_act(
                acts,
                Action::Bind { name: bound.clone(), kind: BindKind::Import, line, intro: false, deps: Vec::new(), is_class_def: false },
            );
        }
        assert(py_view(acts@) =~= py_view(a0) + import_from_rule(line, names@, k + 1));
        k = k + 1;
    }
}


// --- statements ----------------------------------------------------------------------------------

/// A `def`: a declaration; its header (decorators, default values), read in the enclosing scope
/// but counted for the function; then its own scope binding its parameters, with its
/// `global`/`nonlocal` names.
pub open spec fn function_def_rule(name: Seq<char>, line: u32, decorators: Seq<Expr>, params: Params, body: Seq<Stmt>) -> Seq<
    ActionV<PyV>,
> {
    seq![
        bind_v(name, BindKind::Decl, line, false, Seq::empty()),
        ActionV::OpenAttrib { leaf: name, fallback_to_scope: false },
        ActionV::Recurse(exprs_v(decorators)),
        ActionV::Recurse(defaults_v(params.plain@, params.plain@.len() as int)),
        ActionV::CloseAttrib,
        ActionV::OpenScope {
            leaf: name,
            params: param_names(params),
            is_class: false,
            is_namespace: false,
            nonlocals: globals_of(body),
        },
        ActionV::Recurse(stmts_v(body)),
        ActionV::Close,
    ]
}

/// The base classes of a class header, when it has one.
pub open spec fn bases_rule(bases: Option<(Vec<Expr>, Vec<Expr>)>) -> Seq<ActionV<PyV>> {
    match bases {
        Some(b) => seq![ActionV::Recurse(exprs_v(b.0@)), ActionV::Recurse(exprs_v(b.1@))],
        None => Seq::empty(),
    }
}

/// A `class`: a class declaration; its header (decorators, bases), counted for the class; then
/// its own class scope.
pub open spec fn class_def_rule(
    name: Seq<char>,
    line: u32,
    decorators: Seq<Expr>,
    bases: Option<(Vec<Expr>, Vec<Expr>)>,
    body: Seq<Stmt>,
) -> Seq<ActionV<PyV>> {
    seq![
        ActionV::Bind { name, kind: BindKind::Decl, line, intro: false, deps: Seq::empty(), is_class_def: true },
        ActionV::OpenAttrib { leaf: name, fallback_to_scope: false },
        ActionV::Recurse(exprs_v(decorators)),
    ] + bases_rule(bases) + seq![
        ActionV::CloseAttrib,
        ActionV::OpenScope { leaf: name, params: Seq::empty(), is_class: true, is_namespace: false, nonlocals: globals_of(body) },
        ActionV::Recurse(stmts_v(body)),
        ActionV::Close,
    ]
}

/// The bindings of an assignment's first `n` targets: a bare name binds a value depending on
/// `deps`; any other target lowers as a target.
pub open spec fn assign_targets_rule(ts: Seq<Expr>, n: int, deps: Seq<Seq<char>>) -> Seq<ActionV<PyV>>
    decreases n,
{
    if n <= 0 || n > ts.len() {
        Seq::empty()
    } else {
        assign_targets_rule(ts, n - 1, deps) + match ts[n - 1] {
            Expr::Name { id, line, .. } => seq![bind_v(id@, BindKind::Value, line, false, deps)],
            t => target_rule(t, false),
        }
    }
}

/// The name of a bare-name expression.
pub open spec fn name_of(e: Expr) -> Option<Seq<char>> {
    match e {
        Expr::Name { id, .. } => Some(id@),
        _ => None,
    }
}

/// The one target of an assignment when it is a bare name (`a = b = …` and unpacking have none).
pub open spec fn single_target(ts: Seq<Expr>) -> Option<Seq<char>> {
    if ts.len() == 1 {
        name_of(ts[0])
    } else {
        None
    }
}

/// `t1 = t2 = value`: the targets bind, then the value is read, counting for the single target.
pub open spec fn assign_rule(targets: Seq<Expr>, value: Expr) -> Seq<ActionV<PyV>> {
    assign_targets_rule(targets, targets.len() as int, py_loads(value)) + rhs_rule(single_target(targets), value)
}

/// `target: T = value`: a bare annotation (no value) binds nothing — at class scope it declares
/// an instance field, not a class datum.
pub open spec fn ann_assign_rule(target: Expr, value: Option<Expr>) -> Seq<ActionV<PyV>> {
    let binds: Seq<ActionV<PyV>> = match target {
        Expr::Name { id, line, .. } => match value {
            Some(v) => seq![bind_v(id@, BindKind::Value, line, false, py_loads(v))],
            None => Seq::empty(),
        },
        t => target_rule(t, false),
    };
    binds + match value {
        Some(v) => rhs_rule(name_of(target), v),
        None => Seq::empty(),
    }
}

/// `target op= value`: a bare name is read (not bound again); any other target is read whole.
pub open spec fn aug_assign_rule(target: Expr, value: Expr) -> Seq<ActionV<PyV>> {
    let t: Seq<ActionV<PyV>> = match target {
        Expr::Name { id, line, .. } => seq![ActionV::Use { name: id@, line, member: false }],
        other => seq![rec_e(other)],
    };
    t + seq![rec_e(value)]
}

/// An `elif`/`else` clause: its test, then its body's block.
pub open spec fn clause_rule(c: Clause) -> Seq<ActionV<PyV>> {
    opt_rule(c.test) + block_rule(c.body@, false)
}

/// The first `n` `elif`/`else` clauses.
pub open spec fn clauses_rule(cs: Seq<Clause>, n: int) -> Seq<ActionV<PyV>>
    decreases n,
{
    if n <= 0 || n > cs.len() {
        Seq::empty()
    } else {
        clauses_rule(cs, n - 1) + clause_rule(cs[n - 1])
    }
}

/// A `with` item: its context expression, then its `as` target as introducers.
pub open spec fn item_rule(it: WithItem) -> Seq<ActionV<PyV>> {
    seq![rec_e(it.context)] + match it.vars {
        Some(v) => target_rule(v, true),
        None => Seq::empty(),
    }
}

/// The first `n` `with` items.
pub open spec fn items_rule(its: Seq<WithItem>, n: int) -> Seq<ActionV<PyV>>
    decreases n,
{
    if n <= 0 || n > its.len() {
        Seq::empty()
    } else {
        items_rule(its, n - 1) + item_rule(its[n - 1])
    }
}

/// An `except` handler: a block in which its `as` name binds as an introducer before its body.
pub open spec fn handler_rule(h: Handler) -> Seq<ActionV<PyV>> {
    seq![ActionV::OpenBlock { is_loop: false }] + opt_capture(h.name) + seq![ActionV::Recurse(stmts_v(h.body@)), ActionV::Close]
}

/// The first `n` `except` handlers.
pub open spec fn handlers_rule(hs: Seq<Handler>, n: int) -> Seq<ActionV<PyV>>
    decreases n,
{
    if n <= 0 || n > hs.len() {
        Seq::empty()
    } else {
        handlers_rule(hs, n - 1) + handler_rule(hs[n - 1])
    }
}

/// A `case`: a block with its pattern, guard and body.
pub open spec fn case_rule(c: Case) -> Seq<ActionV<PyV>> {
    seq![ActionV::OpenBlock { is_loop: false }] + pattern_rule(c.pattern) + opt_rule(c.guard) + seq![
        ActionV::Recurse(stmts_v(c.body@)),
        ActionV::Close,
    ]
}

/// The first `n` cases of a `match`.
pub open spec fn cases_rule(cs: Seq<Case>, n: int) -> Seq<ActionV<PyV>>
    decreases n,
{
    if n <= 0 || n > cs.len() {
        Seq::empty()
    } else {
        cases_rule(cs, n - 1) + case_rule(cs[n - 1])
    }
}

/// `for target in iter: body else: orelse` — the iterable is read outside; the target binds, as
/// introducers, inside the loop block (so it never wedges what sits right before the loop).
pub open spec fn for_rule(target: Expr, iter: Expr, body: Seq<Stmt>, orelse: Seq<Stmt>) -> Seq<ActionV<PyV>> {
    seq![rec_e(iter), ActionV::OpenBlock { is_loop: true }] + target_rule(target, true) + seq![
        ActionV::Recurse(stmts_v(body)),
        ActionV::Close,
    ] + else_rule(orelse)
}

/// What a statement lowers to. `global`, `nonlocal` (gathered by the enclosing scope), `pass`,
/// `break` and `continue` lower to nothing.
pub open spec fn py_stmt_rule(s: Stmt) -> Seq<ActionV<PyV>> {
    match s {
        Stmt::FunctionDef { name, line, decorators, params, body } => function_def_rule(name@, line, decorators@, params, body@),
        Stmt::ClassDef { name, line, decorators, bases, body } => class_def_rule(name@, line, decorators@, bases, body@),
        Stmt::Import { line, names } => import_rule(line, names@),
        Stmt::ImportFrom { line, names } => import_from_rule(line, names@, names@.len() as int),
        Stmt::Assign { targets, value } => assign_rule(targets@, value),
        Stmt::AnnAssign { target, value } => ann_assign_rule(target, value),
        Stmt::AugAssign { target, value } => aug_assign_rule(target, value),
        Stmt::Return(v) => opt_rule(v),
        Stmt::Expr(e) => seq![rec_e(e)],
        Stmt::Delete(ts) => seq![ActionV::Recurse(exprs_v(ts@))],
        Stmt::Assert(t) => seq![rec_e(t)],
        Stmt::Raise(exc, cause) => opt_rule(exc) + opt_rule(cause),
        Stmt::If { test, body, clauses } => seq![rec_e(test)] + block_rule(body@, false) + clauses_rule(
            clauses@,
            clauses@.len() as int,
        ),
        Stmt::For { target, iter, body, orelse } => for_rule(target, iter, body@, orelse@),
        Stmt::While { test, body, orelse } => seq![rec_e(test)] + block_rule(body@, true) + else_rule(orelse@),
        Stmt::With { items, body } => items_rule(items@, items@.len() as int) + block_rule(body@, false),
        Stmt::Try { body, handlers, orelse, finalbody } => block_rule(body@, false) + handlers_rule(handlers@, handlers@.len() as int)
            + else_rule(orelse@) + else_rule(finalbody@),
        Stmt::Match { subject, cases } => seq![rec_e(subject)] + cases_rule(cases@, cases@.len() as int),
        _ => Seq::empty(),
    }
}

fn function_def<'a>(
    name: &String,
    line: u32,
    decorators: &'a Vec<Expr>,
    params: &'a Params,
    body: &'a Vec<Stmt>,
    acts: &mut Vec<Action<Py<'a>>>,
)
    ensures
        grew(old(acts)@, final(acts)@, function_def_rule(name@, line, decorators@, *params, body@)),
{
    let ghost a0 = acts@;
    assert(names_view(Seq::<String>::empty()) =~= Seq::<Seq<char>>::empty());
    push_act(acts, Action::Bind { name: name.clone(), kind: BindKind::Decl, line, intro: false, deps: Vec::new(), is_class_def: false });
    push_act(acts, Action::OpenAttrib { leaf: name.clone(), fallback_to_scope: false });
    push_act(acts, recurse_exprs(decorators));
    push_act(acts, param_defaults(params));
    push_act(acts, Action::CloseAttrib);
    push_act(
        acts,
        Action::OpenScope {
            leaf: name.clone(),
            params: params_of(params),
            is_class: false,
            is_namespace: false,
            nonlocals: scope_globals(body),
        },
    );
    push_act(acts, recurse_stmts(body));
    push_act(acts, Action::Close);
    assert(py_view(acts@) =~= py_view(a0) + function_def_rule(name@, line, decorators@, *params, body@));
}

fn class_def<'a>(
    name: &String,
    line: u32,
    decorators: &'a Vec<Expr>,
    bases: &'a Option<(Vec<Expr>, Vec<Expr>)>,
    body: &'a Vec<Stmt>,
    acts: &mut Vec<Action<Py<'a>>>,
)
    ensures
        grew(old(acts)@, final(acts)@, class_def_rule(name@, line, decorators@, *bases, body@)),
{
    let ghost a0 = acts@;
    assert(names_view(Seq::<String>::empty()) =~= Seq::<Seq<char>>::empty());
    assert(params_view(Seq::<(String, u32)>::empty()) =~= Seq::<(Seq<char>, u32)>::empty());
    push_act(acts, Action::Bind { name: name.clone(), kind: BindKind::Decl, line, intro: false, deps: Vec::new(), is_class_def: true });
    push_act(acts, Action::OpenAttrib { leaf: name.clone(), fallback_to_scope: false });
    push_act(acts, recurse_exprs(decorators));
    let ghost a1 = acts@;
    match bases {
        Some(b) => {
            push_act(acts, recurse_exprs(&b.0));
            push_act(acts, recurse_exprs(&b.1));
        },
        None => {},
    }
    assert(py_view(acts@) =~= py_view(a1) + bases_rule(*bases));
    push_act(acts, Action::CloseAttrib);
    push_act(
        acts,
        Action::OpenScope { leaf: name.clone(), params: Vec::new(), is_class: true, is_namespace: false, nonlocals: scope_globals(body) },
    );
    push_act(acts, recurse_stmts(body));
    push_act(acts, Action::Close);
    assert(py_view(acts@) =~= py_view(a0) + class_def_rule(name@, line, decorators@, *bases, body@));
}

fn assign<'a>(targets: &'a Vec<Expr>, value: &'a Expr, acts: &mut Vec<Action<Py<'a>>>)
    ensures
        grew(old(acts)@, final(acts)@, assign_rule(targets@, *value)),
{
    let ghost a0 = acts@;
    let rhs = loads_of(value);
    let mut k: usize = 0;
    while k < targets.len()
        invariant
            k <= targets@.len(),
            views(rhs@) == py_loads(*value),
            py_view(acts@) == py_view(a0) + assign_targets_rule(targets@, k as int, py_loads(*value)),
            run_from(acts@, 0) == run_from(a0, 0),
        decreases targets@.len() - k,
    {
        match &targets[k] {
            Expr::Name { id, line, .. } => {
                let d = copy_strings(&rhs);
                assert(names_view(d@) =~= views(d@));
                push_act(
                    acts,
                    Action::Bind { name: id.clone(), kind: BindKind::Value, line: *line, intro: false, deps: d, is_class_def: false },
                );
            },
            t => target_actions(t, false, acts),
        }
        assert(py_view(acts@) =~= py_view(a0) + assign_targets_rule(targets@, k + 1, py_loads(*value)));
        k = k + 1;
    }
    // a single-name binding's right-hand side belongs to it when it is module or class data
    let single: Option<&String> = if targets.len() == 1 {
        match &targets[0] {
            Expr::Name { id, .. } => Some(id),
            _ => None,
        }
    } else {
        None
    };
    let ghost a1 = acts@;
    rhs_attributed(single, value, acts);
    assert(py_view(acts@) =~= py_view(a0) + assign_rule(targets@, *value));
}

fn ann_assign<'a>(target: &'a Expr, value: &'a Option<Expr>, acts: &mut Vec<Action<Py<'a>>>)
    ensures
        grew(old(acts)@, final(acts)@, ann_assign_rule(*target, *value)),
{
    let ghost a0 = acts@;
    match target {
        Expr::Name { id, line, .. } => match value {
            Some(v) => {
                let d = loads_of(v);
                assert(names_view(d@) =~= views(d@));
                push_act(
                    acts,
                    Action::Bind { name: id.clone(), kind: BindKind::Value, line: *line, intro: false, deps: d, is_class_def: false },
                );
            },
            None => {},
        },
        t => target_actions(t, false, acts),
    }
    let ghost a1 = acts@;
    match value {
        Some(v) => {
            let leaf: Option<&String> = match target {
                Expr::Name { id, .. } => Some(id),
                _ => None,
            };
            rhs_attributed(leaf, v, acts);
        },
        None => {},
    }
    assert(py_view(acts@) =~= py_view(a0) + ann_assign_rule(*target, *value));
}

fn aug_assign<'a>(target: &'a Expr, value: &'a Expr, acts: &mut Vec<Action<Py<'a>>>)
    ensures
        grew(old(acts)@, final(acts)@, aug_assign_rule(*target, *value)),
{
    let ghost a0 = acts@;
    match target {
        Expr::Name { id, line, .. } => push_act(acts, Action::Use { name: id.clone(), line: *line, member: false }),
        t => push_act(acts, recurse_one(t)),
    }
    push_act(acts, recurse_one(value));
    assert(py_view(acts@) =~= py_view(a0) + aug_assign_rule(*target, *value));
}

fn if_stmt<'a>(test: &'a Expr, body: &'a Vec<Stmt>, clauses: &'a Vec<Clause>, acts: &mut Vec<Action<Py<'a>>>)
    ensures
        grew(
            old(acts)@,
            final(acts)@,
            seq![rec_e(*test)] + block_rule(body@, false) + clauses_rule(clauses@, clauses@.len() as int),
        ),
{
    let ghost a0 = acts@;
    push_act(acts, recurse_one(test));
    block(acts, body, false);
    let ghost a1 = acts@;
    let mut k: usize = 0;
    while k < clauses.len()
        invariant
            k <= clauses@.len(),
            py_view(acts@) == py_view(a1) + clauses_rule(clauses@, k as int),
            run_from(acts@, 0) == run_from(a1, 0),
        decreases clauses@.len() - k,
    {
        let ghost a2 = acts@;
        opt_rec(&clauses[k].test, acts);
        block(acts, &clauses[k].body, false);
        assert(py_view(acts@) =~= py_view(a2) + clause_rule(clauses@[k as int]));
        assert(py_view(acts@) =~= py_view(a1) + clauses_rule(clauses@, k + 1));
        k = k + 1;
    }
    assert(py_view(acts@) =~= py_view(a0) + (seq![rec_e(*test)] + block_rule(body@, false) + clauses_rule(
        clauses@,
        clauses@.len() as int,
    )));
}

fn for_stmt<'a>(target: &'a Expr, iter: &'a Expr, body: &'a Vec<Stmt>, orelse: &'a Vec<Stmt>, acts: &mut Vec<Action<Py<'a>>>)
    ensures
        grew(old(acts)@, final(acts)@, for_rule(*target, *iter, body@, orelse@)),
{
    let ghost a0 = acts@;
    push_act(acts, recurse_one(iter));
    push_act(acts, Action::OpenBlock { is_loop: true });
    target_actions(target, true, acts);
    push_act(acts, recurse_stmts(body));
    push_act(acts, Action::Close);
    else_block(acts, orelse);
    assert(py_view(acts@) =~= py_view(a0) + for_rule(*target, *iter, body@, orelse@));
}

fn while_stmt<'a>(test: &'a Expr, body: &'a Vec<Stmt>, orelse: &'a Vec<Stmt>, acts: &mut Vec<Action<Py<'a>>>)
    ensures
        grew(old(acts)@, final(acts)@, seq![rec_e(*test)] + block_rule(body@, true) + else_rule(orelse@)),
{
    let ghost a0 = acts@;
    push_act(acts, recurse_one(test));
    block(acts, body, true);
    else_block(acts, orelse);
    assert(py_view(acts@) =~= py_view(a0) + (seq![rec_e(*test)] + block_rule(body@, true) + else_rule(orelse@)));
}

fn with_stmt<'a>(items: &'a Vec<WithItem>, body: &'a Vec<Stmt>, acts: &mut Vec<Action<Py<'a>>>)
    ensures
        grew(old(acts)@, final(acts)@, items_rule(items@, items@.len() as int) + block_rule(body@, false)),
{
    let ghost a0 = acts@;
    let mut k: usize = 0;
    while k < items.len()
        invariant
            k <= items@.len(),
            py_view(acts@) == py_view(a0) + items_rule(items@, k as int),
            run_from(acts@, 0) == run_from(a0, 0),
        decreases items@.len() - k,
    {
        let ghost a2 = acts@;
        push_act(acts, recurse_one(&items[k].context));
        let ghost a3 = acts@;
        match &items[k].vars {
            Some(v) => target_actions(v, true, acts),
            None => {},
        }
        assert(py_view(acts@) =~= py_view(a3) + match items@[k as int].vars {
            Some(v) => target_rule(v, true),
            None => Seq::<ActionV<PyV>>::empty(),
        });
        assert(py_view(acts@) =~= py_view(a2) + item_rule(items@[k as int]));
        assert(py_view(acts@) =~= py_view(a0) + items_rule(items@, k + 1));
        k = k + 1;
    }
    block(acts, body, false);
    assert(py_view(acts@) =~= py_view(a0) + (items_rule(items@, items@.len() as int) + block_rule(body@, false)));
}

fn handler<'a>(h: &'a Handler, acts: &mut Vec<Action<Py<'a>>>)
    ensures
        grew(old(acts)@, final(acts)@, handler_rule(*h)),
{
    let ghost a0 = acts@;
    push_act(acts, Action::OpenBlock { is_loop: false });
    capture_opt(&h.name, acts);
    push_act(acts, recurse_stmts(&h.body));
    push_act(acts, Action::Close);
    assert(py_view(acts@) =~= py_view(a0) + handler_rule(*h));
}

fn try_stmt<'a>(
    body: &'a Vec<Stmt>,
    handlers: &'a Vec<Handler>,
    orelse: &'a Vec<Stmt>,
    finalbody: &'a Vec<Stmt>,
    acts: &mut Vec<Action<Py<'a>>>,
)
    ensures
        grew(
            old(acts)@,
            final(acts)@,
            block_rule(body@, false) + handlers_rule(handlers@, handlers@.len() as int) + else_rule(orelse@) + else_rule(
                finalbody@,
            ),
        ),
{
    let ghost a0 = acts@;
    block(acts, body, false);
    let ghost a1 = acts@;
    let mut k: usize = 0;
    while k < handlers.len()
        invariant
            k <= handlers@.len(),
            py_view(acts@) == py_view(a1) + handlers_rule(handlers@, k as int),
            run_from(acts@, 0) == run_from(a1, 0),
        decreases handlers@.len() - k,
    {
        handler(&handlers[k], acts);
        assert(py_view(acts@) =~= py_view(a1) + handlers_rule(handlers@, k + 1));
        k = k + 1;
    }
    else_block(acts, orelse);
    else_block(acts, finalbody);
    assert(py_view(acts@) =~= py_view(a0) + (block_rule(body@, false) + handlers_rule(handlers@, handlers@.len() as int)
        + else_rule(orelse@) + else_rule(finalbody@)));
}

fn match_case<'a>(c: &'a Case, acts: &mut Vec<Action<Py<'a>>>)
    ensures
        grew(old(acts)@, final(acts)@, case_rule(*c)),
{
    let ghost a0 = acts@;
    push_act(acts, Action::OpenBlock { is_loop: false });
    pattern_actions(&c.pattern, acts);
    opt_rec(&c.guard, acts);
    push_act(acts, recurse_stmts(&c.body));
    push_act(acts, Action::Close);
    assert(py_view(acts@) =~= py_view(a0) + case_rule(*c));
}

fn match_stmt<'a>(subject: &'a Expr, cases: &'a Vec<Case>, acts: &mut Vec<Action<Py<'a>>>)
    ensures
        grew(old(acts)@, final(acts)@, seq![rec_e(*subject)] + cases_rule(cases@, cases@.len() as int)),
{
    let ghost a0 = acts@;
    push_act(acts, recurse_one(subject));
    let ghost a1 = acts@;
    let mut k: usize = 0;
    while k < cases.len()
        invariant
            k <= cases@.len(),
            py_view(acts@) == py_view(a1) + cases_rule(cases@, k as int),
            run_from(acts@, 0) == run_from(a1, 0),
        decreases cases@.len() - k,
    {
        match_case(&cases[k], acts);
        assert(py_view(acts@) =~= py_view(a1) + cases_rule(cases@, k + 1));
        k = k + 1;
    }
    assert(py_view(acts@) =~= py_view(a0) + (seq![rec_e(*subject)] + cases_rule(cases@, cases@.len() as int)));
}

fn stmt_actions<'a>(stmt: &'a Stmt) -> (r: Vec<Action<Py<'a>>>)
    ensures
        py_view(r@) == py_stmt_rule(*stmt),
        balanced(r@),
{
    let mut acts: Vec<Action<Py<'a>>> = Vec::new();
    assert(py_view(acts@) =~= Seq::<ActionV<PyV>>::empty());
    assert(run_from(acts@, 0) == Some(0int));
    match stmt {
        Stmt::FunctionDef { name, line, decorators, params, body } => function_def(name, *line, decorators, params, body, &mut acts),
        Stmt::ClassDef { name, line, decorators, bases, body } => class_def(name, *line, decorators, bases, body, &mut acts),
        Stmt::Import { line, names } => import_binds(*line, names, &mut acts),
        Stmt::ImportFrom { line, names } => import_from_binds(*line, names, &mut acts),
        Stmt::Assign { targets, value } => assign(targets, value, &mut acts),
        Stmt::AnnAssign { target, value } => ann_assign(target, value, &mut acts),
        Stmt::AugAssign { target, value } => aug_assign(target, value, &mut acts),
        Stmt::Return(v) => opt_rec(v, &mut acts),
        Stmt::Expr(e) => push_act(&mut acts, recurse_one(e)),
        Stmt::Delete(ts) => push_act(&mut acts, recurse_exprs(ts)),
        Stmt::Assert(t) => push_act(&mut acts, recurse_one(t)),
        Stmt::Raise(exc, cause) => {
            opt_rec(exc, &mut acts);
            opt_rec(cause, &mut acts);
        },
        Stmt::If { test, body, clauses } => if_stmt(test, body, clauses, &mut acts),
        Stmt::For { target, iter, body, orelse } => for_stmt(target, iter, body, orelse, &mut acts),
        Stmt::While { test, body, orelse } => while_stmt(test, body, orelse, &mut acts),
        Stmt::With { items, body } => with_stmt(items, body, &mut acts),
        Stmt::Try { body, handlers, orelse, finalbody } => try_stmt(body, handlers, orelse, finalbody, &mut acts),
        Stmt::Match { subject, cases } => match_stmt(subject, cases, &mut acts),
        _ => {},
    }
    assert(py_view(acts@) =~= py_stmt_rule(*stmt));
    acts
}

// --- expressions ---------------------------------------------------------------------------------

/// `lambda params: body` — a scope of its own: the parameters bind, the body is read inside.
pub open spec fn lambda_rule(params: Option<Params>, body: Expr) -> Seq<ActionV<PyV>> {
    seq![
        ActionV::OpenScope {
            leaf: "<lambda>"@,
            params: match params {
                Some(p) => param_names(p),
                None => Seq::empty(),
            },
            is_class: false,
            is_namespace: false,
            nonlocals: Seq::empty(),
        },
        rec_e(body),
        ActionV::Close,
    ]
}

fn lambda_actions<'a>(params: &'a Option<Params>, body: &'a Expr, acts: &mut Vec<Action<Py<'a>>>)
    ensures
        grew(old(acts)@, final(acts)@, lambda_rule(*params, *body)),
{
    let ghost a0 = acts@;
    let ps = match params {
        Some(p) => params_of(p),
        None => Vec::new(),
    };
    assert(params_view(ps@) =~= match *params {
        Some(p) => param_names(p),
        None => Seq::empty(),
    });
    assert(names_view(Seq::<String>::empty()) =~= Seq::<Seq<char>>::empty());
    push_act(
        acts,
        Action::OpenScope { leaf: "<lambda>".to_owned(), params: ps, is_class: false, is_namespace: false, nonlocals: Vec::new() },
    );
    push_act(acts, recurse_one(body));
    push_act(acts, Action::Close);
    assert(py_view(acts@) =~= py_view(a0) + lambda_rule(*params, *body));
}

/// The first `k` clauses of a comprehension, inside its scope: each target binds as introducers,
/// each iterable but the first is read, then the clause's conditions.
pub open spec fn gens_rule(gens: Seq<Comprehension>, k: int) -> Seq<ActionV<PyV>>
    decreases k,
{
    if k <= 0 || k > gens.len() {
        Seq::empty()
    } else {
        gens_rule(gens, k - 1) + target_rule(gens[k - 1].target, true) + (if k - 1 > 0 {
            seq![rec_e(gens[k - 1].iter)]
        } else {
            Seq::empty()
        }) + seq![ActionV::Recurse(exprs_v(gens[k - 1].ifs@))]
    }
}

/// A comprehension — a scope of its own, named `leaf`. The first iterable is read in the enclosing
/// scope; the targets, conditions, other iterables and the `result` live in the comprehension.
pub open spec fn comp_rule(result: Seq<PyV>, gens: Seq<Comprehension>, leaf: Seq<char>) -> Seq<ActionV<PyV>> {
    let first: Seq<ActionV<PyV>> = if gens.len() > 0 {
        seq![rec_e(gens[0].iter)]
    } else {
        Seq::empty()
    };
    first + seq![ActionV::OpenScope { leaf, params: Seq::empty(), is_class: false, is_namespace: false, nonlocals: Seq::empty() }]
        + gens_rule(gens, gens.len() as int) + seq![ActionV::Recurse(result), ActionV::Close]
}

fn comprehension_actions<'a>(
    result: Vec<Py<'a>>,
    generators: &'a Vec<Comprehension>,
    leaf: &str,
    acts: &mut Vec<Action<Py<'a>>>,
)
    ensures
        grew(old(acts)@, final(acts)@, comp_rule(result@.map_values(py_node()), generators@, leaf@)),
{
    let ghost a0 = acts@;
    let ghost rv = result@.map_values(py_node());
    if generators.len() > 0 {
        push_act(acts, recurse_one(&generators[0].iter));
    }
    assert(names_view(Seq::<String>::empty()) =~= Seq::<Seq<char>>::empty());
    assert(params_view(Seq::<(String, u32)>::empty()) =~= Seq::<(Seq<char>, u32)>::empty());
    push_act(
        acts,
        Action::OpenScope { leaf: leaf.to_owned(), params: Vec::new(), is_class: false, is_namespace: false, nonlocals: Vec::new() },
    );
    let ghost a1 = acts@;
    let mut k: usize = 0;
    while k < generators.len()
        invariant
            k <= generators@.len(),
            py_view(acts@) == py_view(a1) + gens_rule(generators@, k as int),
            run_from(acts@, 0) == run_from(a1, 0),
        decreases generators@.len() - k,
    {
        let c = &generators[k];
        target_actions(&c.target, true, acts);
        if k > 0 {
            push_act(acts, recurse_one(&c.iter));
        }
        push_act(acts, recurse_exprs(&c.ifs));
        assert(py_view(acts@) =~= py_view(a1) + gens_rule(generators@, k + 1));
        k = k + 1;
    }
    push_act(acts, Action::Recurse(result));
    push_act(acts, Action::Close);
    assert(py_view(acts@) =~= py_view(a0) + comp_rule(rv, generators@, leaf@));
}

/// A receiver whose attributes are the class's members: `self` or `cls`.
pub open spec fn self_or_cls(s: Seq<char>) -> bool {
    s == "self"@ || s == "cls"@
}

/// `value.attr`: on `self`/`cls` a member reference (read or called) as well; the receiver is
/// read in any case, and another receiver's attribute is unknown.
pub open spec fn attribute_rule(value: Expr, attr: Seq<char>) -> Seq<ActionV<PyV>> {
    let member: Seq<ActionV<PyV>> = match value {
        Expr::Name { id, line, .. } => if self_or_cls(id@) {
            seq![ActionV::Use { name: attr, line, member: true }]
        } else {
            Seq::empty()
        },
        _ => Seq::empty(),
    };
    member + seq![rec_e(value)]
}

/// The keys (when present) and values of the first `n` items of a dict literal, in order.
pub open spec fn dict_v(items: Seq<(Option<Expr>, Expr)>, n: int) -> Seq<PyV>
    decreases n,
{
    if n <= 0 || n > items.len() {
        Seq::empty()
    } else {
        dict_v(items, n - 1) + match items[n - 1].0 {
            Some(k) => seq![PyV::Expr(k)],
            None => Seq::empty(),
        } + seq![PyV::Expr(items[n - 1].1)]
    }
}

/// An optional operand.
pub open spec fn opt_v(o: Option<Box<Expr>>) -> Seq<PyV> {
    match o {
        Some(x) => seq![PyV::Expr(*x)],
        None => Seq::empty(),
    }
}

/// Recurse into expressions, in order.
pub open spec fn rec_all(es: Seq<Expr>) -> ActionV<PyV> {
    ActionV::Recurse(exprs_v(es))
}

/// What an expression lowers to. A name in store context binds, in load context is a reference;
/// `:=` binds its target as an introducer; lambdas and comprehensions open scopes; a call is a
/// reference in callee position plus its arguments; literals reference nothing.
pub open spec fn py_expr_rule(e: Expr) -> Seq<ActionV<PyV>> {
    match e {
        Expr::Name { id, ctx, line } => if ctx == Ctx::Store {
            seq![bind_v(id@, BindKind::Value, line, false, Seq::empty())]
        } else if ctx == Ctx::Load {
            seq![ActionV::Use { name: id@, line, member: false }]
        } else {
            Seq::empty()
        },
        Expr::Named { target, value } => target_rule(*target, true) + seq![rec_e(*value)],
        Expr::BoolOp(vs) => seq![rec_all(vs@)],
        Expr::ListLit(vs) => seq![rec_all(vs@)],
        Expr::TupleLit(vs) => seq![rec_all(vs@)],
        Expr::SetLit(vs) => seq![rec_all(vs@)],
        Expr::BinOp(l, r) => seq![ActionV::Recurse(seq![PyV::Expr(*l), PyV::Expr(*r)])],
        Expr::Subscript(l, r) => seq![ActionV::Recurse(seq![PyV::Expr(*l), PyV::Expr(*r)])],
        Expr::UnaryOp(x) => seq![rec_e(*x)],
        Expr::Starred(x) => seq![rec_e(*x)],
        Expr::Await(x) => seq![rec_e(*x)],
        Expr::YieldFrom(x) => seq![rec_e(*x)],
        Expr::Compare(l, cs) => seq![ActionV::Recurse(seq![PyV::Expr(*l)] + exprs_v(cs@))],
        Expr::IfExp(t, b, o) => seq![ActionV::Recurse(seq![PyV::Expr(*t), PyV::Expr(*b), PyV::Expr(*o)])],
        Expr::Call { func, args, keywords } => seq![ActionV::Recurse(seq![PyV::Expr(*func)] + exprs_v(args@) + exprs_v(keywords@))],
        Expr::Attribute { value, attr } => attribute_rule(*value, attr@),
        Expr::Dict(items) => seq![ActionV::Recurse(dict_v(items@, items@.len() as int))],
        Expr::Lambda { params, body } => lambda_rule(params, *body),
        Expr::ListComp { elt, generators } => comp_rule(seq![PyV::Expr(*elt)], generators@, "<listcomp>"@),
        Expr::SetComp { elt, generators } => comp_rule(seq![PyV::Expr(*elt)], generators@, "<setcomp>"@),
        Expr::Generator { elt, generators } => comp_rule(seq![PyV::Expr(*elt)], generators@, "<genexpr>"@),
        Expr::DictComp { key, value, generators } => comp_rule(
            seq![PyV::Expr(*key), PyV::Expr(*value)],
            generators@,
            "<dictcomp>"@,
        ),
        Expr::Yield(v) => match v {
            Some(x) => seq![rec_e(*x)],
            None => Seq::empty(),
        },
        Expr::Slice(lo, hi, st) => seq![ActionV::Recurse(opt_v(lo) + opt_v(hi) + opt_v(st))],
        Expr::FString(parts) => seq![rec_all(parts@)],
        _ => Seq::empty(),
    }
}

fn attribute<'a>(value: &'a Expr, attr: &String, acts: &mut Vec<Action<Py<'a>>>)
    ensures
        grew(old(acts)@, final(acts)@, attribute_rule(*value, attr@)),
{
    let ghost a0 = acts@;
    let member_line: Option<u32> = match value {
        Expr::Name { id, line, .. } => {
            let v = chars_of(id.as_str());
            assert(v@.subrange(0, v@.len() as int) =~= v@);
            if range_is(&v, 0, v.len(), "self") || range_is(&v, 0, v.len(), "cls") {
                Some(*line)
            } else {
                None
            }
        },
        _ => None,
    };
    match member_line {
        Some(l) => push_act(acts, Action::Use { name: attr.clone(), line: l, member: true }),
        None => {},
    }
    push_act(acts, recurse_one(value));
    assert(py_view(acts@) =~= py_view(a0) + attribute_rule(*value, attr@));
}

fn push_opt<'a>(v: &mut Vec<Py<'a>>, o: &'a Option<Box<Expr>>)
    ensures
        final(v)@.map_values(py_node()) == old(v)@.map_values(py_node()) + opt_v(*o),
{
    let ghost w = v@;
    match o {
        Some(x) => v.push(Py::Expr(x)),
        None => {},
    }
    assert(v@.map_values(py_node()) =~= w.map_values(py_node()) + opt_v(*o));
}

fn expr_actions<'a>(e: &'a Expr) -> (r: Vec<Action<Py<'a>>>)
    ensures
        py_view(r@) == py_expr_rule(*e),
        balanced(r@),
{
    let mut acts: Vec<Action<Py<'a>>> = Vec::new();
    assert(py_view(acts@) =~= Seq::<ActionV<PyV>>::empty());
    assert(run_from(acts@, 0) == Some(0int));
    match e {
        Expr::Name { id, ctx, line } => {
            if *ctx == Ctx::Store {
                assert(names_view(Seq::<String>::empty()) =~= Seq::<Seq<char>>::empty());
                push_act(
                    &mut acts,
                    Action::Bind { name: id.clone(), kind: BindKind::Value, line: *line, intro: false, deps: Vec::new(), is_class_def: false },
                );
            } else if *ctx == Ctx::Load {
                push_act(&mut acts, Action::Use { name: id.clone(), line: *line, member: false });
            }
        },
        Expr::Named { target, value } => {
            target_actions(target, true, &mut acts);
            push_act(&mut acts, recurse_one(value));
        },
        Expr::BoolOp(vs) | Expr::ListLit(vs) | Expr::TupleLit(vs) | Expr::SetLit(vs) => push_act(&mut acts, recurse_exprs(vs)),
        Expr::BinOp(l, r) | Expr::Subscript(l, r) => {
            let mut v: Vec<Py<'a>> = Vec::new();
            v.push(Py::Expr(l));
            v.push(Py::Expr(r));
            assert(v@.map_values(py_node()) =~= seq![PyV::Expr(**l), PyV::Expr(**r)]);
            push_act(&mut acts, Action::Recurse(v));
        },
        Expr::UnaryOp(x) | Expr::Starred(x) | Expr::Await(x) | Expr::YieldFrom(x) => push_act(&mut acts, recurse_one(x)),
        Expr::Compare(l, cs) => {
            let mut v: Vec<Py<'a>> = Vec::new();
            v.push(Py::Expr(l));
            assert(v@.map_values(py_node()) =~= seq![PyV::Expr(**l)]);
            push_exprs(&mut v, cs);
            push_act(&mut acts, Action::Recurse(v));
        },
        Expr::IfExp(t, b, o) => {
            let mut v: Vec<Py<'a>> = Vec::new();
            v.push(Py::Expr(t));
            v.push(Py::Expr(b));
            v.push(Py::Expr(o));
            assert(v@.map_values(py_node()) =~= seq![PyV::Expr(**t), PyV::Expr(**b), PyV::Expr(**o)]);
            push_act(&mut acts, Action::Recurse(v));
        },
        Expr::Call { func, args, keywords } => {
            // a call is a reference in callee position plus the uses in its arguments
            let mut v: Vec<Py<'a>> = Vec::new();
            v.push(Py::Expr(func));
            assert(v@.map_values(py_node()) =~= seq![PyV::Expr(**func)]);
            push_exprs(&mut v, args);
            push_exprs(&mut v, keywords);
            push_act(&mut acts, Action::Recurse(v));
        },
        Expr::Attribute { value, attr } => attribute(value, attr, &mut acts),
        Expr::Dict(items) => {
            let mut v: Vec<Py<'a>> = Vec::new();
            let mut k: usize = 0;
            while k < items.len()
                invariant
                    k <= items@.len(),
                    v@.map_values(py_node()) == dict_v(items@, k as int),
                decreases items@.len() - k,
            {
                let ghost w = v@;
                match &items[k].0 {
                    Some(key) => v.push(Py::Expr(key)),
                    None => {},
                }
                v.push(Py::Expr(&items[k].1));
                assert(v@.map_values(py_node()) =~= w.map_values(py_node()) + match items@[k as int].0 {
                    Some(kx) => seq![PyV::Expr(kx)],
                    None => Seq::<PyV>::empty(),
                } + seq![PyV::Expr(items@[k as int].1)]);
                k = k + 1;
            }
            push_act(&mut acts, Action::Recurse(v));
        },
        Expr::Lambda { params, body } => lambda_actions(params, body, &mut acts),
        Expr::ListComp { elt, generators } => {
            let mut v: Vec<Py<'a>> = Vec::new();
            v.push(Py::Expr(elt));
            assert(v@.map_values(py_node()) =~= seq![PyV::Expr(**elt)]);
            comprehension_actions(v, generators, "<listcomp>", &mut acts);
        },
        Expr::SetComp { elt, generators } => {
            let mut v: Vec<Py<'a>> = Vec::new();
            v.push(Py::Expr(elt));
            assert(v@.map_values(py_node()) =~= seq![PyV::Expr(**elt)]);
            comprehension_actions(v, generators, "<setcomp>", &mut acts);
        },
        Expr::Generator { elt, generators } => {
            let mut v: Vec<Py<'a>> = Vec::new();
            v.push(Py::Expr(elt));
            assert(v@.map_values(py_node()) =~= seq![PyV::Expr(**elt)]);
            comprehension_actions(v, generators, "<genexpr>", &mut acts);
        },
        Expr::DictComp { key, value, generators } => {
            let mut v: Vec<Py<'a>> = Vec::new();
            v.push(Py::Expr(key));
            v.push(Py::Expr(value));
            assert(v@.map_values(py_node()) =~= seq![PyV::Expr(**key), PyV::Expr(**value)]);
            comprehension_actions(v, generators, "<dictcomp>", &mut acts);
        },
        Expr::Yield(v) => match v {
            Some(x) => push_act(&mut acts, recurse_one(x)),
            None => {},
        },
        Expr::Slice(lo, hi, st) => {
            let mut v: Vec<Py<'a>> = Vec::new();
            assert(v@.map_values(py_node()) =~= Seq::<PyV>::empty());
            push_opt(&mut v, lo);
            push_opt(&mut v, hi);
            push_opt(&mut v, st);
            push_act(&mut acts, Action::Recurse(v));
        },
        Expr::FString(parts) => push_act(&mut acts, recurse_exprs(parts)),
        _ => {},
    }
    assert(py_view(acts@) =~= py_expr_rule(*e));
    acts
}

/// What a node lowers to: a statement by [`py_stmt_rule`], an expression by [`py_expr_rule`].
pub open spec fn py_rule() -> spec_fn(PyV) -> Seq<ActionV<PyV>> {
    |n: PyV|
        match n {
            PyV::Stmt(s) => py_stmt_rule(s),
            PyV::Expr(e) => py_expr_rule(e),
        }
}

impl<'a> ScopeLang for PyLang<'a> {
    type Node = Py<'a>;
    type NodeV = PyV;

    open spec fn node_view(&self) -> spec_fn(Py<'a>) -> PyV {
        py_node()
    }

    open spec fn lowering(&self) -> spec_fn(PyV) -> Seq<ActionV<PyV>> {
        py_rule()
    }

    fn actions(&self, node: &Py<'a>) -> (r: Vec<Action<Py<'a>>>) {
        match *node {
            Py::Stmt(s) => stmt_actions(s),
            Py::Expr(e) => expr_actions(e),
        }
    }
}

} // verus!
