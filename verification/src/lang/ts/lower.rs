//! The TypeScript/JavaScript lowering rules: how each statement, expression and JSX node maps to
//! scope actions ([`ts_stmt_rule`], [`ts_expr_rule`], [`jsx_child_rule`], [`jsx_expr_rule`]).
//! Every node's actions are bracketed — each block or scope it opens it closes.
//!
//! TS/JS is block-scoped: `let`/`const` are local to their block. A `class` maps onto the engine's
//! class notion (methods are `C.method`, `this.x` is a member reference); a class field and a
//! module-level `const` are data definitions. Arrow and function expressions open anonymous scopes,
//! whose references count for the enclosing named definition.

use vstd::prelude::*;

use crate::engine::scopegraph::{BindKind, names_view};
use crate::engine::scopelang::{
    Action, ActionV, ScopeLang, action_view, acts_view, balanced, emit, frame_delta, params_view, run_from,
};
use crate::lang::ts::syntax::{
    Arrow, CatchClause, Class, ClassElement, Decl, Declarator, DefaultExport, Expr, ForInit, ForLeft, Function, JsxAttr,
    JsxChild, JsxElement, JsxExpr, Name, ObjectMember, Params, Pattern, Program, Stmt, SwitchCase, VarDecl,
};
use crate::text::{chars_of, copy_strings, views};

verus! {

/// A node to lower: a statement, an expression, the inside of a JSX `{…}`, or a JSX child.
#[derive(Clone, Copy)]
pub enum Ts<'a> {
    Stmt(&'a Stmt),
    Expr(&'a Expr),
    JsxExpr(&'a JsxExpr),
    JsxChild(&'a JsxChild),
}

/// A lowered node, as the syntax it points at.
pub enum TsV {
    Stmt(Stmt),
    Expr(Expr),
    JsxExpr(JsxExpr),
    JsxChild(JsxChild),
}

/// A lowered node seen as the syntax it points at.
pub open spec fn ts_node<'a>() -> spec_fn(Ts<'a>) -> TsV {
    |n: Ts<'a>|
        match n {
            Ts::Stmt(s) => TsV::Stmt(*s),
            Ts::Expr(e) => TsV::Expr(*e),
            Ts::JsxExpr(j) => TsV::JsxExpr(*j),
            Ts::JsxChild(c) => TsV::JsxChild(*c),
        }
}

/// The TypeScript/JavaScript scope profile, over one program.
pub struct TsLang<'a> {
    pub program: &'a Program,
}

/// The lowering so far, as values.
pub open spec fn ts_view<'a>(acts: Seq<Action<Ts<'a>>>) -> Seq<ActionV<TsV>> {
    acts_view(acts, ts_node())
}

/// `acts` grew by `part`, opening and closing as many frames as it closed and opened.
pub open spec fn grew<'a>(before: Seq<Action<Ts<'a>>>, after: Seq<Action<Ts<'a>>>, part: Seq<ActionV<TsV>>) -> bool {
    ts_view(after) == ts_view(before) + part && run_from(after, 0) == run_from(before, 0)
}

/// Append `a` to a lowering.
fn push_act<'a>(acts: &mut Vec<Action<Ts<'a>>>, a: Action<Ts<'a>>)
    ensures
        ts_view(final(acts)@) == ts_view(old(acts)@).push(action_view(a, ts_node())),
        run_from(final(acts)@, 0) == match run_from(old(acts)@, 0) {
            Some(e) => if e + frame_delta(a) >= 0 { Some(e + frame_delta(a)) } else { None },
            None => None,
        },
{
    let ghost before = acts@;
    emit(acts, a);
    assert(ts_view(acts@) =~= ts_view(before).push(action_view(a, ts_node())));
}

/// Recurse into one expression.
pub open spec fn rec_e(e: Expr) -> ActionV<TsV> {
    ActionV::Recurse(seq![TsV::Expr(e)])
}

/// Recurse into one statement.
pub open spec fn rec_s(s: Stmt) -> ActionV<TsV> {
    ActionV::Recurse(seq![TsV::Stmt(s)])
}

pub open spec fn exprs_v(es: Seq<Expr>) -> Seq<TsV> {
    es.map_values(|e: Expr| TsV::Expr(e))
}

pub open spec fn stmts_v(ss: Seq<Stmt>) -> Seq<TsV> {
    ss.map_values(|s: Stmt| TsV::Stmt(s))
}

pub open spec fn children_v(cs: Seq<JsxChild>) -> Seq<TsV> {
    cs.map_values(|c: JsxChild| TsV::JsxChild(c))
}

/// A reference to a name (a member reference on `this` when `member`).
pub open spec fn use_v(n: Name, member: bool) -> ActionV<TsV> {
    ActionV::Use { name: n.name@, line: n.line, member }
}

fn rec_one<'a>(e: &'a Expr) -> (a: Action<Ts<'a>>)
    ensures
        action_view(a, ts_node()) == rec_e(*e),
        frame_delta(a) == 0,
{
    let mut v: Vec<Ts<'a>> = Vec::new();
    v.push(Ts::Expr(e));
    assert(v@.map_values(ts_node()) =~= seq![TsV::Expr(*e)]);
    Action::Recurse(v)
}

fn rec_two<'a>(x: &'a Expr, y: &'a Expr) -> (a: Action<Ts<'a>>)
    ensures
        action_view(a, ts_node()) == ActionV::<TsV>::Recurse(seq![TsV::Expr(*x), TsV::Expr(*y)]),
        frame_delta(a) == 0,
{
    let mut v: Vec<Ts<'a>> = Vec::new();
    v.push(Ts::Expr(x));
    v.push(Ts::Expr(y));
    assert(v@.map_values(ts_node()) =~= seq![TsV::Expr(*x), TsV::Expr(*y)]);
    Action::Recurse(v)
}

fn rec_list<'a>(es: &'a Vec<Expr>) -> (a: Action<Ts<'a>>)
    ensures
        action_view(a, ts_node()) == ActionV::<TsV>::Recurse(exprs_v(es@)),
        frame_delta(a) == 0,
{
    let mut v: Vec<Ts<'a>> = Vec::new();
    let mut i: usize = 0;
    while i < es.len()
        invariant
            i <= es@.len(),
            v@.map_values(ts_node()) == exprs_v(es@.take(i as int)),
        decreases es@.len() - i,
    {
        let ghost w = v@;
        v.push(Ts::Expr(&es[i]));
        assert(v@.map_values(ts_node()) =~= w.map_values(ts_node()).push(TsV::Expr(es@[i as int])));
        assert(exprs_v(es@.take(i + 1)) =~= exprs_v(es@.take(i as int)).push(TsV::Expr(es@[i as int])));
        i = i + 1;
    }
    assert(es@.take(es@.len() as int) =~= es@);
    Action::Recurse(v)
}

fn rec_stmt<'a>(s: &'a Stmt) -> (a: Action<Ts<'a>>)
    ensures
        action_view(a, ts_node()) == rec_s(*s),
        frame_delta(a) == 0,
{
    let mut v: Vec<Ts<'a>> = Vec::new();
    v.push(Ts::Stmt(s));
    assert(v@.map_values(ts_node()) =~= seq![TsV::Stmt(*s)]);
    Action::Recurse(v)
}

fn rec_stmts<'a>(ss: &'a Vec<Stmt>) -> (a: Action<Ts<'a>>)
    ensures
        action_view(a, ts_node()) == ActionV::<TsV>::Recurse(stmts_v(ss@)),
        frame_delta(a) == 0,
{
    let mut v: Vec<Ts<'a>> = Vec::new();
    let mut i: usize = 0;
    while i < ss.len()
        invariant
            i <= ss@.len(),
            v@.map_values(ts_node()) == stmts_v(ss@.take(i as int)),
        decreases ss@.len() - i,
    {
        let ghost w = v@;
        v.push(Ts::Stmt(&ss[i]));
        assert(v@.map_values(ts_node()) =~= w.map_values(ts_node()).push(TsV::Stmt(ss@[i as int])));
        assert(stmts_v(ss@.take(i + 1)) =~= stmts_v(ss@.take(i as int)).push(TsV::Stmt(ss@[i as int])));
        i = i + 1;
    }
    assert(ss@.take(ss@.len() as int) =~= ss@);
    Action::Recurse(v)
}

fn rec_children<'a>(cs: &'a Vec<JsxChild>) -> (a: Action<Ts<'a>>)
    ensures
        action_view(a, ts_node()) == ActionV::<TsV>::Recurse(children_v(cs@)),
        frame_delta(a) == 0,
{
    let mut v: Vec<Ts<'a>> = Vec::new();
    let mut i: usize = 0;
    while i < cs.len()
        invariant
            i <= cs@.len(),
            v@.map_values(ts_node()) == children_v(cs@.take(i as int)),
        decreases cs@.len() - i,
    {
        let ghost w = v@;
        v.push(Ts::JsxChild(&cs[i]));
        assert(v@.map_values(ts_node()) =~= w.map_values(ts_node()).push(TsV::JsxChild(cs@[i as int])));
        assert(children_v(cs@.take(i + 1)) =~= children_v(cs@.take(i as int)).push(TsV::JsxChild(cs@[i as int])));
        i = i + 1;
    }
    assert(cs@.take(cs@.len() as int) =~= cs@);
    Action::Recurse(v)
}

fn rec_jsx_expr<'a>(je: &'a JsxExpr) -> (a: Action<Ts<'a>>)
    ensures
        action_view(a, ts_node()) == ActionV::<TsV>::Recurse(seq![TsV::JsxExpr(*je)]),
        frame_delta(a) == 0,
{
    let mut v: Vec<Ts<'a>> = Vec::new();
    v.push(Ts::JsxExpr(je));
    assert(v@.map_values(ts_node()) =~= seq![TsV::JsxExpr(*je)]);
    Action::Recurse(v)
}

// --- patterns, parameters, dependencies ----------------------------------------------------

/// The names a binding pattern binds, with their lines, in order.
pub open spec fn ts_pat_names(p: Pattern) -> Seq<(Seq<char>, u32)>
    decreases p, 0int,
{
    match p {
        Pattern::Ident(b) => seq![(b.name@, b.line)],
        Pattern::Object(ps, rest) => {
            proof {
                assert(decreases_to!(p => ps@));
            }
            ts_pats_names(ps@, ps@.len() as int) + match rest {
                Some(r) => ts_pat_names(*r),
                None => Seq::empty(),
            }
        },
        Pattern::Array(ps, rest) => {
            proof {
                assert(decreases_to!(p => ps@));
            }
            ts_pats_names(ps@, ps@.len() as int) + match rest {
                Some(r) => ts_pat_names(*r),
                None => Seq::empty(),
            }
        },
        Pattern::Assign(left) => ts_pat_names(*left),
    }
}

/// The names the first `n` patterns bind, in order.
pub open spec fn ts_pats_names(ps: Seq<Pattern>, n: int) -> Seq<(Seq<char>, u32)>
    decreases ps, n,
{
    if n <= 0 || n > ps.len() {
        Seq::empty()
    } else {
        ts_pats_names(ps, n - 1) + ts_pat_names(ps[n - 1])
    }
}

fn pats_binds(ps: &Vec<Pattern>, out: &mut Vec<(String, u32)>)
    ensures
        params_view(final(out)@) == params_view(old(out)@) + ts_pats_names(ps@, ps@.len() as int),
    decreases ps@, 1int,
{
    let ghost o0 = params_view(out@);
    let mut k: usize = 0;
    while k < ps.len()
        invariant
            k <= ps@.len(),
            params_view(out@) == o0 + ts_pats_names(ps@, k as int),
        decreases ps@.len() - k,
    {
        proof {
            assert(decreases_to!(ps@ => ps@[k as int]));
        }
        pat_binds(&ps[k], out);
        assert(ts_pats_names(ps@, k + 1) == ts_pats_names(ps@, k as int) + ts_pat_names(ps@[k as int]));
        k = k + 1;
    }
}

/// Append the names a binding pattern binds to `out` (see [`ts_pat_names`]).
fn pat_binds(pat: &Pattern, out: &mut Vec<(String, u32)>)
    ensures
        params_view(final(out)@) == params_view(old(out)@) + ts_pat_names(*pat),
    decreases *pat, 0int,
{
    let ghost o0 = params_view(out@);
    match pat {
        Pattern::Ident(b) => {
            out.push((b.name.clone(), b.line));
            assert(params_view(out@) =~= o0 + seq![(b.name@, b.line)]);
        },
        Pattern::Object(ps, rest) | Pattern::Array(ps, rest) => {
            proof {
                assert(decreases_to!(*pat => ps@));
            }
            pats_binds(ps, out);
            match rest {
                Some(r) => pat_binds(r, out),
                None => {},
            }
        },
        Pattern::Assign(left) => pat_binds(left, out),
    }
    assert(params_view(out@) =~= o0 + ts_pat_names(*pat));
}

/// The names a parameter list binds, with their lines.
pub open spec fn params_names(fp: Params) -> Seq<(Seq<char>, u32)> {
    ts_pats_names(fp.items@, fp.items@.len() as int) + match fp.rest {
        Some(r) => ts_pat_names(r),
        None => Seq::empty(),
    }
}

fn params(fp: &Params) -> (r: Vec<(String, u32)>)
    ensures
        params_view(r@) == params_names(*fp),
{
    let mut out: Vec<(String, u32)> = Vec::new();
    assert(params_view(out@) =~= Seq::<(Seq<char>, u32)>::empty());
    pats_binds(&fp.items, &mut out);
    match &fp.rest {
        Some(r) => pat_binds(r, &mut out),
        None => {},
    }
    assert(params_view(out@) =~= params_names(*fp));
    out
}

/// The one name a pattern binds when it is a bare identifier (a default value aside), so that a
/// declarator's right-hand side can count for it. Destructuring has none.
pub open spec fn single_name_of(p: Pattern) -> Option<Seq<char>>
    decreases p,
{
    match p {
        Pattern::Ident(b) => Some(b.name@),
        Pattern::Assign(left) => single_name_of(*left),
        _ => None,
    }
}

fn single_name(pat: &Pattern) -> (r: Option<String>)
    ensures
        match r {
            Some(s) => single_name_of(*pat) == Some(s@),
            None => single_name_of(*pat) is None,
        },
    decreases pat,
{
    match pat {
        Pattern::Ident(b) => Some(b.name.clone()),
        Pattern::Assign(left) => single_name(left),
        _ => None,
    }
}

/// The bare names an expression reads, in order — a binding's right-hand-side dependencies
/// (shallow: nested function and arrow scopes are not entered).
pub open spec fn ts_loads(e: Expr) -> Seq<Seq<char>>
    decreases e, 0int,
{
    match e {
        Expr::Ident(i) => seq![i.name@],
        Expr::StaticMember { object, .. } => ts_loads(*object),
        Expr::ComputedMember(o, x) => ts_loads(*o) + ts_loads(*x),
        Expr::Binary(o, x) => ts_loads(*o) + ts_loads(*x),
        Expr::Logical(o, x) => ts_loads(*o) + ts_loads(*x),
        Expr::Call { callee, args } => {
            proof {
                assert(decreases_to!(e => args@));
            }
            ts_loads(*callee) + ts_loads_list(args@, args@.len() as int)
        },
        Expr::New { callee, args } => {
            proof {
                assert(decreases_to!(e => args@));
            }
            ts_loads(*callee) + ts_loads_list(args@, args@.len() as int)
        },
        Expr::Unary(x) => ts_loads(*x),
        Expr::Await(x) => ts_loads(*x),
        Expr::Paren(x) => ts_loads(*x),
        Expr::Conditional(t, c, a) => ts_loads(*t) + ts_loads(*c) + ts_loads(*a),
        Expr::Sequence(es) => {
            proof {
                assert(decreases_to!(e => es@));
            }
            ts_loads_list(es@, es@.len() as int)
        },
        Expr::Template(es) => {
            proof {
                assert(decreases_to!(e => es@));
            }
            ts_loads_list(es@, es@.len() as int)
        },
        Expr::Array(es) => {
            proof {
                assert(decreases_to!(e => es@));
            }
            ts_loads_list(es@, es@.len() as int)
        },
        Expr::Object(members) => {
            proof {
                assert(decreases_to!(e => members@));
            }
            ts_member_loads(members@, members@.len() as int)
        },
        _ => Seq::empty(),
    }
}

/// The loads of the first `n` expressions of `es`, in order.
pub open spec fn ts_loads_list(es: Seq<Expr>, n: int) -> Seq<Seq<char>>
    decreases es, n,
{
    if n <= 0 || n > es.len() {
        Seq::empty()
    } else {
        ts_loads_list(es, n - 1) + ts_loads(es[n - 1])
    }
}

/// The loads of the property values among the first `n` members of an object literal (a spread
/// reads none).
pub open spec fn ts_member_loads(ms: Seq<ObjectMember>, n: int) -> Seq<Seq<char>>
    decreases ms, n,
{
    if n <= 0 || n > ms.len() {
        Seq::empty()
    } else {
        ts_member_loads(ms, n - 1) + match ms[n - 1] {
            ObjectMember::Property(v) => ts_loads(v),
            ObjectMember::Spread(_) => Seq::empty(),
        }
    }
}

/// Append the loads of each of `es` to `out`.
fn loads_list(es: &Vec<Expr>, out: &mut Vec<String>)
    ensures
        views(final(out)@) == views(old(out)@) + ts_loads_list(es@, es@.len() as int),
    decreases es@, 1int,
{
    let ghost o0 = views(out@);
    let mut k: usize = 0;
    while k < es.len()
        invariant
            k <= es@.len(),
            views(out@) == o0 + ts_loads_list(es@, k as int),
        decreases es@.len() - k,
    {
        proof {
            assert(decreases_to!(es@ => es@[k as int]));
        }
        loads(&es[k], out);
        assert(ts_loads_list(es@, k + 1) == ts_loads_list(es@, k as int) + ts_loads(es@[k as int]));
        k = k + 1;
    }
}

/// Append the loads of the property values of `ms` to `out`.
fn member_loads(ms: &Vec<ObjectMember>, out: &mut Vec<String>)
    ensures
        views(final(out)@) == views(old(out)@) + ts_member_loads(ms@, ms@.len() as int),
    decreases ms@, 1int,
{
    let ghost o0 = views(out@);
    let mut k: usize = 0;
    while k < ms.len()
        invariant
            k <= ms@.len(),
            views(out@) == o0 + ts_member_loads(ms@, k as int),
        decreases ms@.len() - k,
    {
        proof {
            assert(decreases_to!(ms@ => ms@[k as int]));
        }
        let ghost before = views(out@);
        match &ms[k] {
            ObjectMember::Property(v) => loads(v, out),
            ObjectMember::Spread(_) => {
                assert(views(out@) =~= before + Seq::<Seq<char>>::empty());
            },
        }
        assert(ts_member_loads(ms@, k + 1) == ts_member_loads(ms@, k as int) + match ms@[k as int] {
            ObjectMember::Property(v) => ts_loads(v),
            ObjectMember::Spread(_) => Seq::<Seq<char>>::empty(),
        });
        k = k + 1;
    }
}

/// Append the bare names `e` reads to `out` (see [`ts_loads`]).
fn loads(e: &Expr, out: &mut Vec<String>)
    ensures
        views(final(out)@) == views(old(out)@) + ts_loads(*e),
    decreases *e, 0int,
{
    let ghost o0 = views(out@);
    match e {
        Expr::Ident(i) => {
            out.push(i.name.clone());
            assert(views(out@) =~= o0 + seq![i.name@]);
        },
        Expr::StaticMember { object, .. } => loads(object, out),
        Expr::ComputedMember(o, x) | Expr::Binary(o, x) | Expr::Logical(o, x) => {
            loads(o, out);
            loads(x, out);
        },
        Expr::Call { callee, args } | Expr::New { callee, args } => {
            loads(callee, out);
            proof {
                assert(decreases_to!(*e => args@));
            }
            loads_list(args, out);
        },
        Expr::Unary(x) | Expr::Await(x) | Expr::Paren(x) => loads(x, out),
        Expr::Conditional(t, c, a) => {
            loads(t, out);
            loads(c, out);
            loads(a, out);
        },
        Expr::Sequence(es) | Expr::Template(es) | Expr::Array(es) => {
            proof {
                assert(decreases_to!(*e => es@));
            }
            loads_list(es, out);
        },
        Expr::Object(members) => {
            proof {
                assert(decreases_to!(*e => members@));
            }
            member_loads(members, out);
        },
        _ => {
            assert(views(out@) =~= o0 + Seq::<Seq<char>>::empty());
        },
    }
    assert(views(out@) =~= o0 + ts_loads(*e));
}

/// The bare names `e` reads, in order (see [`ts_loads`]).
fn collect_loads(e: &Expr) -> (r: Vec<String>)
    ensures
        views(r@) == ts_loads(*e),
{
    let mut out: Vec<String> = Vec::new();
    assert(views(out@) =~= Seq::<Seq<char>>::empty());
    loads(e, &mut out);
    assert(Seq::<Seq<char>>::empty() + ts_loads(*e) =~= ts_loads(*e));
    out
}

/// Is `n` a React hook's name: `use` and then an ASCII capital?
pub open spec fn hook_name(n: Seq<char>) -> bool {
    n.len() > 3 && n[0] == 'u' && n[1] == 's' && n[2] == 'e' && 'A' <= n[3] <= 'Z'
}

fn is_hook_name(n: &String) -> (r: bool)
    ensures
        r == hook_name(n@),
{
    let v = chars_of(n.as_str());
    v.len() > 3 && v[0] == 'u' && v[1] == 's' && v[2] == 'e' && 'A' <= v[3] && v[3] <= 'Z'
}

/// A `use*(…)` call (a React hook): its callee is a `useFoo` identifier or an `X.useFoo` member.
/// Its result is pinned by the rules of hooks (top level, unconditional).
pub open spec fn hook_call(init: Expr) -> bool {
    match init {
        Expr::Call { callee, .. } => match *callee {
            Expr::Ident(id) => hook_name(id.name@),
            Expr::StaticMember { property, .. } => hook_name(property.name@),
            _ => false,
        },
        _ => false,
    }
}

fn is_hook_call(init: &Expr) -> (r: bool)
    ensures
        r == hook_call(*init),
{
    match init {
        Expr::Call { callee, .. } => match &**callee {
            Expr::Ident(id) => is_hook_name(&id.name),
            Expr::StaticMember { property, .. } => is_hook_name(&property.name),
            _ => false,
        },
        _ => false,
    }
}

/// The bindings of `names` as values, introducers or not, each depending on `deps`.
pub open spec fn binds_of(names: Seq<(Seq<char>, u32)>, intro: bool, deps: Seq<Seq<char>>) -> Seq<ActionV<TsV>> {
    names.map_values(
        |nl: (Seq<char>, u32)| ActionV::Bind { name: nl.0, kind: BindKind::Value, line: nl.1, intro, deps, is_class_def: false },
    )
}

/// Bind each of `names` as a value, introducer or not, depending on `deps`.
fn bind_all<'a>(names: &Vec<(String, u32)>, intro: bool, deps: &Vec<String>, acts: &mut Vec<Action<Ts<'a>>>)
    ensures
        grew(old(acts)@, final(acts)@, binds_of(params_view(names@), intro, views(deps@))),
{
    let ghost a0 = acts@;
    let ghost pv = params_view(names@);
    let ghost dv = views(deps@);
    let mut j: usize = 0;
    while j < names.len()
        invariant
            j <= names@.len(),
            pv == params_view(names@),
            dv == views(deps@),
            ts_view(acts@) == ts_view(a0) + binds_of(pv.take(j as int), intro, dv),
            run_from(acts@, 0) == run_from(a0, 0),
        decreases names@.len() - j,
    {
        let d = copy_strings(deps);
        assert(names_view(d@) =~= views(d@));
        push_act(
            acts,
            Action::Bind { name: names[j].0.clone(), kind: BindKind::Value, line: names[j].1, intro, deps: d, is_class_def: false },
        );
        assert(binds_of(pv.take(j + 1), intro, dv) =~= binds_of(pv.take(j as int), intro, dv).push(
            ActionV::Bind { name: pv[j as int].0, kind: BindKind::Value, line: pv[j as int].1, intro, deps: dv, is_class_def: false },
        ));
        j = j + 1;
    }
    assert(pv.take(pv.len() as int) =~= pv);
}

/// A declarator's right-hand side, attributed to `leaf` when given (the driver routes the
/// attribution to a module or class data definition, or back to the function).
pub open spec fn rhs_rule(leaf: Option<Seq<char>>, value: Expr) -> Seq<ActionV<TsV>> {
    match leaf {
        Some(n) => seq![ActionV::OpenAttrib { leaf: n, fallback_to_scope: true }, rec_e(value), ActionV::CloseAttrib],
        None => seq![rec_e(value)],
    }
}

fn rhs<'a>(leaf: Option<String>, value: &'a Expr, acts: &mut Vec<Action<Ts<'a>>>)
    ensures
        grew(
            old(acts)@,
            final(acts)@,
            rhs_rule(
                match leaf {
                    Some(n) => Some(n@),
                    None => None,
                },
                *value,
            ),
        ),
{
    let ghost a0 = acts@;
    let ghost lv = match &leaf {
        Some(n) => Some(n@),
        None => None::<Seq<char>>,
    };
    match leaf {
        Some(name) => {
            push_act(acts, Action::OpenAttrib { leaf: name, fallback_to_scope: true });
            push_act(acts, rec_one(value));
            push_act(acts, Action::CloseAttrib);
        },
        None => push_act(acts, rec_one(value)),
    }
    assert(ts_view(acts@) =~= ts_view(a0) + rhs_rule(lv, *value));
}

// --- declarations ----------------------------------------------------------------------------

/// A declaration binding of `name` at `line`.
pub open spec fn decl_v(name: Seq<char>, line: u32, is_class_def: bool) -> ActionV<TsV> {
    ActionV::Bind { name, kind: BindKind::Decl, line, intro: false, deps: Seq::empty(), is_class_def }
}

/// A scope named `leaf` binding `params`.
pub open spec fn scope_v(leaf: Seq<char>, params: Seq<(Seq<char>, u32)>, is_class: bool) -> ActionV<TsV> {
    ActionV::OpenScope { leaf, params, is_class, is_namespace: false, nonlocals: Seq::empty() }
}

/// An arrow given to a name (`const f = (x) => …`): a declaration and its own named scope.
pub open spec fn named_arrow_rule(name: Seq<char>, line: u32, a: Arrow) -> Seq<ActionV<TsV>> {
    seq![decl_v(name, line, false), scope_v(name, params_names(a.params), false), ActionV::Recurse(stmts_v(a.body@)), ActionV::Close]
}

fn named_arrow<'a>(name: String, line: u32, a: &'a Arrow, acts: &mut Vec<Action<Ts<'a>>>)
    ensures
        grew(old(acts)@, final(acts)@, named_arrow_rule(name@, line, *a)),
{
    let ghost a0 = acts@;
    assert(names_view(Seq::<String>::empty()) =~= Seq::<Seq<char>>::empty());
    push_act(acts, Action::Bind { name: name.clone(), kind: BindKind::Decl, line, intro: false, deps: Vec::new(), is_class_def: false });
    push_act(
        acts,
        Action::OpenScope { leaf: name, params: params(&a.params), is_class: false, is_namespace: false, nonlocals: Vec::new() },
    );
    push_act(acts, rec_stmts(&a.body));
    push_act(acts, Action::Close);
    assert(ts_view(acts@) =~= ts_view(a0) + named_arrow_rule(name@, line, *a));
}

/// A function declaration or method: a declaration and its own scope (parameters and body).
pub open spec fn function_rule(name: Seq<char>, line: u32, f: Function) -> Seq<ActionV<TsV>> {
    seq![decl_v(name, line, false), scope_v(name, params_names(f.params), false)] + match f.body {
        Some(b) => seq![ActionV::Recurse(stmts_v(b@))],
        None => Seq::empty(),
    } + seq![ActionV::Close]
}

fn function<'a>(name: String, line: u32, f: &'a Function, acts: &mut Vec<Action<Ts<'a>>>)
    ensures
        grew(old(acts)@, final(acts)@, function_rule(name@, line, *f)),
{
    let ghost a0 = acts@;
    assert(names_view(Seq::<String>::empty()) =~= Seq::<Seq<char>>::empty());
    push_act(acts, Action::Bind { name: name.clone(), kind: BindKind::Decl, line, intro: false, deps: Vec::new(), is_class_def: false });
    push_act(
        acts,
        Action::OpenScope { leaf: name, params: params(&f.params), is_class: false, is_namespace: false, nonlocals: Vec::new() },
    );
    match &f.body {
        Some(body) => push_act(acts, rec_stmts(body)),
        None => {},
    }
    push_act(acts, Action::Close);
    assert(ts_view(acts@) =~= ts_view(a0) + function_rule(name@, line, *f));
}

/// The dependencies of a declarator or field: what its initializer reads.
pub open spec fn init_deps(init: Option<Expr>) -> Seq<Seq<char>> {
    match init {
        Some(i) => ts_loads(i),
        None => Seq::empty(),
    }
}

/// A class member.
pub open spec fn element_rule(el: ClassElement) -> Seq<ActionV<TsV>> {
    match el {
        ClassElement::Method { key, line, value } => match key {
            Some(k) => function_rule(k.name@, k.line, value),
            None => function_rule("<computed>"@, line, value),
        },
        ClassElement::Property { key, value } => match key {
            Some(k) => match value {
                // a field given an arrow or a function is really a method, named after the field
                Some(Expr::Arrow(a)) => named_arrow_rule(k.name@, k.line, a),
                Some(Expr::Function(f)) => function_rule(k.name@, k.line, f),
                // otherwise a data definition; its right-hand side counts for it
                _ => seq![
                    ActionV::Bind {
                        name: k.name@,
                        kind: BindKind::Value,
                        line: k.line,
                        intro: false,
                        deps: init_deps(value),
                        is_class_def: false,
                    },
                ] + match value {
                    Some(v) => rhs_rule(Some(k.name@), v),
                    None => Seq::empty(),
                },
            },
            None => Seq::empty(),
        },
        ClassElement::StaticBlock(b) => seq![ActionV::Recurse(stmts_v(b@))],
        ClassElement::Accessor(v) => match v {
            Some(x) => seq![rec_e(x)],
            None => Seq::empty(),
        },
        ClassElement::IndexSignature => Seq::empty(),
    }
}

/// The first `k` members of a class body.
pub open spec fn elements_rule(els: Seq<ClassElement>, k: int) -> Seq<ActionV<TsV>>
    decreases k,
{
    if k <= 0 || k > els.len() {
        Seq::empty()
    } else {
        elements_rule(els, k - 1) + element_rule(els[k - 1])
    }
}

/// A class: a declaration, its superclass read outside, then its own class scope.
pub open spec fn class_rule(name: Seq<char>, line: u32, c: Class) -> Seq<ActionV<TsV>> {
    seq![decl_v(name, line, true)] + match c.super_class {
        Some(s) => seq![rec_e(s)],
        None => Seq::empty(),
    } + seq![scope_v(name, Seq::empty(), true)] + elements_rule(c.body@, c.body@.len() as int) + seq![ActionV::Close]
}

fn class<'a>(name: String, line: u32, c: &'a Class, acts: &mut Vec<Action<Ts<'a>>>)
    ensures
        grew(old(acts)@, final(acts)@, class_rule(name@, line, *c)),
{
    let ghost a0 = acts@;
    assert(names_view(Seq::<String>::empty()) =~= Seq::<Seq<char>>::empty());
    assert(params_view(Seq::<(String, u32)>::empty()) =~= Seq::<(Seq<char>, u32)>::empty());
    push_act(acts, Action::Bind { name: name.clone(), kind: BindKind::Decl, line, intro: false, deps: Vec::new(), is_class_def: true });
    match &c.super_class {
        Some(sup) => push_act(acts, rec_one(sup)),
        None => {},
    }
    push_act(acts, Action::OpenScope { leaf: name, params: Vec::new(), is_class: true, is_namespace: false, nonlocals: Vec::new() });
    let ghost a1 = acts@;
    let mut k: usize = 0;
    while k < c.body.len()
        invariant
            k <= c.body@.len(),
            ts_view(acts@) == ts_view(a1) + elements_rule(c.body@, k as int),
            run_from(acts@, 0) == run_from(a1, 0),
        decreases c.body@.len() - k,
    {
        class_element(&c.body[k], acts);
        assert(ts_view(acts@) =~= ts_view(a1) + elements_rule(c.body@, k + 1));
        k = k + 1;
    }
    push_act(acts, Action::Close);
    assert(ts_view(acts@) =~= ts_view(a0) + class_rule(name@, line, *c));
}

fn class_element<'a>(el: &'a ClassElement, acts: &mut Vec<Action<Ts<'a>>>)
    ensures
        grew(old(acts)@, final(acts)@, element_rule(*el)),
{
    let ghost a0 = acts@;
    match el {
        ClassElement::Method { key, line, value } => match key {
            Some(k) => function(k.name.clone(), k.line, value, acts),
            None => function("<computed>".to_owned(), *line, value, acts),
        },
        ClassElement::Property { key, value } => match key {
            Some(k) => match value {
                Some(Expr::Arrow(a)) => named_arrow(k.name.clone(), k.line, a, acts),
                Some(Expr::Function(f)) => function(k.name.clone(), k.line, f, acts),
                other => {
                    let deps = match other {
                        Some(val) => collect_loads(val),
                        None => Vec::new(),
                    };
                    assert(names_view(deps@) =~= init_deps(*other));
                    push_act(
                        acts,
                        Action::Bind { name: k.name.clone(), kind: BindKind::Value, line: k.line, intro: false, deps, is_class_def: false },
                    );
                    match other {
                        Some(val) => rhs(Some(k.name.clone()), val, acts),
                        None => {},
                    }
                },
            },
            None => {},
        },
        ClassElement::StaticBlock(b) => push_act(acts, rec_stmts(b)),
        ClassElement::Accessor(v) => match v {
            Some(x) => push_act(acts, rec_one(x)),
            None => {},
        },
        ClassElement::IndexSignature => {},
    }
    assert(ts_view(acts@) =~= ts_view(a0) + element_rule(*el));
}

/// What one declarator of a `var`/`let`/`const` lowers to: a single name given an arrow, a
/// function or a class is a named definition (components, hooks, handlers) whose scope is named
/// after it; otherwise its names bind as values depending on what the initializer reads (as
/// introducers for a hook's result, pinned by the rules of hooks), and the initializer recurses
/// (counting for the single name).
pub open spec fn declarator_rule(d: Declarator) -> Seq<ActionV<TsV>> {
    let plain = binds_of(
        ts_pat_names(d.id),
        match d.init {
            Some(i) => hook_call(i),
            None => false,
        },
        init_deps(d.init),
    ) + match d.init {
        Some(init) => rhs_rule(single_name_of(d.id), init),
        None => Seq::empty(),
    };
    match (single_name_of(d.id), d.init) {
        (Some(name), Some(init)) => match init {
            Expr::Arrow(a) => named_arrow_rule(name, d.line, a),
            Expr::Function(f) => function_rule(name, d.line, f),
            Expr::Class(c) => class_rule(name, d.line, *c),
            _ => plain,
        },
        _ => plain,
    }
}

/// The first `k` declarators.
pub open spec fn declarators_rule(ds: Seq<Declarator>, k: int) -> Seq<ActionV<TsV>>
    decreases k,
{
    if k <= 0 || k > ds.len() {
        Seq::empty()
    } else {
        declarators_rule(ds, k - 1) + declarator_rule(ds[k - 1])
    }
}

/// `var`/`let`/`const`.
pub open spec fn var_rule(v: VarDecl) -> Seq<ActionV<TsV>> {
    declarators_rule(v.declarations@, v.declarations@.len() as int)
}

fn declarator<'a>(d: &'a Declarator, acts: &mut Vec<Action<Ts<'a>>>)
    ensures
        grew(old(acts)@, final(acts)@, declarator_rule(*d)),
{
    let ghost a0 = acts@;
    let named: bool = match (single_name(&d.id), &d.init) {
        (Some(name), Some(init)) => match init {
            Expr::Arrow(a) => {
                named_arrow(name, d.line, a, acts);
                true
            },
            Expr::Function(f) => {
                function(name, d.line, f, acts);
                true
            },
            Expr::Class(c) => {
                class(name, d.line, c, acts);
                true
            },
            _ => false,
        },
        _ => false,
    };
    if !named {
        let deps = match &d.init {
            Some(init) => collect_loads(init),
            None => Vec::new(),
        };
        assert(views(deps@) =~= init_deps(d.init));
        // a hook's result is positionally pinned: an introducer, like a loop-carried seed
        let intro = match &d.init {
            Some(init) => is_hook_call(init),
            None => false,
        };
        let mut names: Vec<(String, u32)> = Vec::new();
        assert(params_view(names@) =~= Seq::<(Seq<char>, u32)>::empty());
        pat_binds(&d.id, &mut names);
        assert(params_view(names@) =~= ts_pat_names(d.id));
        bind_all(&names, intro, &deps, acts);
        match &d.init {
            Some(init) => rhs(single_name(&d.id), init, acts),
            None => {},
        }
    }
    assert(ts_view(acts@) =~= ts_view(a0) + declarator_rule(*d));
}

fn var_decl<'a>(v: &'a VarDecl, acts: &mut Vec<Action<Ts<'a>>>)
    ensures
        grew(old(acts)@, final(acts)@, var_rule(*v)),
{
    let ghost a0 = acts@;
    let mut k: usize = 0;
    while k < v.declarations.len()
        invariant
            k <= v.declarations@.len(),
            ts_view(acts@) == ts_view(a0) + declarators_rule(v.declarations@, k as int),
            run_from(acts@, 0) == run_from(a0, 0),
        decreases v.declarations@.len() - k,
    {
        declarator(&v.declarations[k], acts);
        assert(ts_view(acts@) =~= ts_view(a0) + declarators_rule(v.declarations@, k + 1));
        k = k + 1;
    }
}

/// An exportable declaration: a function or class without a name declares nothing.
pub open spec fn declaration_rule(d: Decl) -> Seq<ActionV<TsV>> {
    match d {
        Decl::Var(v) => var_rule(v),
        Decl::Function(f) => match f.id {
            Some(id) => function_rule(id.name@, id.line, f),
            None => Seq::empty(),
        },
        Decl::Class(c) => match c.id {
            Some(id) => class_rule(id.name@, id.line, c),
            None => Seq::empty(),
        },
        Decl::Other => Seq::empty(),
    }
}

fn declaration<'a>(d: &'a Decl, acts: &mut Vec<Action<Ts<'a>>>)
    ensures
        grew(old(acts)@, final(acts)@, declaration_rule(*d)),
{
    let ghost a0 = acts@;
    match d {
        Decl::Var(v) => var_decl(v, acts),
        Decl::Function(f) => match &f.id {
            Some(id) => function(id.name.clone(), id.line, f, acts),
            None => {},
        },
        Decl::Class(c) => match &c.id {
            Some(id) => class(id.name.clone(), id.line, c, acts),
            None => {},
        },
        Decl::Other => {},
    }
    assert(ts_view(acts@) =~= ts_view(a0) + declaration_rule(*d));
}


// --- statements ------------------------------------------------------------------------------

/// A block of statements, a loop body or not.
pub open spec fn block_rule(stmts: Seq<Stmt>, is_loop: bool) -> Seq<ActionV<TsV>> {
    seq![ActionV::OpenBlock { is_loop }, ActionV::Recurse(stmts_v(stmts)), ActionV::Close]
}

fn block<'a>(stmts: &'a Vec<Stmt>, is_loop: bool, acts: &mut Vec<Action<Ts<'a>>>)
    ensures
        grew(old(acts)@, final(acts)@, block_rule(stmts@, is_loop)),
{
    let ghost a0 = acts@;
    push_act(acts, Action::OpenBlock { is_loop });
    push_act(acts, rec_stmts(stmts));
    push_act(acts, Action::Close);
    assert(ts_view(acts@) =~= ts_view(a0) + block_rule(stmts@, is_loop));
}

/// A recursion into an optional expression.
pub open spec fn opt_rule(o: Option<Expr>) -> Seq<ActionV<TsV>> {
    match o {
        Some(x) => seq![rec_e(x)],
        None => Seq::empty(),
    }
}

fn opt_rec<'a>(o: &'a Option<Expr>, acts: &mut Vec<Action<Ts<'a>>>)
    ensures
        grew(old(acts)@, final(acts)@, opt_rule(*o)),
{
    let ghost a0 = acts@;
    match o {
        Some(x) => push_act(acts, rec_one(x)),
        None => {},
    }
    assert(ts_view(acts@) =~= ts_view(a0) + opt_rule(*o));
}

/// Bind each of `names` as an introducer (a loop variable, a `catch` parameter).
fn bind_introducers<'a>(names: &Vec<(String, u32)>, acts: &mut Vec<Action<Ts<'a>>>)
    ensures
        grew(old(acts)@, final(acts)@, binds_of(params_view(names@), true, Seq::empty())),
{
    let none: Vec<String> = Vec::new();
    assert(views(none@) =~= Seq::<Seq<char>>::empty());
    bind_all(names, true, &none, acts);
}

/// The names the first `k` declarators bind, in order.
pub open spec fn decls_names(ds: Seq<Declarator>, k: int) -> Seq<(Seq<char>, u32)>
    decreases k,
{
    if k <= 0 || k > ds.len() {
        Seq::empty()
    } else {
        decls_names(ds, k - 1) + ts_pat_names(ds[k - 1].id)
    }
}

/// `for … of` / `for … in`: the iterated expression outside, then a loop block in which a declared
/// loop variable binds as an introducer before the body.
pub open spec fn for_each_rule(left: ForLeft, right: Expr, body: Stmt) -> Seq<ActionV<TsV>> {
    seq![rec_e(right), ActionV::OpenBlock { is_loop: true }] + match left {
        ForLeft::Var(v) => binds_of(decls_names(v.declarations@, v.declarations@.len() as int), true, Seq::empty()),
        ForLeft::Other => Seq::empty(),
    } + seq![rec_s(body), ActionV::Close]
}

fn for_each<'a>(left: &'a ForLeft, right: &'a Expr, body: &'a Stmt, acts: &mut Vec<Action<Ts<'a>>>)
    ensures
        grew(old(acts)@, final(acts)@, for_each_rule(*left, *right, *body)),
{
    let ghost a0 = acts@;
    push_act(acts, rec_one(right));
    push_act(acts, Action::OpenBlock { is_loop: true });
    let ghost a1 = acts@;
    match left {
        ForLeft::Var(v) => {
            let mut names: Vec<(String, u32)> = Vec::new();
            assert(params_view(names@) =~= Seq::<(Seq<char>, u32)>::empty());
            let mut k: usize = 0;
            while k < v.declarations.len()
                invariant
                    k <= v.declarations@.len(),
                    params_view(names@) == decls_names(v.declarations@, k as int),
                decreases v.declarations@.len() - k,
            {
                pat_binds(&v.declarations[k].id, &mut names);
                k = k + 1;
            }
            bind_introducers(&names, acts);
        },
        ForLeft::Other => {},
    }
    assert(ts_view(acts@) =~= ts_view(a1) + match *left {
        ForLeft::Var(v) => binds_of(decls_names(v.declarations@, v.declarations@.len() as int), true, Seq::empty()),
        ForLeft::Other => Seq::empty(),
    });
    push_act(acts, rec_stmt(body));
    push_act(acts, Action::Close);
    assert(ts_view(acts@) =~= ts_view(a0) + for_each_rule(*left, *right, *body));
}

/// A `catch` clause: a block in which the parameter's names bind as introducers before the body.
pub open spec fn catch_rule(h: CatchClause) -> Seq<ActionV<TsV>> {
    seq![ActionV::OpenBlock { is_loop: false }] + match h.param {
        Some(p) => binds_of(ts_pat_names(p), true, Seq::empty()),
        None => Seq::empty(),
    } + seq![ActionV::Recurse(stmts_v(h.body@)), ActionV::Close]
}

fn catch_clause<'a>(h: &'a CatchClause, acts: &mut Vec<Action<Ts<'a>>>)
    ensures
        grew(old(acts)@, final(acts)@, catch_rule(*h)),
{
    let ghost a0 = acts@;
    push_act(acts, Action::OpenBlock { is_loop: false });
    let ghost a1 = acts@;
    match &h.param {
        Some(p) => {
            let mut names: Vec<(String, u32)> = Vec::new();
            assert(params_view(names@) =~= Seq::<(Seq<char>, u32)>::empty());
            pat_binds(p, &mut names);
            assert(params_view(names@) =~= ts_pat_names(*p));
            bind_introducers(&names, acts);
        },
        None => {},
    }
    assert(ts_view(acts@) =~= ts_view(a1) + match h.param {
        Some(p) => binds_of(ts_pat_names(p), true, Seq::empty()),
        None => Seq::empty(),
    });
    push_act(acts, rec_stmts(&h.body));
    push_act(acts, Action::Close);
    assert(ts_view(acts@) =~= ts_view(a0) + catch_rule(*h));
}

/// A `case` of a `switch`: a block with its test and statements.
pub open spec fn case_rule(c: SwitchCase) -> Seq<ActionV<TsV>> {
    seq![ActionV::OpenBlock { is_loop: false }] + opt_rule(c.test) + seq![ActionV::Recurse(stmts_v(c.consequent@)), ActionV::Close]
}

/// The first `k` cases of a `switch`.
pub open spec fn cases_rule(cs: Seq<SwitchCase>, k: int) -> Seq<ActionV<TsV>>
    decreases k,
{
    if k <= 0 || k > cs.len() {
        Seq::empty()
    } else {
        cases_rule(cs, k - 1) + case_rule(cs[k - 1])
    }
}

fn switch_case<'a>(case: &'a SwitchCase, acts: &mut Vec<Action<Ts<'a>>>)
    ensures
        grew(old(acts)@, final(acts)@, case_rule(*case)),
{
    let ghost a0 = acts@;
    push_act(acts, Action::OpenBlock { is_loop: false });
    opt_rec(&case.test, acts);
    push_act(acts, rec_stmts(&case.consequent));
    push_act(acts, Action::Close);
    assert(ts_view(acts@) =~= ts_view(a0) + case_rule(*case));
}

/// The bindings of an `import`'s local names.
pub open spec fn imports_v(ns: Seq<Name>) -> Seq<ActionV<TsV>> {
    ns.map_values(
        |n: Name| ActionV::Bind { name: n.name@, kind: BindKind::Import, line: n.line, intro: false, deps: Seq::empty(), is_class_def: false },
    )
}

fn import_binds<'a>(locals: &Vec<Name>, acts: &mut Vec<Action<Ts<'a>>>)
    ensures
        grew(old(acts)@, final(acts)@, imports_v(locals@)),
{
    let ghost a0 = acts@;
    let mut k: usize = 0;
    while k < locals.len()
        invariant
            k <= locals@.len(),
            ts_view(acts@) == ts_view(a0) + imports_v(locals@.take(k as int)),
            run_from(acts@, 0) == run_from(a0, 0),
        decreases locals@.len() - k,
    {
        assert(names_view(Seq::<String>::empty()) =~= Seq::<Seq<char>>::empty());
        push_act(
            acts,
            Action::Bind {
                name: locals[k].name.clone(),
                kind: BindKind::Import,
                line: locals[k].line,
                intro: false,
                deps: Vec::new(),
                is_class_def: false,
            },
        );
        assert(imports_v(locals@.take(k + 1)) =~= imports_v(locals@.take(k as int)).push(
            ActionV::Bind {
                name: locals@[k as int].name@,
                kind: BindKind::Import,
                line: locals@[k as int].line,
                intro: false,
                deps: Seq::empty(),
                is_class_def: false,
            },
        ));
        k = k + 1;
    }
    assert(locals@.take(locals@.len() as int) =~= locals@);
}

/// What `export default` lowers to: an anonymous function or class is named `<default>`.
pub open spec fn default_rule(line: u32, d: DefaultExport) -> Seq<ActionV<TsV>> {
    match d {
        DefaultExport::Function(f) => match f.id {
            Some(id) => function_rule(id.name@, id.line, f),
            None => function_rule("<default>"@, line, f),
        },
        DefaultExport::Class(c) => match c.id {
            Some(id) => class_rule(id.name@, id.line, c),
            None => class_rule("<default>"@, line, c),
        },
        DefaultExport::Expr(x) => seq![rec_e(x)],
        DefaultExport::Other => Seq::empty(),
    }
}

/// The head of a `for (init; …)`.
pub open spec fn for_init_rule(init: Option<ForInit>) -> Seq<ActionV<TsV>> {
    match init {
        Some(ForInit::Var(v)) => var_rule(v),
        Some(ForInit::Expr(e)) => seq![rec_e(e)],
        None => Seq::empty(),
    }
}

/// What a statement lowers to. Blocks, loops, `catch` and `case` bodies open blocks (a loop body
/// is marked, so that nothing narrows into it); a `for` head's declarations live in the loop's
/// block; `break`, `continue` and type-only declarations lower to nothing.
pub open spec fn ts_stmt_rule(s: Stmt) -> Seq<ActionV<TsV>> {
    match s {
        Stmt::Var(v) => var_rule(v),
        Stmt::Function(f) => match f.id {
            Some(id) => function_rule(id.name@, id.line, f),
            None => Seq::empty(),
        },
        Stmt::Class(c) => match c.id {
            Some(id) => class_rule(id.name@, id.line, c),
            None => Seq::empty(),
        },
        Stmt::Import(specs) => match specs {
            Some(locals) => imports_v(locals@),
            None => Seq::empty(),
        },
        Stmt::ExportNamed(d) => match d {
            Some(decl) => declaration_rule(decl),
            None => Seq::empty(),
        },
        Stmt::ExportDefault { line, decl } => default_rule(line, decl),
        Stmt::Expr(e) => seq![rec_e(e)],
        Stmt::Block(b) => block_rule(b@, false),
        Stmt::If { test, consequent, alternate } => seq![rec_e(test), rec_s(*consequent)] + match alternate {
            Some(alt) => seq![rec_s(*alt)],
            None => Seq::empty(),
        },
        Stmt::For { init, test, update, body } => seq![ActionV::OpenBlock { is_loop: true }] + for_init_rule(init) + opt_rule(test)
            + opt_rule(update) + seq![rec_s(*body), ActionV::Close],
        Stmt::ForEach { left, right, body } => for_each_rule(left, right, *body),
        Stmt::While { test, body } => seq![rec_e(test), rec_s(*body)],
        Stmt::DoWhile { body, test } => seq![rec_s(*body), rec_e(test)],
        Stmt::Return(v) => opt_rule(v),
        Stmt::Throw(x) => seq![rec_e(x)],
        Stmt::Try { block, handler, finalizer } => block_rule(block@, false) + match handler {
            Some(h) => catch_rule(h),
            None => Seq::empty(),
        } + match finalizer {
            Some(f) => block_rule(f@, false),
            None => Seq::empty(),
        },
        Stmt::Switch { discriminant, cases } => seq![rec_e(discriminant)] + cases_rule(cases@, cases@.len() as int),
        Stmt::Labeled(b) => seq![rec_s(*b)],
        Stmt::Other => Seq::empty(),
    }
}

fn default_export<'a>(line: u32, d: &'a DefaultExport, acts: &mut Vec<Action<Ts<'a>>>)
    ensures
        grew(old(acts)@, final(acts)@, default_rule(line, *d)),
{
    let ghost a0 = acts@;
    match d {
        DefaultExport::Function(f) => match &f.id {
            Some(id) => function(id.name.clone(), id.line, f, acts),
            None => function("<default>".to_owned(), line, f, acts),
        },
        DefaultExport::Class(c) => match &c.id {
            Some(id) => class(id.name.clone(), id.line, c, acts),
            None => class("<default>".to_owned(), line, c, acts),
        },
        DefaultExport::Expr(x) => push_act(acts, rec_one(x)),
        DefaultExport::Other => {},
    }
    assert(ts_view(acts@) =~= ts_view(a0) + default_rule(line, *d));
}

fn for_stmt<'a>(
    init: &'a Option<ForInit>,
    test: &'a Option<Expr>,
    update: &'a Option<Expr>,
    body: &'a Stmt,
    acts: &mut Vec<Action<Ts<'a>>>,
)
    ensures
        grew(
            old(acts)@,
            final(acts)@,
            seq![ActionV::OpenBlock { is_loop: true }] + for_init_rule(*init) + opt_rule(*test) + opt_rule(*update) + seq![
                rec_s(*body),
                ActionV::Close,
            ],
        ),
{
    let ghost a0 = acts@;
    push_act(acts, Action::OpenBlock { is_loop: true });
    let ghost a1 = acts@;
    match init {
        Some(ForInit::Var(v)) => var_decl(v, acts),
        Some(ForInit::Expr(e)) => push_act(acts, rec_one(e)),
        None => {},
    }
    assert(ts_view(acts@) =~= ts_view(a1) + for_init_rule(*init));
    opt_rec(test, acts);
    opt_rec(update, acts);
    push_act(acts, rec_stmt(body));
    push_act(acts, Action::Close);
    assert(ts_view(acts@) =~= ts_view(a0) + (seq![ActionV::OpenBlock { is_loop: true }] + for_init_rule(*init) + opt_rule(*test)
        + opt_rule(*update) + seq![rec_s(*body), ActionV::Close]));
}

fn try_stmt<'a>(
    b: &'a Vec<Stmt>,
    handler: &'a Option<CatchClause>,
    finalizer: &'a Option<Vec<Stmt>>,
    acts: &mut Vec<Action<Ts<'a>>>,
)
    ensures
        grew(
            old(acts)@,
            final(acts)@,
            block_rule(b@, false) + match *handler {
                Some(h) => catch_rule(h),
                None => Seq::empty(),
            } + match *finalizer {
                Some(f) => block_rule(f@, false),
                None => Seq::empty(),
            },
        ),
{
    let ghost a0 = acts@;
    block(b, false, acts);
    let ghost a1 = acts@;
    match handler {
        Some(h) => catch_clause(h, acts),
        None => {},
    }
    assert(ts_view(acts@) =~= ts_view(a1) + match *handler {
        Some(h) => catch_rule(h),
        None => Seq::empty(),
    });
    let ghost a2 = acts@;
    match finalizer {
        Some(f) => block(f, false, acts),
        None => {},
    }
    assert(ts_view(acts@) =~= ts_view(a2) + match *finalizer {
        Some(f) => block_rule(f@, false),
        None => Seq::empty(),
    });
    assert(ts_view(acts@) =~= ts_view(a0) + (block_rule(b@, false) + match *handler {
        Some(h) => catch_rule(h),
        None => Seq::empty(),
    } + match *finalizer {
        Some(f) => block_rule(f@, false),
        None => Seq::empty(),
    }));
}

fn switch_stmt<'a>(discriminant: &'a Expr, cases: &'a Vec<SwitchCase>, acts: &mut Vec<Action<Ts<'a>>>)
    ensures
        grew(old(acts)@, final(acts)@, seq![rec_e(*discriminant)] + cases_rule(cases@, cases@.len() as int)),
{
    let ghost a0 = acts@;
    push_act(acts, rec_one(discriminant));
    let ghost a1 = acts@;
    let mut k: usize = 0;
    while k < cases.len()
        invariant
            k <= cases@.len(),
            ts_view(acts@) == ts_view(a1) + cases_rule(cases@, k as int),
            run_from(acts@, 0) == run_from(a1, 0),
        decreases cases@.len() - k,
    {
        switch_case(&cases[k], acts);
        assert(ts_view(acts@) =~= ts_view(a1) + cases_rule(cases@, k + 1));
        k = k + 1;
    }
    assert(ts_view(acts@) =~= ts_view(a0) + (seq![rec_e(*discriminant)] + cases_rule(cases@, cases@.len() as int)));
}

fn stmt_actions<'a>(s: &'a Stmt) -> (r: Vec<Action<Ts<'a>>>)
    ensures
        ts_view(r@) == ts_stmt_rule(*s),
        balanced(r@),
{
    let mut acts: Vec<Action<Ts<'a>>> = Vec::new();
    assert(ts_view(acts@) =~= Seq::<ActionV<TsV>>::empty());
    assert(run_from(acts@, 0) == Some(0int));
    match s {
        Stmt::Var(v) => var_decl(v, &mut acts),
        Stmt::Function(f) => match &f.id {
            Some(id) => function(id.name.clone(), id.line, f, &mut acts),
            None => {},
        },
        Stmt::Class(c) => match &c.id {
            Some(id) => class(id.name.clone(), id.line, c, &mut acts),
            None => {},
        },
        Stmt::Import(specs) => match specs {
            Some(locals) => import_binds(locals, &mut acts),
            None => {},
        },
        Stmt::ExportNamed(d) => match d {
            Some(decl) => declaration(decl, &mut acts),
            None => {},
        },
        Stmt::ExportDefault { line, decl } => default_export(*line, decl, &mut acts),
        Stmt::Expr(e) => push_act(&mut acts, rec_one(e)),
        Stmt::Block(b) => block(b, false, &mut acts),
        Stmt::If { test, consequent, alternate } => {
            push_act(&mut acts, rec_one(test));
            push_act(&mut acts, rec_stmt(consequent));
            match alternate {
                Some(alt) => push_act(&mut acts, rec_stmt(alt)),
                None => {},
            }
        },
        Stmt::For { init, test, update, body } => for_stmt(init, test, update, body, &mut acts),
        Stmt::ForEach { left, right, body } => for_each(left, right, body, &mut acts),
        Stmt::While { test, body } => {
            push_act(&mut acts, rec_one(test));
            push_act(&mut acts, rec_stmt(body));
        },
        Stmt::DoWhile { body, test } => {
            push_act(&mut acts, rec_stmt(body));
            push_act(&mut acts, rec_one(test));
        },
        Stmt::Return(v) => opt_rec(v, &mut acts),
        Stmt::Throw(x) => push_act(&mut acts, rec_one(x)),
        Stmt::Try { block: b, handler, finalizer } => try_stmt(b, handler, finalizer, &mut acts),
        Stmt::Switch { discriminant, cases } => switch_stmt(discriminant, cases, &mut acts),
        Stmt::Labeled(b) => push_act(&mut acts, rec_stmt(b)),
        Stmt::Other => {},
    }
    assert(ts_view(acts@) =~= ts_stmt_rule(*s));
    acts
}

// --- expressions -----------------------------------------------------------------------------

/// An anonymous arrow: a scope of its own (parameters and body).
pub open spec fn arrow_rule(a: Arrow) -> Seq<ActionV<TsV>> {
    seq![scope_v("<arrow>"@, params_names(a.params), false), ActionV::Recurse(stmts_v(a.body@)), ActionV::Close]
}

fn arrow<'a>(a: &'a Arrow, acts: &mut Vec<Action<Ts<'a>>>)
    ensures
        grew(old(acts)@, final(acts)@, arrow_rule(*a)),
{
    let ghost a0 = acts@;
    assert(names_view(Seq::<String>::empty()) =~= Seq::<Seq<char>>::empty());
    push_act(
        acts,
        Action::OpenScope {
            leaf: "<arrow>".to_owned(),
            params: params(&a.params),
            is_class: false,
            is_namespace: false,
            nonlocals: Vec::new(),
        },
    );
    push_act(acts, rec_stmts(&a.body));
    push_act(acts, Action::Close);
    assert(ts_view(acts@) =~= ts_view(a0) + arrow_rule(*a));
}

/// A function expression: a scope named after the function, or `<function>`.
pub open spec fn func_expr_rule(f: Function) -> Seq<ActionV<TsV>> {
    seq![
        scope_v(
            match f.id {
                Some(id) => id.name@,
                None => "<function>"@,
            },
            params_names(f.params),
            false,
        ),
    ] + match f.body {
        Some(b) => seq![ActionV::Recurse(stmts_v(b@))],
        None => Seq::empty(),
    } + seq![ActionV::Close]
}

fn func_expr<'a>(f: &'a Function, acts: &mut Vec<Action<Ts<'a>>>)
    ensures
        grew(old(acts)@, final(acts)@, func_expr_rule(*f)),
{
    let ghost a0 = acts@;
    let name = match &f.id {
        Some(id) => id.name.clone(),
        None => "<function>".to_owned(),
    };
    assert(names_view(Seq::<String>::empty()) =~= Seq::<Seq<char>>::empty());
    push_act(
        acts,
        Action::OpenScope { leaf: name, params: params(&f.params), is_class: false, is_namespace: false, nonlocals: Vec::new() },
    );
    match &f.body {
        Some(body) => push_act(acts, rec_stmts(body)),
        None => {},
    }
    push_act(acts, Action::Close);
    assert(ts_view(acts@) =~= ts_view(a0) + func_expr_rule(*f));
}

/// `object.property`: on `this` a member reference (resolved in the class scope); on any other
/// object a field access, of which only the object is read.
pub open spec fn static_member_rule(object: Expr, property: Name) -> Seq<ActionV<TsV>> {
    match object {
        Expr::This => seq![use_v(property, true)],
        _ => seq![rec_e(object)],
    }
}

fn static_member<'a>(object: &'a Expr, property: &Name, acts: &mut Vec<Action<Ts<'a>>>)
    ensures
        grew(old(acts)@, final(acts)@, static_member_rule(*object, *property)),
{
    let ghost a0 = acts@;
    match object {
        Expr::This => push_act(acts, Action::Use { name: property.name.clone(), line: property.line, member: true }),
        _ => push_act(acts, rec_one(object)),
    }
    assert(ts_view(acts@) =~= ts_view(a0) + static_member_rule(*object, *property));
}

/// The first `k` members of an object literal: each property value, and each spread, is read.
pub open spec fn members_rule(ms: Seq<ObjectMember>, k: int) -> Seq<ActionV<TsV>>
    decreases k,
{
    if k <= 0 || k > ms.len() {
        Seq::empty()
    } else {
        members_rule(ms, k - 1) + match ms[k - 1] {
            ObjectMember::Property(v) => seq![rec_e(v)],
            ObjectMember::Spread(v) => seq![rec_e(v)],
        }
    }
}

fn object_members<'a>(ms: &'a Vec<ObjectMember>, acts: &mut Vec<Action<Ts<'a>>>)
    ensures
        grew(old(acts)@, final(acts)@, members_rule(ms@, ms@.len() as int)),
{
    let ghost a0 = acts@;
    let mut k: usize = 0;
    while k < ms.len()
        invariant
            k <= ms@.len(),
            ts_view(acts@) == ts_view(a0) + members_rule(ms@, k as int),
            run_from(acts@, 0) == run_from(a0, 0),
        decreases ms@.len() - k,
    {
        match &ms[k] {
            ObjectMember::Property(v) => push_act(acts, rec_one(v)),
            ObjectMember::Spread(v) => push_act(acts, rec_one(v)),
        }
        assert(ts_view(acts@) =~= ts_view(a0) + members_rule(ms@, k + 1));
        k = k + 1;
    }
}

/// The first `k` attributes of a JSX element: a `{…}` value and a spread are read.
pub open spec fn attrs_rule(attrs: Seq<JsxAttr>, k: int) -> Seq<ActionV<TsV>>
    decreases k,
{
    if k <= 0 || k > attrs.len() {
        Seq::empty()
    } else {
        attrs_rule(attrs, k - 1) + match attrs[k - 1] {
            JsxAttr::Container(c) => seq![ActionV::Recurse(seq![TsV::JsxExpr(c)])],
            JsxAttr::Spread(s) => seq![rec_e(s)],
            JsxAttr::Other => Seq::empty(),
        }
    }
}

/// A JSX element: a component tag is a reference; attribute expressions and children are read.
pub open spec fn jsx_element_rule(j: JsxElement) -> Seq<ActionV<TsV>> {
    let tag: Seq<ActionV<TsV>> = match j.name {
        Some(r) => seq![use_v(r, false)],
        None => Seq::empty(),
    };
    tag + attrs_rule(j.attrs@, j.attrs@.len() as int) + seq![ActionV::Recurse(children_v(j.children@))]
}

fn jsx_element<'a>(j: &'a JsxElement, acts: &mut Vec<Action<Ts<'a>>>)
    ensures
        grew(old(acts)@, final(acts)@, jsx_element_rule(*j)),
{
    let ghost a0 = acts@;
    match &j.name {
        Some(r) => push_act(acts, Action::Use { name: r.name.clone(), line: r.line, member: false }),
        None => {},
    }
    let ghost a1 = acts@;
    let mut k: usize = 0;
    while k < j.attrs.len()
        invariant
            k <= j.attrs@.len(),
            ts_view(acts@) == ts_view(a1) + attrs_rule(j.attrs@, k as int),
            run_from(acts@, 0) == run_from(a1, 0),
        decreases j.attrs@.len() - k,
    {
        match &j.attrs[k] {
            JsxAttr::Container(c) => push_act(acts, rec_jsx_expr(c)),
            JsxAttr::Spread(s) => push_act(acts, rec_one(s)),
            JsxAttr::Other => {},
        }
        assert(ts_view(acts@) =~= ts_view(a1) + attrs_rule(j.attrs@, k + 1));
        k = k + 1;
    }
    push_act(acts, rec_children(&j.children));
    assert(ts_view(acts@) =~= ts_view(a0) + jsx_element_rule(*j));
}

/// Recurse into two expressions, in order.
pub open spec fn rec_pair(x: Expr, y: Expr) -> ActionV<TsV> {
    ActionV::Recurse(seq![TsV::Expr(x), TsV::Expr(y)])
}

/// What an expression lowers to. An identifier is a reference; `this.x` is a member reference;
/// arrows, function and class expressions open scopes; an update (`x++`) reads no definition;
/// the rest recurse into their operands in order.
pub open spec fn ts_expr_rule(e: Expr) -> Seq<ActionV<TsV>> {
    match e {
        Expr::Ident(i) => seq![use_v(i, false)],
        Expr::Call { callee, args } => seq![rec_e(*callee), ActionV::Recurse(exprs_v(args@))],
        Expr::New { callee, args } => seq![rec_e(*callee), ActionV::Recurse(exprs_v(args@))],
        Expr::StaticMember { object, property } => static_member_rule(*object, property),
        Expr::ComputedMember(o, x) => seq![rec_pair(*o, *x)],
        Expr::Binary(o, x) => seq![rec_pair(*o, *x)],
        Expr::Logical(o, x) => seq![rec_pair(*o, *x)],
        Expr::Chain(inner) => match *inner {
            Expr::StaticMember { object, property } => static_member_rule(*object, property),
            Expr::ComputedMember(o, x) => seq![rec_pair(*o, *x)],
            Expr::PrivateField(o) => seq![rec_e(*o)],
            _ => Seq::empty(),
        },
        Expr::Unary(x) => seq![rec_e(*x)],
        Expr::Await(x) => seq![rec_e(*x)],
        Expr::Paren(x) => seq![rec_e(*x)],
        Expr::Yield(v) => match v {
            Some(x) => seq![rec_e(*x)],
            None => Seq::empty(),
        },
        Expr::Conditional(t, c, a) => seq![ActionV::Recurse(seq![TsV::Expr(*t), TsV::Expr(*c), TsV::Expr(*a)])],
        Expr::Assign { right, left } => seq![rec_e(*right)] + match left {
            Some(t) => seq![rec_e(*t)],
            None => Seq::empty(),
        },
        Expr::Sequence(es) => seq![ActionV::Recurse(exprs_v(es@))],
        Expr::Array(es) => seq![ActionV::Recurse(exprs_v(es@))],
        Expr::Template(es) => seq![ActionV::Recurse(exprs_v(es@))],
        Expr::Object(ms) => members_rule(ms@, ms@.len() as int),
        Expr::TaggedTemplate { tag, exprs } => seq![rec_e(*tag), ActionV::Recurse(exprs_v(exprs@))],
        Expr::Arrow(a) => arrow_rule(a),
        Expr::Function(f) => func_expr_rule(f),
        Expr::Class(c) => match c.id {
            Some(id) => class_rule(id.name@, id.line, *c),
            None => class_rule("<class>"@, c.line, *c),
        },
        Expr::Jsx(j) => jsx_element_rule(j),
        Expr::JsxFragment(children) => seq![ActionV::Recurse(children_v(children@))],
        _ => Seq::empty(),
    }
}

fn expr_actions<'a>(e: &'a Expr) -> (r: Vec<Action<Ts<'a>>>)
    ensures
        ts_view(r@) == ts_expr_rule(*e),
        balanced(r@),
{
    let mut acts: Vec<Action<Ts<'a>>> = Vec::new();
    assert(ts_view(acts@) =~= Seq::<ActionV<TsV>>::empty());
    assert(run_from(acts@, 0) == Some(0int));
    match e {
        Expr::Ident(i) => push_act(&mut acts, Action::Use { name: i.name.clone(), line: i.line, member: false }),
        Expr::Call { callee, args } | Expr::New { callee, args } => {
            push_act(&mut acts, rec_one(callee));
            push_act(&mut acts, rec_list(args));
        },
        Expr::StaticMember { object, property } => static_member(object, property, &mut acts),
        Expr::ComputedMember(o, x) | Expr::Binary(o, x) | Expr::Logical(o, x) => push_act(&mut acts, rec_two(o, x)),
        Expr::Chain(inner) => match &**inner {
            Expr::StaticMember { object, property } => static_member(object, property, &mut acts),
            Expr::ComputedMember(o, x) => push_act(&mut acts, rec_two(o, x)),
            Expr::PrivateField(o) => push_act(&mut acts, rec_one(o)),
            _ => {},
        },
        Expr::Unary(x) | Expr::Await(x) | Expr::Paren(x) => push_act(&mut acts, rec_one(x)),
        Expr::Yield(v) => match v {
            Some(x) => push_act(&mut acts, rec_one(x)),
            None => {},
        },
        Expr::Conditional(t, c, a) => {
            let mut v: Vec<Ts<'a>> = Vec::new();
            v.push(Ts::Expr(t));
            v.push(Ts::Expr(c));
            v.push(Ts::Expr(a));
            assert(v@.map_values(ts_node()) =~= seq![TsV::Expr(**t), TsV::Expr(**c), TsV::Expr(**a)]);
            push_act(&mut acts, Action::Recurse(v));
        },
        Expr::Assign { right, left } => {
            push_act(&mut acts, rec_one(right));
            match left {
                Some(t) => push_act(&mut acts, rec_one(t)),
                None => {},
            }
        },
        Expr::Sequence(es) | Expr::Array(es) | Expr::Template(es) => push_act(&mut acts, rec_list(es)),
        Expr::Object(members) => object_members(members, &mut acts),
        Expr::TaggedTemplate { tag, exprs } => {
            push_act(&mut acts, rec_one(tag));
            push_act(&mut acts, rec_list(exprs));
        },
        Expr::Arrow(a) => arrow(a, &mut acts),
        Expr::Function(f) => func_expr(f, &mut acts),
        Expr::Class(c) => match &c.id {
            Some(id) => class(id.name.clone(), id.line, c, &mut acts),
            None => class("<class>".to_owned(), c.line, c, &mut acts),
        },
        Expr::Jsx(j) => jsx_element(j, &mut acts),
        Expr::JsxFragment(children) => push_act(&mut acts, rec_children(children)),
        _ => {},
    }
    assert(ts_view(acts@) =~= ts_expr_rule(*e));
    acts
}

/// What a JSX child lowers to.
pub open spec fn jsx_child_rule(c: JsxChild) -> Seq<ActionV<TsV>> {
    match c {
        JsxChild::Element(e) => jsx_element_rule(e),
        JsxChild::Fragment(children) => seq![ActionV::Recurse(children_v(children@))],
        JsxChild::Container(ec) => seq![ActionV::Recurse(seq![TsV::JsxExpr(ec)])],
        JsxChild::Spread(s) => seq![rec_e(s)],
        JsxChild::Text => Seq::empty(),
    }
}

fn jsx_child_actions<'a>(c: &'a JsxChild) -> (r: Vec<Action<Ts<'a>>>)
    ensures
        ts_view(r@) == jsx_child_rule(*c),
        balanced(r@),
{
    let mut acts: Vec<Action<Ts<'a>>> = Vec::new();
    assert(ts_view(acts@) =~= Seq::<ActionV<TsV>>::empty());
    assert(run_from(acts@, 0) == Some(0int));
    match c {
        JsxChild::Element(e) => jsx_element(e, &mut acts),
        JsxChild::Fragment(children) => push_act(&mut acts, rec_children(children)),
        JsxChild::Container(ec) => push_act(&mut acts, rec_jsx_expr(ec)),
        JsxChild::Spread(s) => push_act(&mut acts, rec_one(s)),
        JsxChild::Text => {},
    }
    assert(ts_view(acts@) =~= jsx_child_rule(*c));
    acts
}

/// What the inside of a JSX `{…}` lowers to: its expression, or nothing for a comment.
pub open spec fn jsx_expr_rule(je: JsxExpr) -> Seq<ActionV<TsV>> {
    match je {
        JsxExpr::Expr(e) => seq![rec_e(e)],
        JsxExpr::Empty => Seq::empty(),
    }
}

fn jsx_expr_actions<'a>(je: &'a JsxExpr) -> (r: Vec<Action<Ts<'a>>>)
    ensures
        ts_view(r@) == jsx_expr_rule(*je),
        balanced(r@),
{
    let mut acts: Vec<Action<Ts<'a>>> = Vec::new();
    assert(ts_view(acts@) =~= Seq::<ActionV<TsV>>::empty());
    assert(run_from(acts@, 0) == Some(0int));
    match je {
        JsxExpr::Expr(e) => push_act(&mut acts, rec_one(e)),
        JsxExpr::Empty => {},
    }
    assert(ts_view(acts@) =~= jsx_expr_rule(*je));
    acts
}

/// What a node lowers to: by [`ts_stmt_rule`], [`ts_expr_rule`], [`jsx_child_rule`] or
/// [`jsx_expr_rule`].
pub open spec fn ts_rule() -> spec_fn(TsV) -> Seq<ActionV<TsV>> {
    |n: TsV|
        match n {
            TsV::Stmt(s) => ts_stmt_rule(s),
            TsV::Expr(e) => ts_expr_rule(e),
            TsV::JsxChild(c) => jsx_child_rule(c),
            TsV::JsxExpr(je) => jsx_expr_rule(je),
        }
}

impl<'a> ScopeLang for TsLang<'a> {
    type Node = Ts<'a>;
    type NodeV = TsV;

    open spec fn node_view(&self) -> spec_fn(Ts<'a>) -> TsV {
        ts_node()
    }

    open spec fn lowering(&self) -> spec_fn(TsV) -> Seq<ActionV<TsV>> {
        ts_rule()
    }

    fn actions(&self, node: &Ts<'a>) -> (r: Vec<Action<Ts<'a>>>) {
        match *node {
            Ts::Stmt(s) => stmt_actions(s),
            Ts::Expr(e) => expr_actions(e),
            Ts::JsxChild(c) => jsx_child_actions(c),
            Ts::JsxExpr(je) => jsx_expr_actions(je),
        }
    }
}

} // verus!
