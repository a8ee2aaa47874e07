//! The Rust lowering rules: how each item, statement and expression maps to scope actions
//! ([`rust_item_rule`], [`rust_stmt_rule`], [`rust_expr_rule`]). Every node's actions are
//! bracketed — each block or scope it opens it closes.
//!
//! Rust is block-scoped: a `let` is local to its block. `impl T` maps onto the engine's class
//! notion (methods are `T::method`, `self.m()` and `Self::x` are member references); `const` and
//! `static` are data definitions; an inline `mod` is a namespace. Type references are not
//! references.

use vstd::prelude::*;

use crate::engine::scopegraph::{BindKind, names_view};
use crate::engine::scopelang::{
    Action, ActionV, ScopeLang, action_view, acts_view, balanced, emit, frame_delta, params_view, run_from,
};
use crate::lang::rust::syntax::{Arm, Expr, File, ImplItem, Item, Local, Macro, Name, Pat, Path, Signature, Stmt, Ty, UseTree};
use crate::text::{copy_strings, str_is, views};

verus! {

/// A node to lower: an item, a statement or an expression.
#[derive(Clone, Copy)]
pub enum Ru<'a> {
    Item(&'a Item),
    Stmt(&'a Stmt),
    Expr(&'a Expr),
}

/// A lowered node, as the syntax it points at.
pub enum RuV {
    Item(Item),
    Stmt(Stmt),
    Expr(Expr),
}

/// A lowered node seen as the syntax it points at.
pub open spec fn ru_node<'a>() -> spec_fn(Ru<'a>) -> RuV {
    |n: Ru<'a>|
        match n {
            Ru::Item(i) => RuV::Item(*i),
            Ru::Stmt(s) => RuV::Stmt(*s),
            Ru::Expr(e) => RuV::Expr(*e),
        }
}

/// The Rust scope profile, over one file.
pub struct RuLang<'a> {
    pub file: &'a File,
}

/// The lowering so far, as values.
pub open spec fn ru_view<'a>(acts: Seq<Action<Ru<'a>>>) -> Seq<ActionV<RuV>> {
    acts_view(acts, ru_node())
}

/// `acts` grew by `part` and opened and closed as many frames as it closed and opened.
pub open spec fn grew<'a>(before: Seq<Action<Ru<'a>>>, after: Seq<Action<Ru<'a>>>, part: Seq<ActionV<RuV>>) -> bool {
    ru_view(after) == ru_view(before) + part && run_from(after, 0) == run_from(before, 0)
}

/// Append `a` to a lowering.
fn push_act<'a>(acts: &mut Vec<Action<Ru<'a>>>, a: Action<Ru<'a>>)
    ensures
        ru_view(final(acts)@) == ru_view(old(acts)@).push(action_view(a, ru_node())),
        run_from(final(acts)@, 0) == match run_from(old(acts)@, 0) {
            Some(e) => if e + frame_delta(a) >= 0 { Some(e + frame_delta(a)) } else { None },
            None => None,
        },
{
    let ghost before = acts@;
    emit(acts, a);
    assert(ru_view(acts@) =~= ru_view(before).push(action_view(a, ru_node())));
}

/// Recurse into one expression.
pub open spec fn rec_e(e: Expr) -> ActionV<RuV> {
    ActionV::Recurse(seq![RuV::Expr(e)])
}

/// The expressions as nodes.
pub open spec fn exprs_v(es: Seq<Expr>) -> Seq<RuV> {
    es.map_values(|e: Expr| RuV::Expr(e))
}

/// The statements as nodes.
pub open spec fn stmts_v(ss: Seq<Stmt>) -> Seq<RuV> {
    ss.map_values(|s: Stmt| RuV::Stmt(s))
}

/// The items as nodes.
pub open spec fn items_v(is: Seq<Item>) -> Seq<RuV> {
    is.map_values(|i: Item| RuV::Item(i))
}

fn rec_one<'a>(e: &'a Expr) -> (a: Action<Ru<'a>>)
    ensures
        action_view(a, ru_node()) == rec_e(*e),
        frame_delta(a) == 0,
{
    let mut v: Vec<Ru<'a>> = Vec::new();
    v.push(Ru::Expr(e));
    assert(v@.map_values(ru_node()) =~= seq![RuV::Expr(*e)]);
    Action::Recurse(v)
}

fn rec_two<'a>(x: &'a Expr, y: &'a Expr) -> (a: Action<Ru<'a>>)
    ensures
        action_view(a, ru_node()) == ActionV::<RuV>::Recurse(seq![RuV::Expr(*x), RuV::Expr(*y)]),
        frame_delta(a) == 0,
{
    let mut v: Vec<Ru<'a>> = Vec::new();
    v.push(Ru::Expr(x));
    v.push(Ru::Expr(y));
    assert(v@.map_values(ru_node()) =~= seq![RuV::Expr(*x), RuV::Expr(*y)]);
    Action::Recurse(v)
}

/// Push the expressions of `es` as nodes onto `v`.
fn push_exprs<'a>(v: &mut Vec<Ru<'a>>, es: &'a Vec<Expr>)
    ensures
        final(v)@.map_values(ru_node()) == old(v)@.map_values(ru_node()) + exprs_v(es@),
{
    let ghost v0 = v@.map_values(ru_node());
    let mut i: usize = 0;
    while i < es.len()
        invariant
            i <= es@.len(),
            v@.map_values(ru_node()) == v0 + exprs_v(es@.take(i as int)),
        decreases es@.len() - i,
    {
        let ghost w = v@;
        v.push(Ru::Expr(&es[i]));
        assert(v@.map_values(ru_node()) =~= w.map_values(ru_node()).push(RuV::Expr(es@[i as int])));
        assert(exprs_v(es@.take(i + 1)) =~= exprs_v(es@.take(i as int)).push(RuV::Expr(es@[i as int])));
        i = i + 1;
    }
    assert(es@.take(es@.len() as int) =~= es@);
}

fn rec_list<'a>(es: &'a Vec<Expr>) -> (a: Action<Ru<'a>>)
    ensures
        action_view(a, ru_node()) == ActionV::<RuV>::Recurse(exprs_v(es@)),
        frame_delta(a) == 0,
{
    let mut v: Vec<Ru<'a>> = Vec::new();
    assert(v@.map_values(ru_node()) =~= Seq::<RuV>::empty());
    push_exprs(&mut v, es);
    assert(Seq::<RuV>::empty() + exprs_v(es@) =~= exprs_v(es@));
    Action::Recurse(v)
}

fn rec_stmts<'a>(ss: &'a Vec<Stmt>) -> (a: Action<Ru<'a>>)
    ensures
        action_view(a, ru_node()) == ActionV::<RuV>::Recurse(stmts_v(ss@)),
        frame_delta(a) == 0,
{
    let mut v: Vec<Ru<'a>> = Vec::new();
    let mut i: usize = 0;
    while i < ss.len()
        invariant
            i <= ss@.len(),
            v@.map_values(ru_node()) == stmts_v(ss@.take(i as int)),
        decreases ss@.len() - i,
    {
        let ghost w = v@;
        v.push(Ru::Stmt(&ss[i]));
        assert(v@.map_values(ru_node()) =~= w.map_values(ru_node()).push(RuV::Stmt(ss@[i as int])));
        assert(stmts_v(ss@.take(i + 1)) =~= stmts_v(ss@.take(i as int)).push(RuV::Stmt(ss@[i as int])));
        i = i + 1;
    }
    assert(ss@.take(ss@.len() as int) =~= ss@);
    Action::Recurse(v)
}

/// A brace block: `OpenBlock`, its statements, `Close`.
pub open spec fn block_rule(body: Seq<Stmt>, is_loop: bool) -> Seq<ActionV<RuV>> {
    seq![ActionV::OpenBlock { is_loop }, ActionV::Recurse(stmts_v(body)), ActionV::Close]
}

fn block<'a>(body: &'a Vec<Stmt>, is_loop: bool, acts: &mut Vec<Action<Ru<'a>>>)
    ensures
        grew(old(acts)@, final(acts)@, block_rule(body@, is_loop)),
{
    let ghost a0 = acts@;
    push_act(acts, Action::OpenBlock { is_loop });
    push_act(acts, rec_stmts(body));
    push_act(acts, Action::Close);
    assert(ru_view(acts@) =~= ru_view(a0) + block_rule(body@, is_loop));
}

// --- patterns --------------------------------------------------------------------------------

/// The names a pattern binds, with their lines, in order (destructuring, `ref`/`mut`,
/// sub-patterns).
pub open spec fn pat_names(p: Pat) -> Seq<(Seq<char>, u32)>
    decreases p, 0int,
{
    match p {
        Pat::Ident { name, sub } => seq![(name.name@, name.line)] + match sub {
            Some(s) => pat_names(*s),
            None => Seq::empty(),
        },
        Pat::Group(ps) => {
            proof {
                assert(decreases_to!(p => ps@));
            }
            pat_names_list(ps@, ps@.len() as int)
        },
        Pat::Reference(q) => pat_names(*q),
        Pat::Typed(q) => pat_names(*q),
        Pat::Paren(q) => pat_names(*q),
        Pat::Other => Seq::empty(),
    }
}

/// The names the first `n` patterns of `ps` bind, in order.
pub open spec fn pat_names_list(ps: Seq<Pat>, n: int) -> Seq<(Seq<char>, u32)>
    decreases ps, n,
{
    if n <= 0 || n > ps.len() {
        Seq::empty()
    } else {
        pat_names_list(ps, n - 1) + pat_names(ps[n - 1])
    }
}

fn go_pats(ps: &Vec<Pat>, out: &mut Vec<(String, u32)>)
    ensures
        params_view(final(out)@) == params_view(old(out)@) + pat_names_list(ps@, ps@.len() as int),
    decreases ps@, 1int,
{
    let ghost o0 = params_view(out@);
    let mut k: usize = 0;
    while k < ps.len()
        invariant
            k <= ps@.len(),
            params_view(out@) == o0 + pat_names_list(ps@, k as int),
        decreases ps@.len() - k,
    {
        proof {
            assert(decreases_to!(ps@ => ps@[k as int]));
        }
        go_pat(&ps[k], out);
        assert(pat_names_list(ps@, k + 1) == pat_names_list(ps@, k as int) + pat_names(ps@[k as int]));
        k = k + 1;
    }
}

/// Append the names `pat` binds to `out` (see [`pat_names`]).
fn go_pat(pat: &Pat, out: &mut Vec<(String, u32)>)
    ensures
        params_view(final(out)@) == params_view(old(out)@) + pat_names(*pat),
    decreases *pat, 0int,
{
    let ghost o0 = params_view(out@);
    match pat {
        Pat::Ident { name, sub } => {
            out.push((name.name.clone(), name.line));
            assert(params_view(out@) =~= o0 + seq![(name.name@, name.line)]);
            match sub {
                Some(p) => go_pat(p, out),
                None => {},
            }
        },
        Pat::Group(ps) => {
            proof {
                assert(decreases_to!(*pat => ps@));
            }
            go_pats(ps, out);
        },
        Pat::Reference(p) | Pat::Typed(p) | Pat::Paren(p) => go_pat(p, out),
        Pat::Other => {},
    }
    assert(params_view(out@) =~= o0 + pat_names(*pat));
}

fn pat_binds(pat: &Pat) -> (r: Vec<(String, u32)>)
    ensures
        params_view(r@) == pat_names(*pat),
{
    let mut out: Vec<(String, u32)> = Vec::new();
    assert(params_view(out@) =~= Seq::<(Seq<char>, u32)>::empty());
    go_pat(pat, &mut out);
    assert(Seq::<(Seq<char>, u32)>::empty() + pat_names(*pat) =~= pat_names(*pat));
    out
}

/// The one name a pattern binds when it is a bare binding (through a type ascription or a `&`),
/// so that a `let`'s right-hand side can count for it. Destructuring has none.
pub open spec fn single_ident_of(p: Pat) -> Option<Seq<char>>
    decreases p,
{
    match p {
        Pat::Ident { name, sub } => match sub {
            None => Some(name.name@),
            Some(_) => None,
        },
        Pat::Typed(q) => single_ident_of(*q),
        Pat::Reference(q) => single_ident_of(*q),
        _ => None,
    }
}

fn single_ident(pat: &Pat) -> (r: Option<String>)
    ensures
        match r {
            Some(s) => single_ident_of(*pat) == Some(s@),
            None => single_ident_of(*pat) is None,
        },
    decreases pat,
{
    match pat {
        Pat::Ident { name, sub } => match sub {
            None => Some(name.name.clone()),
            Some(_) => None,
        },
        Pat::Typed(p) | Pat::Reference(p) => single_ident(p),
        _ => None,
    }
}

/// The bindings of `names` as values, introducers or not, each depending on `deps`.
pub open spec fn binds_of(names: Seq<(Seq<char>, u32)>, intro: bool, deps: Seq<Seq<char>>) -> Seq<ActionV<RuV>> {
    names.map_values(
        |nl: (Seq<char>, u32)| ActionV::Bind { name: nl.0, kind: BindKind::Value, line: nl.1, intro, deps, is_class_def: false },
    )
}

/// Bind each of `names` as a value, introducer or not, depending on `deps`.
fn bind_all<'a>(names: &Vec<(String, u32)>, intro: bool, deps: &Vec<String>, acts: &mut Vec<Action<Ru<'a>>>)
    ensures
        grew(old(acts)@, final(acts)@, binds_of(params_view(names@), intro, views(deps@))),
{
    let ghost a0 = acts@;
    let ghost pv = params_view(names@);
    let ghost dv = views(deps@);
    let mut j: usize = 0;
    while j < names.len()
        invariant
            j <= names@.len(),
            pv == params_view(names@),
            dv == views(deps@),
            ru_view(acts@) == ru_view(a0) + binds_of(pv.take(j as int), intro, dv),
            run_from(acts@, 0) == run_from(a0, 0),
        decreases names@.len() - j,
    {
        let d = copy_strings(deps);
        assert(names_view(d@) =~= views(d@));
        push_act(
            acts,
            Action::Bind { name: names[j].0.clone(), kind: BindKind::Value, line: names[j].1, intro, deps: d, is_class_def: false },
        );
        assert(binds_of(pv.take(j + 1), intro, dv) =~= binds_of(pv.take(j as int), intro, dv).push(
            ActionV::Bind { name: pv[j as int].0, kind: BindKind::Value, line: pv[j as int].1, intro, deps: dv, is_class_def: false },
        ));
        j = j + 1;
    }
    assert(pv.take(pv.len() as int) =~= pv);
}

// --- paths -----------------------------------------------------------------------------------

/// Is `head` a path root that leaves the module (`crate`, `super`, `std`, `core`, `alloc`)?
pub open spec fn external_root(head: Seq<char>) -> bool {
    head == "crate"@ || head == "super"@ || head == "std"@ || head == "core"@ || head == "alloc"@
}

fn is_external_root(head: &String) -> (r: bool)
    ensures
        r == external_root(head@),
{
    let h = head.as_str();
    str_is(h, "crate") || str_is(h, "super") || str_is(h, "std") || str_is(h, "core") || str_is(h, "alloc")
}

/// The references of a path expression: a single segment `foo` is a plain reference (bare `self`
/// none); `Self::x` is a member; `Type::x` / `module::x` references its leading segment; a path
/// rooted outside the module is none.
pub open spec fn path_use_rule(path: Path, line: u32) -> Seq<ActionV<RuV>> {
    let segs = path.segments@;
    if segs.len() == 0 {
        Seq::empty()
    } else if segs.len() == 1 {
        if segs[0].name@ == "self"@ {
            Seq::empty()
        } else {
            seq![ActionV::Use { name: segs[0].name@, line, member: false }]
        }
    } else if segs[0].name@ == "Self"@ {
        seq![ActionV::Use { name: segs[1].name@, line, member: true }]
    } else if external_root(segs[0].name@) {
        Seq::empty()
    } else {
        seq![ActionV::Use { name: segs[0].name@, line, member: false }]
    }
}

fn path_use<'a>(path: &Path, line: u32, acts: &mut Vec<Action<Ru<'a>>>)
    ensures
        grew(old(acts)@, final(acts)@, path_use_rule(*path, line)),
{
    let ghost a0 = acts@;
    if path.segments.len() == 0 {
        assert(ru_view(acts@) =~= ru_view(a0) + path_use_rule(*path, line));
        return;
    }
    let head = &path.segments[0].name;
    if path.segments.len() == 1 {
        if !str_is(head.as_str(), "self") {
            push_act(acts, Action::Use { name: head.clone(), line, member: false });
        }
    } else if str_is(head.as_str(), "Self") {
        push_act(acts, Action::Use { name: path.segments[1].name.clone(), line, member: true });
    } else if !is_external_root(head) {
        push_act(acts, Action::Use { name: head.clone(), line, member: false });
    }
    assert(ru_view(acts@) =~= ru_view(a0) + path_use_rule(*path, line));
}

/// The one identifier a path is (`Path::get_ident`): no leading `::`, one segment, no arguments.
fn path_ident(path: &Path) -> (r: Option<&String>)
    ensures
        r matches Some(n) ==> !path.global && path.segments@.len() == 1 && !path.segments@[0].args && n
            == path.segments@[0].name,
        r is None ==> !(!path.global && path.segments@.len() == 1 && !path.segments@[0].args),
{
    if !path.global && path.segments.len() == 1 && !path.segments[0].args {
        Some(&path.segments[0].name)
    } else {
        None
    }
}

/// Is `e` the bare `self`?
pub open spec fn is_self_expr(e: Expr) -> bool {
    match e {
        Expr::Path { path, .. } => !path.global && path.segments@.len() == 1 && !path.segments@[0].args
            && path.segments@[0].name@ == "self"@,
        _ => false,
    }
}

fn is_self(e: &Expr) -> (r: bool)
    ensures
        r == is_self_expr(*e),
{
    match e {
        Expr::Path { path, .. } => match path_ident(path) {
            Some(n) => str_is(n.as_str(), "self"),
            None => false,
        },
        _ => false,
    }
}

/// The names a `use` tree brings into scope, with their lines, in order (renames respected,
/// globs skipped).
pub open spec fn use_tree_names(t: UseTree) -> Seq<(Seq<char>, u32)>
    decreases t, 0int,
{
    match t {
        UseTree::Path(inner) => use_tree_names(*inner),
        UseTree::Name(n) => seq![(n.name@, n.line)],
        UseTree::Rename(n) => seq![(n.name@, n.line)],
        UseTree::Group(items) => {
            proof {
                assert(decreases_to!(t => items@));
            }
            use_trees_names(items@, items@.len() as int)
        },
        UseTree::Glob => Seq::empty(),
    }
}

/// The names the first `n` trees of a group bring into scope, in order.
pub open spec fn use_trees_names(ts: Seq<UseTree>, n: int) -> Seq<(Seq<char>, u32)>
    decreases ts, n,
{
    if n <= 0 || n > ts.len() {
        Seq::empty()
    } else {
        use_trees_names(ts, n - 1) + use_tree_names(ts[n - 1])
    }
}

fn use_names_list(ts: &Vec<UseTree>, out: &mut Vec<(String, u32)>)
    ensures
        params_view(final(out)@) == params_view(old(out)@) + use_trees_names(ts@, ts@.len() as int),
    decreases ts@, 1int,
{
    let ghost o0 = params_view(out@);
    let mut k: usize = 0;
    while k < ts.len()
        invariant
            k <= ts@.len(),
            params_view(out@) == o0 + use_trees_names(ts@, k as int),
        decreases ts@.len() - k,
    {
        proof {
            assert(decreases_to!(ts@ => ts@[k as int]));
        }
        use_names(&ts[k], out);
        assert(use_trees_names(ts@, k + 1) == use_trees_names(ts@, k as int) + use_tree_names(ts@[k as int]));
        k = k + 1;
    }
}

/// Append the names a `use` tree brings into scope to `out` (see [`use_tree_names`]).
fn use_names(tree: &UseTree, out: &mut Vec<(String, u32)>)
    ensures
        params_view(final(out)@) == params_view(old(out)@) + use_tree_names(*tree),
    decreases *tree, 0int,
{
    let ghost o0 = params_view(out@);
    match tree {
        UseTree::Path(t) => use_names(t, out),
        UseTree::Name(n) | UseTree::Rename(n) => {
            out.push((n.name.clone(), n.line));
            assert(params_view(out@) =~= o0 + seq![(n.name@, n.line)]);
        },
        UseTree::Group(items) => {
            proof {
                assert(decreases_to!(*tree => items@));
            }
            use_names_list(items, out);
        },
        UseTree::Glob => {},
    }
    assert(params_view(out@) =~= o0 + use_tree_names(*tree));
}

// --- a binding's right-hand-side dependencies --------------------------------------------------

/// The bare identifiers an expression reads, in order — a binding's right-hand-side
/// dependencies (shallow: nested closures and blocks are not entered).
pub open spec fn rust_loads(e: Expr) -> Seq<Seq<char>>
    decreases e, 0int,
{
    match e {
        Expr::Path { path, .. } => if !path.global && path.segments@.len() == 1 && !path.segments@[0].args {
            seq![path.segments@[0].name@]
        } else {
            Seq::empty()
        },
        Expr::Call { func, args } => {
            proof {
                assert(decreases_to!(e => args@));
            }
            rust_loads(*func) + rust_loads_list(args@, args@.len() as int)
        },
        Expr::MethodCall { receiver, args, .. } => {
            proof {
                assert(decreases_to!(e => args@));
            }
            rust_loads(*receiver) + rust_loads_list(args@, args@.len() as int)
        },
        Expr::Binary { left, right, .. } => rust_loads(*left) + rust_loads(*right),
        Expr::Index(left, right) => rust_loads(*left) + rust_loads(*right),
        Expr::Unary(x) => rust_loads(*x),
        Expr::Reference(x) => rust_loads(*x),
        Expr::Paren(x) => rust_loads(*x),
        Expr::Group(x) => rust_loads(*x),
        Expr::Field(x) => rust_loads(*x),
        Expr::Cast(x) => rust_loads(*x),
        Expr::Try(x) => rust_loads(*x),
        Expr::Await(x) => rust_loads(*x),
        Expr::Tuple(es) => {
            proof {
                assert(decreases_to!(e => es@));
            }
            rust_loads_list(es@, es@.len() as int)
        },
        Expr::Array(es) => {
            proof {
                assert(decreases_to!(e => es@));
            }
            rust_loads_list(es@, es@.len() as int)
        },
        Expr::Struct { fields, .. } => {
            proof {
                assert(decreases_to!(e => fields@));
            }
            rust_loads_list(fields@, fields@.len() as int)
        },
        Expr::Range(lo, hi) => (match lo {
            Some(x) => rust_loads(*x),
            None => Seq::empty(),
        }) + (match hi {
            Some(x) => rust_loads(*x),
            None => Seq::empty(),
        }),
        _ => Seq::empty(),
    }
}

/// The loads of the first `n` expressions of `es`, in order.
pub open spec fn rust_loads_list(es: Seq<Expr>, n: int) -> Seq<Seq<char>>
    decreases es, n,
{
    if n <= 0 || n > es.len() {
        Seq::empty()
    } else {
        rust_loads_list(es, n - 1) + rust_loads(es[n - 1])
    }
}

/// Append the loads of each of `es` to `out`.
fn go_loads_list(es: &Vec<Expr>, out: &mut Vec<String>)
    ensures
        views(final(out)@) == views(old(out)@) + rust_loads_list(es@, es@.len() as int),
    decreases es@, 1int,
{
    let ghost o0 = views(out@);
    let mut k: usize = 0;
    while k < es.len()
        invariant
            k <= es@.len(),
            views(out@) == o0 + rust_loads_list(es@, k as int),
        decreases es@.len() - k,
    {
        proof {
            assert(decreases_to!(es@ => es@[k as int]));
        }
        go_loads(&es[k], out);
        assert(rust_loads_list(es@, k + 1) == rust_loads_list(es@, k as int) + rust_loads(es@[k as int]));
        k = k + 1;
    }
}

/// Append the bare identifiers `e` reads to `out` (see [`rust_loads`]).
fn go_loads(e: &Expr, out: &mut Vec<String>)
    ensures
        views(final(out)@) == views(old(out)@) + rust_loads(*e),
    decreases *e, 0int,
{
    let ghost o0 = views(out@);
    match e {
        Expr::Path { path, .. } => match path_ident(path) {
            Some(n) => {
                out.push(n.clone());
                assert(views(out@) =~= o0 + seq![n@]);
            },
            None => {
                assert(views(out@) =~= o0 + Seq::<Seq<char>>::empty());
            },
        },
        Expr::Call { func: f, args } | Expr::MethodCall { receiver: f, args, .. } => {
            go_loads(f, out);
            proof {
                assert(decreases_to!(*e => args@));
            }
            go_loads_list(args, out);
        },
        Expr::Binary { left, right, .. } | Expr::Index(left, right) => {
            go_loads(left, out);
            go_loads(right, out);
        },
        Expr::Unary(x) | Expr::Reference(x) | Expr::Paren(x) | Expr::Group(x) | Expr::Field(x) | Expr::Cast(x)
        | Expr::Try(x) | Expr::Await(x) => go_loads(x, out),
        Expr::Tuple(es) | Expr::Array(es) | Expr::Struct { fields: es, .. } => {
            proof {
                assert(decreases_to!(*e => es@));
            }
            go_loads_list(es, out);
        },
        Expr::Range(lo, hi) => {
            match lo {
                Some(s) => go_loads(s, out),
                None => {},
            }
            match hi {
                Some(s) => go_loads(s, out),
                None => {},
            }
        },
        _ => {
            assert(views(out@) =~= o0 + Seq::<Seq<char>>::empty());
        },
    }
    assert(views(out@) =~= o0 + rust_loads(*e));
}

/// The bare identifiers `e` reads, in order (see [`rust_loads`]).
fn collect_loads(e: &Expr) -> (r: Vec<String>)
    ensures
        views(r@) == rust_loads(*e),
{
    let mut out: Vec<String> = Vec::new();
    assert(views(out@) =~= Seq::<Seq<char>>::empty());
    go_loads(e, &mut out);
    assert(Seq::<Seq<char>>::empty() + rust_loads(*e) =~= rust_loads(*e));
    out
}

/// References at `line` to each of `names`.
pub open spec fn uses_at(names: Seq<Seq<char>>, line: u32) -> Seq<ActionV<RuV>> {
    names.map_values(|n: Seq<char>| ActionV::Use { name: n, line, member: false })
}

/// The references of the first `k` expressions of a macro's body, all at the macro's line.
pub open spec fn macro_args_rule(args: Seq<Expr>, k: int, line: u32) -> Seq<ActionV<RuV>>
    decreases k,
{
    if k <= 0 || k > args.len() {
        Seq::empty()
    } else {
        macro_args_rule(args, k - 1, line) + uses_at(rust_loads(args[k - 1]), line)
    }
}

/// The references inside a macro invocation whose body is a list of expressions: the bare names
/// each expression reads, all at the macro's line. Any other body has none.
pub open spec fn macro_rule(m: Macro) -> Seq<ActionV<RuV>> {
    match m.args {
        Some(args) => macro_args_rule(args@, args@.len() as int, m.line),
        None => Seq::empty(),
    }
}

fn macro_uses<'a>(mac: &Macro, acts: &mut Vec<Action<Ru<'a>>>)
    ensures
        grew(old(acts)@, final(acts)@, macro_rule(*mac)),
{
    let ghost a0 = acts@;
    match &mac.args {
        Some(args) => {
            let mut k: usize = 0;
            while k < args.len()
                invariant
                    k <= args@.len(),
                    ru_view(acts@) == ru_view(a0) + macro_args_rule(args@, k as int, mac.line),
                    run_from(acts@, 0) == run_from(a0, 0),
                decreases args@.len() - k,
            {
                let names = collect_loads(&args[k]);
                let ghost nv = views(names@);
                let ghost mid = ru_view(acts@);
                let mut j: usize = 0;
                while j < names.len()
                    invariant
                        j <= names@.len(),
                        nv == views(names@),
                        ru_view(acts@) == mid + uses_at(nv.take(j as int), mac.line),
                        run_from(acts@, 0) == run_from(a0, 0),
                    decreases names@.len() - j,
                {
                    push_act(acts, Action::Use { name: names[j].clone(), line: mac.line, member: false });
                    assert(uses_at(nv.take(j + 1), mac.line) =~= uses_at(nv.take(j as int), mac.line).push(
                        ActionV::Use { name: nv[j as int], line: mac.line, member: false },
                    ));
                    j = j + 1;
                }
                assert(nv.take(nv.len() as int) =~= nv);
                k = k + 1;
            }
        },
        None => {
            assert(ru_view(acts@) =~= ru_view(a0) + macro_rule(*mac));
        },
    }
}

/// A value's right-hand side, attributed to `leaf` when it is a single name (the driver routes
/// the attribution to a data definition, or back to the function).
pub open spec fn rhs_rule(leaf: Option<Seq<char>>, value: Expr) -> Seq<ActionV<RuV>> {
    match leaf {
        Some(n) => seq![ActionV::OpenAttrib { leaf: n, fallback_to_scope: true }, rec_e(value), ActionV::CloseAttrib],
        None => seq![rec_e(value)],
    }
}

fn rhs_attributed<'a>(leaf: Option<String>, value: &'a Expr, acts: &mut Vec<Action<Ru<'a>>>)
    ensures
        grew(
            old(acts)@,
            final(acts)@,
            rhs_rule(
                match leaf {
                    Some(n) => Some(n@),
                    None => None,
                },
                *value,
            ),
        ),
{
    let ghost a0 = acts@;
    let ghost lv = match &leaf {
        Some(n) => Some(n@),
        None => None::<Seq<char>>,
    };
    match leaf {
        Some(name) => {
            push_act(acts, Action::OpenAttrib { leaf: name, fallback_to_scope: true });
            push_act(acts, rec_one(value));
            push_act(acts, Action::CloseAttrib);
        },
        None => push_act(acts, rec_one(value)),
    }
    assert(ru_view(acts@) =~= ru_view(a0) + rhs_rule(lv, *value));
}

// --- statements and items --------------------------------------------------------------------

/// `let PAT = EXPR else { … };`: the pattern's names bind (block-local, depending on what the
/// initializer reads), the initializer recurses (attributed to a single-name target), then the
/// `else` block.
pub open spec fn local_rule(l: Local) -> Seq<ActionV<RuV>> {
    let deps = match l.init {
        Some(i) => rust_loads(i),
        None => Seq::empty(),
    };
    binds_of(pat_names(l.pat), false, deps) + match l.init {
        Some(init) => rhs_rule(single_ident_of(l.pat), init) + match l.diverge {
            Some(d) => seq![rec_e(d)],
            None => Seq::empty(),
        },
        None => Seq::empty(),
    }
}

fn local_actions<'a>(local: &'a Local, acts: &mut Vec<Action<Ru<'a>>>)
    ensures
        grew(old(acts)@, final(acts)@, local_rule(*local)),
{
    let ghost a0 = acts@;
    let deps = match &local.init {
        Some(init) => collect_loads(init),
        None => {
            let v: Vec<String> = Vec::new();
            assert(views(v@) =~= Seq::<Seq<char>>::empty());
            v
        },
    };
    let names = pat_binds(&local.pat);
    bind_all(&names, false, &deps, acts);
    let ghost a1 = ru_view(acts@);
    match &local.init {
        Some(init) => {
            rhs_attributed(single_ident(&local.pat), init, acts);
            match &local.diverge {
                Some(d) => push_act(acts, rec_one(d)),
                None => {},
            }
        },
        None => {},
    }
    assert(ru_view(acts@) =~= ru_view(a0) + local_rule(*local));
}

/// A `const`/`static` or associated const: a data definition depending on what its value reads,
/// whose right-hand side counts for it.
pub open spec fn data_rule(name: Name, expr: Expr) -> Seq<ActionV<RuV>> {
    seq![
        ActionV::Bind {
            name: name.name@,
            kind: BindKind::Value,
            line: name.line,
            intro: false,
            deps: rust_loads(expr),
            is_class_def: false,
        },
    ] + rhs_rule(Some(name.name@), expr)
}

fn data_def<'a>(name: &Name, expr: &'a Expr, acts: &mut Vec<Action<Ru<'a>>>)
    ensures
        grew(old(acts)@, final(acts)@, data_rule(*name, *expr)),
{
    let ghost a0 = acts@;
    let deps = collect_loads(expr);
    assert(names_view(deps@) =~= views(deps@));
    push_act(
        acts,
        Action::Bind { name: name.name.clone(), kind: BindKind::Value, line: name.line, intro: false, deps, is_class_def: false },
    );
    rhs_attributed(Some(name.name.clone()), expr, acts);
    assert(ru_view(acts@) =~= ru_view(a0) + data_rule(*name, *expr));
}

/// A free function or a method: a declaration, then its own scope binding the typed parameters,
/// holding the body.
pub open spec fn fn_rule(sig: Signature, body: Seq<Stmt>) -> Seq<ActionV<RuV>> {
    seq![
        ActionV::Bind { name: sig.name.name@, kind: BindKind::Decl, line: sig.name.line, intro: false, deps: Seq::empty(), is_class_def: false },
        ActionV::OpenScope {
            leaf: sig.name.name@,
            params: pat_names_list(sig.params@, sig.params@.len() as int),
            is_class: false,
            is_namespace: false,
            nonlocals: Seq::empty(),
        },
        ActionV::Recurse(stmts_v(body)),
        ActionV::Close,
    ]
}

fn fn_actions<'a>(sig: &'a Signature, body: &'a Vec<Stmt>, acts: &mut Vec<Action<Ru<'a>>>)
    ensures
        grew(old(acts)@, final(acts)@, fn_rule(*sig, body@)),
{
    let ghost a0 = acts@;
    let mut params: Vec<(String, u32)> = Vec::new();
    assert(params_view(params@) =~= Seq::<(Seq<char>, u32)>::empty());
    go_pats(&sig.params, &mut params);
    assert(Seq::<(Seq<char>, u32)>::empty() + pat_names_list(sig.params@, sig.params@.len() as int) =~= pat_names_list(
        sig.params@,
        sig.params@.len() as int,
    ));
    assert(names_view(Seq::<String>::empty()) =~= Seq::<Seq<char>>::empty());
    push_act(
        acts,
        Action::Bind { name: sig.name.name.clone(), kind: BindKind::Decl, line: sig.name.line, intro: false, deps: Vec::new(), is_class_def: false },
    );
    push_act(
        acts,
        Action::OpenScope { leaf: sig.name.name.clone(), params, is_class: false, is_namespace: false, nonlocals: Vec::new() },
    );
    push_act(acts, rec_stmts(body));
    push_act(acts, Action::Close);
    assert(ru_view(acts@) =~= ru_view(a0) + fn_rule(*sig, body@));
}

/// The leaf name of an `impl`'s self type (`impl Foo`, `impl Trait for &Foo` → `Foo`).
pub open spec fn type_leaf_of(ty: Ty) -> Option<Seq<char>>
    decreases ty,
{
    match ty {
        Ty::Path(segs) => if segs@.len() > 0 {
            Some(segs@.last()@)
        } else {
            None
        },
        Ty::Reference(t) => type_leaf_of(*t),
        Ty::Other => None,
    }
}

fn type_leaf(ty: &Ty) -> (r: Option<String>)
    ensures
        match r {
            Some(s) => type_leaf_of(*ty) == Some(s@),
            None => type_leaf_of(*ty) is None,
        },
    decreases ty,
{
    match ty {
        Ty::Path(segs) => {
            if segs.len() > 0 {
                Some(segs[segs.len() - 1].clone())
            } else {
                None
            }
        },
        Ty::Reference(t) => type_leaf(t),
        Ty::Other => None,
    }
}

/// What the first `k` items of an `impl` lower to: methods as functions, associated consts as
/// data definitions.
pub open spec fn impl_items_rule(items: Seq<ImplItem>, k: int) -> Seq<ActionV<RuV>>
    decreases k,
{
    if k <= 0 || k > items.len() {
        Seq::empty()
    } else {
        impl_items_rule(items, k - 1) + match items[k - 1] {
            ImplItem::Fn { sig, body } => fn_rule(sig, body@),
            ImplItem::Const { name, expr } => data_rule(name, expr),
            ImplItem::Other => Seq::empty(),
        }
    }
}

/// `impl T { … }` is a class scope `T`: methods are `T::method`, associated consts `T::CONST`.
/// An `impl` whose self type has no leaf name lowers to nothing.
pub open spec fn impl_rule(self_ty: Ty, items: Seq<ImplItem>) -> Seq<ActionV<RuV>> {
    match type_leaf_of(self_ty) {
        Some(leaf) => seq![
            ActionV::OpenScope { leaf, params: Seq::empty(), is_class: true, is_namespace: false, nonlocals: Seq::empty() },
        ] + impl_items_rule(items, items.len() as int) + seq![ActionV::Close],
        None => Seq::empty(),
    }
}

fn impl_actions<'a>(self_ty: &Ty, items: &'a Vec<ImplItem>, acts: &mut Vec<Action<Ru<'a>>>)
    ensures
        grew(old(acts)@, final(acts)@, impl_rule(*self_ty, items@)),
{
    let ghost a0 = acts@;
    let leaf = match type_leaf(self_ty) {
        Some(l) => l,
        None => {
            assert(ru_view(acts@) =~= ru_view(a0) + impl_rule(*self_ty, items@));
            return;
        },
    };
    assert(names_view(Seq::<String>::empty()) =~= Seq::<Seq<char>>::empty());
    assert(params_view(Seq::<(String, u32)>::empty()) =~= Seq::<(Seq<char>, u32)>::empty());
    push_act(acts, Action::OpenScope { leaf, params: Vec::new(), is_class: true, is_namespace: false, nonlocals: Vec::new() });
    let ghost a1 = acts@;
    let mut k: usize = 0;
    while k < items.len()
        invariant
            k <= items@.len(),
            ru_view(acts@) == ru_view(a1) + impl_items_rule(items@, k as int),
            run_from(acts@, 0) == run_from(a1, 0),
        decreases items@.len() - k,
    {
        let ghost before = ru_view(acts@);
        match &items[k] {
            ImplItem::Fn { sig, body } => fn_actions(sig, body, acts),
            ImplItem::Const { name, expr } => data_def(name, expr, acts),
            ImplItem::Other => {
                assert(before + Seq::<ActionV<RuV>>::empty() =~= before);
            },
        }
        assert(ru_view(acts@) =~= ru_view(a1) + impl_items_rule(items@, k + 1));
        k = k + 1;
    }
    push_act(acts, Action::Close);
    assert(ru_view(acts@) =~= ru_view(a0) + impl_rule(*self_ty, items@));
}

/// Import bindings of `names`.
pub open spec fn imports_of(names: Seq<(Seq<char>, u32)>) -> Seq<ActionV<RuV>> {
    names.map_values(
        |nl: (Seq<char>, u32)|
            ActionV::Bind { name: nl.0, kind: BindKind::Import, line: nl.1, intro: false, deps: Seq::empty(), is_class_def: false },
    )
}

/// What an item lowers to.
pub open spec fn rust_item_rule(i: Item) -> Seq<ActionV<RuV>> {
    match i {
        Item::Fn { sig, body } => fn_rule(sig, body@),
        Item::Impl { self_ty, items } => impl_rule(self_ty, items@),
        Item::TypeDef(name) => seq![
            ActionV::Bind { name: name.name@, kind: BindKind::Decl, line: name.line, intro: false, deps: Seq::empty(), is_class_def: true },
        ],
        Item::Data { name, expr } => data_rule(name, expr),
        Item::Use(tree) => imports_of(use_tree_names(tree)),
        // an inline `mod` is a definition container, like a namespace
        Item::Mod { name, content } => match content {
            Some(items) => seq![
                ActionV::OpenScope { leaf: name.name@, params: Seq::empty(), is_class: false, is_namespace: true, nonlocals: Seq::empty() },
                ActionV::Recurse(items_v(items@)),
                ActionV::Close,
            ],
            None => Seq::empty(),
        },
        Item::Other => Seq::empty(),
    }
}

fn item_actions<'a>(item: &'a Item) -> (r: Vec<Action<Ru<'a>>>)
    ensures
        ru_view(r@) == rust_item_rule(*item),
        balanced(r@),
{
    let mut acts: Vec<Action<Ru<'a>>> = Vec::new();
    assert(ru_view(acts@) =~= Seq::<ActionV<RuV>>::empty());
    assert(run_from(acts@, 0) == Some(0int));
    assert(names_view(Seq::<String>::empty()) =~= Seq::<Seq<char>>::empty());
    assert(params_view(Seq::<(String, u32)>::empty()) =~= Seq::<(Seq<char>, u32)>::empty());
    match item {
        Item::Fn { sig, body } => fn_actions(sig, body, &mut acts),
        Item::Impl { self_ty, items } => impl_actions(self_ty, items, &mut acts),
        Item::TypeDef(name) => push_act(
            &mut acts,
            Action::Bind { name: name.name.clone(), kind: BindKind::Decl, line: name.line, intro: false, deps: Vec::new(), is_class_def: true },
        ),
        Item::Data { name, expr } => data_def(name, expr, &mut acts),
        Item::Use(tree) => {
            let mut names: Vec<(String, u32)> = Vec::new();
            assert(params_view(names@) =~= Seq::<(Seq<char>, u32)>::empty());
            use_names(tree, &mut names);
            let ghost nv = params_view(names@);
            assert(nv =~= use_tree_names(*tree));
            let mut j: usize = 0;
            while j < names.len()
                invariant
                    j <= names@.len(),
                    nv == params_view(names@),
                    ru_view(acts@) == imports_of(nv.take(j as int)),
                    run_from(acts@, 0) == Some(0int),
                decreases names@.len() - j,
            {
                assert(names_view(Seq::<String>::empty()) =~= Seq::<Seq<char>>::empty());
                push_act(
                    &mut acts,
                    Action::Bind {
                        name: names[j].0.clone(),
                        kind: BindKind::Import,
                        line: names[j].1,
                        intro: false,
                        deps: Vec::new(),
                        is_class_def: false,
                    },
                );
                assert(imports_of(nv.take(j + 1)) =~= imports_of(nv.take(j as int)).push(
                    ActionV::Bind { name: nv[j as int].0, kind: BindKind::Import, line: nv[j as int].1, intro: false, deps: Seq::empty(), is_class_def: false },
                ));
                j = j + 1;
            }
            assert(nv.take(nv.len() as int) =~= nv);
        },
        Item::Mod { name, content } => match content {
            Some(items) => {
                push_act(
                    &mut acts,
                    Action::OpenScope { leaf: name.name.clone(), params: Vec::new(), is_class: false, is_namespace: true, nonlocals: Vec::new() },
                );
                let mut v: Vec<Ru<'a>> = Vec::new();
                let mut k: usize = 0;
                while k < items.len()
                    invariant
                        k <= items@.len(),
                        v@.map_values(ru_node()) == items_v(items@.take(k as int)),
                    decreases items@.len() - k,
                {
                    let ghost w = v@;
                    v.push(Ru::Item(&items[k]));
                    assert(v@.map_values(ru_node()) =~= w.map_values(ru_node()).push(RuV::Item(items@[k as int])));
                    assert(items_v(items@.take(k + 1)) =~= items_v(items@.take(k as int)).push(RuV::Item(items@[k as int])));
                    k = k + 1;
                }
                assert(items@.take(items@.len() as int) =~= items@);
                push_act(&mut acts, Action::Recurse(v));
                push_act(&mut acts, Action::Close);
            },
            None => {},
        },
        Item::Other => {},
    }
    assert(ru_view(acts@) =~= rust_item_rule(*item));
    acts
}

/// What a statement lowers to.
pub open spec fn rust_stmt_rule(s: Stmt) -> Seq<ActionV<RuV>> {
    match s {
        Stmt::Local(l) => local_rule(l),
        Stmt::Item(i) => rust_item_rule(i),
        Stmt::Expr(e) => rust_expr_rule(e),
        Stmt::Macro(m) => macro_rule(m),
    }
}

fn stmt_actions<'a>(stmt: &'a Stmt) -> (r: Vec<Action<Ru<'a>>>)
    ensures
        ru_view(r@) == rust_stmt_rule(*stmt),
        balanced(r@),
{
    match stmt {
        Stmt::Local(local) => {
            let mut acts: Vec<Action<Ru<'a>>> = Vec::new();
            assert(ru_view(acts@) =~= Seq::<ActionV<RuV>>::empty());
            assert(run_from(acts@, 0) == Some(0int));
            local_actions(local, &mut acts);
            assert(ru_view(acts@) =~= local_rule(*local));
            acts
        },
        Stmt::Item(item) => item_actions(item),
        Stmt::Expr(e) => expr_actions(e),
        Stmt::Macro(m) => {
            let mut acts: Vec<Action<Ru<'a>>> = Vec::new();
            assert(ru_view(acts@) =~= Seq::<ActionV<RuV>>::empty());
            assert(run_from(acts@, 0) == Some(0int));
            macro_uses(m, &mut acts);
            assert(ru_view(acts@) =~= macro_rule(*m));
            acts
        },
    }
}

// --- expressions -----------------------------------------------------------------------------

/// A lowered pattern reference seen as the pattern.
pub open spec fn pat_of<'a>() -> spec_fn(&'a Pat) -> Pat {
    |p: &'a Pat| *p
}

/// An `if`/`while` condition split into the expressions evaluated in the current scope and the
/// patterns bound for the body — `if let PAT = EXPR` and let-chains (`if a && let Some(b) = c`).
pub open spec fn cond_lets_of(cond: Expr) -> (Seq<RuV>, Seq<Pat>)
    decreases cond,
{
    match cond {
        Expr::Let { pat, expr } => (seq![RuV::Expr(*expr)], seq![pat]),
        Expr::Binary { left, right, and } => if and {
            let l = cond_lets_of(*left);
            let r = cond_lets_of(*right);
            (l.0 + r.0, l.1 + r.1)
        } else {
            (seq![RuV::Expr(cond)], Seq::empty())
        },
        Expr::Paren(x) => cond_lets_of(*x),
        Expr::Group(x) => cond_lets_of(*x),
        _ => (seq![RuV::Expr(cond)], Seq::empty()),
    }
}

fn cond_lets<'a>(cond: &'a Expr, recurse: &mut Vec<Ru<'a>>, pats: &mut Vec<&'a Pat>)
    ensures
        final(recurse)@.map_values(ru_node()) == old(recurse)@.map_values(ru_node()) + cond_lets_of(*cond).0,
        final(pats)@.map_values(pat_of()) == old(pats)@.map_values(pat_of()) + cond_lets_of(*cond).1,
    decreases cond,
{
    let ghost r0 = recurse@;
    let ghost p0 = pats@;
    match cond {
        Expr::Let { pat, expr } => {
            recurse.push(Ru::Expr(expr));
            pats.push(pat);
            assert(recurse@.map_values(ru_node()) =~= r0.map_values(ru_node()) + seq![RuV::Expr(**expr)]);
            assert(pats@.map_values(pat_of()) =~= p0.map_values(pat_of()) + seq![*pat]);
        },
        Expr::Binary { left, right, and } => {
            if *and {
                cond_lets(left, recurse, pats);
                cond_lets(right, recurse, pats);
                assert(recurse@.map_values(ru_node()) =~= r0.map_values(ru_node()) + cond_lets_of(*cond).0);
                assert(pats@.map_values(pat_of()) =~= p0.map_values(pat_of()) + cond_lets_of(*cond).1);
            } else {
                recurse.push(Ru::Expr(cond));
                assert(recurse@.map_values(ru_node()) =~= r0.map_values(ru_node()) + seq![RuV::Expr(*cond)]);
                assert(pats@.map_values(pat_of()) =~= p0.map_values(pat_of()) + Seq::<Pat>::empty());
            }
        },
        Expr::Paren(x) | Expr::Group(x) => cond_lets(x, recurse, pats),
        _ => {
            recurse.push(Ru::Expr(cond));
            assert(recurse@.map_values(ru_node()) =~= r0.map_values(ru_node()) + seq![RuV::Expr(*cond)]);
            assert(pats@.map_values(pat_of()) =~= p0.map_values(pat_of()) + Seq::<Pat>::empty());
        },
    }
}

/// The introducer bindings of the names the first `k` patterns bind.
pub open spec fn pats_intro_rule(ps: Seq<Pat>, k: int) -> Seq<ActionV<RuV>>
    decreases k,
{
    if k <= 0 || k > ps.len() {
        Seq::empty()
    } else {
        pats_intro_rule(ps, k - 1) + binds_of(pat_names(ps[k - 1]), true, Seq::empty())
    }
}

/// Bind each name a pattern binds as an introducer (loop variables, arm and `if let` bindings).
fn bind_introducers<'a>(pat: &Pat, acts: &mut Vec<Action<Ru<'a>>>)
    ensures
        grew(old(acts)@, final(acts)@, binds_of(pat_names(*pat), true, Seq::empty())),
{
    let names = pat_binds(pat);
    let none: Vec<String> = Vec::new();
    assert(views(none@) =~= Seq::<Seq<char>>::empty());
    bind_all(&names, true, &none, acts);
}

/// The condition's expressions, then a block binding its `let` patterns' names as introducers
/// before the body (shared by `if` and `while`).
pub open spec fn cond_block_rule(cond: Expr, body: Seq<Stmt>, is_loop: bool) -> Seq<ActionV<RuV>> {
    let cl = cond_lets_of(cond);
    seq![ActionV::Recurse(cl.0), ActionV::OpenBlock { is_loop }] + pats_intro_rule(cl.1, cl.1.len() as int) + seq![
        ActionV::Recurse(stmts_v(body)),
        ActionV::Close,
    ]
}

fn cond_block<'a>(cond: &'a Expr, body: &'a Vec<Stmt>, is_loop: bool, acts: &mut Vec<Action<Ru<'a>>>)
    ensures
        grew(old(acts)@, final(acts)@, cond_block_rule(*cond, body@, is_loop)),
{
    let ghost a0 = acts@;
    let mut recurse: Vec<Ru<'a>> = Vec::new();
    let mut pats: Vec<&'a Pat> = Vec::new();
    assert(recurse@.map_values(ru_node()) =~= Seq::<RuV>::empty());
    assert(pats@.map_values(pat_of()) =~= Seq::<Pat>::empty());
    cond_lets(cond, &mut recurse, &mut pats);
    let ghost cl = cond_lets_of(*cond);
    assert(recurse@.map_values(ru_node()) =~= cl.0);
    assert(pats@.map_values(pat_of()) =~= cl.1);
    push_act(acts, Action::Recurse(recurse));
    push_act(acts, Action::OpenBlock { is_loop });
    let ghost a1 = acts@;
    let mut k: usize = 0;
    while k < pats.len()
        invariant
            k <= pats@.len(),
            pats@.map_values(pat_of()) == cl.1,
            ru_view(acts@) == ru_view(a1) + pats_intro_rule(cl.1, k as int),
            run_from(acts@, 0) == run_from(a1, 0),
        decreases pats@.len() - k,
    {
        assert(*pats@[k as int] == cl.1[k as int]);
        bind_introducers(pats[k], acts);
        assert(ru_view(acts@) =~= ru_view(a1) + pats_intro_rule(cl.1, k + 1));
        k = k + 1;
    }
    push_act(acts, rec_stmts(body));
    push_act(acts, Action::Close);
    assert(ru_view(acts@) =~= ru_view(a0) + cond_block_rule(*cond, body@, is_loop));
}

/// A `match` arm: a block binding the pattern's names as introducers, the guard, the body.
pub open spec fn arm_rule(a: Arm) -> Seq<ActionV<RuV>> {
    seq![ActionV::OpenBlock { is_loop: false }] + binds_of(pat_names(a.pat), true, Seq::empty()) + match a.guard {
        Some(g) => seq![rec_e(g)],
        None => Seq::empty(),
    } + seq![rec_e(a.body), ActionV::Close]
}

/// The first `k` arms of a `match`.
pub open spec fn arms_rule(arms: Seq<Arm>, k: int) -> Seq<ActionV<RuV>>
    decreases k,
{
    if k <= 0 || k > arms.len() {
        Seq::empty()
    } else {
        arms_rule(arms, k - 1) + arm_rule(arms[k - 1])
    }
}

fn match_arm<'a>(arm: &'a Arm, acts: &mut Vec<Action<Ru<'a>>>)
    ensures
        grew(old(acts)@, final(acts)@, arm_rule(*arm)),
{
    let ghost a0 = acts@;
    push_act(acts, Action::OpenBlock { is_loop: false });
    bind_introducers(&arm.pat, acts);
    match &arm.guard {
        Some(g) => push_act(acts, rec_one(g)),
        None => {},
    }
    push_act(acts, rec_one(&arm.body));
    push_act(acts, Action::Close);
    assert(ru_view(acts@) =~= ru_view(a0) + arm_rule(*arm));
}

/// What an expression lowers to.
pub open spec fn rust_expr_rule(e: Expr) -> Seq<ActionV<RuV>> {
    match e {
        Expr::Path { path, line } => path_use_rule(path, line),
        // a call: the callee and the arguments, read in the current scope
        Expr::Call { func, args } => seq![ActionV::Recurse(seq![RuV::Expr(*func)] + exprs_v(args@))],
        // `self.m(…)` is a member reference; the receiver and the arguments are read
        Expr::MethodCall { receiver, method, args } => (if is_self_expr(*receiver) {
            seq![ActionV::Use { name: method.name@, line: method.line, member: true }]
        } else {
            Seq::empty()
        }) + seq![rec_e(*receiver), ActionV::Recurse(exprs_v(args@))],
        // a field is not a definition: only its base is read
        Expr::Field(base) => seq![rec_e(*base)],
        Expr::Struct { path, line, fields, rest } => path_use_rule(path, line) + seq![ActionV::Recurse(exprs_v(fields@))]
            + match rest {
            Some(r) => seq![rec_e(*r)],
            None => Seq::empty(),
        },
        Expr::Binary { left, right, .. } => seq![ActionV::Recurse(seq![RuV::Expr(*left), RuV::Expr(*right)])],
        Expr::Index(l, r) => seq![ActionV::Recurse(seq![RuV::Expr(*l), RuV::Expr(*r)])],
        Expr::Assign(l, r) => seq![ActionV::Recurse(seq![RuV::Expr(*l), RuV::Expr(*r)])],
        Expr::Repeat(l, r) => seq![ActionV::Recurse(seq![RuV::Expr(*l), RuV::Expr(*r)])],
        Expr::Unary(x) => seq![rec_e(*x)],
        Expr::Reference(x) => seq![rec_e(*x)],
        Expr::Paren(x) => seq![rec_e(*x)],
        Expr::Group(x) => seq![rec_e(*x)],
        Expr::Cast(x) => seq![rec_e(*x)],
        Expr::Try(x) => seq![rec_e(*x)],
        Expr::Await(x) => seq![rec_e(*x)],
        Expr::Array(es) => seq![ActionV::Recurse(exprs_v(es@))],
        Expr::Tuple(es) => seq![ActionV::Recurse(exprs_v(es@))],
        Expr::Range(lo, hi) => seq![
            ActionV::Recurse(
                (match lo {
                    Some(x) => seq![RuV::Expr(*x)],
                    None => Seq::empty(),
                }) + match hi {
                    Some(x) => seq![RuV::Expr(*x)],
                    None => Seq::empty(),
                },
            ),
        ],
        Expr::Return(v) => match v {
            Some(x) => seq![rec_e(*x)],
            None => Seq::empty(),
        },
        Expr::Break(v) => match v {
            Some(x) => seq![rec_e(*x)],
            None => Seq::empty(),
        },
        Expr::If { cond, then_branch, else_branch } => cond_block_rule(*cond, then_branch@, false) + match else_branch {
            Some(els) => seq![rec_e(*els)],
            None => Seq::empty(),
        },
        Expr::Match { expr, arms } => seq![rec_e(*expr)] + arms_rule(arms@, arms@.len() as int),
        // the iterated expression outside; the loop block binds the pattern's names first
        Expr::ForLoop { pat, expr, body } => seq![rec_e(*expr), ActionV::OpenBlock { is_loop: true }] + binds_of(
            pat_names(pat),
            true,
            Seq::empty(),
        ) + seq![ActionV::Recurse(stmts_v(body@)), ActionV::Close],
        Expr::While { cond, body } => cond_block_rule(*cond, body@, true),
        Expr::Loop(body) => block_rule(body@, true),
        Expr::Block(body) => block_rule(body@, false),
        // a closure is a scope of its own, binding its parameters
        Expr::Closure { inputs, body } => seq![
            ActionV::OpenScope {
                leaf: "{closure}"@,
                params: pat_names_list(inputs@, inputs@.len() as int),
                is_class: false,
                is_namespace: false,
                nonlocals: Seq::empty(),
            },
            rec_e(*body),
            ActionV::Close,
        ],
        // a standalone `let` expression: its bindings are handled by `if`/`while`
        Expr::Let { expr, .. } => seq![rec_e(*expr)],
        Expr::Macro(m) => macro_rule(m),
        Expr::Other => Seq::empty(),
    }
}

fn expr_actions<'a>(e: &'a Expr) -> (r: Vec<Action<Ru<'a>>>)
    ensures
        ru_view(r@) == rust_expr_rule(*e),
        balanced(r@),
{
    let mut acts: Vec<Action<Ru<'a>>> = Vec::new();
    assert(ru_view(acts@) =~= Seq::<ActionV<RuV>>::empty());
    assert(run_from(acts@, 0) == Some(0int));
    assert(names_view(Seq::<String>::empty()) =~= Seq::<Seq<char>>::empty());
    match e {
        Expr::Path { path, line } => path_use(path, *line, &mut acts),
        Expr::Call { func, args } => {
            let mut v: Vec<Ru<'a>> = Vec::new();
            v.push(Ru::Expr(func));
            assert(v@.map_values(ru_node()) =~= seq![RuV::Expr(**func)]);
            push_exprs(&mut v, args);
            push_act(&mut acts, Action::Recurse(v));
        },
        Expr::MethodCall { receiver, method, args } => {
            if is_self(receiver) {
                push_act(&mut acts, Action::Use { name: method.name.clone(), line: method.line, member: true });
            }
            push_act(&mut acts, rec_one(receiver));
            push_act(&mut acts, rec_list(args));
        },
        Expr::Field(base) => push_act(&mut acts, rec_one(base)),
        Expr::Struct { path, line, fields, rest } => {
            path_use(path, *line, &mut acts);
            push_act(&mut acts, rec_list(fields));
            match rest {
                Some(r) => push_act(&mut acts, rec_one(r)),
                None => {},
            }
        },
        Expr::Binary { left, right, .. } | Expr::Index(left, right) | Expr::Assign(left, right)
        | Expr::Repeat(left, right) => push_act(&mut acts, rec_two(left, right)),
        Expr::Unary(x) | Expr::Reference(x) | Expr::Paren(x) | Expr::Group(x) | Expr::Cast(x) | Expr::Try(x)
        | Expr::Await(x) => push_act(&mut acts, rec_one(x)),
        Expr::Array(es) | Expr::Tuple(es) => push_act(&mut acts, rec_list(es)),
        Expr::Range(lo, hi) => {
            let mut v: Vec<Ru<'a>> = Vec::new();
            match lo {
                Some(x) => v.push(Ru::Expr(x)),
                None => {},
            }
            match hi {
                Some(x) => v.push(Ru::Expr(x)),
                None => {},
            }
            assert(v@.map_values(ru_node()) =~= (match lo {
                Some(x) => seq![RuV::Expr(**x)],
                None => Seq::<RuV>::empty(),
            }) + match hi {
                Some(x) => seq![RuV::Expr(**x)],
                None => Seq::<RuV>::empty(),
            });
            push_act(&mut acts, Action::Recurse(v));
        },
        Expr::Return(v) | Expr::Break(v) => match v {
            Some(x) => push_act(&mut acts, rec_one(x)),
            None => {},
        },
        Expr::If { cond, then_branch, else_branch } => {
            cond_block(cond, then_branch, false, &mut acts);
            match else_branch {
                Some(els) => push_act(&mut acts, rec_one(els)),
                None => {},
            }
        },
        Expr::Match { expr, arms } => {
            push_act(&mut acts, rec_one(expr));
            let ghost a1 = acts@;
            let mut k: usize = 0;
            while k < arms.len()
                invariant
                    k <= arms@.len(),
                    ru_view(acts@) == ru_view(a1) + arms_rule(arms@, k as int),
                    run_from(acts@, 0) == Some(0int),
                    run_from(a1, 0) == Some(0int),
                decreases arms@.len() - k,
            {
                match_arm(&arms[k], &mut acts);
                assert(ru_view(acts@) =~= ru_view(a1) + arms_rule(arms@, k + 1));
                k = k + 1;
            }
        },
        Expr::ForLoop { pat, expr, body } => {
            push_act(&mut acts, rec_one(expr));
            push_act(&mut acts, Action::OpenBlock { is_loop: true });
            bind_introducers(pat, &mut acts);
            push_act(&mut acts, rec_stmts(body));
            push_act(&mut acts, Action::Close);
        },
        Expr::While { cond, body } => cond_block(cond, body, true, &mut acts),
        Expr::Loop(body) => block(body, true, &mut acts),
        Expr::Block(body) => block(body, false, &mut acts),
        Expr::Closure { inputs, body } => {
            let mut params: Vec<(String, u32)> = Vec::new();
            assert(params_view(params@) =~= Seq::<(Seq<char>, u32)>::empty());
            go_pats(inputs, &mut params);
            assert(Seq::<(Seq<char>, u32)>::empty() + pat_names_list(inputs@, inputs@.len() as int) =~= pat_names_list(
                inputs@,
                inputs@.len() as int,
            ));
            push_act(
                &mut acts,
                Action::OpenScope { leaf: "{closure}".to_owned(), params, is_class: false, is_namespace: false, nonlocals: Vec::new() },
            );
            push_act(&mut acts, rec_one(body));
            push_act(&mut acts, Action::Close);
        },
        Expr::Let { expr, .. } => push_act(&mut acts, rec_one(expr)),
        Expr::Macro(m) => macro_uses(m, &mut acts),
        Expr::Other => {},
    }
    assert(ru_view(acts@) =~= rust_expr_rule(*e));
    acts
}

/// What a node lowers to: by [`rust_item_rule`], [`rust_stmt_rule`] or [`rust_expr_rule`].
pub open spec fn ru_rule() -> spec_fn(RuV) -> Seq<ActionV<RuV>> {
    |n: RuV|
        match n {
            RuV::Item(i) => rust_item_rule(i),
            RuV::Stmt(s) => rust_stmt_rule(s),
            RuV::Expr(e) => rust_expr_rule(e),
        }
}

impl<'a> ScopeLang for RuLang<'a> {
    type Node = Ru<'a>;
    type NodeV = RuV;

    open spec fn node_view(&self) -> spec_fn(Ru<'a>) -> RuV {
        ru_node()
    }

    open spec fn lowering(&self) -> spec_fn(RuV) -> Seq<ActionV<RuV>> {
        ru_rule()
    }

    fn actions(&self, node: &Ru<'a>) -> (r: Vec<Action<Ru<'a>>>) {
        match *node {
            Ru::Item(i) => item_actions(i),
            Ru::Stmt(s) => stmt_actions(s),
            Ru::Expr(e) => expr_actions(e),
        }
    }
}

} // verus!
