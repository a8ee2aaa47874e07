//! The C++ lowering rules: how each cursor maps to scope actions ([`cpp_rule`]). Every cursor's
//! actions are bracketed — each block or scope it opens it closes.
//!
//! C++ is block-scoped, so every `{ … }` is a block. A function body's outer block is unwrapped
//! into the scope's entry block; every inner brace nests. A member reference on the implicit
//! `this` (a childless member reference) resolves in the enclosing class scope; one through an
//! explicit object carries that object as a child, which is recursed instead.

use vstd::prelude::*;

use crate::engine::scopegraph::{BindKind, names_view};
use crate::engine::scopelang::{
    Action, ActionV, ScopeLang, acts_view, action_view, balanced, emit, frame_delta, params_view, run_from,
};
use crate::lang::cpp::syntax::{Cursor, CursorKind, Unit};
use crate::text::views;

verus! {

/// The C++ scope profile, over one translation unit.
pub struct CppLang<'a> {
    pub unit: &'a Unit,
}

/// A lowered node seen as the cursor it points at.
pub open spec fn cpp_node<'a>() -> spec_fn(&'a Cursor) -> Cursor {
    |n: &'a Cursor| *n
}

/// A cursor's name, or the empty name.
pub open spec fn cpp_name(e: Cursor) -> Seq<char> {
    match e.name {
        Some(n) => n@,
        None => Seq::empty(),
    }
}

/// A cursor's name, or the empty name.
fn name_of(e: &Cursor) -> (r: String)
    ensures
        r@ == cpp_name(*e),
{
    match &e.name {
        Some(n) => n.clone(),
        None => String::new(),
    }
}

fn recurse_all<'a>(cs: &'a Vec<Cursor>) -> (a: Action<&'a Cursor>)
    ensures
        action_view(a, cpp_node()) == ActionV::Recurse(cs@),
{
    let mut v: Vec<&'a Cursor> = Vec::new();
    let mut i: usize = 0;
    while i < cs.len()
        invariant
            i <= cs@.len(),
            v@.map_values(cpp_node()) == cs@.take(i as int),
        decreases cs@.len() - i,
    {
        let ghost v0 = v@;
        v.push(&cs[i]);
        assert(v@.map_values(cpp_node()) =~= v0.map_values(cpp_node()).push(cs@[i as int]));
        assert(cs@.take(i + 1) =~= cs@.take(i as int).push(cs@[i as int]));
        i = i + 1;
    }
    assert(cs@.take(cs@.len() as int) =~= cs@);
    Action::Recurse(v)
}

fn recurse_one<'a>(c: &'a Cursor) -> (a: Action<&'a Cursor>)
    ensures
        action_view(a, cpp_node()) == ActionV::Recurse(seq![*c]),
{
    let mut v: Vec<&'a Cursor> = Vec::new();
    v.push(c);
    assert(v@.map_values(cpp_node()) =~= seq![*c]);
    Action::Recurse(v)
}

/// Append `a` to a lowering, its value onto the lowering's value.
fn push_act<'a>(acts: &mut Vec<Action<&'a Cursor>>, a: Action<&'a Cursor>)
    ensures
        acts_view(final(acts)@, cpp_node()) == acts_view(old(acts)@, cpp_node()).push(action_view(a, cpp_node())),
        run_from(final(acts)@, 0) == match run_from(old(acts)@, 0) {
            Some(e) => if e + frame_delta(a) >= 0 { Some(e + frame_delta(a)) } else { None },
            None => None,
        },
{
    let ghost before = acts@;
    emit(acts, a);
    assert(acts_view(acts@, cpp_node()) =~= acts_view(before, cpp_node()).push(action_view(a, cpp_node())));
}

/// The names an initializer reads — every name reference in its subtree, in order (shallow with
/// respect to nested scopes: a lambda's body is not entered).
pub open spec fn cpp_loads(e: Cursor) -> Seq<Seq<char>>
    decreases e, 0int,
{
    match e.kind {
        CursorKind::DeclRef => match e.name {
            Some(n) => seq![n@],
            None => Seq::empty(),
        },
        CursorKind::Lambda => Seq::empty(),
        _ => {
            proof {
                assert(decreases_to!(e => e.children@));
            }
            cpp_loads_list(e.children@, e.children@.len() as int)
        },
    }
}

/// The loads of the first `n` cursors of `cs`, in order.
pub open spec fn cpp_loads_list(cs: Seq<Cursor>, n: int) -> Seq<Seq<char>>
    decreases cs, n,
{
    if n <= 0 || n > cs.len() {
        Seq::empty()
    } else {
        cpp_loads_list(cs, n - 1) + cpp_loads(cs[n - 1])
    }
}

/// Append the loads of each of `cs` to `out`.
fn collect_loads_list(cs: &Vec<Cursor>, out: &mut Vec<String>)
    ensures
        views(final(out)@) == views(old(out)@) + cpp_loads_list(cs@, cs@.len() as int),
    decreases cs@, 1int,
{
    let ghost o0 = views(out@);
    let mut k: usize = 0;
    while k < cs.len()
        invariant
            k <= cs@.len(),
            views(out@) == o0 + cpp_loads_list(cs@, k as int),
        decreases cs@.len() - k,
    {
        proof {
            assert(decreases_to!(cs@ => cs@[k as int]));
        }
        collect_loads(&cs[k], out);
        assert(cpp_loads_list(cs@, k + 1) == cpp_loads_list(cs@, k as int) + cpp_loads(cs@[k as int]));
        k = k + 1;
    }
}

/// Append the names `e` reads to `out` (see [`cpp_loads`]).
fn collect_loads(e: &Cursor, out: &mut Vec<String>)
    ensures
        views(final(out)@) == views(old(out)@) + cpp_loads(*e),
    decreases *e, 0int,
{
    let ghost o0 = views(out@);
    match e.kind {
        CursorKind::DeclRef => match &e.name {
            Some(n) => {
                out.push(n.clone());
                assert(views(out@) =~= o0 + seq![n@]);
            },
            None => {
                assert(views(out@) =~= o0 + Seq::<Seq<char>>::empty());
            },
        },
        CursorKind::Lambda => {
            assert(views(out@) =~= o0 + Seq::<Seq<char>>::empty());
        },
        _ => {
            proof {
                assert(decreases_to!(*e => e.children@));
            }
            collect_loads_list(&e.children, out);
        },
    }
    assert(views(out@) =~= o0 + cpp_loads(*e));
}

/// The names read by a cursor's children, in order.
fn loads_of(children: &Vec<Cursor>) -> (r: Vec<String>)
    ensures
        views(r@) == cpp_loads_list(children@, children@.len() as int),
{
    let mut out: Vec<String> = Vec::new();
    assert(views(out@) =~= Seq::<Seq<char>>::empty());
    collect_loads_list(children, &mut out);
    assert(Seq::<Seq<char>>::empty() + cpp_loads_list(children@, children@.len() as int) =~= cpp_loads_list(
        children@,
        children@.len() as int,
    ));
    out
}

// --- the rules -------------------------------------------------------------------------------

/// A declaration binding of the cursor's name.
pub open spec fn decl_bind(e: Cursor, is_class_def: bool) -> ActionV<Cursor> {
    ActionV::Bind { name: cpp_name(e), kind: BindKind::Decl, line: e.line, intro: false, deps: Seq::empty(), is_class_def }
}

/// The parameters among the first `k` children, with their lines.
pub open spec fn params_upto(cs: Seq<Cursor>, k: int) -> Seq<(Seq<char>, u32)>
    decreases k,
{
    if k <= 0 || k > cs.len() {
        Seq::empty()
    } else if cs[k - 1].kind == CursorKind::Param {
        params_upto(cs, k - 1).push((cpp_name(cs[k - 1]), cs[k - 1].line))
    } else {
        params_upto(cs, k - 1)
    }
}

/// What the first `k` children of a function or a loop lower to in its scope or block: a block
/// child's children are recursed directly (its braces are the scope's or the loop's own);
/// parameters (bound with the scope, for a function) are skipped when `skip_params`.
pub open spec fn body_parts(cs: Seq<Cursor>, k: int, skip_params: bool) -> Seq<ActionV<Cursor>>
    decreases k,
{
    if k <= 0 || k > cs.len() {
        Seq::empty()
    } else {
        let c = cs[k - 1];
        body_parts(cs, k - 1, skip_params) + if skip_params && c.kind == CursorKind::Param {
            Seq::empty()
        } else if c.kind == CursorKind::Compound {
            seq![ActionV::Recurse(c.children@)]
        } else {
            seq![ActionV::Recurse(seq![c])]
        }
    }
}

/// Does the cursor have a child of kind `k`?
pub open spec fn has_kind(e: Cursor, k: CursorKind) -> bool {
    exists|i: int| 0 <= i < e.children@.len() && #[trigger] e.children@[i].kind == k
}

/// What a cursor lowers to.
pub open spec fn cpp_rule(e: Cursor) -> Seq<ActionV<Cursor>> {
    let cs = e.children@;
    match e.kind {
        // a declaration, then (with a body) its own scope: parameters, then the body unwrapped
        CursorKind::Function => if has_kind(e, CursorKind::Compound) {
            seq![
                decl_bind(e, false),
                ActionV::OpenScope {
                    leaf: cpp_name(e),
                    params: params_upto(cs, cs.len() as int),
                    is_class: false,
                    is_namespace: false,
                    nonlocals: Seq::empty(),
                },
            ] + body_parts(cs, cs.len() as int, true) + seq![ActionV::Close]
        } else {
            seq![decl_bind(e, false)]
        },
        // a declaration, then (a definition) its class scope, members dispatching one by one
        CursorKind::Class => if e.is_definition {
            seq![
                decl_bind(e, true),
                ActionV::OpenScope {
                    leaf: cpp_name(e),
                    params: Seq::empty(),
                    is_class: true,
                    is_namespace: false,
                    nonlocals: Seq::empty(),
                },
                ActionV::Recurse(cs),
                ActionV::Close,
            ]
        } else {
            seq![decl_bind(e, true)]
        },
        // a lexical scope with no entity of its own
        CursorKind::Namespace => seq![
            ActionV::OpenScope { leaf: cpp_name(e), params: Seq::empty(), is_class: false, is_namespace: true, nonlocals: Seq::empty() },
            ActionV::Recurse(cs),
            ActionV::Close,
        ],
        // a value binding; its initializer's references count for it
        CursorKind::Var => seq![
            ActionV::Bind {
                name: cpp_name(e),
                kind: BindKind::Value,
                line: e.line,
                intro: false,
                deps: cpp_loads_list(cs, cs.len() as int),
                is_class_def: false,
            },
        ] + if cs.len() > 0 {
            seq![ActionV::OpenAttrib { leaf: cpp_name(e), fallback_to_scope: true }, ActionV::Recurse(cs), ActionV::CloseAttrib]
        } else {
            Seq::empty()
        },
        // instance state, not a referenceable definition; a parameter binds with its function
        CursorKind::Field | CursorKind::Param => Seq::empty(),
        // one loop block holding the control parts and the body unwrapped
        CursorKind::Loop => seq![ActionV::OpenBlock { is_loop: true }] + body_parts(cs, cs.len() as int, false) + seq![
            ActionV::Close,
        ],
        CursorKind::Compound => seq![ActionV::OpenBlock { is_loop: false }, ActionV::Recurse(cs), ActionV::Close],
        CursorKind::DeclRef => match e.name {
            Some(n) => seq![ActionV::Use { name: n@, line: e.line, member: false }],
            None => Seq::empty(),
        },
        // on the implicit `this` a member reference; through an object, the object is recursed
        CursorKind::MemberRef => if cs.len() == 0 {
            seq![ActionV::Use { name: cpp_name(e), line: e.line, member: true }]
        } else {
            seq![ActionV::Recurse(cs)]
        },
        CursorKind::Lambda | CursorKind::Other => seq![ActionV::Recurse(cs)],
    }
}

// --- the lowering ------------------------------------------------------------------------------

/// Does any child have kind `k`?
fn has_child(e: &Cursor, k: CursorKind) -> (r: bool)
    ensures
        r == has_kind(*e, k),
{
    let mut i: usize = 0;
    while i < e.children.len()
        invariant
            i <= e.children@.len(),
            forall|j: int| 0 <= j < i ==> #[trigger] e.children@[j].kind != k,
        decreases e.children@.len() - i,
    {
        if e.children[i].kind == k {
            return true;
        }
        i = i + 1;
    }
    false
}

/// The parameters among a function's children, with their lines.
fn params_of(cs: &Vec<Cursor>) -> (r: Vec<(String, u32)>)
    ensures
        params_view(r@) == params_upto(cs@, cs@.len() as int),
{
    let mut params: Vec<(String, u32)> = Vec::new();
    let mut k: usize = 0;
    while k < cs.len()
        invariant
            k <= cs@.len(),
            params_view(params@) == params_upto(cs@, k as int),
        decreases cs@.len() - k,
    {
        if cs[k].kind == CursorKind::Param {
            let ghost p0 = params@;
            params.push((name_of(&cs[k]), cs[k].line));
            assert(params_view(params@) =~= params_view(p0).push(
                (cpp_name(cs@[k as int]), cs@[k as int].line),
            ));
        }
        k = k + 1;
    }
    params
}

/// Lower the children of a function (`skip_params`) or a loop into its scope or block.
fn body<'a>(cs: &'a Vec<Cursor>, skip_params: bool, acts: &mut Vec<Action<&'a Cursor>>)
    ensures
        acts_view(final(acts)@, cpp_node()) == acts_view(old(acts)@, cpp_node()) + body_parts(cs@, cs@.len() as int, skip_params),
        run_from(final(acts)@, 0) == run_from(old(acts)@, 0),
{
    let ghost a0 = acts_view(acts@, cpp_node());
    let ghost r0 = run_from(acts@, 0);
    let mut k: usize = 0;
    while k < cs.len()
        invariant
            k <= cs@.len(),
            acts_view(acts@, cpp_node()) == a0 + body_parts(cs@, k as int, skip_params),
            run_from(acts@, 0) == r0,
        decreases cs@.len() - k,
    {
        let c = &cs[k];
        let ghost before = acts_view(acts@, cpp_node());
        if skip_params && c.kind == CursorKind::Param {
            assert(before + Seq::<ActionV<Cursor>>::empty() =~= before);
        } else if c.kind == CursorKind::Compound {
            push_act(acts, recurse_all(&c.children));
        } else {
            push_act(acts, recurse_one(c));
        }
        assert(acts_view(acts@, cpp_node()) =~= a0 + body_parts(cs@, k + 1, skip_params));
        k = k + 1;
    }
}

fn entity_actions<'a>(e: &'a Cursor) -> (r: Vec<Action<&'a Cursor>>)
    ensures
        acts_view(r@, cpp_node()) == cpp_rule(*e),
        balanced(r@),
{
    let mut acts: Vec<Action<&'a Cursor>> = Vec::new();
    assert(acts_view(acts@, cpp_node()) =~= Seq::<ActionV<Cursor>>::empty());
    assert(run_from(acts@, 0) == Some(0int));
    assert(names_view(Seq::<String>::empty()) =~= Seq::<Seq<char>>::empty());
    assert(params_view(Seq::<(String, u32)>::empty()) =~= Seq::<(Seq<char>, u32)>::empty());
    let ghost cs = e.children@;
    match e.kind {
        CursorKind::Function => {
            let name = name_of(e);
            push_act(
                &mut acts,
                Action::Bind { name: name.clone(), kind: BindKind::Decl, line: e.line, intro: false, deps: Vec::new(), is_class_def: false },
            );
            if has_child(e, CursorKind::Compound) {
                push_act(
                    &mut acts,
                    Action::OpenScope { leaf: name, params: params_of(&e.children), is_class: false, is_namespace: false, nonlocals: Vec::new() },
                );
                body(&e.children, true, &mut acts);
                push_act(&mut acts, Action::Close);
            }
        },
        CursorKind::Class => {
            let name = name_of(e);
            push_act(
                &mut acts,
                Action::Bind { name: name.clone(), kind: BindKind::Decl, line: e.line, intro: false, deps: Vec::new(), is_class_def: true },
            );
            if e.is_definition {
                push_act(
                    &mut acts,
                    Action::OpenScope { leaf: name, params: Vec::new(), is_class: true, is_namespace: false, nonlocals: Vec::new() },
                );
                push_act(&mut acts, recurse_all(&e.children));
                push_act(&mut acts, Action::Close);
            }
        },
        CursorKind::Namespace => {
            push_act(
                &mut acts,
                Action::OpenScope { leaf: name_of(e), params: Vec::new(), is_class: false, is_namespace: true, nonlocals: Vec::new() },
            );
            push_act(&mut acts, recurse_all(&e.children));
            push_act(&mut acts, Action::Close);
        },
        CursorKind::Var => {
            let name = name_of(e);
            push_act(
                &mut acts,
                Action::Bind {
                    name: name.clone(),
                    kind: BindKind::Value,
                    line: e.line,
                    intro: false,
                    deps: loads_of(&e.children),
                    is_class_def: false,
                },
            );
            if e.children.len() > 0 {
                push_act(&mut acts, Action::OpenAttrib { leaf: name, fallback_to_scope: true });
                push_act(&mut acts, recurse_all(&e.children));
                push_act(&mut acts, Action::CloseAttrib);
            }
        },
        CursorKind::Field | CursorKind::Param => {},
        CursorKind::Loop => {
            push_act(&mut acts, Action::OpenBlock { is_loop: true });
            body(&e.children, false, &mut acts);
            push_act(&mut acts, Action::Close);
        },
        CursorKind::Compound => {
            push_act(&mut acts, Action::OpenBlock { is_loop: false });
            push_act(&mut acts, recurse_all(&e.children));
            push_act(&mut acts, Action::Close);
        },
        CursorKind::DeclRef => match &e.name {
            Some(n) => push_act(&mut acts, Action::Use { name: n.clone(), line: e.line, member: false }),
            None => {},
        },
        CursorKind::MemberRef => {
            if e.children.len() == 0 {
                push_act(&mut acts, Action::Use { name: name_of(e), line: e.line, member: true });
            } else {
                push_act(&mut acts, recurse_all(&e.children));
            }
        },
        CursorKind::Lambda | CursorKind::Other => push_act(&mut acts, recurse_all(&e.children)),
    }
    assert(acts_view(acts@, cpp_node()) =~= cpp_rule(*e));
    acts
}

/// What a cursor lowers to ([`cpp_rule`]).
pub open spec fn cpp_lowering() -> spec_fn(Cursor) -> Seq<ActionV<Cursor>> {
    |c: Cursor| cpp_rule(c)
}

impl<'a> ScopeLang for CppLang<'a> {
    type Node = &'a Cursor;
    type NodeV = Cursor;

    open spec fn node_view(&self) -> spec_fn(&'a Cursor) -> Cursor {
        cpp_node()
    }

    open spec fn lowering(&self) -> spec_fn(Cursor) -> Seq<ActionV<Cursor>> {
        cpp_lowering()
    }

    fn actions(&self, node: &&'a Cursor) -> (r: Vec<Action<&'a Cursor>>) {
        entity_actions(*node)
    }
}

} // verus!
