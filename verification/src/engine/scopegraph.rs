//! The language-agnostic **scope graph**: bindings + references over a block/scope tree with
//! textual order. A frontend BUILDS one (mapping its syntax to bindings/uses/scopes);
//! [`ScopeGraph::score`] then computes locality language-agnostically.
//!
//! Locality score per value binding = `levels_excess + wedges`:
//! - **levels_excess** — how far the declaration could move DOWN toward the narrowest block (LCA)
//!   covering its uses, never crossing a loop boundary (loop-carried state stays outside).
//! - **wedges** — unrelated sibling definitions wedged between the binding and its dependencies
//!   (above) or its first use (below).
//!
//! Declarations of code (def/class/import) are free of nesting — not scored here.

use vstd::prelude::*;

use crate::engine::raw::{RawEntity, RawEntityV, RawKind, RawScope, RawScopeV, debts_view, entities_view, lines_view, pairs_view};
use crate::engine::wedge::{self, Sib, SibV, count_wedges, dep_side_count, keys_view, lemma_count_wedges_bound, lemma_dep_side_bound, sibs_view};
use crate::text::{chars_of, lemma_str_lt_order, push_char, qual_leaf, str_lt, chars_lt, leaf_of};

verus! {

/// The kind of a binding (the frontend classifies each binding site).
#[derive(Clone, Copy, PartialEq, Eq, Debug, Structural)]
pub enum BindKind {
    /// A value binding (variable) — narrowable; scored for levels + wedges.
    Value,
    /// A declaration of reusable code (def/class) — free of nesting; not scored here.
    Decl,
    /// An import — a declaration; free.
    Import,
    /// A parameter — excluded.
    Param,
}

struct Block {
    depth: u32,
    parent: Option<usize>,
    /// A for/while body: no narrowing into it.
    is_loop: bool,
}

struct Binding {
    name: String,
    kind: BindKind,
    decl_block: usize,
    decl_line: u32,
    /// An un-narrowable introducer (loop/`with`/`except`/walrus target) — no levels penalty.
    intro: bool,
    /// For a `Decl`: is it a class (vs a function/method)?
    is_class_def: bool,
    /// Names this binding's defining right-hand side reads — its dependencies.
    deps: Vec<String>,
}

struct Scope {
    parent: Option<usize>,
    qualname: String,
    is_module: bool,
    /// A class body — `self.`/`cls.` member references resolve to its bindings.
    is_class: bool,
    /// A namespace / module block: a definition container, not a runtime frame.
    is_namespace: bool,
    /// Names declared `global`/`nonlocal` here — not local bindings.
    nonlocals: Vec<String>,
    /// The bindings, sorted by name (each name once).
    bindings: Vec<Binding>,
}

/// A reference recorded during the walk, resolved to a binding at scoring time.
struct Use {
    name: String,
    scope: usize,
    block: usize,
    line: u32,
    /// A `self.`/`cls.` member reference — resolves to the enclosing class scope only.
    member: bool,
    /// Attribution override (a definition header): `None` → the use's own scope.
    referrer: Option<String>,
}

/// Everything the locality analysis needs, produced from the single scope graph in one pass.
pub struct ScopeOutput {
    /// Value-binding locality debt (levels + wedges).
    pub debt: Vec<RawScope>,
    /// Definition-reference edges `(referrer_qual, referent_qual)`.
    pub edges: Vec<(String, String)>,
    /// The entity list (every definition binding).
    pub entities: Vec<RawEntity>,
    /// Declare-before-use warnings for values: `(entity_qual, use_line)`.
    pub decl_warnings: Vec<(String, u32)>,
}

/// One connected block/scope tree spanning a whole module, plus the reference (use) list.
pub struct ScopeGraph {
    blocks: Vec<Block>,
    scopes: Vec<Scope>,
    uses: Vec<Use>,
}

// --- the abstract graph --------------------------------------------------------------------

pub struct BlockV {
    pub depth: u32,
    pub parent: Option<usize>,
    pub is_loop: bool,
}

pub struct BindingV {
    pub name: Seq<char>,
    pub kind: BindKind,
    pub decl_block: usize,
    pub decl_line: u32,
    pub intro: bool,
    pub is_class_def: bool,
    pub deps: Seq<Seq<char>>,
}

pub struct ScopeV {
    pub parent: Option<usize>,
    pub qualname: Seq<char>,
    pub is_module: bool,
    pub is_class: bool,
    pub is_namespace: bool,
    pub nonlocals: Seq<Seq<char>>,
    pub bindings: Seq<BindingV>,
}

pub struct UseV {
    pub name: Seq<char>,
    pub scope: usize,
    pub block: usize,
    pub line: u32,
    pub member: bool,
    pub referrer: Option<Seq<char>>,
}

/// The abstract scope graph: blocks, scopes (with their bindings, in name order), uses.
pub struct GraphV {
    pub blocks: Seq<BlockV>,
    pub scopes: Seq<ScopeV>,
    pub uses: Seq<UseV>,
}

/// The views of a list of strings.
pub open spec fn names_view(v: Seq<String>) -> Seq<Seq<char>> {
    v.map_values(|s: String| s@)
}

impl View for Block {
    type V = BlockV;

    closed spec fn view(&self) -> BlockV {
        BlockV { depth: self.depth, parent: self.parent, is_loop: self.is_loop }
    }
}

impl View for Binding {
    type V = BindingV;

    closed spec fn view(&self) -> BindingV {
        BindingV {
            name: self.name@,
            kind: self.kind,
            decl_block: self.decl_block,
            decl_line: self.decl_line,
            intro: self.intro,
            is_class_def: self.is_class_def,
            deps: names_view(self.deps@),
        }
    }
}

impl View for Scope {
    type V = ScopeV;

    closed spec fn view(&self) -> ScopeV {
        ScopeV {
            parent: self.parent,
            qualname: self.qualname@,
            is_module: self.is_module,
            is_class: self.is_class,
            is_namespace: self.is_namespace,
            nonlocals: names_view(self.nonlocals@),
            bindings: self.bindings@.map_values(|b: Binding| b@),
        }
    }
}

impl View for Use {
    type V = UseV;

    closed spec fn view(&self) -> UseV {
        UseV {
            name: self.name@,
            scope: self.scope,
            block: self.block,
            line: self.line,
            member: self.member,
            referrer: match self.referrer {
                Some(r) => Some(r@),
                None => None,
            },
        }
    }
}

impl View for ScopeGraph {
    type V = GraphV;

    closed spec fn view(&self) -> GraphV {
        GraphV {
            blocks: self.blocks@.map_values(|b: Block| b@),
            scopes: self.scopes@.map_values(|s: Scope| s@),
            uses: self.uses@.map_values(|u: Use| u@),
        }
    }
}

/// The bindings are in strictly increasing name order.
pub open spec fn names_sorted(bs: Seq<BindingV>) -> bool {
    forall|i: int, j: int| 0 <= i < j < bs.len() ==> str_lt(#[trigger] bs[i].name, #[trigger] bs[j].name)
}

/// Well-formedness: the block tree is rooted at block 0 with depths counting from it; parents
/// (of blocks and scopes) precede their children; bindings are sorted by name and declared in
/// existing blocks; uses name existing scopes and blocks.
pub open spec fn graph_wf(g: GraphV) -> bool {
    &&& g.blocks.len() >= 1
    &&& g.blocks[0].depth == 0
    &&& g.blocks[0].parent is None
    &&& forall|i: int|
        1 <= i < g.blocks.len() ==> ((#[trigger] g.blocks[i]).parent matches Some(p) && p < i && g.blocks[i].depth
            == g.blocks[p as int].depth + 1)
    &&& forall|s: int| 0 <= s < g.scopes.len() ==> ((#[trigger] g.scopes[s]).parent matches Some(p) ==> p < s)
    &&& forall|s: int| 0 <= s < g.scopes.len() ==> names_sorted((#[trigger] g.scopes[s]).bindings)
    &&& forall|s: int, j: int|
        0 <= s < g.scopes.len() && 0 <= j < g.scopes[s].bindings.len() ==> (#[trigger] g.scopes[s].bindings[j]).decl_block
            < g.blocks.len()
    &&& forall|k: int| 0 <= k < g.uses.len() ==> (#[trigger] g.uses[k]).scope < g.scopes.len() && g.uses[k].block < g.blocks.len()
}

/// A definition container (module root, class body, or namespace/`mod`): a value bound here is a
/// top-level DATA definition, free of nesting — not a narrowable local.
pub open spec fn holds_defs(s: ScopeV) -> bool {
    s.is_module || s.is_class || s.is_namespace
}

/// The index of the binding named `name`, if any.
pub open spec fn binding_index(bs: Seq<BindingV>, name: Seq<char>) -> Option<int>
    decreases bs.len(),
{
    if bs.len() == 0 {
        None
    } else if bs.last().name == name {
        Some(bs.len() - 1)
    } else {
        binding_index(bs.drop_last(), name)
    }
}

/// The number of bindings whose name sorts before `name` (its insertion point).
pub open spec fn count_before(bs: Seq<BindingV>, name: Seq<char>) -> int
    decreases bs.len(),
{
    if bs.len() == 0 {
        0
    } else {
        count_before(bs.drop_last(), name) + if str_lt(bs.last().name, name) { 1int } else { 0int }
    }
}

/// `bs` with `b` inserted at its name-order position.
pub open spec fn insert_binding(bs: Seq<BindingV>, b: BindingV) -> Seq<BindingV> {
    let p = count_before(bs, b.name);
    bs.take(p).push(b) + bs.skip(p)
}

/// The bindings after binding `name` (the first-binding rule keeps the earliest declaration).
pub open spec fn bind_into(
    bs: Seq<BindingV>,
    name: Seq<char>,
    kind: BindKind,
    block: usize,
    line: u32,
    intro: bool,
    is_class_def: bool,
) -> Seq<BindingV> {
    match binding_index(bs, name) {
        Some(j) => if line < bs[j].decl_line {
            bs.update(j, BindingV { decl_block: block, decl_line: line, intro, ..bs[j] })
        } else {
            bs
        },
        None => insert_binding(
            bs,
            BindingV { name, kind, decl_block: block, decl_line: line, intro, is_class_def, deps: Seq::empty() },
        ),
    }
}

/// In a name-sorted list, the names sorting before `name` are exactly the first
/// [`count_before`] ones.
proof fn lemma_count_before_prefix(bs: Seq<BindingV>, name: Seq<char>)
    requires
        names_sorted(bs),
    ensures
        0 <= count_before(bs, name) <= bs.len(),
        forall|q: int| 0 <= q < count_before(bs, name) ==> str_lt(#[trigger] bs[q].name, name),
        forall|q: int| count_before(bs, name) <= q < bs.len() ==> !str_lt(#[trigger] bs[q].name, name),
    decreases bs.len(),
{
    if bs.len() > 0 {
        let init = bs.drop_last();
        assert forall|a: int, b: int| 0 <= a < b < init.len() implies str_lt(#[trigger] init[a].name, #[trigger] init[b].name) by {
            assert(init[a] == bs[a] && init[b] == bs[b]);
        }
        lemma_count_before_prefix(init, name);
        let c0 = count_before(init, name);
        if str_lt(bs.last().name, name) {
            assert forall|q: int| 0 <= q < bs.len() implies str_lt(#[trigger] bs[q].name, name) by {
                if q < bs.len() - 1 {
                    lemma_str_lt_order(bs[q].name, bs.last().name, name);
                }
            }
            if c0 < init.len() {
                assert(init[c0] == bs[c0]);
                assert(str_lt(bs[c0].name, name));
            }
        } else {
            assert forall|q: int| 0 <= q < c0 implies str_lt(#[trigger] bs[q].name, name) by {
                assert(init[q] == bs[q]);
            }
            assert forall|q: int| c0 <= q < bs.len() implies !str_lt(#[trigger] bs[q].name, name) by {
                if q < bs.len() - 1 {
                    assert(init[q] == bs[q]);
                }
            }
        }
    }
}

/// After binding `name` in a name-sorted list, the list is still name-sorted and holds one
/// binding of `name`: a new one, or the earlier one moved to the earlier declaration line.
proof fn lemma_bind_into(
    bs: Seq<BindingV>,
    name: Seq<char>,
    kind: BindKind,
    block: usize,
    line: u32,
    intro: bool,
    is_class_def: bool,
)
    requires
        names_sorted(bs),
    ensures
        names_sorted(bind_into(bs, name, kind, block, line, intro, is_class_def)),
        binding_index(bind_into(bs, name, kind, block, line, intro, is_class_def), name) matches Some(j) && match binding_index(
            bs,
            name,
        ) {
            Some(i) => j == i && bind_into(bs, name, kind, block, line, intro, is_class_def)[j].decl_line == (if line
                < bs[i].decl_line {
                line
            } else {
                bs[i].decl_line
            }) && bind_into(bs, name, kind, block, line, intro, is_class_def)[j].kind == bs[i].kind && bind_into(
                bs,
                name,
                kind,
                block,
                line,
                intro,
                is_class_def,
            ).len() == bs.len(),
            None => bind_into(bs, name, kind, block, line, intro, is_class_def)[j].decl_line == line && bind_into(
                bs,
                name,
                kind,
                block,
                line,
                intro,
                is_class_def,
            )[j].kind == kind && bind_into(bs, name, kind, block, line, intro, is_class_def).len() == bs.len() + 1,
        },
        binding_index(bind_into(bs, name, kind, block, line, intro, is_class_def), name) matches Some(j)
            && bind_into(bs, name, kind, block, line, intro, is_class_def)[j] == match binding_index(bs, name) {
            Some(i) => if line < bs[i].decl_line {
                BindingV { decl_block: block, decl_line: line, intro, ..bs[i] }
            } else {
                bs[i]
            },
            None => BindingV { name, kind, decl_block: block, decl_line: line, intro, is_class_def, deps: Seq::empty() },
        },
{
    lemma_binding_index(bs, name);
    let r = bind_into(bs, name, kind, block, line, intro, is_class_def);
    match binding_index(bs, name) {
        Some(i) => {
            assert forall|a: int, b: int| 0 <= a < b < r.len() implies str_lt(#[trigger] r[a].name, #[trigger] r[b].name) by {
                assert(r[a].name == bs[a].name && r[b].name == bs[b].name);
            }
            assert(r[i].name == name);
            lemma_binding_index_unique(r, name, i);
        },
        None => {
            let b = BindingV { name, kind, decl_block: block, decl_line: line, intro, is_class_def, deps: Seq::empty() };
            let p = count_before(bs, name);
            lemma_count_before_prefix(bs, name);
            assert forall|q: int| p <= q < bs.len() implies str_lt(name, #[trigger] bs[q].name) by {
                lemma_str_lt_order(bs[q].name, name, name);
            }
            lemma_insert_sorted(bs, b, p);
            assert(r == bs.take(p).push(b) + bs.skip(p));
            assert(r[p] == b);
            lemma_binding_index_unique(r, name, p);
        },
    }
}

/// The first-binding rule: a name bound twice in a scope (not declared `global`/`nonlocal` there)
/// keeps one binding, of the kind it was first bound with, declared at the earlier of the two
/// lines.
pub proof fn law_first_binding_kept(
    g: GraphV,
    scope: usize,
    name: Seq<char>,
    k1: BindKind,
    b1: usize,
    l1: u32,
    i1: bool,
    c1: bool,
    k2: BindKind,
    b2: usize,
    l2: u32,
    i2: bool,
    c2: bool,
)
    requires
        graph_wf(g),
        scope < g.scopes.len(),
        !g.scopes[scope as int].nonlocals.contains(name),
        binding_index(g.scopes[scope as int].bindings, name) is None,
    ensures
        ({
            let bs = bind_spec(bind_spec(g, scope, name, k1, b1, l1, i1, c1), scope, name, k2, b2, l2, i2, c2).scopes[scope as int].bindings;
            binding_index(bs, name) matches Some(j) && bs[j].kind == k1 && bs[j].decl_line == (if l2 < l1 {
                l2
            } else {
                l1
            }) && bs.len() == g.scopes[scope as int].bindings.len() + 1
        }),
{
    let bs0 = g.scopes[scope as int].bindings;
    let g1 = bind_spec(g, scope, name, k1, b1, l1, i1, c1);
    lemma_bind_into(bs0, name, k1, b1, l1, i1, c1);
    let bs1 = bind_into(bs0, name, k1, b1, l1, i1, c1);
    assert(g1.scopes[scope as int].bindings == bs1);
    assert(g1.scopes[scope as int].nonlocals == g.scopes[scope as int].nonlocals);
    lemma_bind_into(bs1, name, k2, b2, l2, i2, c2);
}

/// One call of `bind` on a fixed scope and name: (kind, block, line, intro, is_class_def).
pub type BindCall = (BindKind, usize, u32, bool, bool);

/// The graph after the calls of `bind` in `calls`, in order, on `scope` and `name`.
pub open spec fn bind_calls(g: GraphV, scope: usize, name: Seq<char>, calls: Seq<BindCall>) -> GraphV
    decreases calls.len(),
{
    if calls.len() == 0 {
        g
    } else {
        let c = calls.last();
        bind_spec(bind_calls(g, scope, name, calls.drop_last()), scope, name, c.0, c.1, c.2, c.3, c.4)
    }
}

/// Call `f` declares at the lowest line of all `calls`, and earlier than every call before it.
pub open spec fn first_lowest(calls: Seq<BindCall>, f: int) -> bool {
    &&& 0 <= f < calls.len()
    &&& forall|i: int| 0 <= i < calls.len() ==> calls[f].2 <= (#[trigger] calls[i]).2
    &&& forall|i: int| 0 <= i < f ==> calls[f].2 < (#[trigger] calls[i]).2
}

/// The first-binding rule, over any number of calls: a name bound again and again in a scope
/// (where it is not a `global`/`nonlocal` value) keeps exactly one binding, with the kind and
/// class flag of the first call and the declaration (block, line, introducer flag) of the
/// earliest-declared call, the earlier call on a tie.
pub proof fn law_first_binding_rule(g: GraphV, scope: usize, name: Seq<char>, calls: Seq<BindCall>)
    requires
        graph_wf(g),
        scope < g.scopes.len(),
        calls.len() >= 1,
        binding_index(g.scopes[scope as int].bindings, name) is None,
        !g.scopes[scope as int].nonlocals.contains(name) || forall|i: int| 0 <= i < calls.len() ==> (#[trigger] calls[i]).0
            != BindKind::Value,
    ensures
        ({
            let bs = bind_calls(g, scope, name, calls).scopes[scope as int].bindings;
            &&& names_sorted(bs)
            &&& bs.len() == g.scopes[scope as int].bindings.len() + 1
            &&& binding_index(bs, name) matches Some(j) && bs[j].name == name && bs[j].kind == calls[0].0
                && bs[j].is_class_def == calls[0].4 && exists|f: int|
                first_lowest(calls, f) && bs[j].decl_block == (#[trigger] calls[f]).1 && bs[j].decl_line == calls[f].2
                    && bs[j].intro == calls[f].3
        }),
    decreases calls.len(),
{
    let bs0 = g.scopes[scope as int].bindings;
    let init = calls.drop_last();
    let c = calls.last();
    let prev = bind_calls(g, scope, name, init);
    if init.len() == 0 {
        assert(prev == g);
        assert(c == calls[0]);
        lemma_bind_into(bs0, name, c.0, c.1, c.2, c.3, c.4);
        let bs = bind_calls(g, scope, name, calls).scopes[scope as int].bindings;
        assert(bs == bind_into(bs0, name, c.0, c.1, c.2, c.3, c.4));
        let j = binding_index(bs, name)->0;
        lemma_binding_index(bs, name);
        assert(first_lowest(calls, 0));
        assert(bs[j].decl_block == calls[0].1);
    } else {
        assert forall|i: int| 0 <= i < init.len() implies (#[trigger] init[i]) == calls[i] by {}
        law_first_binding_rule(g, scope, name, init);
        lemma_bind_calls_frame(g, scope, name, init);
        let pbs = prev.scopes[scope as int].bindings;
        assert(prev.scopes[scope as int].nonlocals == g.scopes[scope as int].nonlocals);
        let j = binding_index(pbs, name)->0;
        let f0 = choose|f: int|
            first_lowest(init, f) && pbs[j].decl_block == (#[trigger] init[f]).1 && pbs[j].decl_line == init[f].2
                && pbs[j].intro == init[f].3;
        assert(!(c.0 == BindKind::Value && prev.scopes[scope as int].nonlocals.contains(name))) by {
            if !g.scopes[scope as int].nonlocals.contains(name) {
            } else {
                assert(calls[calls.len() - 1] == c);
            }
        }
        lemma_bind_into(pbs, name, c.0, c.1, c.2, c.3, c.4);
        let bs = bind_calls(g, scope, name, calls).scopes[scope as int].bindings;
        assert(bs == bind_into(pbs, name, c.0, c.1, c.2, c.3, c.4));
        lemma_binding_index(bs, name);
        lemma_binding_index(pbs, name);
        assert(calls[0] == init[0]);
        let n = calls.len() - 1;
        assert(calls[n] == c);
        if c.2 < pbs[j].decl_line {
            assert(first_lowest(calls, n)) by {
                assert forall|i: int| 0 <= i < calls.len() implies calls[n].2 <= (#[trigger] calls[i]).2 by {
                    if i < n {
                        assert(init[f0].2 <= init[i].2);
                    }
                }
                assert forall|i: int| 0 <= i < n implies calls[n].2 < (#[trigger] calls[i]).2 by {
                    assert(init[f0].2 <= init[i].2);
                }
            }
        } else {
            assert(first_lowest(calls, f0)) by {
                assert forall|i: int| 0 <= i < calls.len() implies calls[f0].2 <= (#[trigger] calls[i]).2 by {
                    if i < n {
                        assert(init[f0].2 <= init[i].2);
                    }
                }
                assert forall|i: int| 0 <= i < f0 implies calls[f0].2 < (#[trigger] calls[i]).2 by {
                    assert(init[f0].2 < init[i].2);
                }
            }
            assert(calls[f0] == init[f0]);
        }
    }
}

/// Binding calls leave the scope's `global`/`nonlocal` names, and the number of scopes, as they
/// were.
proof fn lemma_bind_calls_frame(g: GraphV, scope: usize, name: Seq<char>, calls: Seq<BindCall>)
    requires
        scope < g.scopes.len(),
    ensures
        bind_calls(g, scope, name, calls).scopes.len() == g.scopes.len(),
        bind_calls(g, scope, name, calls).scopes[scope as int].nonlocals == g.scopes[scope as int].nonlocals,
    decreases calls.len(),
{
    if calls.len() > 0 {
        lemma_bind_calls_frame(g, scope, name, calls.drop_last());
    }
}

/// The qualname for a child `name` of scope `parent`.
pub open spec fn child_qual_of(s: ScopeV, name: Seq<char>) -> Seq<char> {
    if s.is_module { name } else { s.qualname + seq!['.'] + name }
}

// --- exec helpers ----------------------------------------------------------------------------

/// `a + "." + b`.
fn dotted(a: &String, b: &str) -> (r: String)
    ensures
        r@ == a@ + seq!['.'] + b@,
{
    let mut r = a.clone();
    push_char(&mut r, '.');
    let cs = chars_of(b);
    let mut i: usize = 0;
    while i < cs.len()
        invariant
            i <= cs@.len(),
            cs@ == b@,
            r@ == a@ + seq!['.'] + cs@.take(i as int),
        decreases cs@.len() - i,
    {
        push_char(&mut r, cs[i]);
        assert(r@ =~= a@ + seq!['.'] + cs@.take(i + 1));
        i = i + 1;
    }
    assert(cs@.take(cs@.len() as int) =~= cs@);
    r
}

/// Does `v` hold `name`?
fn holds_name(v: &Vec<String>, name: &String) -> (r: bool)
    ensures
        r == names_view(v@).contains(name@),
{
    let mut i: usize = 0;
    while i < v.len()
        invariant
            i <= v@.len(),
            forall|j: int| 0 <= j < i ==> v@[j]@ != name@,
        decreases v@.len() - i,
    {
        if v[i] == *name {
            assert(names_view(v@)[i as int] == name@);
            return true;
        }
        i = i + 1;
    }
    proof {
        if names_view(v@).contains(name@) {
            let j = choose|j: int| 0 <= j < v@.len() && names_view(v@)[j] == name@;
            assert(v@[j]@ == name@);
        }
    }
    false
}

/// A copy of a list of strings.
fn copy_names(v: &Vec<String>) -> (r: Vec<String>)
    ensures
        names_view(r@) == names_view(v@),
{
    let mut r: Vec<String> = Vec::new();
    let mut i: usize = 0;
    while i < v.len()
        invariant
            i <= v@.len(),
            r@.len() == i,
            names_view(r@) == names_view(v@).take(i as int),
        decreases v@.len() - i,
    {
        let c = v[i].clone();
        assert(c@ == v@[i as int]@);
        let ghost before = r@;
        r.push(c);
        assert(r@ == before.push(c));
        assert forall|k: int| 0 <= k <= i implies #[trigger] names_view(r@)[k] == names_view(v@).take(i + 1)[k] by {
            if k < i {
                assert(names_view(r@)[k] == r@[k]@);
                assert(r@[k] == before[k]);
                assert(names_view(before)[k] == before[k]@);
            } else {
                assert(names_view(r@)[k] == r@[k]@);
            }
        }
        assert(names_view(r@) =~= names_view(v@).take(i + 1));
        i = i + 1;
    }
    assert(names_view(v@).take(v@.len() as int) =~= names_view(v@));
    r
}

proof fn lemma_binding_index(bs: Seq<BindingV>, name: Seq<char>)
    ensures
        binding_index(bs, name) matches Some(j) ==> 0 <= j < bs.len() && bs[j].name == name,
        binding_index(bs, name) is None ==> forall|j: int| 0 <= j < bs.len() ==> bs[j].name != name,
    decreases bs.len(),
{
    if bs.len() > 0 {
        lemma_binding_index(bs.drop_last(), name);
        assert forall|j: int| 0 <= j < bs.len() - 1 implies bs.drop_last()[j] == bs[j] by {}
    }
}

/// In a name-sorted list, the binding named `name` is the only one with that name.
proof fn lemma_binding_index_unique(bs: Seq<BindingV>, name: Seq<char>, j: int)
    requires
        names_sorted(bs),
        0 <= j < bs.len(),
        bs[j].name == name,
    ensures
        binding_index(bs, name) == Some(j),
    decreases bs.len(),
{
    if j < bs.len() - 1 {
        lemma_str_lt_order(bs[j].name, bs[j].name, bs[j].name);
        assert(str_lt(bs[j].name, bs.last().name));
        let init = bs.drop_last();
        assert forall|a: int, b: int| 0 <= a < b < init.len() implies str_lt(#[trigger] init[a].name, #[trigger] init[b].name) by {
            assert(init[a] == bs[a] && init[b] == bs[b]);
        }
        assert(init[j] == bs[j]);
        lemma_binding_index_unique(init, name, j);
    }
}

proof fn lemma_count_before(bs: Seq<BindingV>, name: Seq<char>, p: int)
    requires
        names_sorted(bs),
        0 <= p <= bs.len(),
        forall|q: int| 0 <= q < p ==> str_lt(#[trigger] bs[q].name, name),
        forall|q: int| p <= q < bs.len() ==> !str_lt(#[trigger] bs[q].name, name),
    ensures
        count_before(bs, name) == p,
    decreases bs.len(),
{
    if bs.len() > 0 {
        let init = bs.drop_last();
        assert forall|a: int, b: int| 0 <= a < b < init.len() implies str_lt(#[trigger] init[a].name, #[trigger] init[b].name) by {
            assert(init[a] == bs[a] && init[b] == bs[b]);
        }
        if p == bs.len() {
            assert forall|q: int| 0 <= q < p - 1 implies str_lt(#[trigger] init[q].name, name) by {
                assert(init[q] == bs[q]);
            }
            lemma_count_before(init, name, p - 1);
        } else {
            assert forall|q: int| 0 <= q < p implies str_lt(#[trigger] init[q].name, name) by {
                assert(init[q] == bs[q]);
            }
            assert forall|q: int| p <= q < init.len() implies !str_lt(#[trigger] init[q].name, name) by {
                assert(init[q] == bs[q]);
            }
            lemma_count_before(init, name, p);
        }
    }
}

impl Scope {
    /// The position of `name` among the bindings: `Ok(j)` when bound at `j`, else `Err(p)`, the
    /// insertion point keeping the names sorted.
    fn locate(&self, name: &String) -> (r: Result<usize, usize>)
        requires
            names_sorted(self@.bindings),
        ensures
            r matches Ok(j) ==> binding_index(self@.bindings, name@) == Some(j as int),
            r matches Err(p) ==> binding_index(self@.bindings, name@) is None && count_before(self@.bindings, name@) == p
                && p <= self@.bindings.len() && (forall|q: int| 0 <= q < p ==> str_lt(#[trigger] self@.bindings[q].name, name@))
                && (forall|q: int| p <= q < self@.bindings.len() ==> str_lt(name@, #[trigger] self@.bindings[q].name)),
    {
        let ghost bs = self@.bindings;
        let nc = chars_of(name.as_str());
        let mut i: usize = 0;
        while i < self.bindings.len()
            invariant
                bs == self@.bindings,
                names_sorted(bs),
                nc@ == name@,
                i <= bs.len(),
                forall|q: int| 0 <= q < i ==> str_lt(#[trigger] bs[q].name, name@),
            decreases bs.len() - i,
        {
            assert(bs[i as int] == self.bindings@[i as int]@);
            let bc = chars_of(self.bindings[i].name.as_str());
            if self.bindings[i].name == *name {
                proof {
                    lemma_binding_index_unique(bs, name@, i as int);
                }
                return Ok(i);
            }
            if !chars_lt(&bc, &nc) {
                proof {
                    assert forall|q: int| i <= q < bs.len() implies !str_lt(#[trigger] bs[q].name, name@) by {
                        if q > i {
                            lemma_str_lt_order(bs[i as int].name, bs[q].name, name@);
                            lemma_str_lt_order(name@, bs[i as int].name, bs[q].name);
                        }
                    }
                    lemma_str_lt_order(name@, bs[i as int].name, bs[i as int].name);
                    assert forall|q: int| i <= q < bs.len() implies str_lt(name@, #[trigger] bs[q].name) by {
                        lemma_str_lt_order(name@, bs[i as int].name, bs[q].name);
                        lemma_str_lt_order(bs[q].name, name@, name@);
                    }
                    lemma_count_before(bs, name@, i as int);
                    lemma_binding_index(bs, name@);
                    if binding_index(bs, name@) is Some {
                        let j = binding_index(bs, name@)->0;
                        if j < i {
                            lemma_str_lt_order(bs[j].name, name@, name@);
                        } else if j > i {
                            lemma_str_lt_order(name@, bs[i as int].name, bs[j].name);
                            lemma_str_lt_order(bs[i as int].name, name@, name@);
                        }
                    }
                }
                return Err(i);
            }
            i = i + 1;
        }
        proof {
            lemma_count_before(bs, name@, i as int);
            lemma_binding_index(bs, name@);
            if binding_index(bs, name@) is Some {
                let j = binding_index(bs, name@)->0;
                lemma_str_lt_order(bs[j].name, name@, name@);
            }
        }
        Err(i)
    }
}


/// The graph after `bind`: a `global`/`nonlocal` value name is a use of the outer binding;
/// otherwise the binding is added (or, when already bound, moved to an earlier declaration).
pub open spec fn bind_spec(
    g: GraphV,
    scope: usize,
    name: Seq<char>,
    kind: BindKind,
    block: usize,
    line: u32,
    intro: bool,
    is_class_def: bool,
) -> GraphV {
    if kind == BindKind::Value && g.scopes[scope as int].nonlocals.contains(name) {
        GraphV { uses: g.uses.push(UseV { name, scope, block, line, member: false, referrer: None }), ..g }
    } else {
        let s = g.scopes[scope as int];
        GraphV {
            scopes: g.scopes.update(
                scope as int,
                ScopeV { bindings: bind_into(s.bindings, name, kind, block, line, intro, is_class_def), ..s },
            ),
            ..g
        }
    }
}

/// The graph after `set_deps`: the dependencies of binding `name` are set, unless already set.
pub open spec fn set_deps_spec(g: GraphV, scope: usize, name: Seq<char>, deps: Seq<Seq<char>>) -> GraphV {
    let s = g.scopes[scope as int];
    match binding_index(s.bindings, name) {
        Some(j) => if s.bindings[j].deps.len() == 0 {
            GraphV {
                scopes: g.scopes.update(
                    scope as int,
                    ScopeV { bindings: s.bindings.update(j, BindingV { deps, ..s.bindings[j] }), ..s },
                ),
                ..g
            }
        } else {
            g
        },
        None => g,
    }
}

proof fn lemma_insert_sorted(bs: Seq<BindingV>, b: BindingV, p: int)
    requires
        names_sorted(bs),
        0 <= p <= bs.len(),
        forall|q: int| 0 <= q < p ==> str_lt(#[trigger] bs[q].name, b.name),
        forall|q: int| p <= q < bs.len() ==> str_lt(b.name, #[trigger] bs[q].name),
    ensures
        names_sorted(bs.take(p).push(b) + bs.skip(p)),
{
    let r = bs.take(p).push(b) + bs.skip(p);
    assert forall|i: int, j: int| 0 <= i < j < r.len() implies str_lt(#[trigger] r[i].name, #[trigger] r[j].name) by {
        if i < p && j < p {
            assert(r[i] == bs[i] && r[j] == bs[j]);
        } else if i < p && j == p {
            assert(r[i] == bs[i]);
        } else if i < p {
            assert(r[i] == bs[i] && r[j] == bs[j - 1]);
            lemma_str_lt_order(bs[i].name, b.name, bs[j - 1].name);
        } else if i == p {
            assert(r[j] == bs[j - 1]);
        } else {
            assert(r[i] == bs[i - 1] && r[j] == bs[j - 1]);
        }
    }
}

impl ScopeGraph {
    pub fn new() -> (g: ScopeGraph)
        ensures
            g@ == (GraphV { blocks: seq![BlockV { depth: 0, parent: None, is_loop: false }], scopes: Seq::empty(), uses: Seq::empty() }),
            graph_wf(g@),
    {
        let mut blocks: Vec<Block> = Vec::new();
        blocks.push(Block { depth: 0, parent: None, is_loop: false });
        let g = ScopeGraph { blocks, scopes: Vec::new(), uses: Vec::new() };
        assert(g@.blocks =~= seq![BlockV { depth: 0, parent: None, is_loop: false }]);
        assert(g@.scopes =~= Seq::<ScopeV>::empty());
        assert(g@.uses =~= Seq::<UseV>::empty());
        g
    }

    /// The number of blocks so far.
    pub fn block_count(&self) -> (n: usize)
        ensures
            n == self@.blocks.len(),
    {
        self.blocks.len()
    }

    /// The number of scopes so far.
    pub fn scope_count(&self) -> (n: usize)
        ensures
            n == self@.scopes.len(),
    {
        self.scopes.len()
    }

    /// Does every scope hold few enough bindings for [`ScopeGraph::score`]?
    pub fn fits(&self) -> (r: bool)
        ensures
            r == scopes_small(self@),
    {
        let mut i: usize = 0;
        while i < self.scopes.len()
            invariant
                i <= self@.scopes.len(),
                forall|s: int| 0 <= s < i ==> (#[trigger] self@.scopes[s]).bindings.len() < 0x8000_0000,
            decreases self@.scopes.len() - i,
        {
            assert(self@.scopes[i as int] == self.scopes@[i as int]@);
            if self.scopes[i].bindings.len() >= 0x8000_0000 {
                return false;
            }
            i = i + 1;
        }
        true
    }

    /// The root (module) block — depth 0.
    pub fn module_block(&self) -> (b: usize)
        ensures
            b == 0,
    {
        0
    }

    /// Open a scope (its parent must already exist). Returns its index.
    pub fn new_scope(
        &mut self,
        parent: Option<usize>,
        qualname: String,
        is_module: bool,
        is_class: bool,
        is_namespace: bool,
        nonlocals: Vec<String>,
    ) -> (id: usize)
        requires
            graph_wf(old(self)@),
            parent matches Some(p) ==> p < old(self)@.scopes.len(),
        ensures
            id == old(self)@.scopes.len(),
            final(self)@ == (GraphV {
                scopes: old(self)@.scopes.push(
                    ScopeV { parent, qualname: qualname@, is_module, is_class, is_namespace, nonlocals: names_view(nonlocals@), bindings: Seq::empty() },
                ),
                ..old(self)@
            }),
            graph_wf(final(self)@),
    {
        let id = self.scopes.len();
        let ghost old_g = self@;
        let sc = Scope { parent, qualname, is_module, is_class, is_namespace, nonlocals, bindings: Vec::new() };
        assert(sc@.bindings =~= Seq::<BindingV>::empty());
        self.scopes.push(sc);
        assert(self@.scopes =~= old_g.scopes.push(sc@));
        assert(self@.blocks =~= old_g.blocks);
        assert(self@.uses =~= old_g.uses);
        id
    }

    /// Open a block under `parent` (`is_loop` marks a for/while body). Returns its index.
    pub fn new_block(&mut self, parent: usize, is_loop: bool) -> (id: usize)
        requires
            graph_wf(old(self)@),
            parent < old(self)@.blocks.len(),
            old(self)@.blocks[parent as int].depth < u32::MAX,
        ensures
            id == old(self)@.blocks.len(),
            final(self)@ == (GraphV {
                blocks: old(self)@.blocks.push(
                    BlockV { depth: (old(self)@.blocks[parent as int].depth + 1) as u32, parent: Some(parent), is_loop },
                ),
                ..old(self)@
            }),
            graph_wf(final(self)@),
    {
        let ghost old_g = self@;
        assert(old_g.blocks[parent as int] == self.blocks@[parent as int]@);
        let depth = self.blocks[parent].depth + 1;
        let id = self.blocks.len();
        let b = Block { depth, parent: Some(parent), is_loop };
        self.blocks.push(b);
        assert(self@.blocks =~= old_g.blocks.push(b@));
        assert(self@.scopes =~= old_g.scopes);
        assert(self@.uses =~= old_g.uses);
        id
    }

    /// Record a reference to `name` in `scope`/`block` at `line`.
    pub fn add_use(&mut self, name: &str, scope: usize, block: usize, line: u32, member: bool, referrer: Option<String>)
        requires
            graph_wf(old(self)@),
            scope < old(self)@.scopes.len(),
            block < old(self)@.blocks.len(),
        ensures
            final(self)@ == (GraphV {
                uses: old(self)@.uses.push(
                    UseV {
                        name: name@,
                        scope,
                        block,
                        line,
                        member,
                        referrer: match referrer {
                            Some(r) => Some(r@),
                            None => None,
                        },
                    },
                ),
                ..old(self)@
            }),
            graph_wf(final(self)@),
    {
        let ghost old_g = self@;
        let u = Use { name: name.to_owned(), scope, block, line, member, referrer };
        self.uses.push(u);
        assert(self@.uses =~= old_g.uses.push(u@));
        assert(self@.scopes =~= old_g.scopes);
        assert(self@.blocks =~= old_g.blocks);
    }

    /// Introduce binding `name` in `scope`, declared in `block` at `line` (see [`bind_spec`]).
    #[verifier::spinoff_prover]
    #[verifier::rlimit(40)]
    pub fn bind(&mut self, scope: usize, name: &str, kind: BindKind, block: usize, line: u32, intro: bool, is_class_def: bool)
        requires
            graph_wf(old(self)@),
            scope < old(self)@.scopes.len(),
            block < old(self)@.blocks.len(),
        ensures
            final(self)@ == bind_spec(old(self)@, scope, name@, kind, block, line, intro, is_class_def),
            graph_wf(final(self)@),
    {
        let ghost old_g = self@;
        let name_s = name.to_owned();
        assert(old_g.scopes[scope as int] == self.scopes@[scope as int]@);
        if kind == BindKind::Value && holds_name(&self.scopes[scope].nonlocals, &name_s) {
            // a `global`/`nonlocal` name is not a local binding — the write is a use of the outer one
            self.add_use(name, scope, block, line, false, None);
            return;
        }
        let ghost old_s = self.scopes@[scope as int];
        match self.scopes[scope].locate(&name_s) {
            Ok(j) => {
                proof {
                    lemma_binding_index(old_s@.bindings, name_s@);
                    assert(old_s@.bindings.len() == old_s.bindings@.len());
                }
                assert(old_s@.bindings[j as int] == old_s.bindings@[j as int]@);
                if line >= self.scopes[scope].bindings[j].decl_line {
                    assert(self@.scopes =~= old_g.scopes);
                }
                if line < self.scopes[scope].bindings[j].decl_line {
                    // first-binding rule: keep the earliest declaration
                    self.scopes[scope].bindings[j].decl_block = block;
                    self.scopes[scope].bindings[j].decl_line = line;
                    self.scopes[scope].bindings[j].intro = intro;
                    proof {
                        let nb = old_s@.bindings.update(j as int, BindingV { decl_block: block, decl_line: line, intro, ..old_s@.bindings[j as int] });
                        assert(self.scopes@[scope as int]@.bindings =~= nb);
                        assert(self@.scopes =~= old_g.scopes.update(scope as int, ScopeV { bindings: nb, ..old_s@ }));
                        assert forall|a: int, b: int| 0 <= a < b < nb.len() implies str_lt(#[trigger] nb[a].name, #[trigger] nb[b].name) by {
                            assert(nb[a].name == old_s@.bindings[a].name && nb[b].name == old_s@.bindings[b].name);
                        }
                    }
                }
            },
            Err(p) => {
                let b = Binding { name: name_s, kind, decl_block: block, decl_line: line, intro, is_class_def, deps: Vec::new() };
                assert(names_view(b.deps@) =~= Seq::<Seq<char>>::empty());
                self.scopes[scope].bindings.insert(p, b);
                proof {
                    let nb = old_s@.bindings.take(p as int).push(b@) + old_s@.bindings.skip(p as int);
                    assert(self.scopes@[scope as int]@.bindings =~= nb);
                    assert(self@.scopes =~= old_g.scopes.update(scope as int, ScopeV { bindings: nb, ..old_s@ }));
                    lemma_insert_sorted(old_s@.bindings, b@, p as int);
                }
            },
        }
        proof {
            assert(self@.blocks =~= old_g.blocks);
            assert(self@.uses =~= old_g.uses);
            let sp = bind_spec(old_g, scope, name@, kind, block, line, intro, is_class_def);
            assert(self@.scopes =~= sp.scopes);
            assert(self@ == sp);
        }
    }

    /// Set the dependencies of binding `name` in `scope` (the first setting wins).
    pub fn set_deps(&mut self, scope: usize, name: &str, deps: &[String])
        requires
            graph_wf(old(self)@),
            scope < old(self)@.scopes.len(),
        ensures
            final(self)@ == set_deps_spec(old(self)@, scope, name@, deps@.map_values(|s: String| s@)),
            graph_wf(final(self)@),
    {
        let ghost old_g = self@;
        let name_s = name.to_owned();
        assert(old_g.scopes[scope as int] == self.scopes@[scope as int]@);
        let ghost old_s = self.scopes@[scope as int];
        match self.scopes[scope].locate(&name_s) {
            Ok(j) => {
                proof {
                    lemma_binding_index(old_s@.bindings, name_s@);
                    assert(old_s@.bindings.len() == old_s.bindings@.len());
                }
                assert(old_s@.bindings[j as int] == old_s.bindings@[j as int]@);
                if self.scopes[scope].bindings[j].deps.len() == 0 {
                    let mut v: Vec<String> = Vec::new();
                    let mut i: usize = 0;
                    while i < deps.len()
                        invariant
                            i <= deps@.len(),
                            v@.len() == i,
                            names_view(v@) == deps@.map_values(|s: String| s@).take(i as int),
                        decreases deps@.len() - i,
                    {
                        let c = deps[i].clone();
                        let ghost before = v@;
                        v.push(c);
                        assert(names_view(v@) =~= deps@.map_values(|s: String| s@).take(i + 1)) by {
                            assert forall|k: int| 0 <= k <= i implies #[trigger] names_view(v@)[k] == deps@.map_values(|s: String| s@).take(i + 1)[k] by {
                                if k < i {
                                    assert(v@[k] == before[k]);
                                    assert(names_view(before)[k] == before[k]@);
                                }
                            }
                        }
                        i = i + 1;
                    }
                    assert(deps@.map_values(|s: String| s@).take(deps@.len() as int) =~= deps@.map_values(|s: String| s@));
                    self.scopes[scope].bindings[j].deps = v;
                    proof {
                        let nb = old_s@.bindings.update(j as int, BindingV { deps: deps@.map_values(|s: String| s@), ..old_s@.bindings[j as int] });
                        assert(self.scopes@[scope as int]@.bindings =~= nb);
                        assert(self@.scopes =~= old_g.scopes.update(scope as int, ScopeV { bindings: nb, ..old_s@ }));
                        assert forall|a: int, b: int| 0 <= a < b < nb.len() implies str_lt(#[trigger] nb[a].name, #[trigger] nb[b].name) by {
                            assert(nb[a].name == old_s@.bindings[a].name && nb[b].name == old_s@.bindings[b].name);
                        }
                    }
                }
            },
            Err(_) => {},
        }
        proof {
            assert(self@.blocks =~= old_g.blocks);
            assert(self@.uses =~= old_g.uses);
            assert(self@.scopes =~= set_deps_spec(old_g, scope, name@, deps@.map_values(|s: String| s@)).scopes);
        }
    }

    /// The qualname for a child scope `name` declared in `parent`.
    pub fn child_qual(&self, parent: usize, name: &str) -> (r: String)
        requires
            parent < self@.scopes.len(),
        ensures
            r@ == child_qual_of(self@.scopes[parent as int], name@),
    {
        assert(self@.scopes[parent as int] == self.scopes@[parent as int]@);
        let p = &self.scopes[parent];
        if p.is_module {
            name.to_owned()
        } else {
            dotted(&p.qualname, name)
        }
    }

    /// Where to attribute a value's right-hand-side references: a definition-container value is a
    /// DATA definition (its own qualname); a function-local value belongs to its function.
    pub fn data_attrib(&self, scope: usize, name: &str) -> (r: String)
        requires
            scope < self@.scopes.len(),
        ensures
            r@ == if holds_defs(self@.scopes[scope as int]) {
                child_qual_of(self@.scopes[scope as int], name@)
            } else {
                self@.scopes[scope as int].qualname
            },
    {
        assert(self@.scopes[scope as int] == self.scopes@[scope as int]@);
        let s = &self.scopes[scope];
        if s.is_module || s.is_class || s.is_namespace {
            self.child_qual(scope, name)
        } else {
            s.qualname.clone()
        }
    }
}


// --- resolution (spec) ---------------------------------------------------------------------

/// Scope `s` binds `name`.
pub open spec fn scope_has(s: ScopeV, name: Seq<char>) -> bool {
    binding_index(s.bindings, name) is Some
}

/// Lexical resolution of `name` from scope `sid` outward. A nested scope does not see an
/// enclosing CLASS body's names (they are reached via `self.`/`cls.`); the starting scope sees its
/// own names.
pub open spec fn resolve_from(g: GraphV, name: Seq<char>, sid: int, start: bool) -> Option<int>
    decreases sid,
{
    if !(0 <= sid < g.scopes.len()) {
        None
    } else {
        let s = g.scopes[sid];
        if (start || !s.is_class) && scope_has(s, name) {
            Some(sid)
        } else {
            match s.parent {
                Some(p) => if (p as int) < sid { resolve_from(g, name, p as int, false) } else { None },
                None => None,
            }
        }
    }
}

/// Member resolution of `self.name`/`cls.name` from scope `sid`: the nearest enclosing class
/// scope, looked up there only.
pub open spec fn resolve_member(g: GraphV, name: Seq<char>, sid: int) -> Option<int>
    decreases sid,
{
    if !(0 <= sid < g.scopes.len()) {
        None
    } else {
        let s = g.scopes[sid];
        if s.is_class {
            if scope_has(s, name) { Some(sid) } else { None }
        } else {
            match s.parent {
                Some(p) => if (p as int) < sid { resolve_member(g, name, p as int) } else { None },
                None => None,
            }
        }
    }
}

/// The scope a use resolves to.
pub open spec fn resolve_use(g: GraphV, u: UseV) -> Option<int> {
    if u.member { resolve_member(g, u.name, u.scope as int) } else { resolve_from(g, u.name, u.scope as int, true) }
}

/// `name` in scope `sid` is a DEFINITION: a function/class (`Decl`), or a container-level value.
pub open spec fn is_definition(g: GraphV, sid: int, name: Seq<char>) -> bool {
    let s = g.scopes[sid];
    match binding_index(s.bindings, name) {
        Some(j) => s.bindings[j].kind == BindKind::Decl || (s.bindings[j].kind == BindKind::Value && holds_defs(s)),
        None => false,
    }
}

/// A NAMED definition scope (module / class / namespace, or a body whose leaf is a `Decl` in its
/// parent), as opposed to an anonymous body (lambda / comprehension / closure).
pub open spec fn is_named_scope(g: GraphV, sid: int) -> bool {
    let s = g.scopes[sid];
    if holds_defs(s) {
        true
    } else {
        match s.parent {
            Some(p) => match binding_index(g.scopes[p as int].bindings, qual_leaf(s.qualname)) {
                Some(j) => g.scopes[p as int].bindings[j].kind == BindKind::Decl,
                None => false,
            },
            None => true,
        }
    }
}

/// Where a reference made in scope `sid` is attributed: the nearest enclosing NAMED scope.
pub open spec fn attribution_scope(g: GraphV, sid: int) -> int
    decreases sid,
{
    if !(0 <= sid < g.scopes.len()) || is_named_scope(g, sid) {
        sid
    } else {
        match g.scopes[sid].parent {
            Some(p) => if (p as int) < sid { attribution_scope(g, p as int) } else { sid },
            None => sid,
        }
    }
}

/// The qualname a use is attributed to (its header override, or its attribution scope's).
pub open spec fn referrer_of(g: GraphV, u: UseV) -> Seq<char> {
    match u.referrer {
        Some(r) => r,
        None => g.scopes[attribution_scope(g, u.scope as int)].qualname,
    }
}

/// The definition-reference edge a use contributes, if it resolves to a definition.
pub open spec fn edge_of(g: GraphV, u: UseV) -> Option<(Seq<char>, Seq<char>)> {
    match resolve_use(g, u) {
        Some(bs) => if is_definition(g, bs, u.name) {
            Some((referrer_of(g, u), child_qual_of(g.scopes[bs], u.name)))
        } else {
            None
        },
        None => None,
    }
}

/// The edges of the first `k` uses, in use order.
pub open spec fn edges_upto(g: GraphV, k: int) -> Seq<(Seq<char>, Seq<char>)>
    decreases k,
{
    if k <= 0 {
        Seq::empty()
    } else {
        match edge_of(g, g.uses[k - 1]) {
            Some(e) => edges_upto(g, k - 1).push(e),
            None => edges_upto(g, k - 1),
        }
    }
}

// --- the block tree (spec) -----------------------------------------------------------------

/// Is block `anc` the same as, or an ancestor of, block `node`?
pub open spec fn block_encloses(g: GraphV, anc: int, node: int) -> bool
    decreases node,
{
    if !(0 <= node < g.blocks.len()) {
        false
    } else if node == anc {
        true
    } else {
        match g.blocks[node].parent {
            Some(p) => if (p as int) < node { block_encloses(g, anc, p as int) } else { false },
            None => false,
        }
    }
}

/// The lowest common ancestor of blocks `a` and `b`.
pub open spec fn lca(g: GraphV, a: int, b: int) -> int
    decreases a + b,
{
    if !(0 <= a < g.blocks.len() && 0 <= b < g.blocks.len()) || a == b {
        a
    } else if g.blocks[a].depth > g.blocks[b].depth {
        match g.blocks[a].parent {
            Some(p) => if (p as int) < a { lca(g, p as int, b) } else { a },
            None => a,
        }
    } else if g.blocks[b].depth > g.blocks[a].depth {
        match g.blocks[b].parent {
            Some(p) => if (p as int) < b { lca(g, a, p as int) } else { a },
            None => a,
        }
    } else {
        match (g.blocks[a].parent, g.blocks[b].parent) {
            (Some(p), Some(q)) => if (p as int) < a && (q as int) < b { lca(g, p as int, q as int) } else { a },
            _ => a,
        }
    }
}

/// Walking up from `node` toward depth `decl_depth`, the deepest block reachable without entering
/// a loop body (`target` so far).
pub open spec fn narrow_from(g: GraphV, node: int, decl_depth: u32, target: int) -> int
    decreases node,
{
    if !(0 <= node < g.blocks.len()) || g.blocks[node].depth <= decl_depth {
        target
    } else {
        match g.blocks[node].parent {
            Some(p) => if (p as int) < node {
                narrow_from(g, p as int, decl_depth, if g.blocks[node].is_loop { p as int } else { target })
            } else {
                target
            },
            None => target,
        }
    }
}

/// The deepest block a binding declared in `decl` could move down to, given uses bottoming at
/// `min_block`, without crossing a loop boundary (the highest loop on the path wins).
pub open spec fn narrow_target(g: GraphV, min_block: int, decl: int) -> int {
    narrow_from(g, min_block, g.blocks[decl].depth, min_block)
}

/// A block's depth is at most its index; only the root has depth 0.
pub proof fn lemma_block_bounds(g: GraphV, i: int)
    requires
        graph_wf(g),
        0 <= i < g.blocks.len(),
    ensures
        g.blocks[i].depth <= i,
        i > 0 ==> g.blocks[i].depth > 0,
    decreases i,
{
    if i > 0 {
        let p = g.blocks[i].parent->0 as int;
        lemma_block_bounds(g, p);
    }
}

proof fn lemma_lca_bounds(g: GraphV, a: int, b: int)
    requires
        graph_wf(g),
        0 <= a < g.blocks.len(),
        0 <= b < g.blocks.len(),
    ensures
        0 <= lca(g, a, b) < g.blocks.len(),
    decreases a + b,
{
    if a != b {
        if g.blocks[a].depth > g.blocks[b].depth {
            lemma_block_bounds(g, a);
            lemma_lca_bounds(g, g.blocks[a].parent->0 as int, b);
        } else if g.blocks[b].depth > g.blocks[a].depth {
            lemma_block_bounds(g, b);
            lemma_lca_bounds(g, a, g.blocks[b].parent->0 as int);
        } else {
            lemma_block_bounds(g, a);
            lemma_block_bounds(g, b);
            if a > 0 && b > 0 {
                lemma_lca_bounds(g, g.blocks[a].parent->0 as int, g.blocks[b].parent->0 as int);
            }
        }
    }
}

proof fn lemma_narrow_bounds(g: GraphV, node: int, decl_depth: u32, target: int)
    requires
        graph_wf(g),
        0 <= node < g.blocks.len(),
        0 <= target < g.blocks.len(),
    ensures
        0 <= narrow_from(g, node, decl_depth, target) < g.blocks.len(),
    decreases node,
{
    if g.blocks[node].depth > decl_depth {
        lemma_block_bounds(g, node);
        let p = g.blocks[node].parent->0 as int;
        lemma_narrow_bounds(g, p, decl_depth, if g.blocks[node].is_loop { p } else { target });
    }
}


proof fn lemma_resolve_from(g: GraphV, name: Seq<char>, sid: int, start: bool)
    ensures
        resolve_from(g, name, sid, start) matches Some(r) ==> 0 <= r < g.scopes.len() && scope_has(g.scopes[r], name),
    decreases sid,
{
    if 0 <= sid < g.scopes.len() {
        if let Some(p) = g.scopes[sid].parent {
            if (p as int) < sid {
                lemma_resolve_from(g, name, p as int, false);
            }
        }
    }
}

proof fn lemma_resolve_member(g: GraphV, name: Seq<char>, sid: int)
    ensures
        resolve_member(g, name, sid) matches Some(r) ==> 0 <= r < g.scopes.len() && scope_has(g.scopes[r], name),
    decreases sid,
{
    if 0 <= sid < g.scopes.len() {
        if let Some(p) = g.scopes[sid].parent {
            if (p as int) < sid {
                lemma_resolve_member(g, name, p as int);
            }
        }
    }
}

proof fn lemma_attribution_bounds(g: GraphV, sid: int)
    requires
        0 <= sid < g.scopes.len(),
    ensures
        0 <= attribution_scope(g, sid) < g.scopes.len(),
    decreases sid,
{
    if !is_named_scope(g, sid) {
        if let Some(p) = g.scopes[sid].parent {
            if (p as int) < sid {
                lemma_attribution_bounds(g, p as int);
            }
        }
    }
}

impl ScopeGraph {
    /// Does scope `sid` bind `name`? (`Some(j)`: at index `j`.)
    fn lookup(&self, sid: usize, name: &String) -> (r: Option<usize>)
        requires
            graph_wf(self@),
            sid < self@.scopes.len(),
        ensures
            r matches Some(j) ==> binding_index(self@.scopes[sid as int].bindings, name@) == Some(j as int)
                && j < self.scopes@[sid as int].bindings@.len() && self@.scopes[sid as int].bindings[j as int]
                == self.scopes@[sid as int].bindings@[j as int]@ && self@.scopes[sid as int].bindings[j as int].name == name@,
            r is None ==> binding_index(self@.scopes[sid as int].bindings, name@) is None,
    {
        assert(self@.scopes[sid as int] == self.scopes@[sid as int]@);
        proof {
            lemma_binding_index(self@.scopes[sid as int].bindings, name@);
        }
        match self.scopes[sid].locate(name) {
            Ok(j) => Some(j),
            Err(_) => None,
        }
    }

    /// Lexical resolution (see [`resolve_from`]).
    fn resolve_scope(&self, name: &String, scope: usize) -> (r: Option<usize>)
        requires
            graph_wf(self@),
            scope < self@.scopes.len(),
        ensures
            r matches Some(i) ==> resolve_from(self@, name@, scope as int, true) == Some(i as int),
            r is None ==> resolve_from(self@, name@, scope as int, true) is None,
            r matches Some(i) ==> i < self@.scopes.len(),
    {
        proof {
            lemma_resolve_from(self@, name@, scope as int, true);
        }
        let mut id = scope;
        let mut start = true;
        loop
            invariant
                graph_wf(self@),
                id < self@.scopes.len(),
                resolve_from(self@, name@, scope as int, true) == resolve_from(self@, name@, id as int, start),
            decreases id,
        {
            assert(self@.scopes[id as int] == self.scopes@[id as int]@);
            let visible = start || !self.scopes[id].is_class;
            if visible && self.lookup(id, name).is_some() {
                return Some(id);
            }
            match self.scopes[id].parent {
                Some(p) => {
                    id = p;
                    start = false;
                },
                None => {
                    return None;
                },
            }
        }
    }

    /// Member resolution (see [`resolve_member`]).
    fn resolve_member_of(&self, name: &String, scope: usize) -> (r: Option<usize>)
        requires
            graph_wf(self@),
            scope < self@.scopes.len(),
        ensures
            r matches Some(i) ==> resolve_member(self@, name@, scope as int) == Some(i as int),
            r is None ==> resolve_member(self@, name@, scope as int) is None,
            r matches Some(i) ==> i < self@.scopes.len(),
    {
        proof {
            lemma_resolve_member(self@, name@, scope as int);
        }
        let mut id = scope;
        loop
            invariant
                graph_wf(self@),
                id < self@.scopes.len(),
                resolve_member(self@, name@, scope as int) == resolve_member(self@, name@, id as int),
            decreases id,
        {
            assert(self@.scopes[id as int] == self.scopes@[id as int]@);
            if self.scopes[id].is_class {
                return if self.lookup(id, name).is_some() { Some(id) } else { None };
            }
            match self.scopes[id].parent {
                Some(p) => {
                    id = p;
                },
                None => {
                    return None;
                },
            }
        }
    }

    /// See [`is_definition`].
    fn is_definition_at(&self, sid: usize, name: &String) -> (r: bool)
        requires
            graph_wf(self@),
            sid < self@.scopes.len(),
        ensures
            r == is_definition(self@, sid as int, name@),
    {
        assert(self@.scopes[sid as int] == self.scopes@[sid as int]@);
        match self.lookup(sid, name) {
            Some(j) => {
                assert(self@.scopes[sid as int].bindings[j as int] == self.scopes@[sid as int].bindings@[j as int]@);
                let s = &self.scopes[sid];
                let k = s.bindings[j].kind;
                k == BindKind::Decl || (k == BindKind::Value && (s.is_module || s.is_class || s.is_namespace))
            },
            None => false,
        }
    }

    /// See [`is_named_scope`].
    fn is_named(&self, sid: usize) -> (r: bool)
        requires
            graph_wf(self@),
            sid < self@.scopes.len(),
        ensures
            r == is_named_scope(self@, sid as int),
    {
        assert(self@.scopes[sid as int] == self.scopes@[sid as int]@);
        let s = &self.scopes[sid];
        if s.is_module || s.is_class || s.is_namespace {
            return true;
        }
        match s.parent {
            Some(p) => {
                let leaf = leaf_of(s.qualname.as_str());
                assert(self@.scopes[p as int] == self.scopes@[p as int]@);
                match self.lookup(p, &leaf) {
                    Some(j) => {
                        assert(self@.scopes[p as int].bindings[j as int] == self.scopes@[p as int].bindings@[j as int]@);
                        self.scopes[p].bindings[j].kind == BindKind::Decl
                    },
                    None => false,
                }
            },
            None => true,
        }
    }

    /// See [`attribution_scope`].
    fn attribution(&self, scope: usize) -> (r: usize)
        requires
            graph_wf(self@),
            scope < self@.scopes.len(),
        ensures
            r as int == attribution_scope(self@, scope as int),
            r < self@.scopes.len(),
    {
        proof {
            lemma_attribution_bounds(self@, scope as int);
        }
        let mut id = scope;
        loop
            invariant
                graph_wf(self@),
                id < self@.scopes.len(),
                attribution_scope(self@, scope as int) == attribution_scope(self@, id as int),
            decreases id,
        {
            if self.is_named(id) {
                return id;
            }
            assert(self@.scopes[id as int] == self.scopes@[id as int]@);
            match self.scopes[id].parent {
                Some(p) => {
                    id = p;
                },
                None => {
                    return id;
                },
            }
        }
    }

    /// See [`lca`].
    fn lca_of(&self, a: usize, b: usize) -> (r: usize)
        requires
            graph_wf(self@),
            a < self@.blocks.len(),
            b < self@.blocks.len(),
        ensures
            r as int == lca(self@, a as int, b as int),
            r < self@.blocks.len(),
    {
        proof {
            lemma_lca_bounds(self@, a as int, b as int);
        }
        let mut x = a;
        let mut y = b;
        loop
            invariant
                graph_wf(self@),
                x < self@.blocks.len(),
                y < self@.blocks.len(),
                lca(self@, a as int, b as int) == lca(self@, x as int, y as int),
            decreases x + y,
        {
            if x == y {
                return x;
            }
            assert(self@.blocks[x as int] == self.blocks@[x as int]@);
            assert(self@.blocks[y as int] == self.blocks@[y as int]@);
            proof {
                lemma_block_bounds(self@, x as int);
                lemma_block_bounds(self@, y as int);
            }
            let dx = self.blocks[x].depth;
            let dy = self.blocks[y].depth;
            if dx > dy {
                match self.blocks[x].parent {
                    Some(p) => { x = p; },
                    None => { return x; },
                }
            } else if dy > dx {
                match self.blocks[y].parent {
                    Some(q) => { y = q; },
                    None => { return x; },
                }
            } else {
                match (self.blocks[x].parent, self.blocks[y].parent) {
                    (Some(p), Some(q)) => {
                        x = p;
                        y = q;
                    },
                    _ => { return x; },
                }
            }
        }
    }

    /// See [`narrow_target`].
    fn narrow_to(&self, min_block: usize, decl: usize) -> (r: usize)
        requires
            graph_wf(self@),
            min_block < self@.blocks.len(),
            decl < self@.blocks.len(),
        ensures
            r as int == narrow_target(self@, min_block as int, decl as int),
            r < self@.blocks.len(),
    {
        assert(self@.blocks[decl as int] == self.blocks@[decl as int]@);
        let decl_depth = self.blocks[decl].depth;
        proof {
            lemma_narrow_bounds(self@, min_block as int, decl_depth, min_block as int);
        }
        let mut target = min_block;
        let mut node = min_block;
        loop
            invariant
                graph_wf(self@),
                node < self@.blocks.len(),
                target < self@.blocks.len(),
                narrow_target(self@, min_block as int, decl as int) == narrow_from(self@, node as int, decl_depth, target as int),
                decl_depth == self@.blocks[decl as int].depth,
            decreases node,
        {
            assert(self@.blocks[node as int] == self.blocks@[node as int]@);
            if self.blocks[node].depth <= decl_depth {
                return target;
            }
            match self.blocks[node].parent {
                Some(p) => {
                    if self.blocks[node].is_loop {
                        target = p;
                    }
                    node = p;
                },
                None => {
                    return target;
                },
            }
        }
    }

    /// See [`block_encloses`].
    fn encloses(&self, anc: usize, node: usize) -> (r: bool)
        requires
            graph_wf(self@),
            node < self@.blocks.len(),
        ensures
            r == block_encloses(self@, anc as int, node as int),
    {
        let mut n = node;
        loop
            invariant
                graph_wf(self@),
                n < self@.blocks.len(),
                block_encloses(self@, anc as int, node as int) == block_encloses(self@, anc as int, n as int),
            decreases n,
        {
            if n == anc {
                return true;
            }
            assert(self@.blocks[n as int] == self.blocks@[n as int]@);
            match self.blocks[n].parent {
                Some(p) => {
                    n = p;
                },
                None => {
                    return false;
                },
            }
        }
    }
}


// --- scoring (spec) ------------------------------------------------------------------------

/// Use `u` is a lexical (non-member) reference to binding `name` of scope `sid`.
pub open spec fn hits(g: GraphV, u: UseV, sid: int, name: Seq<char>) -> bool {
    !u.member && u.name == name && resolve_from(g, name, u.scope as int, true) == Some(sid)
}

/// Use `u` names a `global`/`nonlocal` declaration of its own scope.
pub open spec fn pins(g: GraphV, u: UseV) -> bool {
    g.scopes[u.scope as int].nonlocals.contains(u.name)
}

/// Some of the first `k` uses hits binding `name` of `sid` through a `global`/`nonlocal`.
pub open spec fn pinned_upto(g: GraphV, sid: int, name: Seq<char>, k: int) -> bool
    decreases k,
{
    if k <= 0 {
        false
    } else {
        pinned_upto(g, sid, name, k - 1) || (hits(g, g.uses[k - 1], sid, name) && pins(g, g.uses[k - 1]))
    }
}

/// The lowest common block of the blocks of the first `k` uses hitting binding `name` of `sid`
/// (folded in use order); `None` when none does.
pub open spec fn use_lca_upto(g: GraphV, sid: int, name: Seq<char>, k: int) -> Option<int>
    decreases k,
{
    if k <= 0 {
        None
    } else {
        let rest = use_lca_upto(g, sid, name, k - 1);
        let u = g.uses[k - 1];
        if hits(g, u, sid, name) {
            match rest {
                Some(m) => Some(lca(g, m, u.block as int)),
                None => Some(u.block as int),
            }
        } else {
            rest
        }
    }
}

/// The earliest use (line, block) among the first `k` that hits binding `name` of `sid` from
/// `sid` itself — the first such use on a tie.
pub open spec fn first_use_upto(g: GraphV, sid: int, name: Seq<char>, k: int) -> Option<(u32, usize)>
    decreases k,
{
    if k <= 0 {
        None
    } else {
        let rest = first_use_upto(g, sid, name, k - 1);
        let u = g.uses[k - 1];
        if hits(g, u, sid, name) && u.scope as int == sid {
            match rest {
                Some(f) => if u.line < f.0 { Some((u.line, u.block)) } else { rest },
                None => Some((u.line, u.block)),
            }
        } else {
            rest
        }
    }
}

/// The earliest line among the first `k` uses that hit binding `name` of `sid` from `sid`
/// itself and lie below line `decl`.
pub open spec fn first_use_below_upto(g: GraphV, sid: int, name: Seq<char>, decl: u32, k: int) -> Option<u32>
    decreases k,
{
    if k <= 0 {
        None
    } else {
        let rest = first_use_below_upto(g, sid, name, decl, k - 1);
        let u = g.uses[k - 1];
        if hits(g, u, sid, name) && u.scope as int == sid && u.line > decl {
            match rest {
                Some(f) => if u.line < f { Some(u.line) } else { rest },
                None => Some(u.line),
            }
        } else {
            rest
        }
    }
}

/// The line of the first own-scope use of `name` of `sid` below line `decl`, if any.
pub open spec fn first_use_below(g: GraphV, sid: int, name: Seq<char>, decl: u32) -> Option<u32> {
    first_use_below_upto(g, sid, name, decl, g.uses.len() as int)
}

pub open spec fn pinned(g: GraphV, sid: int, name: Seq<char>) -> bool {
    pinned_upto(g, sid, name, g.uses.len() as int)
}

pub open spec fn use_lca(g: GraphV, sid: int, name: Seq<char>) -> Option<int> {
    use_lca_upto(g, sid, name, g.uses.len() as int)
}

pub open spec fn first_use(g: GraphV, sid: int, name: Seq<char>) -> Option<(u32, usize)> {
    first_use_upto(g, sid, name, g.uses.len() as int)
}

/// The entity binding `j` of scope `sid` defines: a `Decl` is a class / method / function, a
/// value in a definition container is data; nothing else is an entity.
pub open spec fn entity_of(g: GraphV, sid: int, j: int) -> Option<RawEntityV> {
    let s = g.scopes[sid];
    let b = s.bindings[j];
    if b.kind == BindKind::Decl {
        Some(RawEntityV {
            qualname: child_qual_of(s, b.name),
            kind: if b.is_class_def { RawKind::Class } else if s.is_class { RawKind::Method } else { RawKind::Function },
            line: b.decl_line,
        })
    } else if b.kind == BindKind::Value && holds_defs(s) {
        Some(RawEntityV { qualname: child_qual_of(s, b.name), kind: RawKind::Data, line: b.decl_line })
    } else {
        None
    }
}

/// Binding `j` of `sid` is a function-local value with at least one lexical use: the bindings
/// scored for scope debt.
pub open spec fn scored(g: GraphV, sid: int, j: int) -> bool {
    let s = g.scopes[sid];
    let b = s.bindings[j];
    b.kind == BindKind::Value && !holds_defs(s) && use_lca(g, sid, b.name) is Some
}

/// The qualname of a local binding: `owner.name`.
pub open spec fn local_qual(s: ScopeV, name: Seq<char>) -> Seq<char> {
    s.qualname + seq!['.'] + name
}

/// Declare-before-use: a scored binding read in its own scope before its first binding.
pub open spec fn warning_of(g: GraphV, sid: int, j: int) -> Option<(Seq<char>, u32)> {
    let s = g.scopes[sid];
    let b = s.bindings[j];
    if scored(g, sid, j) {
        match first_use(g, sid, b.name) {
            Some(f) => if f.0 < b.decl_line { Some((local_qual(s, b.name), f.0)) } else { None },
            None => None,
        }
    } else {
        None
    }
}

/// `a - b`, or 0 when `b` is larger.
pub open spec fn sat_sub(a: u32, b: u32) -> u32 {
    if a > b { (a - b) as u32 } else { 0 }
}

/// Levels a scored binding could move down: from its block to the narrowest block covering its
/// uses, not entering a loop; 0 for an introducer or a pinned binding.
pub open spec fn levels_of(g: GraphV, sid: int, j: int) -> u32 {
    let b = g.scopes[sid].bindings[j];
    if b.intro || pinned(g, sid, b.name) {
        0
    } else {
        let t = narrow_target(g, use_lca(g, sid, b.name)->0, b.decl_block as int);
        sat_sub(g.blocks[t].depth, g.blocks[b.decl_block as int].depth)
    }
}

/// The siblings of binding `j` among the first `k` bindings of `sid`: not parameters, not `j`'s
/// name, declared in a block enclosing `j`'s block.
pub open spec fn sibs_upto(g: GraphV, sid: int, j: int, k: int) -> Seq<SibV<Seq<char>>>
    decreases k,
{
    if k <= 0 {
        Seq::empty()
    } else {
        let bs = g.scopes[sid].bindings;
        let c = bs[k - 1];
        let rest = sibs_upto(g, sid, j, k - 1);
        if c.kind != BindKind::Param && c.name != bs[j].name && block_encloses(g, c.decl_block as int, bs[j].decl_block as int) {
            rest.push(SibV { key: c.name, line: c.decl_line, deps: c.deps })
        } else {
            rest
        }
    }
}

pub open spec fn sibs_of(g: GraphV, sid: int, j: int) -> Seq<SibV<Seq<char>>> {
    sibs_upto(g, sid, j, g.scopes[sid].bindings.len() as int)
}

/// The names among the first `k` bindings of `sid` whose first use is at line `hi`.
pub open spec fn co_used_upto(g: GraphV, sid: int, hi: u32, k: int) -> Seq<Seq<char>>
    decreases k,
{
    if k <= 0 {
        Seq::empty()
    } else {
        let c = g.scopes[sid].bindings[k - 1];
        let rest = co_used_upto(g, sid, hi, k - 1);
        match first_use(g, sid, c.name) {
            Some(f) => if f.0 == hi { rest.push(c.name) } else { rest },
            None => rest,
        }
    }
}

pub open spec fn co_used(g: GraphV, sid: int, hi: u32) -> Seq<Seq<char>> {
    co_used_upto(g, sid, hi, g.scopes[sid].bindings.len() as int)
}

/// Wedges between binding `j` and its nearest dependency above.
pub open spec fn dep_wedges(g: GraphV, sid: int, j: int) -> nat {
    let b = g.scopes[sid].bindings[j];
    dep_side_count(b.decl_line, b.deps, sibs_of(g, sid, j))
}

/// Wedges between binding `j` and its first use below, exempting siblings first used there too.
pub open spec fn use_wedges_of(g: GraphV, sid: int, j: int) -> nat {
    let b = g.scopes[sid].bindings[j];
    match first_use(g, sid, b.name) {
        Some(f) => if f.0 > b.decl_line {
            count_wedges(b.decl_line, f.0, b.deps, co_used(g, sid, f.0), sibs_of(g, sid, j))
        } else {
            0
        },
        None => 0,
    }
}

/// The use-side wedges a reorder would remove: none when the first use lies inside a loop the
/// declaration cannot be moved into.
pub open spec fn reorder_wedges(g: GraphV, sid: int, j: int) -> nat {
    let b = g.scopes[sid].bindings[j];
    if b.intro {
        0
    } else {
        match first_use(g, sid, b.name) {
            Some(f) => if narrow_target(g, f.1 as int, b.decl_block as int) != f.1 as int { 0 } else { use_wedges_of(g, sid, j) },
            None => use_wedges_of(g, sid, j),
        }
    }
}

/// All wedges of binding `j` (none for an introducer).
pub open spec fn wedges_of(g: GraphV, sid: int, j: int) -> nat {
    if g.scopes[sid].bindings[j].intro { 0 } else { dep_wedges(g, sid, j) + use_wedges_of(g, sid, j) }
}

/// The scope-debt entry of binding `j`: a scored binding with levels or wedges.
pub open spec fn debt_of(g: GraphV, sid: int, j: int) -> Option<RawScopeV> {
    let s = g.scopes[sid];
    let b = s.bindings[j];
    if scored(g, sid, j) && (levels_of(g, sid, j) != 0 || wedges_of(g, sid, j) != 0) {
        Some(RawScopeV {
            entity: local_qual(s, b.name),
            name: b.name,
            line: b.decl_line,
            levels_excess: levels_of(g, sid, j),
            wedges: wedges_of(g, sid, j) as u32,
            use_wedges: reorder_wedges(g, sid, j) as u32,
            first_use: match first_use_below(g, sid, b.name, b.decl_line) {
                Some(f) => f,
                None => 0,
            },
            independent: b.deps.len() == 0,
        })
    } else {
        None
    }
}

/// The one-element or empty sequence of an option.
pub open spec fn opt_seq<A>(o: Option<A>) -> Seq<A> {
    match o {
        Some(a) => seq![a],
        None => Seq::empty(),
    }
}

pub open spec fn scope_entities(g: GraphV, sid: int, k: int) -> Seq<RawEntityV>
    decreases k,
{
    if k <= 0 { Seq::empty() } else { scope_entities(g, sid, k - 1) + opt_seq(entity_of(g, sid, k - 1)) }
}

pub open spec fn scope_warnings(g: GraphV, sid: int, k: int) -> Seq<(Seq<char>, u32)>
    decreases k,
{
    if k <= 0 { Seq::empty() } else { scope_warnings(g, sid, k - 1) + opt_seq(warning_of(g, sid, k - 1)) }
}

pub open spec fn scope_debt(g: GraphV, sid: int, k: int) -> Seq<RawScopeV>
    decreases k,
{
    if k <= 0 { Seq::empty() } else { scope_debt(g, sid, k - 1) + opt_seq(debt_of(g, sid, k - 1)) }
}

/// The entities of the first `s` scopes, scope by scope, bindings in name order.
pub open spec fn entities_upto(g: GraphV, s: int) -> Seq<RawEntityV>
    decreases s,
{
    if s <= 0 {
        Seq::empty()
    } else {
        entities_upto(g, s - 1) + scope_entities(g, s - 1, g.scopes[s - 1].bindings.len() as int)
    }
}

pub open spec fn warnings_upto(g: GraphV, s: int) -> Seq<(Seq<char>, u32)>
    decreases s,
{
    if s <= 0 {
        Seq::empty()
    } else {
        warnings_upto(g, s - 1) + scope_warnings(g, s - 1, g.scopes[s - 1].bindings.len() as int)
    }
}

pub open spec fn debt_upto(g: GraphV, s: int) -> Seq<RawScopeV>
    decreases s,
{
    if s <= 0 {
        Seq::empty()
    } else {
        debt_upto(g, s - 1) + scope_debt(g, s - 1, g.scopes[s - 1].bindings.len() as int)
    }
}

/// Is `e` the scope debt of a value binding in a function-like scope of `g` (one among the first
/// `s` scopes)?
pub open spec fn value_debt(g: GraphV, s: int, e: RawScopeV) -> bool {
    exists|sid: int, j: int|
        #![trigger debt_of(g, sid, j)]
        0 <= sid < s && 0 <= j < g.scopes[sid].bindings.len() && g.scopes[sid].bindings[j].kind == BindKind::Value
            && !holds_defs(g.scopes[sid]) && debt_of(g, sid, j) == Some(e)
}

proof fn lemma_scope_debt_values(g: GraphV, sid: int, k: int)
    requires
        0 <= sid < g.scopes.len(),
        k <= g.scopes[sid].bindings.len(),
    ensures
        forall|i: int| 0 <= i < scope_debt(g, sid, k).len() ==> value_debt(g, sid + 1, #[trigger] scope_debt(g, sid, k)[i]),
    decreases k,
{
    if k > 0 {
        lemma_scope_debt_values(g, sid, k - 1);
        let prev = scope_debt(g, sid, k - 1);
        let cur = scope_debt(g, sid, k);
        assert forall|i: int| 0 <= i < cur.len() implies value_debt(g, sid + 1, #[trigger] cur[i]) by {
            if i < prev.len() {
                assert(cur[i] == prev[i]);
            } else {
                assert(debt_of(g, sid, k - 1) == Some(cur[i]));
            }
        }
    }
}

/// Only values carry scope debt: every debt entry of a graph is that of a value binding in a
/// function-like scope. Declaring a function or a class is free of nesting (decomposition is
/// never punished), and module and class data are placed, never narrowed.
pub proof fn law_only_values_carry_debt(g: GraphV, s: int)
    requires
        0 <= s <= g.scopes.len(),
    ensures
        forall|i: int| 0 <= i < debt_upto(g, s).len() ==> value_debt(g, s, #[trigger] debt_upto(g, s)[i]),
    decreases s,
{
    if s > 0 {
        law_only_values_carry_debt(g, s - 1);
        lemma_scope_debt_values(g, s - 1, g.scopes[s - 1].bindings.len() as int);
        let prev = debt_upto(g, s - 1);
        let here = scope_debt(g, s - 1, g.scopes[s - 1].bindings.len() as int);
        let cur = debt_upto(g, s);
        assert forall|i: int| 0 <= i < cur.len() implies value_debt(g, s, #[trigger] cur[i]) by {
            if i < prev.len() {
                assert(cur[i] == prev[i]);
                assert(value_debt(g, s - 1, prev[i]));
                let (sid, j) = choose|sid: int, j: int|
                    #![trigger debt_of(g, sid, j)]
                    0 <= sid < s - 1 && 0 <= j < g.scopes[sid].bindings.len() && g.scopes[sid].bindings[j].kind == BindKind::Value
                        && !holds_defs(g.scopes[sid]) && debt_of(g, sid, j) == Some(prev[i]);
                assert(debt_of(g, sid, j) == Some(cur[i]));
            } else {
                assert(cur[i] == here[i - prev.len()]);
                assert(value_debt(g, s, here[i - prev.len()]));
            }
        }
    }
}

/// What a scope-debt entry says of itself: it carries levels or wedges, its reorder wedges are
/// among its wedges, and it is the entry of one value binding `name` of a function-like scope
/// with at least one lexical use, named `owner.name`, declared on `line`, `independent` exactly
/// when the binding reads nothing, its first use 0 or below the declaration.
pub open spec fn debt_record_ok(g: GraphV, e: RawScopeV) -> bool {
    &&& e.levels_excess > 0 || e.wedges > 0
    &&& e.use_wedges <= e.wedges
    &&& e.first_use == 0 || e.first_use > e.line
    &&& exists|sid: int, j: int|
        #![trigger debt_of(g, sid, j)]
        0 <= sid < g.scopes.len() && 0 <= j < g.scopes[sid].bindings.len() && debt_of(g, sid, j) == Some(e)
            && g.scopes[sid].bindings[j].kind == BindKind::Value && !holds_defs(g.scopes[sid])
            && use_lca(g, sid, e.name) is Some && e.name == g.scopes[sid].bindings[j].name
            && e.entity == g.scopes[sid].qualname + seq!['.'] + e.name && e.line
            == g.scopes[sid].bindings[j].decl_line && e.independent == (g.scopes[sid].bindings[j].deps.len() == 0)
}

proof fn lemma_first_use_below_bound(g: GraphV, sid: int, name: Seq<char>, decl: u32, k: int)
    ensures
        first_use_below_upto(g, sid, name, decl, k) matches Some(f) ==> f > decl,
    decreases k,
{
    if k > 0 {
        lemma_first_use_below_bound(g, sid, name, decl, k - 1);
    }
}

proof fn lemma_debt_of_ok(g: GraphV, sid: int, j: int)
    requires
        scopes_small(g),
        0 <= sid < g.scopes.len(),
        0 <= j < g.scopes[sid].bindings.len(),
        debt_of(g, sid, j) is Some,
    ensures
        debt_record_ok(g, debt_of(g, sid, j)->0),
{
    let b = g.scopes[sid].bindings[j];
    let sv = sibs_of(g, sid, j);
    lemma_sibs_len(g, sid, j, g.scopes[sid].bindings.len() as int);
    lemma_dep_side_bound(b.decl_line, b.deps, sv);
    if let Some(f) = first_use(g, sid, b.name) {
        lemma_count_wedges_bound(b.decl_line, f.0, b.deps, co_used(g, sid, f.0), sv);
    }
    lemma_first_use_below_bound(g, sid, b.name, b.decl_line, g.uses.len() as int);
    assert(wedges_of(g, sid, j) < 0x1_0000_0000);
    assert(reorder_wedges(g, sid, j) <= wedges_of(g, sid, j));
}

/// Every scope-debt entry of a graph is well-formed (see [`debt_record_ok`]).
pub proof fn law_debt_records_well_formed(g: GraphV)
    requires
        scopes_small(g),
    ensures
        forall|i: int| 0 <= i < debt_upto(g, g.scopes.len() as int).len() ==> debt_record_ok(g, #[trigger] debt_upto(g, g.scopes.len() as int)[i]),
{
    let n = g.scopes.len() as int;
    law_only_values_carry_debt(g, n);
    let d = debt_upto(g, n);
    assert forall|i: int| 0 <= i < d.len() implies debt_record_ok(g, #[trigger] d[i]) by {
        assert(value_debt(g, n, d[i]));
        let (sid, j) = choose|sid: int, j: int|
            #![trigger debt_of(g, sid, j)]
            0 <= sid < n && 0 <= j < g.scopes[sid].bindings.len() && g.scopes[sid].bindings[j].kind == BindKind::Value
                && !holds_defs(g.scopes[sid]) && debt_of(g, sid, j) == Some(d[i]);
        lemma_debt_of_ok(g, sid, j);
    }
}

/// Every scope holds fewer than 2^31 bindings (so wedge counts fit in a `u32`).
pub open spec fn scopes_small(g: GraphV) -> bool {
    forall|s: int| 0 <= s < g.scopes.len() ==> (#[trigger] g.scopes[s]).bindings.len() < 0x8000_0000
}


/// The binding a use lexically hits, as (scope, binding index): a non-member use that resolves.
pub open spec fn target_of(g: GraphV, u: UseV) -> Option<(int, int)> {
    if u.member {
        None
    } else {
        match resolve_from(g, u.name, u.scope as int, true) {
            Some(bs) => match binding_index(g.scopes[bs].bindings, u.name) {
                Some(j) => Some((bs, j)),
                None => None,
            },
            None => None,
        }
    }
}

/// The exec form of a target.
spec fn target_view(t: Option<(usize, usize)>) -> Option<(int, int)> {
    match t {
        Some(p) => Some((p.0 as int, p.1 as int)),
        None => None,
    }
}

spec fn targets_ok(g: GraphV, t: Seq<Option<(usize, usize)>>) -> bool {
    t.len() == g.uses.len() && forall|k: int| 0 <= k < t.len() ==> target_view(#[trigger] t[k]) == target_of(g, g.uses[k])
}

spec fn pins_ok(g: GraphV, p: Seq<bool>) -> bool {
    p.len() == g.uses.len() && forall|k: int| 0 <= k < p.len() ==> #[trigger] p[k] == pins(g, g.uses[k])
}

proof fn lemma_target_hits(g: GraphV, u: UseV, sid: int, j: int)
    requires
        graph_wf(g),
        0 <= sid < g.scopes.len(),
        0 <= j < g.scopes[sid].bindings.len(),
    ensures
        (target_of(g, u) == Some((sid, j))) <==> hits(g, u, sid, g.scopes[sid].bindings[j].name),
{
    lemma_resolve_from(g, u.name, u.scope as int, true);
    if let Some(bs) = resolve_from(g, u.name, u.scope as int, true) {
        lemma_binding_index(g.scopes[bs].bindings, u.name);
    }
    if hits(g, u, sid, g.scopes[sid].bindings[j].name) {
        lemma_binding_index_unique(g.scopes[sid].bindings, u.name, j);
    }
}

/// What scoring needs of one binding's uses.
struct UseStat {
    lca: Option<usize>,
    pinned: bool,
    first: Option<(u32, usize)>,
    below: Option<u32>,
}

spec fn stat_ok(g: GraphV, sid: int, name: Seq<char>, st: UseStat) -> bool {
    &&& (st.lca matches Some(m) ==> use_lca(g, sid, name) == Some(m as int) && m < g.blocks.len())
    &&& (st.lca is None ==> use_lca(g, sid, name) is None)
    &&& st.pinned == pinned(g, sid, name)
    &&& st.first == first_use(g, sid, name)
    &&& (st.first matches Some(f) ==> f.1 < g.blocks.len())
}

spec fn stats_ok(g: GraphV, sid: int, st: Seq<UseStat>) -> bool {
    &&& st.len() == g.scopes[sid].bindings.len()
    &&& forall|i: int| 0 <= i < st.len() ==> stat_ok(g, sid, g.scopes[sid].bindings[i].name, #[trigger] st[i])
    &&& forall|i: int| 0 <= i < st.len() ==> (#[trigger] st[i]).below
        == first_use_below(g, sid, g.scopes[sid].bindings[i].name, g.scopes[sid].bindings[i].decl_line)
}

impl ScopeGraph {
    /// Resolve every use once: the definition-reference edges, the binding each use lexically hits,
    /// and whether it names a `global`/`nonlocal` of its scope.
    fn resolve_uses(&self) -> (r: (Vec<(String, String)>, Vec<Option<(usize, usize)>>, Vec<bool>))
        requires
            graph_wf(self@),
        ensures
            pairs_view(r.0@) == edges_upto(self@, self@.uses.len() as int),
            targets_ok(self@, r.1@),
            pins_ok(self@, r.2@),
    {
        let ghost g = self@;
        let mut edges: Vec<(String, String)> = Vec::new();
        let mut targets: Vec<Option<(usize, usize)>> = Vec::new();
        let mut pinv: Vec<bool> = Vec::new();
        let mut k: usize = 0;
        while k < self.uses.len()
            invariant
                g == self@,
                graph_wf(g),
                k <= g.uses.len(),
                pairs_view(edges@) == edges_upto(g, k as int),
                targets@.len() == k,
                pinv@.len() == k,
                forall|i: int| 0 <= i < k ==> target_view(#[trigger] targets@[i]) == target_of(g, g.uses[i]),
                forall|i: int| 0 <= i < k ==> #[trigger] pinv@[i] == pins(g, g.uses[i]),
            decreases g.uses.len() - k,
        {
            let u = &self.uses[k];
            assert(g.uses[k as int] == self.uses@[k as int]@);
            let ghost uv = g.uses[k as int];
            proof {
                lemma_resolve_from(g, uv.name, uv.scope as int, true);
                lemma_resolve_member(g, uv.name, uv.scope as int);
            }
            let resolved = if u.member {
                self.resolve_member_of(&u.name, u.scope)
            } else {
                self.resolve_scope(&u.name, u.scope)
            };
            let ghost before = edges@;
            let mut target: Option<(usize, usize)> = None;
            match resolved {
                Some(bs) => {
                    assert(resolve_use(g, uv) == Some(bs as int));
                    if self.is_definition_at(bs, &u.name) {
                        let referrer = match &u.referrer {
                            Some(r) => r.clone(),
                            None => {
                                let a = self.attribution(u.scope);
                                assert(g.scopes[a as int] == self.scopes@[a as int]@);
                                self.scopes[a].qualname.clone()
                            },
                        };
                        let q = self.child_qual(bs, &u.name);
                        assert(referrer@ == referrer_of(g, uv));
                        assert(edge_of(g, uv) == Some((referrer@, q@)));
                        edges.push((referrer, q));
                        assert(pairs_view(edges@) =~= pairs_view(before).push((referrer@, q@)));
                    } else {
                        assert(pairs_view(edges@) =~= pairs_view(before));
                        assert(edge_of(g, uv) is None);
                    }
                    if !u.member {
                        target = match self.lookup(bs, &u.name) {
                            Some(j) => Some((bs, j)),
                            None => None,
                        };
                    }
                },
                None => {
                    assert(resolve_use(g, uv) is None);
                    assert(pairs_view(edges@) =~= pairs_view(before));
                    assert(edge_of(g, uv) is None);
                },
            }
            assert(g.uses[(k + 1) - 1] == uv);
            assert(target_view(target) == target_of(g, uv));
            targets.push(target);
            assert(g.scopes[u.scope as int] == self.scopes@[u.scope as int]@);
            let p = holds_name(&self.scopes[u.scope].nonlocals, &u.name);
            pinv.push(p);
            k = k + 1;
        }
        (edges, targets, pinv)
    }
}


impl ScopeGraph {
    /// Gather what scoring needs of the uses of binding `j` of scope `sid`.
    fn stats_of(&self, targets: &Vec<Option<(usize, usize)>>, pinv: &Vec<bool>, sid: usize, j: usize) -> (r: UseStat)
        requires
            graph_wf(self@),
            targets_ok(self@, targets@),
            pins_ok(self@, pinv@),
            sid < self@.scopes.len(),
            j < self@.scopes[sid as int].bindings.len(),
        ensures
            stat_ok(self@, sid as int, self@.scopes[sid as int].bindings[j as int].name, r),
            r.below == first_use_below(self@, sid as int, self@.scopes[sid as int].bindings[j as int].name,
                self@.scopes[sid as int].bindings[j as int].decl_line),
    {
        let ghost g = self@;
        let ghost name = g.scopes[sid as int].bindings[j as int].name;
        let mut lca_b: Option<usize> = None;
        let mut pinned = false;
        let mut first: Option<(u32, usize)> = None;
        let mut below: Option<u32> = None;
        assert(g.scopes[sid as int] == self.scopes@[sid as int]@);
        let decl: u32 = self.scopes[sid].bindings[j].decl_line;
        assert(decl == g.scopes[sid as int].bindings[j as int].decl_line);
        let mut k: usize = 0;
        while k < self.uses.len()
            invariant
                g == self@,
                graph_wf(g),
                targets_ok(g, targets@),
                pins_ok(g, pinv@),
                sid < g.scopes.len(),
                j < g.scopes[sid as int].bindings.len(),
                name == g.scopes[sid as int].bindings[j as int].name,
                k <= g.uses.len(),
                lca_b matches Some(m) ==> use_lca_upto(g, sid as int, name, k as int) == Some(m as int) && m < g.blocks.len(),
                lca_b is None ==> use_lca_upto(g, sid as int, name, k as int) is None,
                pinned == pinned_upto(g, sid as int, name, k as int),
                first == first_use_upto(g, sid as int, name, k as int),
                first matches Some(f) ==> f.1 < g.blocks.len(),
                decl == g.scopes[sid as int].bindings[j as int].decl_line,
                below == first_use_below_upto(g, sid as int, name, decl, k as int),
            decreases g.uses.len() - k,
        {
            proof {
                lemma_target_hits(g, g.uses[k as int], sid as int, j as int);
            }
            let hit = match targets[k] {
                Some(p) => p.0 == sid && p.1 == j,
                None => false,
            };
            assert(hit == hits(g, g.uses[k as int], sid as int, name));
            if hit {
                let u = &self.uses[k];
                assert(g.uses[k as int] == self.uses@[k as int]@);
                pinned = pinned || pinv[k];
                lca_b = match lca_b {
                    Some(m) => Some(self.lca_of(m, u.block)),
                    None => Some(u.block),
                };
                if u.scope == sid {
                    first = match first {
                        Some(f) => if u.line < f.0 { Some((u.line, u.block)) } else { first },
                        None => Some((u.line, u.block)),
                    };
                    if u.line > decl {
                        below = match below {
                            Some(f) => if u.line < f { Some(u.line) } else { below },
                            None => Some(u.line),
                        };
                    }
                }
            }
            k = k + 1;
        }
        UseStat { lca: lca_b, pinned, first, below }
    }
}


proof fn lemma_sibs_len(g: GraphV, sid: int, j: int, k: int)
    ensures
        sibs_upto(g, sid, j, k).len() <= if k < 0 { 0 } else { k },
    decreases k,
{
    if k > 0 {
        lemma_sibs_len(g, sid, j, k - 1);
    }
}

impl ScopeGraph {
    /// Dep-side plus use-side wedges of binding `j` of scope `sid`, and the use-side part.
    fn var_wedges(&self, sid: usize, j: usize, stats: &Vec<UseStat>) -> (r: (u32, u32))
        requires
            graph_wf(self@),
            scopes_small(self@),
            sid < self@.scopes.len(),
            j < self@.scopes[sid as int].bindings.len(),
            stats_ok(self@, sid as int, stats@),
        ensures
            r.0 as int == dep_wedges(self@, sid as int, j as int) + use_wedges_of(self@, sid as int, j as int),
            r.1 as int == use_wedges_of(self@, sid as int, j as int),
    {
        let ghost g = self@;
        assert(g.scopes[sid as int] == self.scopes@[sid as int]@);
        let s = &self.scopes[sid];
        assert(g.scopes[sid as int].bindings[j as int] == s.bindings@[j as int]@);
        let b = &s.bindings[j];
        let ghost bv = g.scopes[sid as int].bindings[j as int];
        let mut sibs: Vec<Sib<String>> = Vec::new();
        let mut i: usize = 0;
        while i < s.bindings.len()
            invariant
                g == self@,
                graph_wf(g),
                sid < g.scopes.len(),
                j < g.scopes[sid as int].bindings.len(),
                g.scopes[sid as int] == s@,
                bv == b@,
                bv == g.scopes[sid as int].bindings[j as int],
                i <= s.bindings@.len(),
                sibs_view(sibs@) == sibs_upto(g, sid as int, j as int, i as int),
            decreases s.bindings@.len() - i,
        {
            let c = &s.bindings[i];
            assert(g.scopes[sid as int].bindings[i as int] == c@);
            let ghost before = sibs@;
            if c.kind != BindKind::Param && c.name != b.name && self.encloses(c.decl_block, b.decl_block) {
                let deps = copy_names(&c.deps);
                let sib = Sib { key: c.name.clone(), line: c.decl_line, deps };
                assert(keys_view(deps@) =~= names_view(deps@));
                sibs.push(sib);
                assert(sibs_view(sibs@) =~= sibs_view(before).push(sib@));
            } else {
                assert(sibs_view(sibs@) =~= sibs_view(before));
            }
            i = i + 1;
        }
        let ghost sv = sibs_of(g, sid as int, j as int);
        assert(sibs_view(sibs@) == sv);
        assert(keys_view(b.deps@) =~= bv.deps);
        proof {
            lemma_sibs_len(g, sid as int, j as int, s.bindings@.len() as int);
            lemma_dep_side_bound(bv.decl_line, bv.deps, sv);
        }
        let dep = wedge::dep_side(b.decl_line, &b.deps, &sibs);
        let use_w: u32 = match stats[j].first {
            Some(f) => {
                if f.0 > b.decl_line {
                    let hi = f.0;
                    let mut exempt: Vec<String> = Vec::new();
                    let mut i: usize = 0;
                    while i < s.bindings.len()
                        invariant
                            g == self@,
                            sid < g.scopes.len(),
                            g.scopes[sid as int] == s@,
                            stats_ok(g, sid as int, stats@),
                            i <= s.bindings@.len(),
                            keys_view(exempt@) == co_used_upto(g, sid as int, hi, i as int),
                        decreases s.bindings@.len() - i,
                    {
                        assert(g.scopes[sid as int].bindings[i as int] == s.bindings@[i as int]@);
                        assert(stat_ok(g, sid as int, g.scopes[sid as int].bindings[i as int].name, stats@[i as int]));
                        let ghost before = exempt@;
                        match stats[i].first {
                            Some(e) => {
                                if e.0 == hi {
                                    let nm = s.bindings[i].name.clone();
                                    exempt.push(nm);
                                    assert(keys_view(exempt@) =~= keys_view(before).push(nm@));
                                } else {
                                    assert(keys_view(exempt@) =~= keys_view(before));
                                }
                            },
                            None => {
                                assert(keys_view(exempt@) =~= keys_view(before));
                            },
                        }
                        i = i + 1;
                    }
                    proof {
                        lemma_count_wedges_bound(bv.decl_line, hi, bv.deps, keys_view(exempt@), sv);
                    }
                    wedge::between(b.decl_line, hi, &b.deps, &sibs, &exempt)
                } else {
                    0
                }
            },
            None => 0,
        };
        assert(stat_ok(g, sid as int, bv.name, stats@[j as int]));
        (dep + use_w, use_w)
    }
}


impl ScopeGraph {
    /// Append what binding `j` of scope `sid` contributes: its entity, its declare-before-use
    /// warning, its scope-debt entry.
    fn binding_report(
        &self,
        sid: usize,
        j: usize,
        stats: &Vec<UseStat>,
        ents: &mut Vec<RawEntity>,
        warns: &mut Vec<(String, u32)>,
        debt: &mut Vec<RawScope>,
    )
        requires
            graph_wf(self@),
            scopes_small(self@),
            sid < self@.scopes.len(),
            j < self@.scopes[sid as int].bindings.len(),
            stats_ok(self@, sid as int, stats@),
        ensures
            entities_view(final(ents)@) == entities_view(old(ents)@) + opt_seq(entity_of(self@, sid as int, j as int)),
            lines_view(final(warns)@) == lines_view(old(warns)@) + opt_seq(warning_of(self@, sid as int, j as int)),
            debts_view(final(debt)@) == debts_view(old(debt)@) + opt_seq(debt_of(self@, sid as int, j as int)),
    {
        let ghost g = self@;
        assert(g.scopes[sid as int] == self.scopes@[sid as int]@);
        let s = &self.scopes[sid];
        assert(g.scopes[sid as int].bindings[j as int] == s.bindings@[j as int]@);
        let b = &s.bindings[j];
        let ghost bv = g.scopes[sid as int].bindings[j as int];
        let holds = s.is_module || s.is_class || s.is_namespace;
        let ghost e0 = ents@;
        if b.kind == BindKind::Decl {
            let kind = if b.is_class_def {
                RawKind::Class
            } else if s.is_class {
                RawKind::Method
            } else {
                RawKind::Function
            };
            let e = RawEntity { qualname: self.child_qual(sid, b.name.as_str()), kind, line: b.decl_line };
            ents.push(e);
            assert(entities_view(ents@) =~= entities_view(e0).push(e@));
        } else if b.kind == BindKind::Value && holds {
            let e = RawEntity { qualname: self.child_qual(sid, b.name.as_str()), kind: RawKind::Data, line: b.decl_line };
            ents.push(e);
            assert(entities_view(ents@) =~= entities_view(e0).push(e@));
        } else {
            assert(entities_view(ents@) =~= entities_view(e0));
        }
        let ghost w0 = warns@;
        let ghost d0 = debt@;
        assert(stat_ok(g, sid as int, bv.name, stats@[j as int]));
        if b.kind != BindKind::Value || holds || stats[j].lca.is_none() {
            assert(lines_view(warns@) =~= lines_view(w0));
            assert(debts_view(debt@) =~= debts_view(d0));
            return;
        }
        let first = stats[j].first;
        match first {
            Some(f) => {
                if f.0 < b.decl_line {
                    let q = dotted(&s.qualname, b.name.as_str());
                    warns.push((q, f.0));
                    assert(lines_view(warns@) =~= lines_view(w0).push((q@, f.0)));
                } else {
                    assert(lines_view(warns@) =~= lines_view(w0));
                }
            },
            None => {
                assert(lines_view(warns@) =~= lines_view(w0));
            },
        }
        let min_block = match stats[j].lca {
            Some(m) => m,
            None => 0,
        };
        let levels: u32 = if b.intro || stats[j].pinned {
            0
        } else {
            let t = self.narrow_to(min_block, b.decl_block);
            assert(g.blocks[t as int] == self.blocks@[t as int]@);
            assert(g.blocks[b.decl_block as int] == self.blocks@[b.decl_block as int]@);
            self.blocks[t].depth.saturating_sub(self.blocks[b.decl_block].depth)
        };
        assert(levels == levels_of(g, sid as int, j as int));
        let (wedges, mut use_w) = if b.intro {
            (0u32, 0u32)
        } else {
            self.var_wedges(sid, j, stats)
        };
        match first {
            Some(f) => {
                if self.narrow_to(f.1, b.decl_block) != f.1 {
                    use_w = 0;
                }
            },
            None => {},
        }
        assert(wedges as int == wedges_of(g, sid as int, j as int));
        assert(use_w as int == reorder_wedges(g, sid as int, j as int));
        if levels == 0 && wedges == 0 {
            assert(debts_view(debt@) =~= debts_view(d0));
            return;
        }
        let fu: u32 = match stats[j].below {
            Some(f) => f,
            None => 0,
        };
        let r = RawScope {
            entity: dotted(&s.qualname, b.name.as_str()),
            name: b.name.clone(),
            line: b.decl_line,
            levels_excess: levels,
            wedges,
            use_wedges: use_w,
            first_use: fu,
            independent: b.deps.len() == 0,
        };
        debt.push(r);
        assert(debts_view(debt@) =~= debts_view(d0).push(r@));
    }

    /// Score the graph — the single source of everything the locality analysis needs: the
    /// value-binding locality debt, the definition-reference edges (one per use that resolves to
    /// a definition, in use order), the entity list, and the declare-before-use warnings. Scopes
    /// are visited in creation order, each scope's bindings in name order.
    pub fn score(self) -> (out: ScopeOutput)
        requires
            graph_wf(self@),
            scopes_small(self@),
        ensures
            pairs_view(out.edges@) == edges_upto(self@, self@.uses.len() as int),
            entities_view(out.entities@) == entities_upto(self@, self@.scopes.len() as int),
            lines_view(out.decl_warnings@) == warnings_upto(self@, self@.scopes.len() as int),
            debts_view(out.debt@) == debt_upto(self@, self@.scopes.len() as int),
    {
        let ghost g = self@;
        let (edges, targets, pinv) = self.resolve_uses();
        let mut entities: Vec<RawEntity> = Vec::new();
        let mut warnings: Vec<(String, u32)> = Vec::new();
        let mut debt: Vec<RawScope> = Vec::new();
        let mut sid: usize = 0;
        while sid < self.scopes.len()
            invariant
                g == self@,
                graph_wf(g),
                scopes_small(g),
                targets_ok(g, targets@),
                pins_ok(g, pinv@),
                sid <= g.scopes.len(),
                entities_view(entities@) == entities_upto(g, sid as int),
                lines_view(warnings@) == warnings_upto(g, sid as int),
                debts_view(debt@) == debt_upto(g, sid as int),
            decreases g.scopes.len() - sid,
        {
            assert(g.scopes[sid as int] == self.scopes@[sid as int]@);
            let nb = self.scopes[sid].bindings.len();
            let mut stats: Vec<UseStat> = Vec::new();
            let mut j: usize = 0;
            while j < nb
                invariant
                    g == self@,
                    graph_wf(g),
                    targets_ok(g, targets@),
                    pins_ok(g, pinv@),
                    sid < g.scopes.len(),
                    nb == g.scopes[sid as int].bindings.len(),
                    j <= nb,
                    stats@.len() == j,
                    forall|i: int| 0 <= i < j ==> stat_ok(g, sid as int, g.scopes[sid as int].bindings[i].name, #[trigger] stats@[i]),
                    forall|i: int| 0 <= i < j ==> (#[trigger] stats@[i]).below == first_use_below(g, sid as int,
                        g.scopes[sid as int].bindings[i].name, g.scopes[sid as int].bindings[i].decl_line),
                decreases nb - j,
            {
                let st = self.stats_of(&targets, &pinv, sid, j);
                stats.push(st);
                j = j + 1;
            }
            let ghost e0 = entities_view(entities@);
            let ghost w0 = lines_view(warnings@);
            let ghost d0 = debts_view(debt@);
            let mut j: usize = 0;
            while j < nb
                invariant
                    g == self@,
                    graph_wf(g),
                    scopes_small(g),
                    sid < g.scopes.len(),
                    nb == g.scopes[sid as int].bindings.len(),
                    stats_ok(g, sid as int, stats@),
                    j <= nb,
                    entities_view(entities@) == e0 + scope_entities(g, sid as int, j as int),
                    lines_view(warnings@) == w0 + scope_warnings(g, sid as int, j as int),
                    debts_view(debt@) == d0 + scope_debt(g, sid as int, j as int),
                decreases nb - j,
            {
                self.binding_report(sid, j, &stats, &mut entities, &mut warnings, &mut debt);
                assert(e0 + scope_entities(g, sid as int, j + 1) =~= e0 + scope_entities(g, sid as int, j as int) + opt_seq(entity_of(g, sid as int, j as int)));
                assert(w0 + scope_warnings(g, sid as int, j + 1) =~= w0 + scope_warnings(g, sid as int, j as int) + opt_seq(warning_of(g, sid as int, j as int)));
                assert(d0 + scope_debt(g, sid as int, j + 1) =~= d0 + scope_debt(g, sid as int, j as int) + opt_seq(debt_of(g, sid as int, j as int)));
                j = j + 1;
            }
            sid = sid + 1;
        }
        ScopeOutput { debt, edges, entities, decl_warnings: warnings }
    }
}

} // verus!
