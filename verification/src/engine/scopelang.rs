//! The language-driven scope-graph **builder**. The locality rules and all nesting bookkeeping
//! (block ids, depth, scope threading) live here; a frontend only LOWERS each of its syntax nodes
//! into a flat list of [`Action`]s via [`ScopeLang`]. The driver interprets the actions against a
//! block/scope stack ([`apply`], one action at a time) and emits a [`ScopeGraph`].

use vstd::prelude::*;

use crate::engine::scopegraph::{
    BindKind, BlockV, GraphV, ScopeGraph, ScopeV, UseV, bind_spec, child_qual_of, graph_wf, holds_defs, lemma_block_bounds, names_view,
    set_deps_spec,
};

verus! {

/// One scope action a node lowers to, executed in order against the current (scope, block) on the
/// driver's stack. `OpenBlock`/`OpenScope` push; `Close` pops.
pub enum Action<N> {
    /// Introduce a binding in the current scope/block. `is_class_def` marks a `Decl` that is a
    /// class (vs a function).
    Bind { name: String, kind: BindKind, line: u32, intro: bool, deps: Vec<String>, is_class_def: bool },
    /// Reference a name in the current scope/block. `member` marks a `self.`/`cls.` reference.
    Use { name: String, line: u32, member: bool },
    /// Lower these child nodes in the CURRENT scope/block.
    Recurse(Vec<N>),
    /// Open a child block (depth +1); `is_loop` marks a for/while body (no narrowing into it).
    OpenBlock { is_loop: bool },
    /// Open a child lexical scope, binding `params` in its entry block. `leaf` is the scope's own
    /// name; `is_class` marks a class body; `is_namespace` marks a definition container;
    /// `nonlocals` are names declared `global`/`nonlocal` in it.
    OpenScope { leaf: String, params: Vec<(String, u32)>, is_class: bool, is_namespace: bool, nonlocals: Vec<String> },
    /// Pop the most recently opened block/scope.
    Close,
    /// Attribute the references emitted until the matching `CloseAttrib` to the entity `leaf` (in
    /// the current scope). With `fallback_to_scope`, a value's right-hand side: attributed to `leaf`
    /// only in a definition container, to the enclosing scope inside a function.
    OpenAttrib { leaf: String, fallback_to_scope: bool },
    /// End the most recent `OpenAttrib`.
    CloseAttrib,
}

/// An action with its strings and lists as mathematical values, and the nodes it recurses into
/// as values of `T`.
pub enum ActionV<T> {
    Bind { name: Seq<char>, kind: BindKind, line: u32, intro: bool, deps: Seq<Seq<char>>, is_class_def: bool },
    Use { name: Seq<char>, line: u32, member: bool },
    Recurse(Seq<T>),
    OpenBlock { is_loop: bool },
    OpenScope { leaf: Seq<char>, params: Seq<(Seq<char>, u32)>, is_class: bool, is_namespace: bool, nonlocals: Seq<Seq<char>> },
    Close,
    OpenAttrib { leaf: Seq<char>, fallback_to_scope: bool },
    CloseAttrib,
}

/// The value of an action, its nodes seen through `node`.
pub open spec fn action_view<N, T>(a: Action<N>, node: spec_fn(N) -> T) -> ActionV<T> {
    match a {
        Action::Bind { name, kind, line, intro, deps, is_class_def } => ActionV::Bind {
            name: name@,
            kind,
            line,
            intro,
            deps: names_view(deps@),
            is_class_def,
        },
        Action::Use { name, line, member } => ActionV::Use { name: name@, line, member },
        Action::Recurse(v) => ActionV::Recurse(v@.map_values(node)),
        Action::OpenBlock { is_loop } => ActionV::OpenBlock { is_loop },
        Action::OpenScope { leaf, params, is_class, is_namespace, nonlocals } => ActionV::OpenScope {
            leaf: leaf@,
            params: params_view(params@),
            is_class,
            is_namespace,
            nonlocals: names_view(nonlocals@),
        },
        Action::Close => ActionV::Close,
        Action::OpenAttrib { leaf, fallback_to_scope } => ActionV::OpenAttrib { leaf: leaf@, fallback_to_scope },
        Action::CloseAttrib => ActionV::CloseAttrib,
    }
}

/// The values of a lowering's actions.
pub open spec fn acts_view<N, T>(s: Seq<Action<N>>, node: spec_fn(N) -> T) -> Seq<ActionV<T>> {
    s.map_values(|a: Action<N>| action_view(a, node))
}

/// The frames an action opens (+1) or closes (-1).
pub open spec fn frame_delta<N>(a: Action<N>) -> int {
    match a {
        Action::OpenBlock { .. } => 1,
        Action::OpenScope { .. } => 1,
        Action::Close => -1,
        _ => 0,
    }
}

/// Starting with `d` frames open, no action of `acts` closes a frame that is not open, and all
/// frames are closed at the end.
pub open spec fn closes_from<N>(acts: Seq<Action<N>>, d: int) -> bool
    decreases acts.len(),
{
    if acts.len() == 0 {
        d == 0
    } else {
        d + frame_delta(acts[0]) >= 0 && closes_from(acts.skip(1), d + frame_delta(acts[0]))
    }
}

/// The open-frame count after `acts`, starting from `d` open frames; `None` when some `Close`
/// finds no frame open.
pub open spec fn run_from<N>(acts: Seq<Action<N>>, d: int) -> Option<int>
    decreases acts.len(),
{
    if acts.len() == 0 {
        Some(d)
    } else {
        match run_from(acts.drop_last(), d) {
            Some(e) => if e + frame_delta(acts.last()) >= 0 { Some(e + frame_delta(acts.last())) } else { None },
            None => None,
        }
    }
}

/// Every frame `acts` opens it closes again, and it closes nothing else.
pub open spec fn balanced<N>(acts: Seq<Action<N>>) -> bool {
    run_from(acts, 0) == Some(0int)
}

/// Appending to `before` gave `acts` with the same frame count: what was appended is bracketed.
pub open spec fn keeps<N>(before: Seq<Action<N>>, acts: Seq<Action<N>>) -> bool {
    run_from(acts, 0) == run_from(before, 0)
}

/// From a nonnegative start the count stays nonnegative.
pub proof fn lemma_run_nonneg<N>(s: Seq<Action<N>>, d: int)
    requires
        d >= 0,
    ensures
        run_from(s, d) matches Some(e) ==> e >= 0,
    decreases s.len(),
{
    if s.len() > 0 {
        lemma_run_nonneg(s.drop_last(), d);
    }
}

/// Reading a run from the front: after `a` (ending at `e`), the rest closes properly from `e`.
proof fn lemma_run_front<N>(a: Seq<Action<N>>, b: Seq<Action<N>>, d: int, e: int)
    requires
        run_from(a, d) == Some(e),
    ensures
        closes_from(a + b, d) == closes_from(b, e),
    decreases a.len(),
{
    if a.len() == 0 {
        assert(a + b =~= b);
    } else {
        let a1 = a.drop_last();
        let x = a.last();
        let e1 = run_from(a1, d)->0;
        let xb = seq![x] + b;
        lemma_run_front(a1, xb, d, e1);
        assert(a1 + xb =~= a + b);
        assert(xb.skip(1) =~= b);
        assert(xb[0] == x);
    }
}

/// A balanced run closes properly read from the front.
proof fn lemma_balanced_closes<N>(acts: Seq<Action<N>>)
    requires
        balanced(acts),
    ensures
        closes_from(acts, 0),
{
    lemma_run_front(acts, Seq::empty(), 0, 0);
    assert(acts + Seq::<Action<N>>::empty() =~= acts);
}

/// A language profile: how to lower one of its syntax nodes into scope [`Action`]s. A node's
/// actions are bracketed: each block or scope it opens it also closes (see [`balanced`]), and
/// they are, as values, what the profile's [`ScopeLang::lowering`] rule gives for the node.
pub trait ScopeLang {
    type Node;
    /// A node's syntax, as a value.
    type NodeV;

    /// Each node seen as its syntax (a profile that does not say gives no view to rely on).
    open spec fn node_view(&self) -> spec_fn(Self::Node) -> Self::NodeV {
        vstd::pervasive::arbitrary()
    }

    /// What a node lowers to, as values (a profile that does not say gives no rule to rely on).
    open spec fn lowering(&self) -> spec_fn(Self::NodeV) -> Seq<ActionV<Self::NodeV>> {
        vstd::pervasive::arbitrary()
    }

    fn actions(&self, node: &Self::Node) -> (r: Vec<Action<Self::Node>>)
        ensures
            balanced(r@),
            acts_view(r@, self.node_view()) == (self.lowering())((self.node_view())(*node)),
    ;
}

/// What one action leaves for the driver.
pub enum Step<N> {
    /// Applied.
    Done,
    /// Applied; lower these nodes next, in order.
    Expand(Vec<N>),
    /// Not applicable: no frame is open, or the block tree is full.
    Stuck,
}

/// Every frame names an existing scope and block.
pub open spec fn frames_ok(g: GraphV, stack: Seq<(usize, usize)>) -> bool {
    forall|i: int| 0 <= i < stack.len() ==> (#[trigger] stack[i]).0 < g.scopes.len() && stack[i].1 < g.blocks.len()
}

/// The views of `(name, line)` parameters.
pub open spec fn params_view(ps: Seq<(String, u32)>) -> Seq<(Seq<char>, u32)> {
    ps.map_values(|p: (String, u32)| (p.0@, p.1))
}

/// The graph after binding the parameters `ps`, in order, in `scope`/`block`.
pub open spec fn bind_params(g: GraphV, scope: usize, block: usize, ps: Seq<(Seq<char>, u32)>) -> GraphV
    decreases ps.len(),
{
    if ps.len() == 0 {
        g
    } else {
        bind_spec(bind_params(g, scope, block, ps.drop_last()), scope, ps.last().0, BindKind::Param, block, ps.last().1, false, false)
    }
}

/// The graph with a new block under `parent`.
pub open spec fn opened_block(g: GraphV, parent: usize, is_loop: bool) -> GraphV {
    GraphV {
        blocks: g.blocks.push(BlockV { depth: (g.blocks[parent as int].depth + 1) as u32, parent: Some(parent), is_loop }),
        ..g
    }
}

/// The innermost open attribution, if any.
pub open spec fn last_attrib(a: Seq<Seq<char>>) -> Option<Seq<char>> {
    if a.len() == 0 { None } else { Some(a.last()) }
}

/// The views of the attribution stack.
pub open spec fn attribs_view(a: Seq<String>) -> Seq<Seq<char>> {
    a.map_values(|s: String| s@)
}

/// The driver state (graph, frame stack, attribution stack) after one action; `None` when the
/// action cannot be applied (no open frame, or a new block would not fit).
pub open spec fn step_spec<N>(g: GraphV, stack: Seq<(usize, usize)>, attrib: Seq<Seq<char>>, act: Action<N>) -> Option<
    (GraphV, Seq<(usize, usize)>, Seq<Seq<char>>),
> {
    if stack.len() == 0 {
        None
    } else {
        let scope = stack.last().0;
        let block = stack.last().1;
        match act {
            Action::Bind { name, kind, line, intro, deps, is_class_def } => {
                let g1 = bind_spec(g, scope, name@, kind, block, line, intro, is_class_def);
                Some((if deps@.len() == 0 { g1 } else { set_deps_spec(g1, scope, name@, names_view(deps@)) }, stack, attrib))
            },
            Action::Use { name, line, member } => Some((
                GraphV {
                    uses: g.uses.push(UseV { name: name@, scope, block, line, member, referrer: last_attrib(attrib) }),
                    ..g
                },
                stack,
                attrib,
            )),
            Action::Recurse(_) => Some((g, stack, attrib)),
            Action::OpenBlock { is_loop } => if g.blocks.len() >= u32::MAX {
                None
            } else {
                Some((opened_block(g, block, is_loop), stack.push((scope, g.blocks.len() as usize)), attrib))
            },
            Action::OpenScope { leaf, params, is_class, is_namespace, nonlocals } => if g.blocks.len() >= u32::MAX {
                None
            } else {
                let entry = g.blocks.len() as usize;
                let child = g.scopes.len() as usize;
                let g1 = opened_block(g, block, false);
                let g2 = GraphV {
                    scopes: g1.scopes.push(
                        ScopeV {
                            parent: Some(scope),
                            qualname: child_qual_of(g.scopes[scope as int], leaf@),
                            is_module: false,
                            is_class,
                            is_namespace,
                            nonlocals: names_view(nonlocals@),
                            bindings: Seq::empty(),
                        },
                    ),
                    ..g1
                };
                Some((bind_params(g2, child, entry, params_view(params@)), stack.push((child, entry)), attrib))
            },
            Action::Close => Some((g, stack.drop_last(), attrib)),
            Action::OpenAttrib { leaf, fallback_to_scope } => Some((
                g,
                stack,
                attrib.push(
                    if fallback_to_scope && !holds_defs(g.scopes[scope as int]) {
                        g.scopes[scope as int].qualname
                    } else {
                        child_qual_of(g.scopes[scope as int], leaf@)
                    },
                ),
            )),
            Action::CloseAttrib => Some((g, stack, if attrib.len() == 0 { attrib } else { attrib.drop_last() })),
        }
    }
}

/// [`step_spec`] over an action's value: the driver state after it, `None` when it cannot be
/// applied.
pub open spec fn step_v<T>(g: GraphV, stack: Seq<(usize, usize)>, attrib: Seq<Seq<char>>, act: ActionV<T>) -> Option<
    (GraphV, Seq<(usize, usize)>, Seq<Seq<char>>),
> {
    if stack.len() == 0 {
        None
    } else {
        let scope = stack.last().0;
        let block = stack.last().1;
        match act {
            ActionV::Bind { name, kind, line, intro, deps, is_class_def } => {
                let g1 = bind_spec(g, scope, name, kind, block, line, intro, is_class_def);
                Some((if deps.len() == 0 { g1 } else { set_deps_spec(g1, scope, name, deps) }, stack, attrib))
            },
            ActionV::Use { name, line, member } => Some((
                GraphV { uses: g.uses.push(UseV { name, scope, block, line, member, referrer: last_attrib(attrib) }), ..g },
                stack,
                attrib,
            )),
            ActionV::Recurse(_) => Some((g, stack, attrib)),
            ActionV::OpenBlock { is_loop } => if g.blocks.len() >= u32::MAX {
                None
            } else {
                Some((opened_block(g, block, is_loop), stack.push((scope, g.blocks.len() as usize)), attrib))
            },
            ActionV::OpenScope { leaf, params, is_class, is_namespace, nonlocals } => if g.blocks.len() >= u32::MAX {
                None
            } else {
                let entry = g.blocks.len() as usize;
                let child = g.scopes.len() as usize;
                let g1 = opened_block(g, block, false);
                let g2 = GraphV {
                    scopes: g1.scopes.push(
                        ScopeV {
                            parent: Some(scope),
                            qualname: child_qual_of(g.scopes[scope as int], leaf),
                            is_module: false,
                            is_class,
                            is_namespace,
                            nonlocals,
                            bindings: Seq::empty(),
                        },
                    ),
                    ..g1
                };
                Some((bind_params(g2, child, entry, params), stack.push((child, entry)), attrib))
            },
            ActionV::Close => Some((g, stack.drop_last(), attrib)),
            ActionV::OpenAttrib { leaf, fallback_to_scope } => Some((
                g,
                stack,
                attrib.push(
                    if fallback_to_scope && !holds_defs(g.scopes[scope as int]) {
                        g.scopes[scope as int].qualname
                    } else {
                        child_qual_of(g.scopes[scope as int], leaf)
                    },
                ),
            )),
            ActionV::CloseAttrib => Some((g, stack, if attrib.len() == 0 { attrib } else { attrib.drop_last() })),
        }
    }
}

/// An action steps the driver as its value does.
proof fn lemma_step_view<N, T>(g: GraphV, stack: Seq<(usize, usize)>, attrib: Seq<Seq<char>>, act: Action<N>, nv: spec_fn(N) -> T)
    ensures
        step_spec(g, stack, attrib, act) == step_v(g, stack, attrib, action_view(act, nv)),
{
}

/// A pending piece of the walk, as values: a node to lower, or an action to apply.
pub enum Item<T> {
    Node(T),
    Act(ActionV<T>),
}

/// Actions to apply, in order.
pub open spec fn act_items<T>(acts: Seq<ActionV<T>>) -> Seq<Item<T>> {
    acts.map_values(|a: ActionV<T>| Item::Act(a))
}

/// Nodes to lower, in order.
pub open spec fn node_items<T>(ns: Seq<T>) -> Seq<Item<T>> {
    ns.map_values(|n: T| Item::Node(n))
}

/// The walk over `items`, depth first, taking at most `fuel` steps: a node is replaced by its
/// lowering, a `Recurse` by its nodes, and any other action is applied (see [`step_v`]). Its
/// result is the final graph; or [`Limit::Steps`] when the steps ran out, [`Limit::Blocks`] when
/// an action could not be applied.
pub open spec fn drive<T>(
    lower: spec_fn(T) -> Seq<ActionV<T>>,
    items: Seq<Item<T>>,
    fuel: nat,
    g: GraphV,
    stack: Seq<(usize, usize)>,
    attrib: Seq<Seq<char>>,
) -> Result<GraphV, Limit>
    decreases fuel,
{
    if items.len() == 0 {
        Ok(g)
    } else if fuel == 0 {
        Err(Limit::Steps)
    } else {
        let rest = items.skip(1);
        match items[0] {
            Item::Node(n) => drive(lower, act_items(lower(n)) + rest, (fuel - 1) as nat, g, stack, attrib),
            Item::Act(a) => match a {
                ActionV::Recurse(ns) => drive(lower, node_items(ns) + rest, (fuel - 1) as nat, g, stack, attrib),
                _ => match step_v(g, stack, attrib, a) {
                    Some(st) => drive(lower, rest, (fuel - 1) as nat, st.0, st.1, st.2),
                    None => Err(Limit::Blocks),
                },
            },
        }
    }
}

/// The graph of a fresh module: its top-level block and its `<module>` scope.
pub open spec fn module_graph() -> GraphV {
    GraphV {
        blocks: seq![BlockV { depth: 0, parent: None, is_loop: false }],
        scopes: seq![
            ScopeV {
                parent: None,
                qualname: "<module>"@,
                is_module: true,
                is_class: false,
                is_namespace: false,
                nonlocals: Seq::empty(),
                bindings: Seq::empty(),
            },
        ],
        uses: Seq::empty(),
    }
}

/// The graph that a module with top-level nodes `roots` builds under the rule `lower`: the walk
/// from the fresh module graph, in its `<module>` scope, within 2^64 - 1 steps.
pub open spec fn built_graph<T>(lower: spec_fn(T) -> Seq<ActionV<T>>, roots: Seq<T>) -> Result<GraphV, Limit> {
    drive(lower, node_items(roots), u64::MAX as nat, module_graph(), seq![(0usize, 0usize)], Seq::empty())
}

/// Open a scope: its entry block under the current block, the scope, its parameters.
fn open_scope(
    g: &mut ScopeGraph,
    scope: usize,
    block: usize,
    leaf: String,
    params: Vec<(String, u32)>,
    is_class: bool,
    is_namespace: bool,
    nonlocals: Vec<String>,
) -> (r: (usize, usize))
    requires
        graph_wf(old(g)@),
        scope < old(g)@.scopes.len(),
        block < old(g)@.blocks.len(),
        old(g)@.blocks.len() < u32::MAX,
    ensures
        graph_wf(final(g)@),
        r == (old(g)@.scopes.len() as usize, old(g)@.blocks.len() as usize),
        r.0 < final(g)@.scopes.len(),
        r.1 < final(g)@.blocks.len(),
        final(g)@.scopes.len() == old(g)@.scopes.len() + 1,
        final(g)@.blocks.len() == old(g)@.blocks.len() + 1,
        final(g)@ == bind_params(
            GraphV {
                scopes: old(g)@.scopes.push(
                    ScopeV {
                        parent: Some(scope),
                        qualname: child_qual_of(old(g)@.scopes[scope as int], leaf@),
                        is_module: false,
                        is_class,
                        is_namespace,
                        nonlocals: names_view(nonlocals@),
                        bindings: Seq::empty(),
                    },
                ),
                ..opened_block(old(g)@, block, false)
            },
            old(g)@.scopes.len() as usize,
            old(g)@.blocks.len() as usize,
            params_view(params@),
        ),
{
    proof {
        lemma_depth_room(g@, block as int);
    }
    let entry = g.new_block(block, false);
    let qual = g.child_qual(scope, leaf.as_str());
    let child = g.new_scope(Some(scope), qual, false, is_class, is_namespace, nonlocals);
    let ghost g2 = g@;
    let mut i: usize = 0;
    while i < params.len()
        invariant
            graph_wf(g@),
            child < g@.scopes.len(),
            entry < g@.blocks.len(),
            g@.scopes.len() == g2.scopes.len(),
            g@.blocks.len() == g2.blocks.len(),
            g@ == bind_params(g2, child, entry, params_view(params@).take(i as int)),
            i <= params@.len(),
        decreases params@.len() - i,
    {
        let (p, l) = (&params[i].0, params[i].1);
        g.bind(child, p.as_str(), BindKind::Param, entry, l, false, false);
        assert(params_view(params@).take(i + 1).drop_last() =~= params_view(params@).take(i as int));
        i = i + 1;
    }
    assert(params_view(params@).take(params@.len() as int) =~= params_view(params@));
    (child, entry)
}

proof fn lemma_depth_room(g: GraphV, b: int)
    requires
        graph_wf(g),
        0 <= b < g.blocks.len(),
        g.blocks.len() < u32::MAX,
    ensures
        g.blocks[b].depth < u32::MAX,
{
    lemma_block_bounds(g, b);
}

/// Apply one action to the driver state (see [`step_spec`]). A `Recurse` hands its nodes back.
#[verifier::rlimit(40)]
pub fn apply<N>(g: &mut ScopeGraph, stack: &mut Vec<(usize, usize)>, attrib: &mut Vec<String>, act: Action<N>) -> (r: Step<N>)
    requires
        graph_wf(old(g)@),
        frames_ok(old(g)@, old(stack)@),
    ensures
        graph_wf(final(g)@),
        frames_ok(final(g)@, final(stack)@),
        step_spec(old(g)@, old(stack)@, attribs_view(old(attrib)@), act) matches Some(st) ==> r !is Stuck && final(g)@ == st.0
            && final(stack)@ == st.1 && attribs_view(final(attrib)@) == st.2,
        step_spec(old(g)@, old(stack)@, attribs_view(old(attrib)@), act) is None ==> r is Stuck && final(g)@ == old(g)@
            && final(stack)@ == old(stack)@,
        r matches Step::Expand(ns) ==> act == Action::Recurse(ns),
        act matches Action::Recurse(ns) ==> (r is Stuck || r == Step::Expand(ns)),
{
    let ghost g0 = g@;
    let ghost a0 = attribs_view(attrib@);
    if stack.len() == 0 {
        return Step::Stuck;
    }
    let (scope, block) = stack[stack.len() - 1];
    assert(frames_ok(g0, stack@) && stack@[stack@.len() - 1] == (scope, block));
    match act {
        Action::Bind { name, kind, line, intro, deps, is_class_def } => {
            g.bind(scope, name.as_str(), kind, block, line, intro, is_class_def);
            if deps.len() != 0 {
                g.set_deps(scope, name.as_str(), &deps);
                assert(deps@.map_values(|s: String| s@) =~= names_view(deps@));
            }
            Step::Done
        },
        Action::Use { name, line, member } => {
            let referrer = if attrib.len() > 0 {
                Some(attrib[attrib.len() - 1].clone())
            } else {
                None
            };
            g.add_use(name.as_str(), scope, block, line, member, referrer);
            Step::Done
        },
        Action::Recurse(nodes) => Step::Expand(nodes),
        Action::OpenBlock { is_loop } => {
            if g.block_count() >= 0xffff_ffff {
                return Step::Stuck;
            }
            proof {
                lemma_depth_room(g@, block as int);
            }
            let b = g.new_block(block, is_loop);
            stack.push((scope, b));
            Step::Done
        },
        Action::OpenScope { leaf, params, is_class, is_namespace, nonlocals } => {
            if g.block_count() >= 0xffff_ffff {
                return Step::Stuck;
            }
            let (child, entry) = open_scope(g, scope, block, leaf, params, is_class, is_namespace, nonlocals);
            stack.push((child, entry));
            Step::Done
        },
        Action::Close => {
            stack.pop();
            Step::Done
        },
        Action::OpenAttrib { leaf, fallback_to_scope } => {
            let q = if fallback_to_scope {
                g.data_attrib(scope, leaf.as_str())
            } else {
                g.child_qual(scope, leaf.as_str())
            };
            attrib.push(q);
            assert(attribs_view(attrib@) =~= a0.push(q@));
            Step::Done
        },
        Action::CloseAttrib => {
            attrib.pop();
            assert(attribs_view(attrib@) =~= if a0.len() == 0 { a0 } else { a0.drop_last() });
            Step::Done
        },
    }
}


/// Append one action to a lowering (the frame count moves by the action's [`frame_delta`]).
pub fn emit<N>(acts: &mut Vec<Action<N>>, a: Action<N>)
    ensures
        final(acts)@ == old(acts)@.push(a),
        run_from(final(acts)@, 0) == match run_from(old(acts)@, 0) {
            Some(e) => if e + frame_delta(a) >= 0 { Some(e + frame_delta(a)) } else { None },
            None => None,
        },
{
    let ghost before = acts@;
    acts.push(a);
    assert(acts@.drop_last() =~= before);
}

/// A pending unit of the driver's work: a top-level node, a recursed node, or an action.
enum Task<'a, N> {
    Root(&'a N),
    Node(N),
    Act(Action<N>),
}

/// The frames a task closes beyond those it opens.
spec fn task_cost<'a, N>(t: Task<'a, N>) -> int {
    match t {
        Task::Act(a) => -frame_delta(a),
        _ => 0,
    }
}

/// The frames the pending work (taken from the end) needs open beyond the module's.
spec fn need<'a, N>(w: Seq<Task<'a, N>>) -> int
    decreases w.len(),
{
    if w.len() == 0 {
        0
    } else {
        let n = task_cost(w.last()) + need(w.drop_last());
        if n > 0 { n } else { 0 }
    }
}

/// The need of pending work after the actions `acts` are taken first, in order.
spec fn need_after<N>(acts: Seq<Action<N>>, n: int) -> int
    decreases acts.len(),
{
    if acts.len() == 0 {
        n
    } else {
        let m = -frame_delta(acts[0]) + need_after(acts.skip(1), n);
        if m > 0 { m } else { 0 }
    }
}

/// The tasks for `acts`, last action first (so the first is taken next).
spec fn act_tasks<'a, N>(acts: Seq<Action<N>>) -> Seq<Task<'a, N>> {
    Seq::new(acts.len(), |i: int| Task::Act(acts[acts.len() - 1 - i]))
}

/// The tasks for `nodes`, last node first.
spec fn node_tasks<'a, N>(nodes: Seq<N>) -> Seq<Task<'a, N>> {
    Seq::new(nodes.len(), |i: int| Task::Node(nodes[nodes.len() - 1 - i]))
}

proof fn lemma_need_nonneg<'a, N>(w: Seq<Task<'a, N>>)
    ensures
        need(w) >= 0,
    decreases w.len(),
{
}

proof fn lemma_need_acts<'a, N>(w: Seq<Task<'a, N>>, acts: Seq<Action<N>>)
    ensures
        need(w + act_tasks::<'a, N>(acts)) == need_after(acts, need(w)),
    decreases acts.len(),
{
    if acts.len() > 0 {
        let rest = acts.skip(1);
        lemma_need_acts(w, rest);
        let big = w + act_tasks::<'a, N>(acts);
        assert(big.drop_last() =~= w + act_tasks::<'a, N>(rest));
        assert(big.last() == Task::<'a, N>::Act(acts[0]));
    } else {
        assert(w + act_tasks::<'a, N>(acts) =~= w);
    }
}

proof fn lemma_need_after_closed<N>(acts: Seq<Action<N>>, d: int, n: int)
    requires
        closes_from(acts, d),
        n >= 0,
        d >= 0,
    ensures
        need_after(acts, n) == n + d,
    decreases acts.len(),
{
    if acts.len() > 0 {
        lemma_need_after_closed(acts.skip(1), d + frame_delta(acts[0]), n);
    }
}

proof fn lemma_need_nodes<'a, N>(w: Seq<Task<'a, N>>, nodes: Seq<N>)
    ensures
        need(w + node_tasks::<'a, N>(nodes)) == need(w),
    decreases nodes.len(),
{
    lemma_need_nonneg(w);
    if nodes.len() > 0 {
        let rest = nodes.skip(1);
        lemma_need_nodes(w, rest);
        let big = w + node_tasks::<'a, N>(nodes);
        assert(big.drop_last() =~= w + node_tasks::<'a, N>(rest));
        assert(big.last() == Task::<'a, N>::Node(nodes[0]));
        lemma_need_nonneg(w + node_tasks::<'a, N>(rest));
    } else {
        assert(w + node_tasks::<'a, N>(nodes) =~= w);
    }
}

/// Queue `acts` so that the first is taken next.
fn push_actions<'a, N>(work: &mut Vec<Task<'a, N>>, acts: Vec<Action<N>>)
    ensures
        final(work)@ == old(work)@ + act_tasks::<'a, N>(acts@),
        final(work)@.len() == old(work)@.len() + acts@.len(),
        forall|i: int| 0 <= i < old(work)@.len() ==> final(work)@[i] == old(work)@[i],
        forall|i: int|
            0 <= i < acts@.len() ==> #[trigger] final(work)@[old(work)@.len() + i] == Task::<'a, N>::Act(acts@[acts@.len() - 1 - i]),
{
    let ghost orig = acts@;
    let ghost w0 = work@;
    let mut acts = acts;
    while acts.len() > 0
        invariant
            acts@ == orig.take(acts@.len() as int),
            acts@.len() <= orig.len(),
            work@.len() == w0.len() + (orig.len() - acts@.len()),
            forall|i: int| 0 <= i < w0.len() ==> work@[i] == w0[i],
            forall|i: int|
                0 <= i < orig.len() - acts@.len() ==> #[trigger] work@[w0.len() + i] == Task::<'a, N>::Act(orig[orig.len() - 1 - i]),
        decreases acts@.len(),
    {
        match acts.pop() {
            Some(a) => work.push(Task::Act(a)),
            None => {},
        }
    }
    assert forall|k: int| w0.len() <= k < work@.len() implies work@[k] == (w0 + act_tasks::<'a, N>(orig))[k] by {
        assert(work@[w0.len() + (k - w0.len())] == Task::<'a, N>::Act(orig[orig.len() - 1 - (k - w0.len())]));
    }
    assert(work@ =~= w0 + act_tasks::<'a, N>(orig));
}

/// Queue `nodes` so that the first is taken next.
fn push_nodes<'a, N>(work: &mut Vec<Task<'a, N>>, nodes: Vec<N>)
    ensures
        final(work)@ == old(work)@ + node_tasks::<'a, N>(nodes@),
        final(work)@.len() == old(work)@.len() + nodes@.len(),
        forall|i: int| 0 <= i < old(work)@.len() ==> final(work)@[i] == old(work)@[i],
        forall|i: int|
            0 <= i < nodes@.len() ==> #[trigger] final(work)@[old(work)@.len() + i] == Task::<'a, N>::Node(nodes@[nodes@.len() - 1 - i]),
{
    let ghost orig = nodes@;
    let ghost w0 = work@;
    let mut nodes = nodes;
    while nodes.len() > 0
        invariant
            nodes@ == orig.take(nodes@.len() as int),
            nodes@.len() <= orig.len(),
            work@.len() == w0.len() + (orig.len() - nodes@.len()),
            forall|i: int| 0 <= i < w0.len() ==> work@[i] == w0[i],
            forall|i: int|
                0 <= i < orig.len() - nodes@.len() ==> #[trigger] work@[w0.len() + i] == Task::<'a, N>::Node(orig[orig.len() - 1 - i]),
        decreases nodes@.len(),
    {
        match nodes.pop() {
            Some(n) => work.push(Task::Node(n)),
            None => {},
        }
    }
    assert forall|k: int| w0.len() <= k < work@.len() implies work@[k] == (w0 + node_tasks::<'a, N>(orig))[k] by {
        assert(work@[w0.len() + (k - w0.len())] == Task::<'a, N>::Node(orig[orig.len() - 1 - (k - w0.len())]));
    }
    assert(work@ =~= w0 + node_tasks::<'a, N>(orig));
}

/// A limit the driver ran into.
#[derive(Clone, Copy, Debug, PartialEq, Eq)]
pub enum Limit {
    /// The block tree holds `u32::MAX` blocks.
    Blocks,
    /// The walk took 2^64 steps.
    Steps,
}

/// A pending task, as values.
spec fn task_item<'a, N, T>(t: Task<'a, N>, nv: spec_fn(N) -> T) -> Item<T> {
    match t {
        Task::Root(n) => Item::Node(nv(*n)),
        Task::Node(n) => Item::Node(nv(n)),
        Task::Act(a) => Item::Act(action_view(a, nv)),
    }
}

/// The pending work as values, the next task first.
spec fn items_of<'a, N, T>(w: Seq<Task<'a, N>>, nv: spec_fn(N) -> T) -> Seq<Item<T>> {
    Seq::new(w.len(), |i: int| task_item(w[w.len() - 1 - i], nv))
}

proof fn lemma_items_pop<'a, N, T>(w: Seq<Task<'a, N>>, nv: spec_fn(N) -> T)
    requires
        w.len() > 0,
    ensures
        items_of(w, nv).len() > 0,
        items_of(w, nv)[0] == task_item(w.last(), nv),
        items_of(w, nv).skip(1) == items_of(w.drop_last(), nv),
{
    assert(items_of(w, nv).skip(1) =~= items_of(w.drop_last(), nv));
}

proof fn lemma_items_acts<'a, N, T>(w: Seq<Task<'a, N>>, acts: Seq<Action<N>>, nv: spec_fn(N) -> T)
    ensures
        items_of(w + act_tasks::<'a, N>(acts), nv) == act_items(acts_view(acts, nv)) + items_of(w, nv),
{
    let big = w + act_tasks::<'a, N>(acts);
    assert forall|i: int| 0 <= i < big.len() implies #[trigger] items_of(big, nv)[i] == (act_items(acts_view(acts, nv)) + items_of(
        w,
        nv,
    ))[i] by {
        if i < acts.len() {
            assert(big[big.len() - 1 - i] == Task::<'a, N>::Act(acts[i]));
        } else {
            assert(big[big.len() - 1 - i] == w[w.len() - 1 - (i - acts.len())]);
        }
    }
    assert(items_of(big, nv) =~= act_items(acts_view(acts, nv)) + items_of(w, nv));
}

proof fn lemma_items_nodes<'a, N, T>(w: Seq<Task<'a, N>>, ns: Seq<N>, nv: spec_fn(N) -> T)
    ensures
        items_of(w + node_tasks::<'a, N>(ns), nv) == node_items(ns.map_values(nv)) + items_of(w, nv),
{
    let big = w + node_tasks::<'a, N>(ns);
    assert forall|i: int| 0 <= i < big.len() implies #[trigger] items_of(big, nv)[i] == (node_items(ns.map_values(nv)) + items_of(
        w,
        nv,
    ))[i] by {
        if i < ns.len() {
            assert(big[big.len() - 1 - i] == Task::<'a, N>::Node(ns[i]));
        } else {
            assert(big[big.len() - 1 - i] == w[w.len() - 1 - (i - ns.len())]);
        }
    }
    assert(items_of(big, nv) =~= node_items(ns.map_values(nv)) + items_of(w, nv));
}

/// Build a whole-module [`ScopeGraph`] by driving `lang` over `roots` (the module's top-level
/// nodes), depth first, each node's actions in order (see [`apply`]): the graph is the walk
/// [`built_graph`] under the profile's lowering rule. Since every node's actions are bracketed,
/// no action ever finds its frame missing: the build fails only on a limit. The caller scores
/// the result via [`ScopeGraph::score`].
pub fn build<L: ScopeLang>(lang: &L, roots: &[L::Node]) -> (r: Result<ScopeGraph, Limit>)
    ensures
        r matches Ok(g) ==> graph_wf(g@),
        match r {
            Ok(g) => built_graph(lang.lowering(), roots@.map_values(lang.node_view())) == Ok::<GraphV, Limit>(g@),
            Err(l) => built_graph(lang.lowering(), roots@.map_values(lang.node_view())) == Err::<GraphV, Limit>(l),
        },
{
    let ghost nv = lang.node_view();
    let ghost lower = lang.lowering();
    let ghost r0 = built_graph(lower, roots@.map_values(nv));
    let mut g = ScopeGraph::new();
    let module = g.new_scope(None, "<module>".to_owned(), true, false, false, Vec::new());
    assert(names_view(Seq::<String>::empty()) =~= Seq::<Seq<char>>::empty());
    assert(g@ =~= module_graph());
    let mut stack: Vec<(usize, usize)> = Vec::new();
    stack.push((module, g.module_block()));
    assert(stack@ =~= seq![(0usize, 0usize)]);
    let mut attrib: Vec<String> = Vec::new();
    assert(attribs_view(attrib@) =~= Seq::<Seq<char>>::empty());
    let mut work: Vec<Task<L::Node>> = Vec::new();
    let mut i: usize = roots.len();
    while i > 0
        invariant
            i <= roots@.len(),
            need(work@) == 0,
            items_of(work@, nv) == node_items(roots@.subrange(i as int, roots@.len() as int).map_values(nv)),
        decreases i,
    {
        i = i - 1;
        let ghost w0 = work@;
        work.push(Task::Root(&roots[i]));
        assert(work@.drop_last() =~= w0);
        proof {
            lemma_items_pop(work@, nv);
            let lhs = items_of(work@, nv);
            let rhs = node_items(roots@.subrange(i as int, roots@.len() as int).map_values(nv));
            let prev = node_items(roots@.subrange(i + 1, roots@.len() as int).map_values(nv));
            assert(lhs.skip(1) == prev);
            assert forall|k: int| 0 <= k < rhs.len() implies lhs[k] == rhs[k] by {
                if k > 0 {
                    assert(lhs[k] == lhs.skip(1)[k - 1]);
                    assert(prev[k - 1] == rhs[k]);
                }
            }
            assert(lhs =~= rhs);
        }
    }
    assert(roots@.subrange(0, roots@.len() as int) =~= roots@);
    let mut fuel: u64 = u64::MAX;
    loop
        invariant
            graph_wf(g@),
            frames_ok(g@, stack@),
            stack@.len() >= 1 + need(work@),
            drive(lower, items_of(work@, nv), fuel as nat, g@, stack@, attribs_view(attrib@)) == r0,
            nv == lang.node_view(),
            lower == lang.lowering(),
            r0 == built_graph(lower, roots@.map_values(nv)),
        decreases fuel,
    {
        proof {
            lemma_need_nonneg(work@);
        }
        let ghost w0 = work@;
        let ghost st0 = (g@, stack@, attribs_view(attrib@));
        match work.pop() {
            None => {
                assert(items_of(w0, nv) =~= Seq::<Item<L::NodeV>>::empty());
                return Ok(g);
            },
            Some(t) => {
                let ghost rest = work@;
                assert(w0.drop_last() =~= rest && w0.last() == t);
                proof {
                    lemma_need_nonneg(rest);
                    lemma_items_pop(w0, nv);
                }
                if fuel == 0 {
                    return Err(Limit::Steps);
                }
                let ghost f0 = fuel;
                fuel = fuel - 1;
                match t {
                    Task::Root(n) => {
                        let acts = lang.actions(n);
                        proof {
                            lemma_balanced_closes(acts@);
                            lemma_need_acts(rest, acts@);
                            lemma_need_after_closed(acts@, 0, need(rest));
                            lemma_items_acts(rest, acts@, nv);
                        }
                        push_actions(&mut work, acts);
                    },
                    Task::Node(n) => {
                        let acts = lang.actions(&n);
                        proof {
                            lemma_balanced_closes(acts@);
                            lemma_need_acts(rest, acts@);
                            lemma_need_after_closed(acts@, 0, need(rest));
                            lemma_items_acts(rest, acts@, nv);
                        }
                        push_actions(&mut work, acts);
                    },
                    Task::Act(a) => {
                        let ghost a0 = a;
                        let ghost g0 = g@;
                        proof {
                            lemma_step_view(st0.0, st0.1, st0.2, a0, nv);
                        }
                        match apply(&mut g, &mut stack, &mut attrib, a) {
                            Step::Stuck => {
                                // a frame is always open here, so only a full block tree stops the walk
                                assert(g0.blocks.len() >= u32::MAX);
                                return Err(Limit::Blocks);
                            },
                            Step::Done => {},
                            Step::Expand(ns) => {
                                proof {
                                    lemma_need_nodes(rest, ns@);
                                    lemma_items_nodes(rest, ns@, nv);
                                }
                                push_nodes(&mut work, ns);
                            },
                        }
                    },
                }
            },
        }
    }
}

} // verus!
