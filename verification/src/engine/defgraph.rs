//! The definition graph — entities + their reference edges, built directly from a module's
//! `(entities, edges)` (which the scope graph already produced). The substrate for `placement`
//! (gap-to-deps) and `declorder` (declare-order). Per-module: locality is same-file only.

use vstd::prelude::*;

use crate::engine::model::EntityKind;
use crate::engine::raw::{RawEntity, RawKind};

verus! {

pub struct Def {
    pub qualname: String,
    pub kind: EntityKind,
    pub line: u32,
    /// Indices (into `DefGraph::defs`) of the definitions this one references.
    pub calls: Vec<usize>,
}

pub struct DefGraph {
    pub file: String,
    pub defs: Vec<Def>,
}

/// The abstract definition: strings as character sequences.
pub struct DefV {
    pub qualname: Seq<char>,
    pub kind: EntityKind,
    pub line: u32,
    pub calls: Seq<usize>,
}

/// The abstract definition graph.
pub struct DefGraphV {
    pub file: Seq<char>,
    pub defs: Seq<DefV>,
}

impl View for Def {
    type V = DefV;

    open spec fn view(&self) -> DefV {
        DefV { qualname: self.qualname@, kind: self.kind, line: self.line, calls: self.calls@ }
    }
}

impl View for DefGraph {
    type V = DefGraphV;

    open spec fn view(&self) -> DefGraphV {
        DefGraphV { file: self.file@, defs: self.defs@.map_values(|d: Def| d@) }
    }
}

/// The entity kind a raw kind maps to (a data definition is a `Binding`).
pub open spec fn entity_kind_of(k: RawKind) -> EntityKind {
    match k {
        RawKind::Module => EntityKind::Module,
        RawKind::Function => EntityKind::Function,
        RawKind::Method => EntityKind::Method,
        RawKind::Class => EntityKind::Class,
        RawKind::Data => EntityKind::Binding,
    }
}

/// The index a qualname resolves to: the LAST entity carrying it (a later duplicate shadows an
/// earlier one), if any.
pub open spec fn resolve_qual(entities: Seq<RawEntity>, q: Seq<char>) -> Option<int>
    decreases entities.len(),
{
    if entities.len() == 0 {
        None
    } else if entities.last().qualname@ == q {
        Some(entities.len() - 1)
    } else {
        resolve_qual(entities.drop_last(), q)
    }
}

/// The callee indices of entity `i`, one per edge (in edge order) whose caller resolves to `i` and
/// whose callee resolves at all.
pub open spec fn calls_of(entities: Seq<RawEntity>, edges: Seq<(String, String)>, i: int) -> Seq<usize>
    decreases edges.len(),
{
    if edges.len() == 0 {
        Seq::empty()
    } else {
        let e = edges.last();
        let rest = calls_of(entities, edges.drop_last(), i);
        match (resolve_qual(entities, e.0@), resolve_qual(entities, e.1@)) {
            (Some(c), Some(t)) => if c == i { rest.push(t as usize) } else { rest },
            _ => rest,
        }
    }
}

/// The graph `build` produces for `(file, entities, edges)`: one definition per entity, in order,
/// each referencing the definitions its edges resolve to.
pub open spec fn graph_of(file: Seq<char>, entities: Seq<RawEntity>, edges: Seq<(String, String)>) -> DefGraphV {
    DefGraphV {
        file,
        defs: Seq::new(
            entities.len(),
            |i: int|
                DefV {
                    qualname: entities[i].qualname@,
                    kind: entity_kind_of(entities[i].kind),
                    line: entities[i].line,
                    calls: calls_of(entities, edges, i),
                },
        ),
    }
}

/// Well-formedness: every call index names a definition.
pub open spec fn graph_wf(g: DefGraphV) -> bool {
    forall|i: int, j: int| 0 <= i < g.defs.len() && 0 <= j < g.defs[i].calls.len() ==> (#[trigger] g.defs[i].calls[j]) < g.defs.len()
}

proof fn lemma_resolve_bounds(entities: Seq<RawEntity>, q: Seq<char>)
    ensures
        resolve_qual(entities, q) matches Some(i) ==> 0 <= i < entities.len() && entities[i].qualname@ == q,
    decreases entities.len(),
{
    if entities.len() > 0 {
        lemma_resolve_bounds(entities.drop_last(), q);
    }
}

proof fn lemma_calls_bounds(entities: Seq<RawEntity>, edges: Seq<(String, String)>, i: int)
    ensures
        forall|j: int| 0 <= j < calls_of(entities, edges, i).len() ==> #[trigger] calls_of(entities, edges, i)[j] < entities.len(),
    decreases edges.len(),
{
    if edges.len() > 0 {
        lemma_calls_bounds(entities, edges.drop_last(), i);
        let e = edges.last();
        lemma_resolve_bounds(entities, e.1@);
        let rest = calls_of(entities, edges.drop_last(), i);
        let all = calls_of(entities, edges, i);
        assert forall|j: int| 0 <= j < all.len() implies #[trigger] all[j] < entities.len() by {
            if j < rest.len() {
                assert(all[j] == rest[j]);
            }
        }
    }
}

pub fn entity_kind(k: RawKind) -> (r: EntityKind)
    ensures
        r == entity_kind_of(k),
{
    match k {
        RawKind::Module => EntityKind::Module,
        RawKind::Function => EntityKind::Function,
        RawKind::Method => EntityKind::Method,
        RawKind::Class => EntityKind::Class,
        RawKind::Data => EntityKind::Binding,
    }
}

/// The last entity index carrying qualname `q`.
fn find_last(entities: &[RawEntity], q: &String) -> (r: Option<usize>)
    ensures
        r matches Some(i) ==> resolve_qual(entities@, q@) == Some(i as int),
        r is None ==> resolve_qual(entities@, q@) is None,
{
    let mut i: usize = entities.len();
    proof {
        assert(entities@.take(i as int) =~= entities@);
    }
    while i > 0
        invariant
            i <= entities@.len(),
            resolve_qual(entities@, q@) == resolve_qual(entities@.take(i as int), q@),
        decreases i,
    {
        proof {
            assert(entities@.take(i as int).drop_last() =~= entities@.take(i - 1));
        }
        if entities[i - 1].qualname == *q {
            return Some(i - 1);
        }
        i = i - 1;
    }
    None
}

impl DefGraph {
    /// Build the graph for one module: entities become nodes; `(caller, callee)` qualname edges
    /// become adjacency (edges to names not in this module are dropped).
    pub fn build(file: &str, entities: &[RawEntity], edges: &[(String, String)]) -> (g: DefGraph)
        ensures
            g@ == graph_of(file@, entities@, edges@),
            graph_wf(g@),
    {
        // resolve every edge once
        let mut resolved: Vec<(Option<usize>, Option<usize>)> = Vec::new();
        let mut k: usize = 0;
        while k < edges.len()
            invariant
                k <= edges@.len(),
                resolved@.len() == k,
                forall|j: int|
                    0 <= j < k ==> {
                        &&& (#[trigger] resolved@[j]).0 matches Some(c) ==> resolve_qual(entities@, edges@[j].0@) == Some(c as int)
                        &&& resolved@[j].0 is None ==> resolve_qual(entities@, edges@[j].0@) is None
                        &&& resolved@[j].1 matches Some(t) ==> resolve_qual(entities@, edges@[j].1@) == Some(t as int)
                        &&& resolved@[j].1 is None ==> resolve_qual(entities@, edges@[j].1@) is None
                    },
            decreases edges@.len() - k,
        {
            let c = find_last(entities, &edges[k].0);
            let t = find_last(entities, &edges[k].1);
            resolved.push((c, t));
            k = k + 1;
        }
        let mut defs: Vec<Def> = Vec::new();
        let mut i: usize = 0;
        while i < entities.len()
            invariant
                i <= entities@.len(),
                resolved@.len() == edges@.len(),
                forall|j: int|
                    0 <= j < edges@.len() ==> {
                        &&& (#[trigger] resolved@[j]).0 matches Some(c) ==> resolve_qual(entities@, edges@[j].0@) == Some(c as int)
                        &&& resolved@[j].0 is None ==> resolve_qual(entities@, edges@[j].0@) is None
                        &&& resolved@[j].1 matches Some(t) ==> resolve_qual(entities@, edges@[j].1@) == Some(t as int)
                        &&& resolved@[j].1 is None ==> resolve_qual(entities@, edges@[j].1@) is None
                    },
                defs@.len() == i,
                forall|j: int|
                    0 <= j < i ==> {
                        &&& (#[trigger] defs@[j]).qualname@ == entities@[j].qualname@
                        &&& defs@[j].kind == entity_kind_of(entities@[j].kind)
                        &&& defs@[j].line == entities@[j].line
                        &&& defs@[j].calls@ == calls_of(entities@, edges@, j)
                    },
            decreases entities@.len() - i,
        {
            let mut calls: Vec<usize> = Vec::new();
            let mut k: usize = 0;
            while k < resolved.len()
                invariant
                    k <= resolved@.len(),
                    i < entities@.len(),
                    resolved@.len() == edges@.len(),
                    forall|j: int|
                        0 <= j < edges@.len() ==> {
                            &&& (#[trigger] resolved@[j]).0 matches Some(c) ==> resolve_qual(entities@, edges@[j].0@) == Some(c as int)
                            &&& resolved@[j].0 is None ==> resolve_qual(entities@, edges@[j].0@) is None
                            &&& resolved@[j].1 matches Some(t) ==> resolve_qual(entities@, edges@[j].1@) == Some(t as int)
                            &&& resolved@[j].1 is None ==> resolve_qual(entities@, edges@[j].1@) is None
                        },
                    calls@ == calls_of(entities@, edges@.take(k as int), i as int),
                decreases resolved@.len() - k,
            {
                proof {
                    assert(edges@.take(k + 1).drop_last() =~= edges@.take(k as int));
                    assert(edges@.take(k + 1).last() == edges@[k as int]);
                }
                match resolved[k] {
                    (Some(c), Some(t)) => {
                        if c == i {
                            calls.push(t);
                        }
                    },
                    _ => {},
                }
                k = k + 1;
            }
            proof {
                assert(edges@.take(edges@.len() as int) =~= edges@);
            }
            defs.push(Def { qualname: entities[i].qualname.clone(), kind: entity_kind(entities[i].kind), line: entities[i].line, calls });
            i = i + 1;
        }
        let g = DefGraph { file: file.to_string(), defs };
        proof {
            assert(g@.defs =~= graph_of(file@, entities@, edges@).defs);
            assert forall|i: int, j: int|
                0 <= i < g@.defs.len() && 0 <= j < g@.defs[i].calls.len() implies (#[trigger] g@.defs[i].calls[j]) < g@.defs.len() by {
                lemma_calls_bounds(entities@, edges@, i);
            }
        }
        g
    }
}

} // verus!
