//! Definition placement debt ("gap-to-deps"): a definition should sit right after the definitions
//! it depends on, with nothing unrelated wedged in between. Operates on the [`DefGraph`] and
//! textual position, within one scope (siblings sharing a qualname parent). The wedge counting is
//! shared with value scope-debt (`engine::wedge`).

use std::collections::HashSet;

use vstd::prelude::*;

use crate::engine::defgraph::{DefGraph, DefGraphV, graph_wf};
use crate::engine::flags::{count_false, lemma_count_false_set};
use crate::engine::model::EntityKind;
use crate::engine::score::Weights;
use crate::engine::wedge::{self, Sib, SibV, count_wedges, keys_view, nearest_dep_above, sibs_view};
use crate::text::{parent_of, qual_parent};

verus! {

/// A placed definition: code (function/method/class) or module/class data (a `Binding`).
pub open spec fn is_def_kind(k: EntityKind) -> bool {
    k == EntityKind::Function || k == EntityKind::Method || k == EntityKind::Class || k == EntityKind::Binding
}

/// Definition `j` references definition `i`.
pub open spec fn refers(g: DefGraphV, j: int, i: int) -> bool {
    g.defs[j].calls.contains(i as usize)
}

/// The number of OTHER definitions among the first `k` that reference `i` (distinct referrers).
pub open spec fn fanin_upto(g: DefGraphV, i: int, k: int) -> nat
    decreases k,
{
    if k <= 0 {
        0
    } else {
        fanin_upto(g, i, k - 1) + if k - 1 != i && refers(g, k - 1, i) { 1nat } else { 0nat }
    }
}

/// The number of other definitions referencing `i`.
pub open spec fn fanin(g: DefGraphV, i: int) -> nat {
    fanin_upto(g, i, g.defs.len() as int)
}

/// A class member referenced by at least `accessor_fanin` distinct siblings.
pub open spec fn dense(g: DefGraphV, w: Weights, i: int) -> bool {
    g.defs[i].kind == EntityKind::Method && fanin(g, i) >= w.accessor_fanin
}

/// Every reference of `i` is to itself or into `p`.
pub open spec fn calls_within(g: DefGraphV, i: int, p: Set<int>) -> bool {
    forall|j: int| 0 <= j < g.defs[i].calls.len() ==> (#[trigger] g.defs[i].calls[j]) as int == i || p.contains(g.defs[i].calls[j] as int)
}

/// `p` is closed under the accessor rule: a dense member that depends only on `p` (or itself)
/// belongs to `p`.
pub open spec fn accessor_closed(g: DefGraphV, w: Weights, p: Set<int>) -> bool {
    forall|i: int| 0 <= i < g.defs.len() && dense(g, w, i) && calls_within(g, i, p) ==> #[trigger] p.contains(i)
}

/// Class-member ACCESSORS: the least set closed under the accessor rule — high-fan-in methods that
/// depend only on other accessors, transitively, seeded by leaves. Such a method is de-facto data:
/// pinned in place, it neither anchors nor wedges a gap-to-deps span.
pub open spec fn is_accessor(g: DefGraphV, w: Weights, i: int) -> bool {
    forall|p: Set<int>| #[trigger] accessor_closed(g, w, p) ==> p.contains(i)
}

/// The accessor flags of all definitions.
pub open spec fn accessor_flags(g: DefGraphV, w: Weights) -> Seq<bool> {
    Seq::new(g.defs.len(), |i: int| is_accessor(g, w, i))
}

/// `gi` is an eligible sibling of `fi`: a definition in the same scope, not `fi`, not pinned.
pub open spec fn eligible_sibling(g: DefGraphV, pinned: Seq<bool>, fi: int, gi: int) -> bool {
    &&& is_def_kind(g.defs[gi].kind)
    &&& qual_parent(g.defs[gi].qualname) == qual_parent(g.defs[fi].qualname)
    &&& gi != fi
    &&& !pinned[gi]
}

/// The abstract sibling for definition `gi`.
pub open spec fn def_sib(g: DefGraphV, gi: int) -> SibV<usize> {
    SibV { key: gi as usize, line: g.defs[gi].line, deps: g.defs[gi].calls }
}

/// The eligible siblings of `fi` among the first `k` definitions, in definition order.
pub open spec fn siblings_upto(g: DefGraphV, pinned: Seq<bool>, fi: int, k: int) -> Seq<SibV<usize>>
    decreases k,
{
    if k <= 0 {
        Seq::empty()
    } else {
        let rest = siblings_upto(g, pinned, fi, k - 1);
        if eligible_sibling(g, pinned, fi, k - 1) { rest.push(def_sib(g, k - 1)) } else { rest }
    }
}

/// The eligible siblings of `fi`.
pub open spec fn siblings(g: DefGraphV, pinned: Seq<bool>, fi: int) -> Seq<SibV<usize>> {
    siblings_upto(g, pinned, fi, g.defs.len() as int)
}

/// The references of a list that are not pinned.
pub open spec fn unpinned(calls: Seq<usize>, pinned: Seq<bool>) -> Seq<usize>
    decreases calls.len(),
{
    if calls.len() == 0 {
        Seq::empty()
    } else {
        let rest = unpinned(calls.drop_last(), pinned);
        if pinned[calls.last() as int] { rest } else { rest.push(calls.last()) }
    }
}

/// Gap-to-deps wedge count of definition `fi`: unrelated siblings between it and its nearest real
/// (unpinned) dependency above.
pub open spec fn placement_count(g: DefGraphV, pinned: Seq<bool>, fi: int) -> u32 {
    let f = g.defs[fi];
    let sibs = siblings(g, pinned, fi);
    match nearest_dep_above(f.line, unpinned(f.calls, pinned), sibs) {
        Some(lo) => count_wedges(lo, f.line, f.calls, Seq::empty(), sibs) as u32,
        None => 0,
    }
}

/// `(def, wedges)` for the first `k` definitions carrying gap-to-deps debt.
pub open spec fn placement_upto(g: DefGraphV, pinned: Seq<bool>, k: int) -> Seq<(usize, u32)>
    decreases k,
{
    if k <= 0 {
        Seq::empty()
    } else {
        let rest = placement_upto(g, pinned, k - 1);
        let i = k - 1;
        if is_def_kind(g.defs[i].kind) && !pinned[i] && placement_count(g, pinned, i) > 0 {
            rest.push((i as usize, placement_count(g, pinned, i)))
        } else {
            rest
        }
    }
}

/// The gap-to-deps debt of every definition that has some.
pub open spec fn placement_debt(g: DefGraphV, w: Weights) -> Seq<(usize, u32)> {
    placement_upto(g, accessor_flags(g, w), g.defs.len() as int)
}

/// The first referrer (other than `di` itself) among the first `k` definitions with the lowest line.
pub open spec fn first_user_upto(g: DefGraphV, di: int, k: int) -> Option<int>
    decreases k,
{
    if k <= 0 {
        None
    } else {
        let rest = first_user_upto(g, di, k - 1);
        let j = k - 1;
        if j != di && refers(g, j, di) {
            match rest {
                Some(b) => if g.defs[j].line < g.defs[b].line { Some(j) } else { Some(b) },
                None => Some(j),
            }
        } else {
            rest
        }
    }
}

/// The first use of `di`: its lowest-lined referrer (the earliest such definition on ties).
pub open spec fn first_user(g: DefGraphV, di: int) -> Option<int> {
    first_user_upto(g, di, g.defs.len() as int)
}

/// Use-side reorder wedge count of `di` whose first use is `fc`: unrelated siblings between the
/// definition and its first use, exempting siblings the first user also references.
pub open spec fn reorder_count(g: DefGraphV, pinned: Seq<bool>, di: int, fc: int) -> u32 {
    let d = g.defs[di];
    count_wedges(d.line, g.defs[fc].line, unpinned(d.calls, pinned), g.defs[fc].calls, siblings(g, pinned, di)) as u32
}

/// The reorder entry of definition `i`, if it has one.
pub open spec fn reorder_entry(g: DefGraphV, pinned: Seq<bool>, i: int) -> Option<(usize, u32, u32)> {
    if is_def_kind(g.defs[i].kind) && !pinned[i] {
        match first_user(g, i) {
            Some(fc) => if g.defs[fc].line > g.defs[i].line && reorder_count(g, pinned, i, fc) > 0 {
                Some((i as usize, g.defs[fc].line, reorder_count(g, pinned, i, fc)))
            } else {
                None
            },
            None => None,
        }
    } else {
        None
    }
}

/// `(def, first-use line, wedges)` for the first `k` definitions declared above their first use
/// with unrelated siblings in between.
pub open spec fn reorder_upto(g: DefGraphV, pinned: Seq<bool>, k: int) -> Seq<(usize, u32, u32)>
    decreases k,
{
    if k <= 0 {
        Seq::empty()
    } else {
        let rest = reorder_upto(g, pinned, k - 1);
        match reorder_entry(g, pinned, k - 1) {
            Some(e) => rest.push(e),
            None => rest,
        }
    }
}

/// Every definition declared too far above its first use.
pub open spec fn reorder_debt(g: DefGraphV, w: Weights) -> Seq<(usize, u32, u32)> {
    reorder_upto(g, accessor_flags(g, w), g.defs.len() as int)
}

/// Is `k` one of the placed kinds?
pub(crate) fn is_def(k: EntityKind) -> (r: bool)
    ensures
        r == is_def_kind(k),
{
    match k {
        EntityKind::Function | EntityKind::Method | EntityKind::Class | EntityKind::Binding => true,
        EntityKind::Module => false,
    }
}

/// Does `calls` hold `i`?
pub(crate) fn holds(calls: &Vec<usize>, i: usize) -> (r: bool)
    ensures
        r == calls@.contains(i),
{
    let mut k: usize = 0;
    while k < calls.len()
        invariant
            k <= calls@.len(),
            forall|j: int| 0 <= j < k ==> calls@[j] != i,
        decreases calls@.len() - k,
    {
        if calls[k] == i {
            return true;
        }
        k = k + 1;
    }
    false
}

/// The number of other definitions referencing `i`.
pub(crate) fn fanin_of(g: &DefGraph, i: usize) -> (r: usize)
    requires
        i < g@.defs.len(),
    ensures
        r == fanin(g@, i as int),
{
    let mut n: usize = 0;
    let mut j: usize = 0;
    while j < g.defs.len()
        invariant
            j <= g@.defs.len(),
            n == fanin_upto(g@, i as int, j as int),
            n <= j,
        decreases g@.defs.len() - j,
    {
        if j != i && holds(&g.defs[j].calls, i) {
            n = n + 1;
        }
        j = j + 1;
    }
    n
}

/// The indices of the accessor definitions.
pub open spec fn accessor_set(g: DefGraphV, w: Weights) -> Set<usize> {
    Set::new(|i: usize| (i as int) < g.defs.len() && accessor_flags(g, w)[i as int])
}

/// Class-member ACCESSORS (see [`is_accessor`]), as the set of their indices.
pub fn accessors(g: &DefGraph, w: &Weights) -> (r: HashSet<usize>)
    requires
        graph_wf(g@),
    ensures
        r@ == accessor_set(g@, *w),
{
    broadcast use vstd::std_specs::hash::group_hash_axioms;
    let flags = accessor_flag_vec(g, w);
    let mut r: HashSet<usize> = HashSet::new();
    let mut i: usize = 0;
    while i < flags.len()
        invariant
            i <= flags@.len(),
            flags@ == accessor_flags(g@, *w),
            r@ == Set::new(|k: usize| (k as int) < i && flags@[k as int]),
        decreases flags@.len() - i,
    {
        let ghost before = r@;
        if flags[i] {
            r.insert(i);
        }
        assert(r@ =~= Set::new(|k: usize| (k as int) < i + 1 && flags@[k as int]));
        i = i + 1;
    }
    assert(r@ =~= accessor_set(g@, *w));
    r
}

/// The set of flagged indices.
spec fn flagged(r: Seq<bool>) -> Set<int> {
    Set::new(|i: int| 0 <= i < r.len() && r[i])
}

/// Class-member ACCESSORS (see [`is_accessor`]): the flag of each definition. Computed as a
/// fixpoint seeded by the leaves that reference nothing but themselves.
pub fn accessor_flag_vec(g: &DefGraph, w: &Weights) -> (r: Vec<bool>)
    requires
        graph_wf(g@),
    ensures
        r@ == accessor_flags(g@, *w),
{
    let n = g.defs.len();
    let mut dense_flags: Vec<bool> = Vec::new();
    let mut pinned: Vec<bool> = Vec::new();
    let mut i: usize = 0;
    while i < n
        invariant
            i <= n,
            n == g@.defs.len(),
            dense_flags@.len() == i,
            pinned@.len() == i,
            forall|j: int| 0 <= j < i ==> dense_flags@[j] == dense(g@, *w, j),
            forall|j: int| 0 <= j < i ==> !pinned@[j],
        decreases n - i,
    {
        let d = g.defs[i].kind == EntityKind::Method && fanin_of(g, i) >= w.accessor_fanin;
        dense_flags.push(d);
        pinned.push(false);
        i = i + 1;
    }
    loop
        invariant
            graph_wf(g@),
            n == g@.defs.len(),
            dense_flags@.len() == n,
            pinned@.len() == n,
            forall|j: int| 0 <= j < n ==> dense_flags@[j] == dense(g@, *w, j),
            forall|p: Set<int>, j: int| #![trigger accessor_closed(g@, *w, p), p.contains(j)] accessor_closed(g@, *w, p) && 0 <= j < n && pinned@[j] ==> p.contains(j),
        ensures
            accessor_closed(g@, *w, flagged(pinned@)),
            forall|p: Set<int>, j: int| #![trigger accessor_closed(g@, *w, p), p.contains(j)] accessor_closed(g@, *w, p) && 0 <= j < n && pinned@[j] ==> p.contains(j),
            pinned@.len() == n,
        decreases count_false(pinned@),
    {
        let ghost start = pinned@;
        let mut grew = false;
        let mut i: usize = 0;
        while i < n
            invariant
                graph_wf(g@),
                i <= n,
                n == g@.defs.len(),
                dense_flags@.len() == n,
                pinned@.len() == n,
                start.len() == n,
                forall|j: int| 0 <= j < n ==> dense_flags@[j] == dense(g@, *w, j),
                forall|p: Set<int>, j: int| #![trigger accessor_closed(g@, *w, p), p.contains(j)] accessor_closed(g@, *w, p) && 0 <= j < n && pinned@[j] ==> p.contains(j),
                !grew ==> pinned@ == start,
                grew ==> count_false(pinned@) < count_false(start),
                !grew ==> forall|j: int| 0 <= j < i && dense(g@, *w, j) && calls_within(g@, j, flagged(pinned@)) ==> pinned@[j],
            decreases n - i,
        {
            if !pinned[i] && dense_flags[i] {
                // an accessor depends only on (other) accessors
                let calls = &g.defs[i].calls;
                let mut all = true;
                let mut k: usize = 0;
                while k < calls.len()
                    invariant
                        graph_wf(g@),
                        i < n,
                        n == g@.defs.len(),
                        pinned@.len() == n,
                        calls@ == g@.defs[i as int].calls,
                        k <= calls@.len(),
                        all == forall|j: int| 0 <= j < k ==> (#[trigger] calls@[j]) == i || pinned@[calls@[j] as int],
                    decreases calls@.len() - k,
                {
                    let c = calls[k];
                    if !(c == i || pinned[c]) {
                        all = false;
                    }
                    k = k + 1;
                }
                if all {
                    proof {
                        assert(calls_within(g@, i as int, flagged(pinned@)));
                        lemma_count_false_set(pinned@, i as int);
                        assert forall|p: Set<int>, j: int| #![trigger accessor_closed(g@, *w, p), p.contains(j)] accessor_closed(g@, *w, p) && 0 <= j < n && pinned@.update(i as int, true)[j]
                            implies p.contains(j) by {
                            if j == i {
                                assert forall|m: int| 0 <= m < g@.defs[j].calls.len() implies (#[trigger] g@.defs[j].calls[m]) as int == j || p.contains(g@.defs[j].calls[m] as int) by {
                                    assert(calls@[m] == i || pinned@[calls@[m] as int]);
                                }
                                assert(calls_within(g@, j, p));
                            }
                        }
                    }
                    pinned.set(i, true);
                    grew = true;
                } else {
                    proof {
                        assert(!calls_within(g@, i as int, flagged(pinned@))) by {
                            let m = choose|m: int| 0 <= m < calls@.len() && !((#[trigger] calls@[m]) == i || pinned@[calls@[m] as int]);
                            assert(!flagged(pinned@).contains(calls@[m] as int));
                        }
                    }
                }
            }
            i = i + 1;
        }
        if !grew {
            proof {
                assert forall|j: int| 0 <= j < n && dense(g@, *w, j) && calls_within(g@, j, flagged(pinned@)) implies #[trigger] flagged(pinned@).contains(j) by {
                    assert(pinned@[j]);
                }
            }
            break;
        }
    }
    proof {
        assert forall|j: int| 0 <= j < n implies pinned@[j] == #[trigger] is_accessor(g@, *w, j) by {
            if !pinned@[j] {
                assert(!flagged(pinned@).contains(j));
                assert(accessor_closed(g@, *w, flagged(pinned@)));
            }
        }
        assert(pinned@ =~= accessor_flags(g@, *w));
    }
    pinned
}

proof fn lemma_keys_view_usize(s: Seq<usize>)
    ensures
        keys_view(s) == s,
{
    assert(keys_view(s) =~= s);
}

/// A copy of a list of indices.
fn copy_indices(v: &Vec<usize>) -> (r: Vec<usize>)
    ensures
        r@ == v@,
{
    let mut r: Vec<usize> = Vec::new();
    let mut i: usize = 0;
    while i < v.len()
        invariant
            i <= v@.len(),
            r@ == v@.take(i as int),
        decreases v@.len() - i,
    {
        r.push(v[i]);
        assert(r@ =~= v@.take(i + 1));
        i = i + 1;
    }
    assert(v@.take(v@.len() as int) =~= v@);
    r
}

/// The unpinned references of `calls`.
fn unpinned_of(calls: &Vec<usize>, pinned: &Vec<bool>) -> (r: Vec<usize>)
    requires
        forall|j: int| 0 <= j < calls@.len() ==> (#[trigger] calls@[j]) < pinned@.len(),
    ensures
        r@ == unpinned(calls@, pinned@),
{
    let mut r: Vec<usize> = Vec::new();
    let mut i: usize = 0;
    while i < calls.len()
        invariant
            i <= calls@.len(),
            forall|j: int| 0 <= j < calls@.len() ==> (#[trigger] calls@[j]) < pinned@.len(),
            r@ == unpinned(calls@.take(i as int), pinned@),
        decreases calls@.len() - i,
    {
        assert(calls@.take(i + 1).drop_last() =~= calls@.take(i as int));
        assert(calls@.take(i + 1).last() == calls@[i as int]);
        let c = calls[i];
        if !pinned[c] {
            r.push(c);
        }
        i = i + 1;
    }
    assert(calls@.take(calls@.len() as int) =~= calls@);
    r
}

/// The enclosing scope of every definition.
fn parents_of(g: &DefGraph) -> (r: Vec<String>)
    ensures
        r@.len() == g@.defs.len(),
        forall|i: int| 0 <= i < r@.len() ==> (#[trigger] r@[i])@ == qual_parent(g@.defs[i].qualname),
{
    let mut r: Vec<String> = Vec::new();
    let mut i: usize = 0;
    while i < g.defs.len()
        invariant
            i <= g@.defs.len(),
            r@.len() == i,
            forall|j: int| 0 <= j < i ==> (#[trigger] r@[j])@ == qual_parent(g@.defs[j].qualname),
        decreases g@.defs.len() - i,
    {
        r.push(parent_of(&g.defs[i].qualname));
        i = i + 1;
    }
    r
}

/// The eligible siblings of `fi` (see [`siblings`]).
fn siblings_of(g: &DefGraph, pinned: &Vec<bool>, parents: &Vec<String>, fi: usize) -> (r: Vec<Sib<usize>>)
    requires
        fi < g@.defs.len(),
        pinned@.len() == g@.defs.len(),
        parents@.len() == g@.defs.len(),
        forall|i: int| 0 <= i < parents@.len() ==> (#[trigger] parents@[i])@ == qual_parent(g@.defs[i].qualname),
    ensures
        sibs_view(r@) == siblings(g@, pinned@, fi as int),
{
    let mut r: Vec<Sib<usize>> = Vec::new();
    let mut gi: usize = 0;
    while gi < g.defs.len()
        invariant
            fi < g@.defs.len(),
            gi <= g@.defs.len(),
            pinned@.len() == g@.defs.len(),
            parents@.len() == g@.defs.len(),
            forall|i: int| 0 <= i < parents@.len() ==> (#[trigger] parents@[i])@ == qual_parent(g@.defs[i].qualname),
            sibs_view(r@) == siblings_upto(g@, pinned@, fi as int, gi as int),
        decreases g@.defs.len() - gi,
    {
        let d = &g.defs[gi];
        if is_def(d.kind) && parents[gi] == parents[fi] && gi != fi && !pinned[gi] {
            let s = Sib { key: gi, line: d.line, deps: copy_indices(&d.calls) };
            proof {
                lemma_keys_view_usize(d.calls@);
                assert(s@ == def_sib(g@, gi as int));
            }
            let ghost before = r@;
            r.push(s);
            assert(sibs_view(r@) =~= sibs_view(before).push(s@));
        }
        gi = gi + 1;
    }
    r
}

/// `(def index, wedge count)` for each definition with unrelated siblings between it and its deps.
pub fn wedges(g: &DefGraph, w: &Weights) -> (out: Vec<(usize, u32)>)
    requires
        graph_wf(g@),
    ensures
        out@ == placement_debt(g@, *w),
{
    let pinned = accessor_flag_vec(g, w);
    let parents = parents_of(g);
    let mut out: Vec<(usize, u32)> = Vec::new();
    let mut fi: usize = 0;
    while fi < g.defs.len()
        invariant
            graph_wf(g@),
            fi <= g@.defs.len(),
            pinned@ == accessor_flags(g@, *w),
            parents@.len() == g@.defs.len(),
            forall|i: int| 0 <= i < parents@.len() ==> (#[trigger] parents@[i])@ == qual_parent(g@.defs[i].qualname),
            out@ == placement_upto(g@, pinned@, fi as int),
        decreases g@.defs.len() - fi,
    {
        let f = &g.defs[fi];
        if is_def(f.kind) && !pinned[fi] {
            let sibs = siblings_of(g, &pinned, &parents, fi);
            proof {
                assert forall|j: int| 0 <= j < f.calls@.len() implies (#[trigger] f.calls@[j]) < pinned@.len() by {
                    assert(f.calls@[j] == g@.defs[fi as int].calls[j]);
                }
            }
            let anchor = unpinned_of(&f.calls, &pinned);
            proof {
                lemma_keys_view_usize(anchor@);
                lemma_keys_view_usize(f.calls@);
            }
            let count = match wedge::first_dep_above(f.line, &anchor, &sibs) {
                Some(lo) => {
                    let none: Vec<usize> = Vec::new();
                    proof {
                        lemma_keys_view_usize(none@);
                    }
                    wedge::between(lo, f.line, &f.calls, &sibs, &none)
                },
                None => 0,
            };
            proof {
                assert(Seq::<usize>::empty() =~= Seq::<usize>::empty());
                assert(count == placement_count(g@, pinned@, fi as int));
            }
            if count > 0 {
                out.push((fi, count));
            }
        }
        fi = fi + 1;
    }
    out
}

/// The first use of `di` (see [`first_user`]).
fn first_user_of(g: &DefGraph, di: usize) -> (r: Option<usize>)
    ensures
        r matches Some(j) ==> first_user(g@, di as int) == Some(j as int),
        r is None ==> first_user(g@, di as int) is None,
{
    let mut best: Option<usize> = None;
    let mut j: usize = 0;
    while j < g.defs.len()
        invariant
            j <= g@.defs.len(),
            best matches Some(b) ==> first_user_upto(g@, di as int, j as int) == Some(b as int) && b < j,
            best is None ==> first_user_upto(g@, di as int, j as int) is None,
        decreases g@.defs.len() - j,
    {
        if j != di && holds(&g.defs[j].calls, di) {
            best = match best {
                Some(b) => if g.defs[j].line < g.defs[b].line { Some(j) } else { Some(b) },
                None => Some(j),
            };
        }
        j = j + 1;
    }
    best
}

/// `(def index, first-use line, use-side wedge count)` for each definition declared ABOVE its first
/// use with unrelated siblings in between — the definition-level mirror of the local reorder. The
/// first use is the first reference, so nothing in the gap uses the definition; pushing it down to
/// its first use is safe. Pinned accessors are never reordered.
pub fn use_reorder(g: &DefGraph, w: &Weights) -> (out: Vec<(usize, u32, u32)>)
    requires
        graph_wf(g@),
    ensures
        out@ == reorder_debt(g@, *w),
{
    let pinned = accessor_flag_vec(g, w);
    let parents = parents_of(g);
    let mut out: Vec<(usize, u32, u32)> = Vec::new();
    let mut di: usize = 0;
    while di < g.defs.len()
        invariant
            graph_wf(g@),
            di <= g@.defs.len(),
            pinned@ == accessor_flags(g@, *w),
            parents@.len() == g@.defs.len(),
            forall|i: int| 0 <= i < parents@.len() ==> (#[trigger] parents@[i])@ == qual_parent(g@.defs[i].qualname),
            out@ == reorder_upto(g@, pinned@, di as int),
        decreases g@.defs.len() - di,
    {
        let d = &g.defs[di];
        if is_def(d.kind) && !pinned[di] {
            match first_user_of(g, di) {
                Some(fc) => {
                    proof {
                        let f = first_user_upto(g@, di as int, g.defs.len() as int);
                        lemma_first_user_bounds(g@, di as int, g@.defs.len() as int);
                    }
                    let hi = g.defs[fc].line;
                    if hi > d.line {
                        let sibs = siblings_of(g, &pinned, &parents, di);
                        proof {
                            assert forall|j: int| 0 <= j < d.calls@.len() implies (#[trigger] d.calls@[j]) < pinned@.len() by {
                                assert(d.calls@[j] == g@.defs[di as int].calls[j]);
                            }
                        }
                        let target = unpinned_of(&d.calls, &pinned);
                        let co_used = copy_indices(&g.defs[fc].calls);
                        proof {
                            lemma_keys_view_usize(target@);
                            lemma_keys_view_usize(co_used@);
                        }
                        let count = wedge::between(d.line, hi, &target, &sibs, &co_used);
                        assert(count == reorder_count(g@, pinned@, di as int, fc as int));
                        if count > 0 {
                            out.push((di, hi, count));
                        }
                    }
                },
                None => {},
            }
        }
        di = di + 1;
    }
    out
}

proof fn lemma_first_user_bounds(g: DefGraphV, di: int, k: int)
    requires
        k <= g.defs.len(),
    ensures
        first_user_upto(g, di, k) matches Some(j) ==> 0 <= j < k,
    decreases k,
{
    if k > 0 {
        lemma_first_user_bounds(g, di, k - 1);
    }
}

} // verus!
