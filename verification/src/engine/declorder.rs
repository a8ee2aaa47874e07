//! Declare-order: callees-before-callers. Operates on the [`DefGraph`] + textual position (`line`).
//!
//! A reference `caller → callee` between SAME-scope siblings (same enclosing qualname) is out of
//! order when the callee sits on the wrong side of the caller for the reading convention — UNLESS
//! it is part of an unavoidable definition cycle (mutual recursion / self-reference), detected by
//! reachability (the callee can reach the caller). Per-module: not applied across files.

use vstd::prelude::*;

use crate::engine::defgraph::{DefGraph, DefGraphV, graph_wf};
use crate::engine::finding::{Category, Finding, FindingV, Severity, findings_view};
use crate::engine::model::{Reason, ReasonV};
use crate::engine::score::DeclOrder;
use crate::engine::flags::{count_false, lemma_count_false_set};
use crate::text::{leaf_of, parent_of, qual_leaf, qual_parent};

verus! {

/// `m` references `t` directly.
pub open spec fn edge(g: DefGraphV, m: int, t: int) -> bool {
    0 <= m < g.defs.len() && exists|j: int| 0 <= j < g.defs[m].calls.len() && g.defs[m].calls[j] == t
}

/// `p` is a path along reference edges.
pub open spec fn is_path(g: DefGraphV, p: Seq<int>) -> bool {
    &&& p.len() >= 1
    &&& forall|i: int| 0 <= i < p.len() - 1 ==> edge(g, #[trigger] p[i], p[i + 1])
}

/// `to` is reachable from `from` via reference edges (a path of any length, including none).
pub open spec fn reachable(g: DefGraphV, from: int, to: int) -> bool {
    exists|p: Seq<int>| #[trigger] is_path(g, p) && p[0] == from && p.last() == to
}

/// Is the callee `t` of caller `c` on the in-order side for the convention?
pub open spec fn in_order(g: DefGraphV, order: DeclOrder, c: int, t: int) -> bool {
    match order {
        DeclOrder::BottomUp => g.defs[t].line <= g.defs[c].line,
        DeclOrder::TopDown => g.defs[t].line >= g.defs[c].line,
    }
}

/// The `k`-th reference of caller `c` (to `t`) is reported: same scope, out of order, the first
/// reference of `c` to `t`, and not part of a cycle.
pub open spec fn reported(g: DefGraphV, order: DeclOrder, c: int, k: int) -> bool {
    let calls = g.defs[c].calls;
    let t = calls[k] as int;
    &&& qual_parent(g.defs[t].qualname) == qual_parent(g.defs[c].qualname)
    &&& !in_order(g, order, c, t)
    &&& !calls.take(k).contains(calls[k])
    &&& !reachable(g, t, c)
}

/// The two reading conventions never report the same reference: a callee below its caller is
/// out of order only bottom-up, one above only top-down.
pub proof fn law_conventions_never_both_report(g: DefGraphV, c: int, k: int)
    ensures
        !(reported(g, DeclOrder::BottomUp, c, k) && reported(g, DeclOrder::TopDown, c, k)),
{
}

/// The reported `(caller, callee)` pairs of caller `c` among its first `k` references.
pub open spec fn caller_reports(g: DefGraphV, order: DeclOrder, c: int, k: int) -> Seq<(int, int)>
    decreases k,
{
    if k <= 0 {
        Seq::empty()
    } else {
        let rest = caller_reports(g, order, c, k - 1);
        if reported(g, order, c, k - 1) {
            rest.push((c, g.defs[c].calls[k - 1] as int))
        } else {
            rest
        }
    }
}

/// All reported `(caller, callee)` pairs of the first `n` callers, callers in definition order.
pub open spec fn reports_upto(g: DefGraphV, order: DeclOrder, n: int) -> Seq<(int, int)>
    decreases n,
{
    if n <= 0 {
        Seq::empty()
    } else {
        reports_upto(g, order, n - 1) + caller_reports(g, order, n - 1, g.defs[n - 1].calls.len() as int)
    }
}

/// All reported `(caller, callee)` pairs.
pub open spec fn reports(g: DefGraphV, order: DeclOrder) -> Seq<(int, int)> {
    reports_upto(g, order, g.defs.len() as int)
}

/// The declare-order finding for caller `c` referencing callee `t`: attributed to the caller,
/// naming the callee's leaf, `below` telling which side it sits on for the convention.
pub open spec fn forward_ref(g: DefGraphV, order: DeclOrder, c: int, t: int) -> FindingV {
    FindingV {
        file: g.file,
        line: g.defs[c].line,
        entity: g.defs[c].qualname,
        entity_kind: g.defs[c].kind,
        category: Category::DeclBeforeUse,
        severity: Severity::Warning,
        score: 0,
        reason: ReasonV::ForwardRef { callee: qual_leaf(g.defs[t].qualname), below: order == DeclOrder::BottomUp },
    }
}

/// The declare-order findings of the graph, in report order.
pub open spec fn forward_refs(g: DefGraphV, order: DeclOrder) -> Seq<FindingV> {
    reports(g, order).map_values(|p: (int, int)| forward_ref(g, order, p.0, p.1))
}

proof fn lemma_reach_step(g: DefGraphV, from: int, m: int, t: int)
    requires
        reachable(g, from, m),
        edge(g, m, t),
    ensures
        reachable(g, from, t),
{
    let p = choose|p: Seq<int>| #[trigger] is_path(g, p) && p[0] == from && p.last() == m;
    let q = p.push(t);
    assert forall|i: int| 0 <= i < q.len() - 1 implies edge(g, #[trigger] q[i], q[i + 1]) by {
        if i < p.len() - 1 {
            assert(q[i] == p[i] && q[i + 1] == p[i + 1]);
        }
    }
    assert(is_path(g, q));
}

/// Every node on a path from a visited node is visited, when visited nodes are closed under edges.
proof fn lemma_closed_complete(g: DefGraphV, visited: Seq<bool>, p: Seq<int>, k: int)
    requires
        graph_wf(g),
        visited.len() == g.defs.len(),
        is_path(g, p),
        0 <= p[0] < visited.len(),
        visited[p[0]],
        forall|x: int, j: int|
            0 <= x < visited.len() && visited[x] && 0 <= j < g.defs[x].calls.len() ==> #[trigger] visited[g.defs[x].calls[j] as int],
        0 <= k < p.len(),
    ensures
        0 <= p[k] < visited.len() && visited[p[k]],
    decreases k,
{
    if k > 0 {
        lemma_closed_complete(g, visited, p, k - 1);
        assert(edge(g, p[k - 1], p[k]));
        let j = choose|j: int| 0 <= j < g.defs[p[k - 1]].calls.len() && #[trigger] g.defs[p[k - 1]].calls[j] == p[k];
        assert(visited[g.defs[p[k - 1]].calls[j] as int]);
        assert(g.defs[p[k - 1]].calls[j] < g.defs.len());
    }
}

/// Can `from` reach `to` via reference edges? (Used to spot definition cycles.)
#[verifier::rlimit(50)]
fn reaches(g: &DefGraph, from: usize, to: usize) -> (r: bool)
    requires
        graph_wf(g@),
        from < g@.defs.len(),
    ensures
        r == reachable(g@, from as int, to as int),
{
    let ghost gv = g@;
    proof {
        assert forall|i: int| 0 <= i < g.defs@.len() implies #[trigger] gv.defs[i] == g.defs@[i]@ by {}
    }
    let n = g.defs.len();
    let mut visited: Vec<bool> = Vec::new();
    let mut i: usize = 0;
    while i < n
        invariant
            i <= n,
            n == gv.defs.len(),
            visited@.len() == i,
            forall|x: int| 0 <= x < i ==> !visited@[x],
        decreases n - i,
    {
        visited.push(false);
        i = i + 1;
    }
    proof {
        lemma_count_false_set(visited@, from as int);
        let p0 = seq![from as int];
        assert(is_path(gv, p0));
    }
    visited.set(from, true);
    let mut stack: Vec<usize> = Vec::new();
    stack.push(from);
    proof {
        assert(stack@[0] == from);
        assert forall|x: int| 0 <= x < n && #[trigger] visited@[x] implies x == from && stack@.contains(x as usize) by {}
    }
    while stack.len() > 0
        invariant
            graph_wf(gv),
            gv == g@,
            forall|i: int| 0 <= i < g.defs@.len() ==> #[trigger] gv.defs[i] == g.defs@[i]@,
            n == gv.defs.len(),
            from < n,
            visited@.len() == n,
            visited@[from as int],
            forall|x: int| 0 <= x < n && #[trigger] visited@[x] ==> reachable(gv, from as int, x),
            forall|k: int| 0 <= k < stack@.len() ==> (#[trigger] stack@[k]) < n && visited@[stack@[k] as int],
            forall|x: int, j: int|
                0 <= x < n && visited@[x] && !stack@.contains(x as usize) && 0 <= j < gv.defs[x].calls.len()
                    ==> #[trigger] visited@[gv.defs[x].calls[j] as int],
        decreases 2 * count_false(visited@) + stack@.len(),
    {
        let ghost stack_full = stack@;
        let x = stack.pop().unwrap();
        let ghost stack_popped = stack@;
        let ghost visited_before = visited@;
        let ghost measure = 2 * count_false(visited@) + stack@.len();
        proof {
            assert(stack_full =~= stack_popped.push(x));
        }
        let calls = &g.defs[x].calls;
        let mut j: usize = 0;
        while j < calls.len()
            invariant
                graph_wf(gv),
                gv == g@,
                forall|i: int| 0 <= i < g.defs@.len() ==> #[trigger] gv.defs[i] == g.defs@[i]@,
                n == gv.defs.len(),
                from < n,
                x < n,
                calls@ == gv.defs[x as int].calls,
                j <= calls@.len(),
                visited@.len() == n,
                visited@[from as int],
                visited@[x as int],
                forall|y: int| 0 <= y < n && #[trigger] visited@[y] ==> reachable(gv, from as int, y),
                forall|k: int| 0 <= k < stack@.len() ==> (#[trigger] stack@[k]) < n && visited@[stack@[k] as int],
                forall|k: int| 0 <= k < stack_popped.len() ==> stack@[k] == #[trigger] stack_popped[k],
                stack_popped.len() <= stack@.len(),
                forall|y: int| 0 <= y < n && #[trigger] visited_before[y] ==> visited@[y],
                visited_before.len() == n,
                forall|k: int| 0 <= k < j ==> #[trigger] visited@[calls@[k] as int],
                forall|y: int| 0 <= y < n && #[trigger] visited@[y] && !visited_before[y] ==> stack@.contains(y as usize),
                forall|y: int, i: int|
                    0 <= y < n && visited_before[y] && !stack_full.contains(y as usize) && 0 <= i < gv.defs[y].calls.len()
                        ==> #[trigger] visited_before[gv.defs[y].calls[i] as int],
                2 * count_false(visited@) + stack@.len() <= measure,
            decreases calls@.len() - j,
        {
            let c = calls[j];
            assert(calls@[j as int] < n);
            if !visited[c] {
                proof {
                    lemma_count_false_set(visited@, c as int);
                    lemma_reach_step(gv, from as int, x as int, c as int);
                }
                let ghost stack_prev = stack@;
                visited.set(c, true);
                stack.push(c);
                proof {
                    assert(stack@ == stack_prev.push(c));
                    assert(stack@[stack@.len() - 1] == c);
                    assert forall|y: int| 0 <= y < n && #[trigger] visited@[y] && !visited_before[y] implies stack@.contains(y as usize) by {
                        if y != c {
                            assert(stack_prev.contains(y as usize));
                            let k = choose|k: int| 0 <= k < stack_prev.len() && stack_prev[k] == y as usize;
                            assert(stack@[k] == y as usize);
                        }
                    }
                }
            }
            j = j + 1;
        }
        proof {
            assert forall|y: int, i: int|
                0 <= y < n && visited@[y] && !stack@.contains(y as usize) && 0 <= i < gv.defs[y].calls.len()
                    implies #[trigger] visited@[gv.defs[y].calls[i] as int] by {
                if y != x {
                    assert(visited_before[y]);
                    assert(!stack_full.contains(y as usize)) by {
                        if stack_full.contains(y as usize) {
                            let k = choose|k: int| 0 <= k < stack_full.len() && stack_full[k] == y as usize;
                            assert(stack_popped[k] == y as usize);
                            assert(stack@[k] == y as usize);
                        }
                    }
                    assert(visited_before[gv.defs[y].calls[i] as int]);
                } else {
                    assert(gv.defs[y].calls[i] == calls@[i]);
                }
            }
        }
    }
    proof {
        assert forall|x: int, j: int|
            0 <= x < visited@.len() && visited@[x] && 0 <= j < gv.defs[x].calls.len() implies #[trigger] visited@[gv.defs[x].calls[j] as int] by {
            assert(!stack@.contains(x as usize));
        }
        assert forall|t: int| reachable(gv, from as int, t) implies 0 <= t < n && visited@[t] by {
            let p = choose|p: Seq<int>| #[trigger] is_path(gv, p) && p[0] == from as int && p.last() == t;
            lemma_closed_complete(gv, visited@, p, p.len() - 1);
        }
    }
    to < n && visited[to]
}

/// Does `calls[..k]` hold `c`?
fn seen_before(calls: &Vec<usize>, k: usize, c: usize) -> (r: bool)
    requires
        k <= calls@.len(),
    ensures
        r == calls@.take(k as int).contains(c),
{
    let mut i: usize = 0;
    while i < k
        invariant
            i <= k <= calls@.len(),
            forall|j: int| 0 <= j < i ==> calls@[j] != c,
        decreases k - i,
    {
        if calls[i] == c {
            assert(calls@.take(k as int)[i as int] == c);
            return true;
        }
        i = i + 1;
    }
    false
}

/// Emit a `DeclBeforeUse` warning per (deduped) out-of-order reference between same-scope siblings.
/// Bottom-up wants the callee ABOVE the caller; top-down wants it BELOW. Cycles are exempt either
/// way.
pub fn warnings(g: &DefGraph, order: DeclOrder) -> (out: Vec<Finding>)
    requires
        graph_wf(g@),
    ensures
        findings_view(out@) == forward_refs(g@, order),
{
    let mut out: Vec<Finding> = Vec::new();
    assert(findings_view(out@) =~= Seq::<FindingV>::empty());
    let mut ci: usize = 0;
    while ci < g.defs.len()
        invariant
            graph_wf(g@),
            ci <= g@.defs.len(),
            findings_view(out@) == reports_upto(g@, order, ci as int).map_values(|p: (int, int)| forward_ref(g@, order, p.0, p.1)),
        decreases g@.defs.len() - ci,
    {
        let caller = &g.defs[ci];
        let cparent = parent_of(&caller.qualname);
        let ghost base = reports_upto(g@, order, ci as int);
        let mut k: usize = 0;
        while k < caller.calls.len()
            invariant
                graph_wf(g@),
                ci < g@.defs.len(),
                caller@ == g@.defs[ci as int],
                cparent@ == qual_parent(caller.qualname@),
                k <= caller.calls@.len(),
                base == reports_upto(g@, order, ci as int),
                findings_view(out@) == (base + caller_reports(g@, order, ci as int, k as int)).map_values(|p: (int, int)| forward_ref(g@, order, p.0, p.1)),
            decreases caller.calls@.len() - k,
        {
            let callee_idx = caller.calls[k];
            let ghost before = base + caller_reports(g@, order, ci as int, k as int);
            let callee = &g.defs[callee_idx];
            let same_scope = parent_of(&callee.qualname) == cparent;
            let ordered = match order {
                DeclOrder::BottomUp => callee.line <= caller.line,
                DeclOrder::TopDown => callee.line >= caller.line,
            };
            if same_scope && !ordered && !seen_before(&caller.calls, k, callee_idx) && !reaches(g, callee_idx, ci) {
                let f = Finding {
                    file: g.file.clone(),
                    line: caller.line,
                    entity: caller.qualname.clone(),
                    entity_kind: caller.kind,
                    category: Category::DeclBeforeUse,
                    severity: Severity::Warning,
                    score: 0,
                    reason: Reason::ForwardRef { callee: leaf_of(&callee.qualname), below: order == DeclOrder::BottomUp },
                };
                let ghost out_before = out@;
                out.push(f);
                proof {
                    assert(reported(g@, order, ci as int, k as int));
                    assert(base + caller_reports(g@, order, ci as int, k + 1) =~= before.push((ci as int, callee_idx as int)));
                    assert(f@ == forward_ref(g@, order, ci as int, callee_idx as int));
                    assert(findings_view(out@) =~= findings_view(out_before).push(f@));
                    assert(before.push((ci as int, callee_idx as int)).map_values(|p: (int, int)| forward_ref(g@, order, p.0, p.1))
                        =~= before.map_values(|p: (int, int)| forward_ref(g@, order, p.0, p.1)).push(forward_ref(g@, order, ci as int, callee_idx as int)));
                }
            } else {
                proof {
                    assert(!reported(g@, order, ci as int, k as int));
                    assert(base + caller_reports(g@, order, ci as int, k + 1) =~= before);
                }
            }
            k = k + 1;
        }
        proof {
            assert(reports_upto(g@, order, ci + 1) =~= base + caller_reports(g@, order, ci as int, caller.calls@.len() as int));
        }
        ci = ci + 1;
    }
    proof {
        assert(findings_view(out@) =~= forward_refs(g@, order));
    }
    out
}

} // verus!
