//! Laws of the whole-project analysis: how the sorted output relates to the per-module
//! analyses, to the reading convention, and to the scope-debt weight.

use vstd::prelude::*;

use crate::engine::analyze::{
    crowded_upto, def_reorder_upto, extract_upto, findings_after_order, findings_before_order,
    is_key_sorted, key_lt, lemma_key_order, lemma_stable_sorted_is_permutation, lemma_stable_sorted_is_sorted,
    module_findings, module_fits, module_graph, narrow_upto, order_free, placement_finding, project_findings,
    project_findings_upto, project_fits, reorder_upto, scope_entry_findings, scope_fits, scope_part_upto,
    sorted_insert, stable_sorted, decl_part, extract_part, crowded_part, def_reorder_part, placement_part,
    placement_fits,
};
use crate::engine::declorder::forward_refs;
use crate::engine::finding::{Category, FindingV, Severity};
use crate::engine::model::EntityKind;
use crate::engine::analyze::total_uses;
use crate::engine::placement::fanin;
use crate::engine::model::ReasonV;
use crate::engine::placement::{accessor_closed, accessor_flags, dense, is_accessor, placement_debt, reorder_debt};
use crate::engine::defgraph::DefGraphV;
use crate::engine::raw::RawModule;
use crate::engine::score::{DeclOrder, Weights};

verus! {

/// Keeps the scope-debt findings.
pub open spec fn scope_debt_only() -> spec_fn(FindingV) -> bool {
    |f: FindingV| f.category == Category::ScopeDebt
}

/// Keeps every finding but the declare-order warnings.
pub open spec fn without_forward_refs() -> spec_fn(FindingV) -> bool {
    |f: FindingV| !(f.reason is ForwardRef)
}

/// The finding with its score multiplied by `k`.
pub open spec fn scaled(f: FindingV, k: u32) -> FindingV {
    FindingV { score: (k * f.score) as u32, ..f }
}

/// Every finding with its score multiplied by `k`.
pub open spec fn scale_all(s: Seq<FindingV>, k: u32) -> Seq<FindingV> {
    s.map_values(|f: FindingV| scaled(f, k))
}

/// The weights with the scope-debt unit multiplied by `k`.
pub open spec fn scaled_weights(w: Weights, k: u32) -> Weights {
    Weights { scope_level: (k * w.scope_level) as u32, ..w }
}

/// The analyses of the first `k` modules, each run on its own, one after another.
pub open spec fn per_module_upto(ms: Seq<RawModule>, w: Weights, k: int) -> Seq<FindingV>
    decreases k,
{
    if k <= 0 {
        Seq::empty()
    } else {
        per_module_upto(ms, w, k - 1) + project_findings(seq![ms[k - 1]], w)
    }
}

// --- filtering and sorting ------------------------------------------------------------

proof fn lemma_filter_none(s: Seq<FindingV>, p: spec_fn(FindingV) -> bool)
    requires
        forall|i: int| 0 <= i < s.len() ==> !p(#[trigger] s[i]),
    ensures
        s.filter(p) == Seq::<FindingV>::empty(),
    decreases s.len(),
{
    reveal(Seq::filter);
    if s.len() > 0 {
        let t = s.drop_last();
        assert forall|i: int| 0 <= i < t.len() implies !p(#[trigger] t[i]) by {
            assert(t[i] == s[i]);
        }
        lemma_filter_none(t, p);
        assert(!p(s[s.len() - 1]));
    }
}

proof fn lemma_filter_all(s: Seq<FindingV>, p: spec_fn(FindingV) -> bool)
    requires
        forall|i: int| 0 <= i < s.len() ==> p(#[trigger] s[i]),
    ensures
        s.filter(p) == s,
    decreases s.len(),
{
    reveal(Seq::filter);
    if s.len() > 0 {
        let t = s.drop_last();
        assert forall|i: int| 0 <= i < t.len() implies p(#[trigger] t[i]) by {
            assert(t[i] == s[i]);
        }
        lemma_filter_all(t, p);
        assert(p(s[s.len() - 1]));
        assert(t.push(s.last()) =~= s);
    }
}

/// Inserting into a sorted sequence and then filtering is filtering and then inserting (or
/// not inserting, when the new finding is filtered out).
proof fn lemma_sorted_insert_filter(t: Seq<FindingV>, x: FindingV, p: spec_fn(FindingV) -> bool)
    requires
        is_key_sorted(t),
    ensures
        sorted_insert(t, x).filter(p) == if p(x) { sorted_insert(t.filter(p), x) } else { t.filter(p) },
    decreases t.len(),
{
    reveal(Seq::filter);
    if t.len() == 0 {
        assert(sorted_insert(t, x) =~= Seq::<FindingV>::empty().push(x));
        Seq::<FindingV>::empty().lemma_filter_push(x, p);
        assert(t.filter(p) =~= Seq::<FindingV>::empty());
    } else {
        let init = t.drop_last();
        let last = t.last();
        assert(t =~= init.push(last));
        init.lemma_filter_push(last, p);
        if key_lt(x, last) {
            assert forall|i: int, j: int| 0 <= i < j < init.len() implies !key_lt(#[trigger] init[j], #[trigger] init[i]) by {
                assert(init[i] == t[i] && init[j] == t[j]);
            }
            lemma_sorted_insert_filter(init, x, p);
            sorted_insert(init, x).lemma_filter_push(last, p);
            if p(x) && p(last) {
                let f = init.filter(p).push(last);
                assert(f.drop_last() =~= init.filter(p));
                assert(f.last() == last);
            }
        } else {
            t.lemma_filter_push(x, p);
            if p(x) {
                let f = t.filter(p);
                if f.len() > 0 {
                    assert(f.contains(f.last())) by {
                        assert(f[f.len() - 1] == f.last());
                    }
                    t.lemma_filter_contains_rev(p, f.last());
                    let i = choose|i: int| 0 <= i < t.len() && t[i] == f.last();
                    if i < t.len() - 1 {
                        assert(!key_lt(t[t.len() - 1], t[i]));
                    }
                    lemma_key_order(x, last, t[i]);
                    assert(f.push(x).drop_last() =~= f);
                } else {
                    assert(sorted_insert(f, x) =~= f.push(x));
                }
            }
        }
    }
}

/// Filtering commutes with the stable sort.
pub proof fn lemma_stable_sorted_filter(s: Seq<FindingV>, p: spec_fn(FindingV) -> bool)
    ensures
        stable_sorted(s).filter(p) == stable_sorted(s.filter(p)),
    decreases s.len(),
{
    reveal(Seq::filter);
    if s.len() > 0 {
        let init = s.drop_last();
        let x = s.last();
        lemma_stable_sorted_is_sorted(init);
        lemma_sorted_insert_filter(stable_sorted(init), x, p);
        lemma_stable_sorted_filter(init, p);
        assert(s =~= init.push(x));
        init.lemma_filter_push(x, p);
        if p(x) {
            let f = init.filter(p).push(x);
            assert(f.drop_last() =~= init.filter(p));
        }
    } else {
        assert(s.filter(p) =~= s);
    }
}

proof fn lemma_sorted_insert_scaled(t: Seq<FindingV>, x: FindingV, k: u32)
    ensures
        sorted_insert(scale_all(t, k), scaled(x, k)) == scale_all(sorted_insert(t, x), k),
    decreases t.len(),
{
    if t.len() == 0 {
        assert(scale_all(seq![x], k) =~= seq![scaled(x, k)]);
    } else {
        let init = t.drop_last();
        assert(scale_all(t, k).drop_last() =~= scale_all(init, k));
        assert(scale_all(t, k).last() == scaled(t.last(), k));
        if key_lt(x, t.last()) {
            lemma_sorted_insert_scaled(init, x, k);
            assert(scale_all(sorted_insert(init, x).push(t.last()), k) =~= scale_all(sorted_insert(init, x), k).push(
                scaled(t.last(), k),
            ));
        } else {
            assert(scale_all(t.push(x), k) =~= scale_all(t, k).push(scaled(x, k)));
        }
    }
}

/// Scaling the scores commutes with the stable sort, which reads only (file, line, entity).
proof fn lemma_stable_sorted_scaled(s: Seq<FindingV>, k: u32)
    ensures
        stable_sorted(scale_all(s, k)) == scale_all(stable_sorted(s), k),
    decreases s.len(),
{
    if s.len() > 0 {
        let init = s.drop_last();
        lemma_stable_sorted_scaled(init, k);
        lemma_sorted_insert_scaled(stable_sorted(init), s.last(), k);
        assert(scale_all(s, k).drop_last() =~= scale_all(init, k));
        assert(scale_all(s, k).last() == scaled(s.last(), k));
    } else {
        assert(scale_all(s, k) =~= s);
        assert(scale_all(stable_sorted(s), k) =~= s);
    }
}

// --- the project and its modules --------------------------------------------------------

proof fn lemma_per_module_multiset(ms: Seq<RawModule>, w: Weights, k: int)
    requires
        0 <= k <= ms.len(),
    ensures
        per_module_upto(ms, w, k).to_multiset() == project_findings_upto(ms, w, k).to_multiset(),
    decreases k,
{
    broadcast use vstd::seq_lib::group_to_multiset_ensures;
    if k > 0 {
        lemma_per_module_multiset(ms, w, k - 1);
        let one = seq![ms[k - 1]];
        assert(project_findings_upto(one, w, 1) =~= module_findings(ms[k - 1], w)) by {
            assert(project_findings_upto(one, w, 0) =~= Seq::<FindingV>::empty());
        }
        lemma_stable_sorted_is_permutation(module_findings(ms[k - 1], w));
        vstd::seq_lib::lemma_multiset_commutative(per_module_upto(ms, w, k - 1), project_findings(one, w));
        vstd::seq_lib::lemma_multiset_commutative(project_findings_upto(ms, w, k - 1), module_findings(ms[k - 1], w));
    }
}

/// Locality is per file: the project's findings are sorted by (file, line, entity) and are
/// exactly the findings of the modules analysed one by one, each as often as it occurs there.
pub proof fn law_project_is_sorted_union_of_modules(ms: Seq<RawModule>, w: Weights)
    ensures
        is_key_sorted(project_findings(ms, w)),
        project_findings(ms, w).to_multiset() == per_module_upto(ms, w, ms.len() as int).to_multiset(),
{
    let all = project_findings_upto(ms, w, ms.len() as int);
    lemma_stable_sorted_is_sorted(all);
    lemma_stable_sorted_is_permutation(all);
    lemma_per_module_multiset(ms, w, ms.len() as int);
}

// --- the reading convention -------------------------------------------------------------

proof fn lemma_module_without_forward_refs(m: RawModule, w: Weights, o: DeclOrder)
    ensures
        module_findings(m, w).filter(without_forward_refs()) == module_findings(m, Weights { order: o, ..w }).filter(
            without_forward_refs(),
        ),
{
    broadcast use Seq::filter_distributes_over_add;
    let w2 = Weights { order: o, ..w };
    assert(order_free(w2) == order_free(w));
    let g = module_graph(m);
    let p = without_forward_refs();
    let head = findings_before_order(m, order_free(w));
    let tail = findings_after_order(m, order_free(w));
    let a = forward_refs(g, w.order);
    let b = forward_refs(g, o);
    assert forall|i: int| 0 <= i < a.len() implies !p(#[trigger] a[i]) by {}
    assert forall|i: int| 0 <= i < b.len() implies !p(#[trigger] b[i]) by {}
    lemma_filter_none(a, p);
    lemma_filter_none(b, p);
    assert((head + a + tail).filter(p) == head.filter(p) + a.filter(p) + tail.filter(p));
    assert((head + b + tail).filter(p) == head.filter(p) + b.filter(p) + tail.filter(p));
}

proof fn lemma_project_without_forward_refs(ms: Seq<RawModule>, w: Weights, o: DeclOrder, k: int)
    requires
        0 <= k <= ms.len(),
    ensures
        project_findings_upto(ms, w, k).filter(without_forward_refs()) == project_findings_upto(
            ms,
            Weights { order: o, ..w },
            k,
        ).filter(without_forward_refs()),
    decreases k,
{
    broadcast use Seq::filter_distributes_over_add;
    reveal(Seq::filter);
    if k > 0 {
        lemma_project_without_forward_refs(ms, w, o, k - 1);
        lemma_module_without_forward_refs(ms[k - 1], w, o);
    }
}

/// Only the callee-versus-caller order is a convention: under the two reading conventions the
/// project's sorted findings are the same once the declare-order warnings are left out.
pub proof fn law_convention_changes_only_declare_order(ms: Seq<RawModule>, w: Weights)
    ensures
        project_findings(ms, Weights { order: DeclOrder::BottomUp, ..w }).filter(without_forward_refs())
            == project_findings(ms, Weights { order: DeclOrder::TopDown, ..w }).filter(without_forward_refs()),
{
    let bu = Weights { order: DeclOrder::BottomUp, ..w };
    let td = Weights { order: DeclOrder::TopDown, ..w };
    let p = without_forward_refs();
    lemma_project_without_forward_refs(ms, bu, DeclOrder::TopDown, ms.len() as int);
    assert(Weights { order: DeclOrder::TopDown, ..bu } == td);
    lemma_stable_sorted_filter(project_findings_upto(ms, bu, ms.len() as int), p);
    lemma_stable_sorted_filter(project_findings_upto(ms, td, ms.len() as int), p);
}

// --- the scope-debt weight --------------------------------------------------------------

proof fn lemma_after_order_no_debt(m: RawModule, w0: Weights)
    ensures
        findings_after_order(m, w0).filter(scope_debt_only()) == Seq::<FindingV>::empty(),
{
    let g = module_graph(m);
    let s = findings_after_order(m, w0);
    lemma_extract_suggests(g, w0, g.defs.len() as int);
    lemma_crowded_suggests(m, w0, crate::engine::analyze::crowd_owners(m).len() as int);
    lemma_reorder_suggests(m, w0, m.scope@.len() as int);
    lemma_narrow_suggests(m, w0, m.scope@.len() as int);
    lemma_def_reorder_suggests(g, w0, reorder_debt(g, w0).len() as int);
    assert forall|i: int| 0 <= i < s.len() implies (#[trigger] s[i]).category == Category::Suggestion by {
        let e = extract_part(g, w0, placement_debt(g, w0).len() > 0);
        let c = crowded_part(m, w0);
        let r = reorder_upto(m, w0, m.scope@.len() as int);
        let n = narrow_upto(m, w0, m.scope@.len() as int);
        let d = def_reorder_part(g, w0);
        assert(s == e + c + r + n + d);
        if i < e.len() {
            assert(s[i] == e[i]);
        } else if i < e.len() + c.len() {
            assert(s[i] == c[i - e.len()]);
        } else if i < e.len() + c.len() + r.len() {
            assert(s[i] == r[i - e.len() - c.len()]);
        } else if i < e.len() + c.len() + r.len() + n.len() {
            assert(s[i] == n[i - e.len() - c.len() - r.len()]);
        } else {
            assert(s[i] == d[i - e.len() - c.len() - r.len() - n.len()]);
        }
    }
    lemma_filter_none(s, scope_debt_only());
}

proof fn lemma_extract_suggests(g: DefGraphV, w: Weights, k: int)
    ensures
        forall|i: int| 0 <= i < extract_upto(g, w, k).len() ==> (#[trigger] extract_upto(g, w, k)[i]).category == Category::Suggestion,
    decreases k,
{
    if k > 0 {
        lemma_extract_suggests(g, w, k - 1);
    }
}

proof fn lemma_crowded_suggests(m: RawModule, w: Weights, k: int)
    ensures
        forall|i: int| 0 <= i < crowded_upto(m, w, k).len() ==> (#[trigger] crowded_upto(m, w, k)[i]).category == Category::Suggestion,
    decreases k,
{
    if k > 0 {
        lemma_crowded_suggests(m, w, k - 1);
    }
}

proof fn lemma_reorder_suggests(m: RawModule, w: Weights, k: int)
    ensures
        forall|i: int| 0 <= i < reorder_upto(m, w, k).len() ==> (#[trigger] reorder_upto(m, w, k)[i]).category == Category::Suggestion,
    decreases k,
{
    if k > 0 {
        lemma_reorder_suggests(m, w, k - 1);
    }
}

proof fn lemma_narrow_suggests(m: RawModule, w: Weights, k: int)
    ensures
        forall|i: int| 0 <= i < narrow_upto(m, w, k).len() ==> (#[trigger] narrow_upto(m, w, k)[i]).category == Category::Suggestion,
    decreases k,
{
    if k > 0 {
        lemma_narrow_suggests(m, w, k - 1);
    }
}

proof fn lemma_def_reorder_suggests(g: DefGraphV, w: Weights, k: int)
    ensures
        forall|i: int| 0 <= i < def_reorder_upto(g, w, k).len() ==> (#[trigger] def_reorder_upto(g, w, k)[i]).category == Category::Suggestion,
    decreases k,
{
    if k > 0 {
        lemma_def_reorder_suggests(g, w, k - 1);
    }
}

proof fn lemma_scope_part_scaled(m: RawModule, w0: Weights, k: u32, n: int)
    requires
        k * w0.scope_level <= u32::MAX,
        scope_fits(m, w0),
        scope_fits(m, scaled_weights(w0, k)),
        0 <= n <= m.scope@.len(),
    ensures
        scope_part_upto(m, scaled_weights(w0, k), n) == scale_all(scope_part_upto(m, w0, n), k),
        forall|i: int| 0 <= i < scope_part_upto(m, w0, n).len() ==> (#[trigger] scope_part_upto(m, w0, n)[i]).category == Category::ScopeDebt,
    decreases n,
{
    if n > 0 {
        lemma_scope_part_scaled(m, w0, k, n - 1);
        let v0 = scaled_weights(w0, k);
        let e = m.scope@[n - 1];
        let sl = w0.scope_level;
        assert(sl * e.levels_excess <= u32::MAX && v0.scope_level * e.levels_excess <= u32::MAX);
        assert(sl * e.wedges <= u32::MAX && v0.scope_level * e.wedges <= u32::MAX);
        assert((k * sl) * e.levels_excess == k * (sl * e.levels_excess)) by (nonlinear_arith);
        assert((k * sl) * e.wedges == k * (sl * e.wedges)) by (nonlinear_arith);
        let a = scope_entry_findings(m.file@, e, w0);
        let b = scope_entry_findings(m.file@, e, v0);
        assert(b =~= scale_all(a, k));
        let pa = scope_part_upto(m, w0, n - 1);
        assert(scope_part_upto(m, w0, n) == pa + a);
        assert(scale_all(pa + a, k) =~= scale_all(pa, k) + scale_all(a, k));
        assert forall|i: int| 0 <= i < (pa + a).len() implies (#[trigger] (pa + a)[i]).category == Category::ScopeDebt by {
            if i >= pa.len() {
                assert((pa + a)[i] == a[i - pa.len()]);
            }
        }
    }
}

proof fn lemma_accessors_ignore_scope_weight(g: DefGraphV, w: Weights, v: Weights)
    requires
        v.accessor_fanin == w.accessor_fanin,
    ensures
        forall|i: int| is_accessor(g, v, i) == is_accessor(g, w, i),
{
    assert forall|p: Set<int>| accessor_closed(g, v, p) == accessor_closed(g, w, p) by {
        assert forall|i: int| dense(g, v, i) == dense(g, w, i) by {}
    }
    assert forall|i: int| is_accessor(g, v, i) == is_accessor(g, w, i) by {
        if is_accessor(g, w, i) {
            assert forall|p: Set<int>| #[trigger] accessor_closed(g, v, p) implies p.contains(i) by {
                assert(accessor_closed(g, w, p));
            }
        }
        if is_accessor(g, v, i) {
            assert forall|p: Set<int>| #[trigger] accessor_closed(g, w, p) implies p.contains(i) by {
                assert(accessor_closed(g, v, p));
            }
        }
    }
}

proof fn lemma_placement_scaled(m: RawModule, w0: Weights, k: u32)
    requires
        k * w0.scope_level <= u32::MAX,
        placement_fits(module_graph(m), w0),
        placement_fits(module_graph(m), scaled_weights(w0, k)),
    ensures
        placement_part(module_graph(m), scaled_weights(w0, k)) == scale_all(placement_part(module_graph(m), w0), k),
        forall|i: int| 0 <= i < placement_part(module_graph(m), w0).len() ==> (#[trigger] placement_part(module_graph(m), w0)[i]).category == Category::ScopeDebt,
{
    let g = module_graph(m);
    let v0 = scaled_weights(w0, k);
    lemma_accessors_ignore_scope_weight(g, w0, v0);
    assert(accessor_flags(g, v0) =~= accessor_flags(g, w0));
    assert(placement_debt(g, v0) == placement_debt(g, w0));
    let d = placement_debt(g, w0);
    let sl = w0.scope_level;
    assert forall|i: int| 0 <= i < d.len() implies (#[trigger] placement_finding(g, v0, d[i])) == scaled(placement_finding(g, w0, d[i]), k) by {
        assert(sl * d[i].1 <= u32::MAX && v0.scope_level * d[i].1 <= u32::MAX);
        assert((k * sl) * d[i].1 == k * (sl * d[i].1)) by (nonlinear_arith);
    }
    assert(placement_part(g, v0) =~= scale_all(placement_part(g, w0), k));
}

#[verifier::rlimit(50)]
proof fn lemma_module_scaled(m: RawModule, w: Weights, k: u32)
    requires
        k * w.scope_level <= u32::MAX,
        module_fits(m, w),
        module_fits(m, scaled_weights(w, k)),
    ensures
        module_findings(m, scaled_weights(w, k)).filter(scope_debt_only()) == scale_all(
            module_findings(m, w).filter(scope_debt_only()),
            k,
        ),
{
    broadcast use Seq::filter_distributes_over_add;
    let p = scope_debt_only();
    let w2 = scaled_weights(w, k);
    let w0 = order_free(w);
    let v0 = order_free(w2);
    assert(v0 == scaled_weights(w0, k));
    let g = module_graph(m);
    let n = m.scope@.len() as int;
    lemma_scope_part_scaled(m, w0, k, n);
    lemma_placement_scaled(m, w0, k);
    let sa = scope_part_upto(m, w0, n);
    let pa = placement_part(g, w0);
    let sb = scope_part_upto(m, v0, n);
    let pb = placement_part(g, v0);
    assert forall|i: int| 0 <= i < sb.len() implies p(#[trigger] sb[i]) by {
        assert(sb[i] == scaled(sa[i], k));
    }
    assert forall|i: int| 0 <= i < pb.len() implies p(#[trigger] pb[i]) by {
        assert(pb[i] == scaled(pa[i], k));
    }
    assert forall|i: int| 0 <= i < sa.len() implies p(#[trigger] sa[i]) by {}
    assert forall|i: int| 0 <= i < pa.len() implies p(#[trigger] pa[i]) by {}
    lemma_filter_all(sa, p);
    lemma_filter_all(pa, p);
    lemma_filter_all(sb, p);
    lemma_filter_all(pb, p);
    let da = decl_part(m);
    assert forall|i: int| 0 <= i < da.len() implies !p(#[trigger] da[i]) by {}
    lemma_filter_none(da, p);
    let fa = forward_refs(g, w.order);
    assert forall|i: int| 0 <= i < fa.len() implies !p(#[trigger] fa[i]) by {}
    lemma_filter_none(fa, p);
    lemma_after_order_no_debt(m, w0);
    lemma_after_order_no_debt(m, v0);
    let ta = findings_after_order(m, w0);
    let tb = findings_after_order(m, v0);
    assert(module_findings(m, w) == sa + da + pa + fa + ta);
    assert(module_findings(m, w2) == sb + da + pb + fa + tb);
    assert((sa + da + pa + fa + ta).filter(p) == sa.filter(p) + da.filter(p) + pa.filter(p) + fa.filter(p) + ta.filter(p));
    assert((sb + da + pb + fa + tb).filter(p) == sb.filter(p) + da.filter(p) + pb.filter(p) + fa.filter(p) + tb.filter(p));
    assert(module_findings(m, w).filter(p) =~= sa + pa);
    assert(module_findings(m, w2).filter(p) =~= sb + pb);
    assert(scale_all(sa + pa, k) =~= scale_all(sa, k) + scale_all(pa, k));
}

proof fn lemma_project_scaled(ms: Seq<RawModule>, w: Weights, k: u32, n: int)
    requires
        k * w.scope_level <= u32::MAX,
        project_fits(ms, w),
        project_fits(ms, scaled_weights(w, k)),
        0 <= n <= ms.len(),
    ensures
        project_findings_upto(ms, scaled_weights(w, k), n).filter(scope_debt_only()) == scale_all(
            project_findings_upto(ms, w, n).filter(scope_debt_only()),
            k,
        ),
    decreases n,
{
    broadcast use Seq::filter_distributes_over_add;
    reveal(Seq::filter);
    let p = scope_debt_only();
    if n > 0 {
        lemma_project_scaled(ms, w, k, n - 1);
        lemma_module_scaled(ms[n - 1], w, k);
        let a = project_findings_upto(ms, w, n - 1).filter(p);
        let b = module_findings(ms[n - 1], w).filter(p);
        assert(scale_all(a + b, k) =~= scale_all(a, k) + scale_all(b, k));
    } else {
        assert(scale_all(Seq::<FindingV>::empty(), k) =~= Seq::<FindingV>::empty());
    }
}

/// The scope-debt weight is a unit: multiplying it by `k` multiplies every scope-debt score by
/// `k` and leaves the scope-debt findings otherwise as they were, in the same order.
pub proof fn law_scope_debt_scales_with_weight(ms: Seq<RawModule>, w: Weights, k: u32)
    requires
        k * w.scope_level <= u32::MAX,
        project_fits(ms, w),
        project_fits(ms, scaled_weights(w, k)),
    ensures
        project_findings(ms, scaled_weights(w, k)).filter(scope_debt_only()) == scale_all(
            project_findings(ms, w).filter(scope_debt_only()),
            k,
        ),
{
    let p = scope_debt_only();
    let w2 = scaled_weights(w, k);
    let all = project_findings_upto(ms, w, ms.len() as int);
    let all2 = project_findings_upto(ms, w2, ms.len() as int);
    lemma_project_scaled(ms, w, k, ms.len() as int);
    lemma_stable_sorted_filter(all2, p);
    lemma_stable_sorted_filter(all, p);
    lemma_stable_sorted_scaled(all.filter(p), k);
}

// --- the suggestions ---------------------------------------------------------------------

proof fn lemma_contains_right(a: Seq<FindingV>, b: Seq<FindingV>, f: FindingV)
    requires
        b.contains(f),
    ensures
        (a + b).contains(f),
{
    let j = choose|j: int| 0 <= j < b.len() && b[j] == f;
    assert((a + b)[a.len() + j] == f);
}

proof fn lemma_contains_left(a: Seq<FindingV>, b: Seq<FindingV>, f: FindingV)
    requires
        a.contains(f),
    ensures
        (a + b).contains(f),
{
    let j = choose|j: int| 0 <= j < a.len() && a[j] == f;
    assert((a + b)[j] == f);
}

/// A finding of one module is a finding of the project.
proof fn lemma_module_finding_in_project(ms: Seq<RawModule>, w: Weights, k: int, f: FindingV)
    requires
        0 <= k < ms.len(),
        module_findings(ms[k], w).contains(f),
    ensures
        project_findings(ms, w).contains(f),
{
    broadcast use vstd::seq_lib::group_to_multiset_ensures;
    lemma_upto_contains(ms, w, k, ms.len() as int, f);
    let all = project_findings_upto(ms, w, ms.len() as int);
    lemma_stable_sorted_is_permutation(all);
    assert(all.to_multiset().count(f) > 0);
    assert(stable_sorted(all).to_multiset().count(f) > 0);
}

proof fn lemma_upto_contains(ms: Seq<RawModule>, w: Weights, k: int, n: int, f: FindingV)
    requires
        0 <= k < n <= ms.len(),
        module_findings(ms[k], w).contains(f),
    ensures
        project_findings_upto(ms, w, n).contains(f),
    decreases n,
{
    if n - 1 == k {
        lemma_contains_right(project_findings_upto(ms, w, n - 1), module_findings(ms[k], w), f);
    } else {
        lemma_upto_contains(ms, w, k, n - 1, f);
        lemma_contains_left(project_findings_upto(ms, w, n - 1), module_findings(ms[n - 1], w), f);
    }
}

/// A suggestion among the suggestions that follow the declare-order warnings is a finding of
/// the module.
proof fn lemma_after_in_module(m: RawModule, w: Weights, f: FindingV)
    requires
        findings_after_order(m, order_free(w)).contains(f),
    ensures
        module_findings(m, w).contains(f),
{
    lemma_contains_right(findings_before_order(m, order_free(w)) + forward_refs(module_graph(m), w.order), findings_after_order(m, order_free(w)), f);
}

proof fn lemma_reorder_contains(m: RawModule, w: Weights, n: int, i: int)
    requires
        0 <= i < n <= m.scope@.len(),
        m.scope@[i].levels_excess == 0,
        m.scope@[i].use_wedges >= w.reorder_wedges,
        m.scope@[i].first_use > m.scope@[i].line,
    ensures
        reorder_upto(m, w, n).contains(crate::engine::analyze::reorder_finding(m.file@, m.scope@[i])),
    decreases n,
{
    let f = crate::engine::analyze::reorder_finding(m.file@, m.scope@[i]);
    if n - 1 == i {
        let r = reorder_upto(m, w, n);
        assert(r[r.len() - 1] == f);
    } else {
        lemma_reorder_contains(m, w, n - 1, i);
        let prev = reorder_upto(m, w, n - 1);
        let j = choose|j: int| 0 <= j < prev.len() && prev[j] == f;
        assert(reorder_upto(m, w, n)[j] == f);
    }
}

/// Reordering a local: a local of a module with no excess levels, declared above its first use
/// with at least `reorder_wedges` unrelated definitions in between, gets the suggestion to move
/// down to that first use; it names the wedges the move erases — those between the declaration
/// and the first use (`use_wedges`), not those between the local and what it depends on.
pub proof fn law_reorder_names_use_side_wedges(ms: Seq<RawModule>, w: Weights, k: int, i: int)
    requires
        0 <= k < ms.len(),
        0 <= i < ms[k].scope@.len(),
        ms[k].scope@[i].levels_excess == 0,
        ms[k].scope@[i].use_wedges >= w.reorder_wedges,
        ms[k].scope@[i].first_use > ms[k].scope@[i].line,
    ensures
        project_findings(ms, w).contains(
            FindingV {
                file: ms[k].file@,
                line: ms[k].scope@[i].line,
                entity: ms[k].scope@[i].entity@,
                entity_kind: EntityKind::Binding,
                category: Category::Suggestion,
                severity: Severity::Info,
                score: 0,
                reason: ReasonV::ReorderBinding { first_use: ms[k].scope@[i].first_use, wedged: ms[k].scope@[i].use_wedges },
            },
        ),
{
    let m = ms[k];
    let w0 = order_free(w);
    lemma_reorder_contains(m, w0, m.scope@.len() as int, i);
    let g = module_graph(m);
    let e = extract_part(g, w0, placement_debt(g, w0).len() > 0);
    let c = crowded_part(m, w0);
    let r = reorder_upto(m, w0, m.scope@.len() as int);
    let n = crate::engine::analyze::narrow_upto(m, w0, m.scope@.len() as int);
    let d = def_reorder_part(g, w0);
    let f = crate::engine::analyze::reorder_finding(m.file@, m.scope@[i]);
    lemma_contains_right(e + c, r, f);
    lemma_contains_left(e + c + r, n, f);
    lemma_contains_left(e + c + r + n, d, f);
    assert(findings_after_order(m, w0) == e + c + r + n + d);
    lemma_after_in_module(m, w, f);
    lemma_module_finding_in_project(ms, w, k, f);
}

proof fn lemma_extract_contains(g: DefGraphV, w: Weights, n: int, i: int)
    requires
        0 <= i < n <= g.defs.len(),
        crate::engine::analyze::extractable(g, w, i),
    ensures
        extract_upto(g, w, n).contains(crate::engine::analyze::extract_finding(g, i)),
    decreases n,
{
    let f = crate::engine::analyze::extract_finding(g, i);
    if n - 1 == i {
        let r = extract_upto(g, w, n);
        assert(r[r.len() - 1] == f);
    } else {
        lemma_extract_contains(g, w, n - 1, i);
        let prev = extract_upto(g, w, n - 1);
        let j = choose|j: int| 0 <= j < prev.len() && prev[j] == f;
        assert(extract_upto(g, w, n)[j] == f);
    }
}

/// Extracting a shared definition: in a file that carries placement debt, every definition that
/// is a function, a class or top-level data, and is referenced by at least `shared_callers`
/// distinct others (or at least `shared_uses` times by at least two others), gets the suggestion
/// to extract it, naming how often it is referenced.
pub proof fn law_shared_definitions_get_extract(ms: Seq<RawModule>, w: Weights, k: int, i: int)
    requires
        0 <= k < ms.len(),
        placement_debt(module_graph(ms[k]), order_free(w)).len() > 0,
        0 <= i < module_graph(ms[k]).defs.len(),
        module_graph(ms[k]).defs[i].kind == EntityKind::Function || module_graph(ms[k]).defs[i].kind == EntityKind::Class
            || module_graph(ms[k]).defs[i].kind == EntityKind::Binding,
        fanin(module_graph(ms[k]), i) >= w.shared_callers || (total_uses(module_graph(ms[k]), i) >= w.shared_uses
            && fanin(module_graph(ms[k]), i) >= 2),
    ensures
        project_findings(ms, w).contains(
            FindingV {
                file: ms[k].file@,
                line: module_graph(ms[k]).defs[i].line,
                entity: module_graph(ms[k]).defs[i].qualname,
                entity_kind: module_graph(ms[k]).defs[i].kind,
                category: Category::Suggestion,
                severity: Severity::Info,
                score: 0,
                reason: ReasonV::ExtractShared(total_uses(module_graph(ms[k]), i) as u32),
            },
        ),
{
    let m = ms[k];
    let w0 = order_free(w);
    let g = module_graph(m);
    lemma_extract_contains(g, w0, g.defs.len() as int, i);
    let e = extract_part(g, w0, placement_debt(g, w0).len() > 0);
    let c = crowded_part(m, w0);
    let r = reorder_upto(m, w0, m.scope@.len() as int);
    let n = crate::engine::analyze::narrow_upto(m, w0, m.scope@.len() as int);
    let d = def_reorder_part(g, w0);
    let f = crate::engine::analyze::extract_finding(g, i);
    lemma_contains_left(e, c, f);
    lemma_contains_left(e + c, r, f);
    lemma_contains_left(e + c + r, n, f);
    lemma_contains_left(e + c + r + n, d, f);
    assert(findings_after_order(m, w0) == e + c + r + n + d);
    lemma_after_in_module(m, w, f);
    lemma_module_finding_in_project(ms, w, k, f);
}

proof fn lemma_narrow_contains(m: RawModule, w: Weights, n: int, i: int)
    requires
        0 <= i < n <= m.scope@.len(),
        m.scope@[i].levels_excess >= w.narrow_levels,
        m.scope@[i].first_use > m.scope@[i].line,
    ensures
        crate::engine::analyze::narrow_upto(m, w, n).contains(crate::engine::analyze::narrow_finding(m.file@, m.scope@[i])),
    decreases n,
{
    let f = crate::engine::analyze::narrow_finding(m.file@, m.scope@[i]);
    if n - 1 == i {
        let r = crate::engine::analyze::narrow_upto(m, w, n);
        assert(r[r.len() - 1] == f);
    } else {
        lemma_narrow_contains(m, w, n - 1, i);
        let prev = crate::engine::analyze::narrow_upto(m, w, n - 1);
        let j = choose|j: int| 0 <= j < prev.len() && prev[j] == f;
        assert(crate::engine::analyze::narrow_upto(m, w, n)[j] == f);
    }
}

/// Narrowing a local: a local of a module used at least `narrow_levels` blocks deeper than it is
/// declared, first used below its declaration, gets the suggestion to move into that block,
/// naming its first use and how many levels deeper it is used.
pub proof fn law_narrow_names_first_use_and_levels(ms: Seq<RawModule>, w: Weights, k: int, i: int)
    requires
        0 <= k < ms.len(),
        0 <= i < ms[k].scope@.len(),
        ms[k].scope@[i].levels_excess >= w.narrow_levels,
        ms[k].scope@[i].first_use > ms[k].scope@[i].line,
    ensures
        project_findings(ms, w).contains(
            FindingV {
                file: ms[k].file@,
                line: ms[k].scope@[i].line,
                entity: ms[k].scope@[i].entity@,
                entity_kind: EntityKind::Binding,
                category: Category::Suggestion,
                severity: Severity::Info,
                score: 0,
                reason: ReasonV::NarrowToBlock { first_use: ms[k].scope@[i].first_use, levels: ms[k].scope@[i].levels_excess },
            },
        ),
{
    let m = ms[k];
    let w0 = order_free(w);
    lemma_narrow_contains(m, w0, m.scope@.len() as int, i);
    let g = module_graph(m);
    let e = extract_part(g, w0, placement_debt(g, w0).len() > 0);
    let c = crowded_part(m, w0);
    let r = reorder_upto(m, w0, m.scope@.len() as int);
    let n = crate::engine::analyze::narrow_upto(m, w0, m.scope@.len() as int);
    let d = def_reorder_part(g, w0);
    let f = crate::engine::analyze::narrow_finding(m.file@, m.scope@[i]);
    lemma_contains_right(e + c + r, n, f);
    lemma_contains_left(e + c + r + n, d, f);
    assert(findings_after_order(m, w0) == e + c + r + n + d);
    lemma_after_in_module(m, w, f);
    lemma_module_finding_in_project(ms, w, k, f);
}

} // verus!
