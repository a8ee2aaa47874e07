//! The analysis pipeline: a project of [`RawModule`]s → a sorted `Vec<Finding>`. Language-agnostic:
//! scope-debt (the binding `wedges`/`levels` carried on `RawModule`) + placement
//! (`engine::placement`) + declare-order (`engine::declorder`) + the suggestions.

use vstd::prelude::*;
use vstd::multiset::Multiset;

use crate::engine::declorder::{self, forward_refs};
use crate::engine::defgraph::{DefGraph, DefGraphV, graph_of, graph_wf};
use crate::engine::finding::{Category, Finding, FindingV, Severity, findings_view};
use crate::engine::model::{EntityKind, Reason, ReasonV};
use crate::engine::placement::{self, fanin, placement_debt, refers, reorder_debt};
use crate::engine::raw::{RawEntity, RawKind, RawModule, RawScope};
use crate::engine::score::{DeclOrder, Weights};
use crate::render::{debt_total, debt_total_upto};
use crate::text::{lemma_str_lt_order, owner_of, qual_owner, str_less, str_lt};

verus! {

/// The sort key order: by (file, line, entity).
pub open spec fn key_lt(a: FindingV, b: FindingV) -> bool {
    ||| str_lt(a.file, b.file)
    ||| a.file == b.file && a.line < b.line
    ||| a.file == b.file && a.line == b.line && str_lt(a.entity, b.entity)
}

/// Insert `x` into `s` after every element whose key is not greater than its own.
pub open spec fn sorted_insert(s: Seq<FindingV>, x: FindingV) -> Seq<FindingV>
    decreases s.len(),
{
    if s.len() == 0 {
        seq![x]
    } else if key_lt(x, s.last()) {
        sorted_insert(s.drop_last(), x).push(s.last())
    } else {
        s.push(x)
    }
}

/// The stable sort of `s` by (file, line, entity): insertion of each element, in order, after all
/// earlier elements with a key not greater than its own.
pub open spec fn stable_sorted(s: Seq<FindingV>) -> Seq<FindingV>
    decreases s.len(),
{
    if s.len() == 0 {
        s
    } else {
        sorted_insert(stable_sorted(s.drop_last()), s.last())
    }
}

/// No element is out of key order.
pub open spec fn is_key_sorted(s: Seq<FindingV>) -> bool {
    forall|i: int, j: int| 0 <= i < j < s.len() ==> !key_lt(#[trigger] s[j], #[trigger] s[i])
}

pub(crate) proof fn lemma_key_order(a: FindingV, b: FindingV, c: FindingV)
    ensures
        !key_lt(a, a),
        key_lt(a, b) ==> !key_lt(b, a),
        !key_lt(a, b) && !key_lt(b, c) ==> !key_lt(a, c),
        key_lt(a, b) && key_lt(b, c) ==> key_lt(a, c),
{
    lemma_str_lt_order(a.file, b.file, c.file);
    lemma_str_lt_order(b.file, c.file, a.file);
    lemma_str_lt_order(c.file, a.file, b.file);
    lemma_str_lt_order(a.entity, b.entity, c.entity);
    lemma_str_lt_order(b.entity, c.entity, a.entity);
    lemma_str_lt_order(c.entity, a.entity, b.entity);
    lemma_str_lt_order(a.file, c.file, b.file);
    lemma_str_lt_order(a.entity, c.entity, b.entity);
}

proof fn lemma_sorted_insert(s: Seq<FindingV>, x: FindingV)
    requires
        is_key_sorted(s),
    ensures
        is_key_sorted(sorted_insert(s, x)),
        sorted_insert(s, x).to_multiset() == s.to_multiset().insert(x),
        sorted_insert(s, x).len() == s.len() + 1,
        forall|k: int| 0 <= k < sorted_insert(s, x).len() ==> #[trigger] sorted_insert(s, x)[k] == x || s.contains(sorted_insert(s, x)[k]),
    decreases s.len(),
{
    broadcast use vstd::seq_lib::group_to_multiset_ensures;
    let r = sorted_insert(s, x);
    if s.len() == 0 {
        assert(r =~= seq![x]);
        assert(seq![x].to_multiset() =~= Multiset::<FindingV>::empty().insert(x)) by {
            assert(seq![x] =~= Seq::<FindingV>::empty().push(x));
        }
    } else if key_lt(x, s.last()) {
        let init = s.drop_last();
        assert forall|i: int, j: int| 0 <= i < j < init.len() implies !key_lt(#[trigger] init[j], #[trigger] init[i]) by {
            assert(init[i] == s[i] && init[j] == s[j]);
        }
        lemma_sorted_insert(init, x);
        let ri = sorted_insert(init, x);
        assert(r == ri.push(s.last()));
        assert forall|i: int, j: int| 0 <= i < j < r.len() implies !key_lt(#[trigger] r[j], #[trigger] r[i]) by {
            if j == r.len() - 1 {
                let e = r[i];
                if e == x {
                    lemma_key_order(s.last(), x, x);
                } else {
                    let k = choose|k: int| 0 <= k < init.len() && init[k] == e;
                    assert(s[k] == e);
                    assert(!key_lt(s[s.len() - 1], s[k]));
                }
            } else {
                assert(r[i] == ri[i] && r[j] == ri[j]);
            }
        }
        assert(s =~= init.push(s.last()));
        assert forall|k: int| 0 <= k < r.len() implies #[trigger] r[k] == x || s.contains(r[k]) by {
            if k < r.len() - 1 {
                assert(r[k] == ri[k]);
                if r[k] != x {
                    let m = choose|m: int| 0 <= m < init.len() && init[m] == r[k];
                    assert(s[m] == r[k]);
                }
            } else {
                assert(s[s.len() - 1] == r[k]);
            }
        }
    } else {
        assert forall|i: int, j: int| 0 <= i < j < r.len() implies !key_lt(#[trigger] r[j], #[trigger] r[i]) by {
            if j == r.len() - 1 {
                lemma_key_order(x, s.last(), s[i]);
                if i < s.len() - 1 {
                    assert(!key_lt(s[s.len() - 1], s[i]));
                }
            } else {
                assert(r[i] == s[i] && r[j] == s[j]);
            }
        }
        assert forall|k: int| 0 <= k < r.len() implies #[trigger] r[k] == x || s.contains(r[k]) by {
            if k < s.len() {
                assert(s[k] == r[k]);
            }
        }
    }
}

/// The stable sort orders the findings by (file, line, entity).
pub proof fn lemma_stable_sorted_is_sorted(s: Seq<FindingV>)
    ensures
        is_key_sorted(stable_sorted(s)),
    decreases s.len(),
{
    if s.len() > 0 {
        lemma_stable_sorted_is_sorted(s.drop_last());
        lemma_sorted_insert(stable_sorted(s.drop_last()), s.last());
    }
}

/// The stable sort is a permutation: it keeps every finding, as often as it occurs.
pub proof fn lemma_stable_sorted_is_permutation(s: Seq<FindingV>)
    ensures
        stable_sorted(s).to_multiset() == s.to_multiset(),
    decreases s.len(),
{
    broadcast use vstd::seq_lib::group_to_multiset_ensures;
    if s.len() > 0 {
        lemma_stable_sorted_is_sorted(s.drop_last());
        lemma_stable_sorted_is_permutation(s.drop_last());
        lemma_sorted_insert(stable_sorted(s.drop_last()), s.last());
        assert(s =~= s.drop_last().push(s.last()));
    }
}

proof fn lemma_sorted_insert_at(s: Seq<FindingV>, x: FindingV, p: int)
    requires
        0 <= p <= s.len(),
        p == 0 || !key_lt(x, s[p - 1]),
        forall|q: int| p <= q < s.len() ==> key_lt(x, #[trigger] s[q]),
    ensures
        sorted_insert(s, x) == s.take(p).push(x) + s.skip(p),
    decreases s.len(),
{
    if s.len() == 0 {
        assert(s.take(p).push(x) + s.skip(p) =~= seq![x]);
    } else if p == s.len() {
        assert(s.take(p).push(x) + s.skip(p) =~= s.push(x));
    } else {
        assert(key_lt(x, s[s.len() - 1]));
        let init = s.drop_last();
        assert forall|q: int| p <= q < init.len() implies key_lt(x, #[trigger] init[q]) by {
            assert(init[q] == s[q]);
        }
        if p > 0 {
            assert(init[p - 1] == s[p - 1]);
        }
        lemma_sorted_insert_at(init, x, p);
        assert(s.take(p).push(x) + s.skip(p) =~= (init.take(p).push(x) + init.skip(p)).push(s.last()));
    }
}

/// Is `a`'s key before `b`'s?
fn key_less(a: &Finding, b: &Finding) -> (r: bool)
    ensures
        r == key_lt(a@, b@),
{
    if str_less(&a.file, &b.file) {
        return true;
    }
    if a.file != b.file {
        return false;
    }
    if a.line != b.line {
        return a.line < b.line;
    }
    str_less(&a.entity, &b.entity)
}

/// Stable order: by (file, line, entity).
pub fn sort_findings(findings: &mut Vec<Finding>)
    ensures
        findings_view(final(findings)@) == stable_sorted(findings_view(old(findings)@)),
{
    let ghost orig = findings_view(findings@);
    let mut src: Vec<Finding> = Vec::new();
    std::mem::swap(findings, &mut src);
    let mut out: Vec<Finding> = Vec::new();
    let mut k: usize = 0;
    let n = src.len();
    assert(findings_view(src@) == orig);
    while src.len() > 0
        invariant
            n == orig.len(),
            src@.len() + k == n,
            findings_view(src@) == orig.skip(k as int),
            findings_view(out@) == stable_sorted(orig.take(k as int)),
        decreases src@.len(),
    {
        let ghost src_before = src@;
        let x = src.remove(0);
        proof {
            assert(findings_view(src_before)[0] == src_before[0]@);
            assert(findings_view(src_before)[0] == orig.skip(k as int)[0]);
            assert(findings_view(src@) =~= findings_view(src_before).drop_first());
            assert(x@ == orig[k as int]);
            assert(findings_view(src@) =~= orig.skip(k + 1));
            assert(orig.take(k + 1).drop_last() =~= orig.take(k as int));
            assert(orig.take(k + 1).last() == x@);
        }
        let mut p = out.len();
        while p > 0 && key_less(&x, &out[p - 1])
            invariant
                p <= out@.len(),
                forall|q: int| p <= q < out@.len() ==> key_lt(x@, #[trigger] findings_view(out@)[q]),
            decreases p,
        {
            p = p - 1;
        }
        let ghost before = findings_view(out@);
        proof {
            lemma_sorted_insert_at(before, x@, p as int);
        }
        out.insert(p, x);
        assert(findings_view(out@) =~= before.take(p as int).push(x@) + before.skip(p as int));
        k = k + 1;
    }
    assert(orig.take(n as int) =~= orig);
    *findings = out;
}


// --- scope-debt of local bindings ------------------------------------------------------

/// The scope-debt findings of one local binding: one for its excess levels, one for its wedges.
pub open spec fn scope_entry_findings(file: Seq<char>, s: RawScope, w: Weights) -> Seq<FindingV> {
    let levels = if s.levels_excess > 0 {
        seq![FindingV {
            file,
            line: s.line,
            entity: s.entity@,
            entity_kind: EntityKind::Binding,
            category: Category::ScopeDebt,
            severity: Severity::Info,
            score: (w.scope_level * s.levels_excess) as u32,
            reason: ReasonV::ExcessLevels(s.levels_excess),
        }]
    } else {
        Seq::empty()
    };
    let wedged = if s.wedges > 0 {
        seq![FindingV {
            file,
            line: s.line,
            entity: s.entity@,
            entity_kind: EntityKind::Binding,
            category: Category::ScopeDebt,
            severity: Severity::Info,
            score: (w.scope_level * s.wedges) as u32,
            reason: ReasonV::Misplaced(s.wedges),
        }]
    } else {
        Seq::empty()
    };
    levels + wedged
}

/// Scope-debt findings of the first `k` local bindings of a module.
pub open spec fn scope_part_upto(m: RawModule, w: Weights, k: int) -> Seq<FindingV>
    decreases k,
{
    if k <= 0 {
        Seq::empty()
    } else {
        scope_part_upto(m, w, k - 1) + scope_entry_findings(m.file@, m.scope@[k - 1], w)
    }
}

/// Weighted scores of the local bindings fit in a `u32`.
pub open spec fn scope_fits(m: RawModule, w: Weights) -> bool {
    forall|i: int|
        0 <= i < m.scope@.len() ==> w.scope_level * (#[trigger] m.scope@[i]).levels_excess <= u32::MAX && w.scope_level
            * m.scope@[i].wedges <= u32::MAX
}

/// Scope-debt findings from a module's raw scope entries (levels + wedges), applying weights.
/// `None` when a weighted score does not fit in a `u32`.
fn scope_findings(raw: &RawModule, weights: &Weights) -> (r: Option<Vec<Finding>>)
    ensures
        r is Some <==> scope_fits(*raw, *weights),
        r matches Some(v) ==> findings_view(v@) == scope_part_upto(*raw, *weights, raw.scope@.len() as int),
{
    let mut out: Vec<Finding> = Vec::new();
    let mut i: usize = 0;
    while i < raw.scope.len()
        invariant
            i <= raw.scope@.len(),
            findings_view(out@) == scope_part_upto(*raw, *weights, i as int),
            forall|j: int|
                0 <= j < i ==> weights.scope_level * (#[trigger] raw.scope@[j]).levels_excess <= u32::MAX
                    && weights.scope_level * raw.scope@[j].wedges <= u32::MAX,
        decreases raw.scope@.len() - i,
    {
        let s = &raw.scope[i];
        let ghost before = findings_view(out@);
        let lv = match weights.scope_level.checked_mul(s.levels_excess) {
            Some(v) => v,
            None => return None,
        };
        let wd = match weights.scope_level.checked_mul(s.wedges) {
            Some(v) => v,
            None => return None,
        };
        if s.levels_excess > 0 {
            out.push(Finding {
                file: raw.file.clone(),
                line: s.line,
                entity: s.entity.clone(),
                entity_kind: EntityKind::Binding,
                category: Category::ScopeDebt,
                severity: Severity::Info,
                score: lv,
                reason: Reason::ExcessLevels(s.levels_excess),
            });
        }
        let ghost mid = findings_view(out@);
        if s.wedges > 0 {
            out.push(Finding {
                file: raw.file.clone(),
                line: s.line,
                entity: s.entity.clone(),
                entity_kind: EntityKind::Binding,
                category: Category::ScopeDebt,
                severity: Severity::Info,
                score: wd,
                reason: Reason::Misplaced(s.wedges),
            });
        }
        proof {
            let e = scope_entry_findings(raw.file@, raw.scope@[i as int], *weights);
            if s.levels_excess > 0 {
                assert(mid =~= before + e.take(1));
            } else {
                assert(mid =~= before);
            }
            assert(findings_view(out@) =~= before + e);
        }
        i = i + 1;
    }
    Some(out)
}

// --- use-before-binding warnings -------------------------------------------------------

/// The use-before-binding warning for `(entity, line)`.
pub open spec fn decl_warning(file: Seq<char>, e: (String, u32)) -> FindingV {
    FindingV {
        file,
        line: e.1,
        entity: e.0@,
        entity_kind: EntityKind::Binding,
        category: Category::DeclBeforeUse,
        severity: Severity::Warning,
        score: 0,
        reason: ReasonV::UseBeforeDecl,
    }
}

/// The module's use-before-binding warnings.
pub open spec fn decl_part(m: RawModule) -> Seq<FindingV> {
    m.decl_warnings@.map_values(|e: (String, u32)| decl_warning(m.file@, e))
}

/// Use-before-binding `DeclBeforeUse` findings from a module's raw warnings.
fn decl_warning_findings(raw: &RawModule) -> (r: Vec<Finding>)
    ensures
        findings_view(r@) == decl_part(*raw),
{
    let mut out: Vec<Finding> = Vec::new();
    let mut i: usize = 0;
    while i < raw.decl_warnings.len()
        invariant
            i <= raw.decl_warnings@.len(),
            findings_view(out@) == decl_part(*raw).take(i as int),
        decreases raw.decl_warnings@.len() - i,
    {
        let e = &raw.decl_warnings[i];
        let ghost before = findings_view(out@);
        out.push(Finding {
            file: raw.file.clone(),
            line: e.1,
            entity: e.0.clone(),
            entity_kind: EntityKind::Binding,
            category: Category::DeclBeforeUse,
            severity: Severity::Warning,
            score: 0,
            reason: Reason::UseBeforeDecl,
        });
        assert(decl_part(*raw)[i as int] == decl_warning(raw.file@, raw.decl_warnings@[i as int]));
        assert(findings_view(out@) =~= before.push(decl_part(*raw)[i as int]));
        assert(findings_view(out@) =~= decl_part(*raw).take(i + 1));
        i = i + 1;
    }
    assert(decl_part(*raw).take(raw.decl_warnings@.len() as int) =~= decl_part(*raw));
    out
}


// --- definition placement --------------------------------------------------------------

/// The placement finding for `(def, wedges)`.
pub open spec fn placement_finding(g: DefGraphV, w: Weights, e: (usize, u32)) -> FindingV {
    FindingV {
        file: g.file,
        line: g.defs[e.0 as int].line,
        entity: g.defs[e.0 as int].qualname,
        entity_kind: g.defs[e.0 as int].kind,
        category: Category::ScopeDebt,
        severity: Severity::Info,
        score: (w.scope_level * e.1) as u32,
        reason: ReasonV::Misplaced(e.1),
    }
}

/// The module's definition-placement findings.
pub open spec fn placement_part(g: DefGraphV, w: Weights) -> Seq<FindingV> {
    placement_debt(g, w).map_values(|e: (usize, u32)| placement_finding(g, w, e))
}

/// Weighted placement scores fit in a `u32`.
pub open spec fn placement_fits(g: DefGraphV, w: Weights) -> bool {
    forall|i: int| 0 <= i < placement_debt(g, w).len() ==> w.scope_level * (#[trigger] placement_debt(g, w)[i]).1 <= u32::MAX
}

proof fn lemma_placement_bounds(g: DefGraphV, pinned: Seq<bool>, k: int)
    requires
        k <= g.defs.len(),
    ensures
        forall|i: int| 0 <= i < placement::placement_upto(g, pinned, k).len() ==> (#[trigger] placement::placement_upto(g, pinned, k)[i]).0 < k,
    decreases k,
{
    if k > 0 {
        lemma_placement_bounds(g, pinned, k - 1);
        let rest = placement::placement_upto(g, pinned, k - 1);
        let all = placement::placement_upto(g, pinned, k);
        assert forall|i: int| 0 <= i < all.len() implies (#[trigger] all[i]).0 < k by {
            if i < rest.len() {
                assert(all[i] == rest[i]);
            }
        }
    }
}

proof fn lemma_reorder_bounds(g: DefGraphV, pinned: Seq<bool>, k: int)
    requires
        k <= g.defs.len(),
    ensures
        forall|i: int| 0 <= i < placement::reorder_upto(g, pinned, k).len() ==> (#[trigger] placement::reorder_upto(g, pinned, k)[i]).0 < k,
    decreases k,
{
    if k > 0 {
        lemma_reorder_bounds(g, pinned, k - 1);
        let rest = placement::reorder_upto(g, pinned, k - 1);
        let all = placement::reorder_upto(g, pinned, k);
        assert forall|i: int| 0 <= i < all.len() implies (#[trigger] all[i]).0 < k by {
            if i < rest.len() {
                assert(all[i] == rest[i]);
            }
        }
    }
}

/// Definition-placement findings from the definition graph, applying weights. `None` when a
/// weighted score does not fit in a `u32`.
fn placement_findings(g: &DefGraph, weights: &Weights) -> (r: Option<Vec<Finding>>)
    requires
        graph_wf(g@),
    ensures
        r is Some <==> placement_fits(g@, *weights),
        r matches Some(v) ==> findings_view(v@) == placement_part(g@, *weights),
{
    let debt = placement::wedges(g, weights);
    proof {
        lemma_placement_bounds(g@, placement::accessor_flags(g@, *weights), g@.defs.len() as int);
    }
    let mut out: Vec<Finding> = Vec::new();
    let mut k: usize = 0;
    while k < debt.len()
        invariant
            debt@ == placement_debt(g@, *weights),
            forall|i: int| 0 <= i < debt@.len() ==> (#[trigger] debt@[i]).0 < g@.defs.len(),
            k <= debt@.len(),
            findings_view(out@) == placement_part(g@, *weights).take(k as int),
            forall|i: int| 0 <= i < k ==> weights.scope_level * (#[trigger] debt@[i]).1 <= u32::MAX,
        decreases debt@.len() - k,
    {
        let (i, count) = debt[k];
        let score = match weights.scope_level.checked_mul(count) {
            Some(v) => v,
            None => return None,
        };
        let d = &g.defs[i];
        assert(g@.defs[i as int] == g.defs@[i as int]@);
        let ghost before = findings_view(out@);
        out.push(Finding {
            file: g.file.clone(),
            line: d.line,
            entity: d.qualname.clone(),
            entity_kind: d.kind,
            category: Category::ScopeDebt,
            severity: Severity::Info,
            score,
            reason: Reason::Misplaced(count),
        });
        assert(findings_view(out@) =~= before.push(placement_part(g@, *weights)[k as int]));
        assert(findings_view(out@) =~= placement_part(g@, *weights).take(k + 1));
        k = k + 1;
    }
    assert(placement_part(g@, *weights).take(debt@.len() as int) =~= placement_part(g@, *weights));
    Some(out)
}

// --- extract-shared suggestions --------------------------------------------------------

/// How often `i` occurs in `calls`.
pub open spec fn occurrences(calls: Seq<usize>, i: int) -> nat
    decreases calls.len(),
{
    if calls.len() == 0 {
        0
    } else {
        occurrences(calls.drop_last(), i) + if calls.last() as int == i { 1nat } else { 0nat }
    }
}

/// Total references to `i` from the first `k` OTHER definitions (self-recursion is not sharing).
pub open spec fn total_uses_upto(g: DefGraphV, i: int, k: int) -> nat
    decreases k,
{
    if k <= 0 {
        0
    } else {
        total_uses_upto(g, i, k - 1) + if k - 1 != i { occurrences(g.defs[k - 1].calls, i) } else { 0nat }
    }
}

/// Total references to `i` from other definitions.
pub open spec fn total_uses(g: DefGraphV, i: int) -> nat {
    total_uses_upto(g, i, g.defs.len() as int)
}

/// `i` is shared infrastructure: broad fan-in, or heavy use from at least two others.
pub open spec fn shared(g: DefGraphV, w: Weights, i: int) -> bool {
    ||| fanin(g, i) >= w.shared_callers
    ||| total_uses(g, i) >= w.shared_uses && fanin(g, i) >= 2
}

/// `i` gets an extract suggestion: shared, and extractable (not the module, not a class member).
pub open spec fn extractable(g: DefGraphV, w: Weights, i: int) -> bool {
    shared(g, w, i) && g.defs[i].kind != EntityKind::Module && g.defs[i].kind != EntityKind::Method
}

/// The extract suggestion for definition `i`.
pub open spec fn extract_finding(g: DefGraphV, i: int) -> FindingV {
    FindingV {
        file: g.file,
        line: g.defs[i].line,
        entity: g.defs[i].qualname,
        entity_kind: g.defs[i].kind,
        category: Category::Suggestion,
        severity: Severity::Info,
        score: 0,
        reason: ReasonV::ExtractShared(total_uses(g, i) as u32),
    }
}

/// Extract suggestions among the first `k` definitions.
pub open spec fn extract_upto(g: DefGraphV, w: Weights, k: int) -> Seq<FindingV>
    decreases k,
{
    if k <= 0 {
        Seq::empty()
    } else {
        let rest = extract_upto(g, w, k - 1);
        if extractable(g, w, k - 1) { rest.push(extract_finding(g, k - 1)) } else { rest }
    }
}

/// The extract suggestions of a file; only a file carrying placement debt gets any.
pub open spec fn extract_part(g: DefGraphV, w: Weights, has_placement_debt: bool) -> Seq<FindingV> {
    if has_placement_debt { extract_upto(g, w, g.defs.len() as int) } else { Seq::empty() }
}

/// Reference totals fit in a `u32` (they are only counted when the file has placement debt).
pub open spec fn extract_fits(g: DefGraphV, has_placement_debt: bool) -> bool {
    has_placement_debt ==> forall|i: int| 0 <= i < g.defs.len() ==> #[trigger] total_uses(g, i) <= u32::MAX
}

/// How often `i` occurs in `calls` (`None` past `u32::MAX`).
fn count_occurrences(calls: &Vec<usize>, i: usize, start: u32) -> (r: Option<u32>)
    ensures
        r is Some <==> start + occurrences(calls@, i as int) <= u32::MAX,
        r matches Some(n) ==> n == start + occurrences(calls@, i as int),
{
    let mut n: u32 = start;
    let mut k: usize = 0;
    while k < calls.len()
        invariant
            k <= calls@.len(),
            n == start + occurrences(calls@.take(k as int), i as int),
        decreases calls@.len() - k,
    {
        assert(calls@.take(k + 1).drop_last() =~= calls@.take(k as int));
        if calls[k] == i {
            if n == u32::MAX {
                proof {
                    lemma_occurrences_mono(calls@, i as int, k + 1);
                }
                return None;
            }
            n = n + 1;
        }
        k = k + 1;
    }
    assert(calls@.take(calls@.len() as int) =~= calls@);
    Some(n)
}

proof fn lemma_occurrences_mono(calls: Seq<usize>, i: int, k: int)
    requires
        0 <= k <= calls.len(),
    ensures
        occurrences(calls.take(k), i) <= occurrences(calls, i),
    decreases calls.len() - k,
{
    if k < calls.len() {
        lemma_occurrences_mono(calls, i, k + 1);
        assert(calls.take(k + 1).drop_last() =~= calls.take(k));
        assert(occurrences(calls.take(k + 1), i) >= occurrences(calls.take(k), i));
    } else {
        assert(calls.take(k) =~= calls);
    }
}

proof fn lemma_total_uses_mono(g: DefGraphV, i: int, k: int)
    requires
        0 <= k <= g.defs.len(),
    ensures
        total_uses_upto(g, i, k) <= total_uses(g, i),
    decreases g.defs.len() - k,
{
    if k < g.defs.len() {
        lemma_total_uses_mono(g, i, k + 1);
    }
}

/// Total references to `i` from other definitions (`None` past `u32::MAX`).
fn total_uses_of(g: &DefGraph, i: usize) -> (r: Option<u32>)
    ensures
        r is Some <==> total_uses(g@, i as int) <= u32::MAX,
        r matches Some(n) ==> n == total_uses(g@, i as int),
{
    let mut n: u32 = 0;
    let mut j: usize = 0;
    while j < g.defs.len()
        invariant
            j <= g@.defs.len(),
            n == total_uses_upto(g@, i as int, j as int),
        decreases g@.defs.len() - j,
    {
        assert(g@.defs[j as int] == g.defs@[j as int]@);
        if j != i {
            match count_occurrences(&g.defs[j].calls, i, n) {
                Some(m) => n = m,
                None => {
                    proof {
                        lemma_total_uses_mono(g@, i as int, j + 1);
                    }
                    return None;
                },
            }
        }
        j = j + 1;
    }
    Some(n)
}

/// `ExtractShared` suggestions: high-use definitions (shared infrastructure) in a file that carries
/// placement debt. Moving them into their own module turns those references cross-file (so they
/// stop wedging) and localizes the rest. `None` when a reference total does not fit in a `u32`.
fn extract_suggestions(g: &DefGraph, has_placement_debt: bool, w: &Weights) -> (r: Option<Vec<Finding>>)
    requires
        graph_wf(g@),
    ensures
        r is Some <==> extract_fits(g@, has_placement_debt),
        r matches Some(v) ==> findings_view(v@) == extract_part(g@, *w, has_placement_debt),
{
    if !has_placement_debt {
        return Some(Vec::new());
    }
    let mut out: Vec<Finding> = Vec::new();
    let mut i: usize = 0;
    while i < g.defs.len()
        invariant
            graph_wf(g@),
            has_placement_debt,
            i <= g@.defs.len(),
            findings_view(out@) == extract_upto(g@, *w, i as int),
            forall|j: int| 0 <= j < i ==> #[trigger] total_uses(g@, j) <= u32::MAX,
        decreases g@.defs.len() - i,
    {
        let uses = match total_uses_of(g, i) {
            Some(u) => u,
            None => return None,
        };
        let callers = placement::fanin_of(g, i);
        let d = &g.defs[i];
        assert(g@.defs[i as int] == g.defs@[i as int]@);
        let is_shared = callers >= w.shared_callers || (uses >= w.shared_uses && callers >= 2);
        if is_shared && d.kind != EntityKind::Module && d.kind != EntityKind::Method {
            let ghost before = findings_view(out@);
            out.push(Finding {
                file: g.file.clone(),
                line: d.line,
                entity: d.qualname.clone(),
                entity_kind: d.kind,
                category: Category::Suggestion,
                severity: Severity::Info,
                score: 0,
                reason: Reason::ExtractShared(uses),
            });
            assert(findings_view(out@) =~= before.push(extract_finding(g@, i as int)));
        }
        i = i + 1;
    }
    Some(out)
}

// --- definition reorder suggestions ----------------------------------------------------

/// The reorder suggestion for `(def, first-use line, wedges)`.
pub open spec fn def_reorder_finding(g: DefGraphV, e: (usize, u32, u32)) -> FindingV {
    FindingV {
        file: g.file,
        line: g.defs[e.0 as int].line,
        entity: g.defs[e.0 as int].qualname,
        entity_kind: g.defs[e.0 as int].kind,
        category: Category::Suggestion,
        severity: Severity::Info,
        score: 0,
        reason: ReasonV::ReorderBinding { first_use: e.1, wedged: e.2 },
    }
}

/// Definition reorder suggestions among the first `k` reorder candidates: those with at least
/// `reorder_wedges` wedges.
pub open spec fn def_reorder_upto(g: DefGraphV, w: Weights, k: int) -> Seq<FindingV>
    decreases k,
{
    if k <= 0 {
        Seq::empty()
    } else {
        let rest = def_reorder_upto(g, w, k - 1);
        let e = reorder_debt(g, w)[k - 1];
        if e.2 >= w.reorder_wedges { rest.push(def_reorder_finding(g, e)) } else { rest }
    }
}

/// The module's definition reorder suggestions.
pub open spec fn def_reorder_part(g: DefGraphV, w: Weights) -> Seq<FindingV> {
    def_reorder_upto(g, w, reorder_debt(g, w).len() as int)
}

/// `ReorderBinding` suggestions for DEFINITIONS: a function/method/class declared far above its
/// first use, with at least `reorder_wedges` unrelated definitions in between.
fn def_reorder_suggestions(g: &DefGraph, w: &Weights) -> (r: Vec<Finding>)
    requires
        graph_wf(g@),
    ensures
        findings_view(r@) == def_reorder_part(g@, *w),
{
    let cands = placement::use_reorder(g, w);
    proof {
        lemma_reorder_bounds(g@, placement::accessor_flags(g@, *w), g@.defs.len() as int);
    }
    let mut out: Vec<Finding> = Vec::new();
    let mut k: usize = 0;
    while k < cands.len()
        invariant
            cands@ == reorder_debt(g@, *w),
            forall|i: int| 0 <= i < cands@.len() ==> (#[trigger] cands@[i]).0 < g@.defs.len(),
            k <= cands@.len(),
            findings_view(out@) == def_reorder_upto(g@, *w, k as int),
        decreases cands@.len() - k,
    {
        let (di, first_use, wedged) = cands[k];
        if wedged >= w.reorder_wedges {
            let d = &g.defs[di];
            assert(g@.defs[di as int] == g.defs@[di as int]@);
            let ghost before = findings_view(out@);
            out.push(Finding {
                file: g.file.clone(),
                line: d.line,
                entity: d.qualname.clone(),
                entity_kind: d.kind,
                category: Category::Suggestion,
                severity: Severity::Info,
                score: 0,
                reason: Reason::ReorderBinding { first_use, wedged },
            });
            assert(findings_view(out@) =~= before.push(def_reorder_finding(g@, cands@[k as int])));
        }
        k = k + 1;
    }
    out
}


// --- crowded-scope suggestions ---------------------------------------------------------

/// The owners of a module's independent locals among its first `k` scope entries, in order of
/// first appearance.
pub open spec fn crowd_owners_upto(m: RawModule, k: int) -> Seq<Seq<char>>
    decreases k,
{
    if k <= 0 {
        Seq::empty()
    } else {
        let rest = crowd_owners_upto(m, k - 1);
        let e = m.scope@[k - 1];
        if e.independent && !rest.contains(qual_owner(e.entity@)) { rest.push(qual_owner(e.entity@)) } else { rest }
    }
}

/// The owners of a module's independent locals.
pub open spec fn crowd_owners(m: RawModule) -> Seq<Seq<char>> {
    crowd_owners_upto(m, m.scope@.len() as int)
}

/// The weighted debt of one local binding (levels + wedges).
pub open spec fn local_debt(w: Weights, e: RawScope) -> int {
    w.scope_level * (e.levels_excess + e.wedges)
}

/// The weighted debt that owner `o`'s independent locals carry, among the first `k` entries.
pub open spec fn crowd_debt_upto(m: RawModule, w: Weights, o: Seq<char>, k: int) -> int
    decreases k,
{
    if k <= 0 {
        0
    } else {
        let e = m.scope@[k - 1];
        crowd_debt_upto(m, w, o, k - 1) + if e.independent && qual_owner(e.entity@) == o { local_debt(w, e) } else { 0 }
    }
}

/// The weighted debt that owner `o`'s independent locals carry.
pub open spec fn crowd_debt(m: RawModule, w: Weights, o: Seq<char>) -> int {
    crowd_debt_upto(m, w, o, m.scope@.len() as int)
}

/// Every independent local's debt, and every owner's total, fit in a `u32`.
pub open spec fn crowd_fits(m: RawModule, w: Weights) -> bool {
    &&& forall|j: int|
        0 <= j < m.scope@.len() && (#[trigger] m.scope@[j]).independent ==> m.scope@[j].levels_excess + m.scope@[j].wedges
            <= u32::MAX && local_debt(w, m.scope@[j]) <= u32::MAX
    &&& forall|i: int| 0 <= i < crowd_owners(m).len() ==> crowd_debt(m, w, #[trigger] crowd_owners(m)[i]) <= u32::MAX
}

/// The first entity named `o`.
pub open spec fn first_entity_upto(entities: Seq<RawEntity>, o: Seq<char>, k: int) -> Option<int>
    decreases k,
{
    if k <= 0 {
        None
    } else {
        match first_entity_upto(entities, o, k - 1) {
            Some(i) => Some(i),
            None => if entities[k - 1].qualname@ == o { Some(k - 1) } else { None },
        }
    }
}

/// The crowded-scope suggestion for owner `o`, if its independent locals carry at least
/// `crowded_scope` debt and it is a known entity.
pub open spec fn crowded_entry(m: RawModule, w: Weights, o: Seq<char>) -> Option<FindingV> {
    let d = crowd_debt(m, w, o);
    if d >= w.crowded_scope {
        match first_entity_upto(m.entities@, o, m.entities@.len() as int) {
            Some(e) => Some(FindingV {
                file: m.file@,
                line: m.entities@[e].line,
                entity: o,
                entity_kind: if m.entities@[e].kind == RawKind::Method { EntityKind::Method } else { EntityKind::Function },
                category: Category::Suggestion,
                severity: Severity::Info,
                score: 0,
                reason: ReasonV::CrowdedScope(d as u32),
            }),
            None => None,
        }
    } else {
        None
    }
}

/// Crowded-scope suggestions for the first `k` owners.
pub open spec fn crowded_upto(m: RawModule, w: Weights, k: int) -> Seq<FindingV>
    decreases k,
{
    if k <= 0 {
        Seq::empty()
    } else {
        let rest = crowded_upto(m, w, k - 1);
        match crowded_entry(m, w, crowd_owners(m)[k - 1]) {
            Some(f) => rest.push(f),
            None => rest,
        }
    }
}

/// The module's crowded-scope suggestions, one per qualifying owner.
pub open spec fn crowded_part(m: RawModule, w: Weights) -> Seq<FindingV> {
    crowded_upto(m, w, crowd_owners(m).len() as int)
}

/// The views of a list of strings.
pub open spec fn strings_view(v: Seq<String>) -> Seq<Seq<char>> {
    v.map_values(|s: String| s@)
}

/// Does `v` hold `s`?
fn holds_string(v: &Vec<String>, s: &String) -> (r: bool)
    ensures
        r == strings_view(v@).contains(s@),
{
    let mut i: usize = 0;
    while i < v.len()
        invariant
            i <= v@.len(),
            forall|j: int| 0 <= j < i ==> v@[j]@ != s@,
        decreases v@.len() - i,
    {
        if v[i] == *s {
            assert(strings_view(v@)[i as int] == s@);
            return true;
        }
        i = i + 1;
    }
    proof {
        if strings_view(v@).contains(s@) {
            let j = choose|j: int| 0 <= j < v@.len() && strings_view(v@)[j] == s@;
            assert(v@[j]@ == s@);
        }
    }
    false
}

proof fn lemma_owner_listed(m: RawModule, j: int, k: int)
    requires
        0 <= j < k <= m.scope@.len(),
        m.scope@[j].independent,
    ensures
        crowd_owners_upto(m, k).contains(qual_owner(m.scope@[j].entity@)),
    decreases k,
{
    if j < k - 1 {
        lemma_owner_listed(m, j, k - 1);
        let rest = crowd_owners_upto(m, k - 1);
        let o = qual_owner(m.scope@[j].entity@);
        let i = choose|i: int| 0 <= i < rest.len() && rest[i] == o;
        assert(crowd_owners_upto(m, k)[i] == o);
    } else {
        let rest = crowd_owners_upto(m, k - 1);
        let o = qual_owner(m.scope@[j].entity@);
        if !rest.contains(o) {
            assert(crowd_owners_upto(m, k)[rest.len() as int] == o);
        } else {
            let i = choose|i: int| 0 <= i < rest.len() && rest[i] == o;
            assert(crowd_owners_upto(m, k)[i] == o);
        }
    }
}

proof fn lemma_crowd_debt_mono(m: RawModule, w: Weights, o: Seq<char>, k: int)
    requires
        0 <= k <= m.scope@.len(),
    ensures
        crowd_debt_upto(m, w, o, k) <= crowd_debt(m, w, o),
        crowd_debt_upto(m, w, o, k) >= 0,
    decreases m.scope@.len() - k,
{
    if k < m.scope@.len() {
        lemma_crowd_debt_mono(m, w, o, k + 1);
    }
    lemma_crowd_debt_nonneg(m, w, o, k);
}

proof fn lemma_crowd_debt_nonneg(m: RawModule, w: Weights, o: Seq<char>, k: int)
    ensures
        crowd_debt_upto(m, w, o, k) >= 0,
    decreases k,
{
    if k > 0 {
        lemma_crowd_debt_nonneg(m, w, o, k - 1);
        let e = m.scope@[k - 1];
        assert(local_debt(w, e) >= 0) by (nonlinear_arith)
            requires
                local_debt(w, e) == w.scope_level * (e.levels_excess + e.wedges),
        ;
    }
}

/// The first entity named `o`.
fn first_entity(entities: &Vec<RawEntity>, o: &String) -> (r: Option<usize>)
    ensures
        r matches Some(i) ==> first_entity_upto(entities@, o@, entities@.len() as int) == Some(i as int) && i < entities@.len(),
        r is None ==> first_entity_upto(entities@, o@, entities@.len() as int) is None,
{
    let mut i: usize = 0;
    while i < entities.len()
        invariant
            i <= entities@.len(),
            first_entity_upto(entities@, o@, i as int) is None,
        decreases entities@.len() - i,
    {
        if entities[i].qualname == *o {
            proof {
                lemma_first_entity_stable(entities@, o@, i + 1, entities@.len() as int);
            }
            return Some(i);
        }
        i = i + 1;
    }
    None
}

proof fn lemma_first_entity_stable(entities: Seq<RawEntity>, o: Seq<char>, k: int, n: int)
    requires
        k <= n,
        first_entity_upto(entities, o, k) is Some,
    ensures
        first_entity_upto(entities, o, n) == first_entity_upto(entities, o, k),
    decreases n - k,
{
    if k < n {
        lemma_first_entity_stable(entities, o, k, n - 1);
    }
}

/// `CrowdedScope` suggestions: a function holding a "bag" of INDEPENDENT mutable accumulators
/// (each reads nothing, yet they wedge each other). Only independent-local debt counts. `None`
/// when a debt total does not fit in a `u32`.
fn crowded_suggestions(m: &RawModule, weights: &Weights) -> (r: Option<Vec<Finding>>)
    ensures
        r is Some <==> crowd_fits(*m, *weights),
        r matches Some(v) ==> findings_view(v@) == crowded_part(*m, *weights),
{
    // owners of independent locals, in order of first appearance
    let mut owners: Vec<String> = Vec::new();
    let mut j: usize = 0;
    while j < m.scope.len()
        invariant
            j <= m.scope@.len(),
            strings_view(owners@) == crowd_owners_upto(*m, j as int),
        decreases m.scope@.len() - j,
    {
        let e = &m.scope[j];
        if e.independent {
            let o = owner_of(&e.entity);
            if !holds_string(&owners, &o) {
                let ghost before = strings_view(owners@);
                owners.push(o);
                assert(strings_view(owners@) =~= before.push(o@));
            }
        }
        j = j + 1;
    }
    let ghost all_owners = crowd_owners(*m);
    let mut out: Vec<Finding> = Vec::new();
    let mut k: usize = 0;
    while k < owners.len()
        invariant
            strings_view(owners@) == all_owners,
            all_owners == crowd_owners(*m),
            k <= owners@.len(),
            findings_view(out@) == crowded_upto(*m, *weights, k as int),
            forall|i: int| 0 <= i < k ==> crowd_debt(*m, *weights, #[trigger] all_owners[i]) <= u32::MAX,
            forall|j: int|
                0 <= j < m.scope@.len() && (#[trigger] m.scope@[j]).independent && strings_view(owners@.take(k as int)).contains(qual_owner(m.scope@[j].entity@))
                    ==> m.scope@[j].levels_excess + m.scope@[j].wedges <= u32::MAX && local_debt(*weights, m.scope@[j]) <= u32::MAX,
        decreases owners@.len() - k,
    {
        let o = &owners[k];
        assert(o@ == all_owners[k as int]);
        let mut sum: u32 = 0;
        let mut j: usize = 0;
        while j < m.scope.len()
            invariant
                j <= m.scope@.len(),
                k < all_owners.len(),
                o@ == all_owners[k as int],
                all_owners == crowd_owners(*m),
                sum == crowd_debt_upto(*m, *weights, o@, j as int),
                forall|i: int|
                    0 <= i < j && (#[trigger] m.scope@[i]).independent && qual_owner(m.scope@[i].entity@) == o@
                        ==> m.scope@[i].levels_excess + m.scope@[i].wedges <= u32::MAX && local_debt(*weights, m.scope@[i]) <= u32::MAX,
            decreases m.scope@.len() - j,
        {
            let e = &m.scope[j];
            if e.independent && owner_of(&e.entity) == *o {
                let t = match e.levels_excess.checked_add(e.wedges) {
                    Some(t) => t,
                    None => {
                        assert(!crowd_fits(*m, *weights));
                        return None;
                    },
                };
                let p = match weights.scope_level.checked_mul(t) {
                    Some(p) => p,
                    None => {
                        assert(!crowd_fits(*m, *weights));
                        return None;
                    },
                };
                sum = match sum.checked_add(p) {
                    Some(v) => v,
                    None => {
                        proof {
                            lemma_crowd_debt_mono(*m, *weights, o@, j + 1);
                            assert(crowd_debt_upto(*m, *weights, o@, j + 1) == sum + p);
                            assert(crowd_debt(*m, *weights, all_owners[k as int]) > u32::MAX);
                            assert(!crowd_fits(*m, *weights));
                        }
                        return None;
                    },
                };
            }
            j = j + 1;
        }
        assert(crowd_debt(*m, *weights, o@) == sum);
        let ghost before = findings_view(out@);
        if sum >= weights.crowded_scope {
            match first_entity(&m.entities, o) {
                Some(ei) => {
                    let ent = &m.entities[ei];
                    let kind = if ent.kind == RawKind::Method { EntityKind::Method } else { EntityKind::Function };
                    out.push(Finding {
                        file: m.file.clone(),
                        line: ent.line,
                        entity: o.clone(),
                        entity_kind: kind,
                        category: Category::Suggestion,
                        severity: Severity::Info,
                        score: 0,
                        reason: Reason::CrowdedScope(sum),
                    });
                    assert(findings_view(out@) =~= before.push(crowded_entry(*m, *weights, o@)->0));
                },
                None => {},
            }
        }
        proof {
            assert(strings_view(owners@.take(k + 1)) =~= strings_view(owners@.take(k as int)).push(o@));
        }
        k = k + 1;
    }
    proof {
        assert(strings_view(owners@.take(owners@.len() as int)) =~= all_owners);
        assert forall|j: int| 0 <= j < m.scope@.len() && (#[trigger] m.scope@[j]).independent implies
            m.scope@[j].levels_excess + m.scope@[j].wedges <= u32::MAX && local_debt(*weights, m.scope@[j]) <= u32::MAX by {
            lemma_owner_listed(*m, j, m.scope@.len() as int);
        }
    }
    Some(out)
}


// --- local reorder / narrow suggestions ------------------------------------------------

/// A local scattered far above its first use, at its own nesting level (one that could move into
/// a deeper block is left to the narrow suggestion).
pub open spec fn scattered(w: Weights, e: RawScope) -> bool {
    e.levels_excess == 0 && e.use_wedges >= w.reorder_wedges && e.first_use > e.line
}

/// The reorder suggestion for a scattered local.
pub open spec fn reorder_finding(file: Seq<char>, e: RawScope) -> FindingV {
    FindingV {
        file,
        line: e.line,
        entity: e.entity@,
        entity_kind: EntityKind::Binding,
        category: Category::Suggestion,
        severity: Severity::Info,
        score: 0,
        reason: ReasonV::ReorderBinding { first_use: e.first_use, wedged: e.use_wedges },
    }
}

/// Reorder suggestions for the first `k` locals.
pub open spec fn reorder_upto(m: RawModule, w: Weights, k: int) -> Seq<FindingV>
    decreases k,
{
    if k <= 0 {
        Seq::empty()
    } else {
        let rest = reorder_upto(m, w, k - 1);
        if scattered(w, m.scope@[k - 1]) { rest.push(reorder_finding(m.file@, m.scope@[k - 1])) } else { rest }
    }
}

/// A local used only in a block at least `narrow_levels` deeper than where it is declared.
pub open spec fn narrowable(w: Weights, e: RawScope) -> bool {
    e.levels_excess >= w.narrow_levels && e.first_use > e.line
}

/// The narrow suggestion for a narrowable local.
pub open spec fn narrow_finding(file: Seq<char>, e: RawScope) -> FindingV {
    FindingV {
        file,
        line: e.line,
        entity: e.entity@,
        entity_kind: EntityKind::Binding,
        category: Category::Suggestion,
        severity: Severity::Info,
        score: 0,
        reason: ReasonV::NarrowToBlock { first_use: e.first_use, levels: e.levels_excess },
    }
}

/// Narrow suggestions for the first `k` locals.
pub open spec fn narrow_upto(m: RawModule, w: Weights, k: int) -> Seq<FindingV>
    decreases k,
{
    if k <= 0 {
        Seq::empty()
    } else {
        let rest = narrow_upto(m, w, k - 1);
        if narrowable(w, m.scope@[k - 1]) { rest.push(narrow_finding(m.file@, m.scope@[k - 1])) } else { rest }
    }
}

/// `ReorderBinding` suggestions: a local declared at least `reorder_wedges` unrelated definitions
/// above its first use — those wedges are independent of it, so pushing the declaration down to
/// its first use is a safe, mechanical move.
fn reorder_suggestions(m: &RawModule, w: &Weights) -> (r: Vec<Finding>)
    ensures
        findings_view(r@) == reorder_upto(*m, *w, m.scope@.len() as int),
{
    let mut out: Vec<Finding> = Vec::new();
    let mut i: usize = 0;
    while i < m.scope.len()
        invariant
            i <= m.scope@.len(),
            findings_view(out@) == reorder_upto(*m, *w, i as int),
        decreases m.scope@.len() - i,
    {
        let s = &m.scope[i];
        if s.levels_excess == 0 && s.use_wedges >= w.reorder_wedges && s.first_use > s.line {
            let ghost before = findings_view(out@);
            out.push(Finding {
                file: m.file.clone(),
                line: s.line,
                entity: s.entity.clone(),
                entity_kind: EntityKind::Binding,
                category: Category::Suggestion,
                severity: Severity::Info,
                score: 0,
                reason: Reason::ReorderBinding { first_use: s.first_use, wedged: s.use_wedges },
            });
            assert(findings_view(out@) =~= before.push(reorder_finding(m.file@, m.scope@[i as int])));
        }
        i = i + 1;
    }
    out
}

/// `NarrowToBlock` suggestions: a local used only inside a block deeper than where it is declared,
/// so declaring it at its first use narrows its real scope (never into a loop: such state has no
/// excess levels).
fn narrow_suggestions(m: &RawModule, w: &Weights) -> (r: Vec<Finding>)
    ensures
        findings_view(r@) == narrow_upto(*m, *w, m.scope@.len() as int),
{
    let mut out: Vec<Finding> = Vec::new();
    let mut i: usize = 0;
    while i < m.scope.len()
        invariant
            i <= m.scope@.len(),
            findings_view(out@) == narrow_upto(*m, *w, i as int),
        decreases m.scope@.len() - i,
    {
        let s = &m.scope[i];
        if s.levels_excess >= w.narrow_levels && s.first_use > s.line {
            let ghost before = findings_view(out@);
            out.push(Finding {
                file: m.file.clone(),
                line: s.line,
                entity: s.entity.clone(),
                entity_kind: EntityKind::Binding,
                category: Category::Suggestion,
                severity: Severity::Info,
                score: 0,
                reason: Reason::NarrowToBlock { first_use: s.first_use, levels: s.levels_excess },
            });
            assert(findings_view(out@) =~= before.push(narrow_finding(m.file@, m.scope@[i as int])));
        }
        i = i + 1;
    }
    out
}

// --- the pipeline ----------------------------------------------------------------------

/// The definition graph of a module.
pub open spec fn module_graph(m: RawModule) -> DefGraphV {
    graph_of(m.file@, m.entities@, m.def_edges@)
}

/// The weights with the reading convention left out: every part of the analysis but the
/// declare-order warnings reads only these.
pub open spec fn order_free(w: Weights) -> Weights {
    Weights { order: DeclOrder::BottomUp, ..w }
}

/// Every weighted score of a module fits in a `u32`.
pub open spec fn module_fits(m: RawModule, w: Weights) -> bool {
    let g = module_graph(m);
    let w0 = order_free(w);
    &&& scope_fits(m, w0)
    &&& placement_fits(g, w0)
    &&& extract_fits(g, placement_debt(g, w0).len() > 0)
    &&& crowd_fits(m, w0)
}

/// The findings of one module that come before the declare-order warnings: scope debt,
/// use-before-binding, placement.
pub open spec fn findings_before_order(m: RawModule, w0: Weights) -> Seq<FindingV> {
    let g = module_graph(m);
    scope_part_upto(m, w0, m.scope@.len() as int) + decl_part(m) + placement_part(g, w0)
}

/// The findings of one module that come after the declare-order warnings: the suggestions
/// (extract, crowded, reorder, narrow, definition reorder).
pub open spec fn findings_after_order(m: RawModule, w0: Weights) -> Seq<FindingV> {
    let g = module_graph(m);
    extract_part(g, w0, placement_debt(g, w0).len() > 0) + crowded_part(m, w0) + reorder_upto(m, w0, m.scope@.len() as int)
        + narrow_upto(m, w0, m.scope@.len() as int) + def_reorder_part(g, w0)
}

/// The findings of one module, before sorting: scope-debt, use-before-binding, placement,
/// declare-order, then the suggestions (extract, crowded, reorder, narrow, definition reorder).
pub open spec fn module_findings(m: RawModule, w: Weights) -> Seq<FindingV> {
    findings_before_order(m, order_free(w)) + forward_refs(module_graph(m), w.order) + findings_after_order(
        m,
        order_free(w),
    )
}

/// The scope debt of `a + b` is that of `a` plus that of `b`.
pub proof fn lemma_debt_total_concat(a: Seq<FindingV>, b: Seq<FindingV>)
    ensures
        debt_total(a + b) == debt_total(a) + debt_total(b),
    decreases b.len(),
{
    if b.len() == 0 {
        assert(a + b =~= a);
    } else {
        lemma_debt_total_concat(a, b.drop_last());
        assert((a + b).drop_last() =~= a + b.drop_last());
        assert(debt_total_upto(a + b, (a + b).len() as int) == debt_total_upto(a + b.drop_last(), (a + b).len() - 1)
            + (if b.last().category == Category::ScopeDebt { b.last().score as int } else { 0 })) by {
            lemma_debt_total_prefix(a + b, (a + b).len() - 1);
        }
        assert(debt_total_upto(b, b.len() as int) == debt_total_upto(b.drop_last(), b.len() - 1) + (if b.last().category
            == Category::ScopeDebt { b.last().score as int } else { 0 })) by {
            lemma_debt_total_prefix(b, b.len() - 1);
        }
    }
}

/// The debt of the first `n` findings does not look past them.
proof fn lemma_debt_total_prefix(s: Seq<FindingV>, n: int)
    requires
        0 <= n <= s.len(),
    ensures
        debt_total_upto(s, n) == debt_total_upto(s.take(n), n),
    decreases n,
{
    if n > 0 {
        lemma_debt_total_prefix(s, n - 1);
        lemma_debt_total_prefix(s.take(n), n - 1);
        assert(s.take(n).take(n - 1) =~= s.take(n - 1));
    }
}

/// Declare-order warnings carry no scope debt.
proof fn lemma_forward_refs_no_debt(g: DefGraphV, order: DeclOrder, n: int)
    requires
        0 <= n <= forward_refs(g, order).len(),
    ensures
        debt_total_upto(forward_refs(g, order), n) == 0,
    decreases n,
{
    if n > 0 {
        lemma_forward_refs_no_debt(g, order, n - 1);
    }
}

/// Changing the reading convention changes only the declare-order warnings: under either
/// convention a module's findings are the same findings around that convention's own warnings,
/// it fits under one exactly when it fits under the other, and its scope debt is the same.
pub proof fn law_order_only_moves_declare_order(m: RawModule, w: Weights, o: DeclOrder)
    ensures
        module_fits(m, w) == module_fits(m, Weights { order: o, ..w }),
        exists|head: Seq<FindingV>, tail: Seq<FindingV>|
            module_findings(m, w) == head + forward_refs(module_graph(m), w.order) + tail && module_findings(
                m,
                Weights { order: o, ..w },
            ) == head + forward_refs(module_graph(m), o) + tail,
        debt_total(module_findings(m, w)) == debt_total(module_findings(m, Weights { order: o, ..w })),
{
    let w2 = Weights { order: o, ..w };
    assert(order_free(w2) == order_free(w));
    let g = module_graph(m);
    let head = findings_before_order(m, order_free(w));
    let tail = findings_after_order(m, order_free(w));
    assert(module_findings(m, w) == head + forward_refs(g, w.order) + tail);
    assert(module_findings(m, w2) == head + forward_refs(g, o) + tail);
    lemma_forward_refs_no_debt(g, w.order, forward_refs(g, w.order).len() as int);
    lemma_forward_refs_no_debt(g, o, forward_refs(g, o).len() as int);
    lemma_debt_total_concat(head, forward_refs(g, w.order));
    lemma_debt_total_concat(head + forward_refs(g, w.order), tail);
    lemma_debt_total_concat(head, forward_refs(g, o));
    lemma_debt_total_concat(head + forward_refs(g, o), tail);
}

/// The findings of the first `k` modules, before sorting.
pub open spec fn project_findings_upto(modules: Seq<RawModule>, w: Weights, k: int) -> Seq<FindingV>
    decreases k,
{
    if k <= 0 {
        Seq::empty()
    } else {
        project_findings_upto(modules, w, k - 1) + module_findings(modules[k - 1], w)
    }
}

/// The findings of a project: every module's, stably sorted by (file, line, entity).
pub open spec fn project_findings(modules: Seq<RawModule>, w: Weights) -> Seq<FindingV> {
    stable_sorted(project_findings_upto(modules, w, modules.len() as int))
}

/// Every weighted score of every module fits in a `u32`.
pub open spec fn project_fits(modules: Seq<RawModule>, w: Weights) -> bool {
    forall|i: int| 0 <= i < modules.len() ==> module_fits(#[trigger] modules[i], w)
}

/// The findings of one module (unsorted); `None` when a weighted score overflows a `u32`.
fn module_findings_of(m: &RawModule, weights: &Weights) -> (r: Option<Vec<Finding>>)
    ensures
        r is Some <==> module_fits(*m, *weights),
        r matches Some(v) ==> findings_view(v@) == module_findings(*m, *weights),
{
    // every part but the declare-order warnings runs on the weights without the convention
    let w0 = Weights { order: DeclOrder::BottomUp, ..*weights };
    assert(w0 == order_free(*weights));
    let w0 = &w0;
    let mut findings: Vec<Finding> = match scope_findings(m, w0) {
        Some(v) => v,
        None => return None,
    };
    let mut decl = decl_warning_findings(m);
    findings.append(&mut decl);
    let dg = DefGraph::build(m.file.as_str(), &m.entities, &m.def_edges);
    let mut placement = match placement_findings(&dg, w0) {
        Some(v) => v,
        None => return None,
    };
    let has_placement_debt = placement.len() > 0;
    proof {
        assert(findings_view(placement@).len() == placement@.len());
    }
    findings.append(&mut placement);
    let mut order = declorder::warnings(&dg, weights.order);
    findings.append(&mut order);
    let mut extract = match extract_suggestions(&dg, has_placement_debt, w0) {
        Some(v) => v,
        None => return None,
    };
    findings.append(&mut extract);
    let mut crowded = match crowded_suggestions(m, w0) {
        Some(v) => v,
        None => return None,
    };
    findings.append(&mut crowded);
    let mut reorder = reorder_suggestions(m, w0);
    findings.append(&mut reorder);
    let mut narrow = narrow_suggestions(m, w0);
    findings.append(&mut narrow);
    let mut def_reorder = def_reorder_suggestions(&dg, w0);
    findings.append(&mut def_reorder);
    proof {
        assert(findings_view(findings@) =~= module_findings(*m, *weights));
    }
    Some(findings)
}

/// Run the whole pipeline over a project and return findings sorted by (file, line, entity);
/// `None` when some weighted score overflows a `u32`.
pub fn analyze_checked(modules: &[RawModule], weights: &Weights) -> (r: Option<Vec<Finding>>)
    ensures
        r is Some <==> project_fits(modules@, *weights),
        r matches Some(v) ==> findings_view(v@) == project_findings(modules@, *weights),
{
    let mut findings: Vec<Finding> = Vec::new();
    let mut k: usize = 0;
    while k < modules.len()
        invariant
            k <= modules@.len(),
            findings_view(findings@) == project_findings_upto(modules@, *weights, k as int),
            forall|i: int| 0 <= i < k ==> module_fits(#[trigger] modules@[i], *weights),
        decreases modules@.len() - k,
    {
        let mut mf = match module_findings_of(&modules[k], weights) {
            Some(v) => v,
            None => return None,
        };
        let ghost before = findings_view(findings@);
        findings.append(&mut mf);
        assert(findings_view(findings@) =~= before + module_findings(modules@[k as int], *weights));
        k = k + 1;
    }
    sort_findings(&mut findings);
    Some(findings)
}

/// Run the whole pipeline over a project and return findings sorted by (file, line, entity).
/// Everything is per-module (locality is same-file): the scope graph's outputs plus the
/// definition graph derived from each module's entities and edges.
pub fn analyze(modules: &[RawModule], weights: &Weights) -> (r: Vec<Finding>)
    requires
        project_fits(modules@, *weights),
    ensures
        findings_view(r@) == project_findings(modules@, *weights),
{
    match analyze_checked(modules, weights) {
        Some(v) => v,
        None => Vec::new(),
    }
}

} // verus!
