//! Rendering: turn the analysis's findings (and the totals derived from them) into output. The
//! analysis never formats strings; adding a format is a new renderer here.

pub mod json;
pub mod text;

use vstd::prelude::*;

use crate::engine::finding::{Category, Finding, FindingV, findings_view};
use crate::engine::model::EntityKind;
use crate::text::{lemma_str_lt_order, parent_opt, qual_parent_opt, str_less, str_lt};

verus! {

/// The output format.
#[derive(Clone, Copy, Debug, PartialEq, Eq, Structural)]
pub enum Format {
    Text,
    Json,
}

/// What a ranking rolls scope-debt up into.
#[derive(Clone, Copy, Debug, PartialEq, Eq, Structural)]
pub enum By {
    Function,
    Class,
    File,
}

impl By {
    /// The word a ranking's header uses for this rollup.
    pub fn label(self) -> (r: &'static str)
        ensures
            r@ == by_label(self),
    {
        match self {
            By::Function => "function",
            By::Class => "class",
            By::File => "file",
        }
    }
}

pub open spec fn by_label(by: By) -> Seq<char> {
    match by {
        By::Function => "function"@,
        By::Class => "class"@,
        By::File => "file"@,
    }
}

/// Which report to show.
#[derive(Clone, Copy, Debug, PartialEq, Eq, Structural)]
pub enum Report {
    /// Project totals + per-file rollup.
    Summary,
    /// Every finding, in the given order.
    All,
    /// The top `n` worst offenders, ranked by combined score.
    Top { n: usize, by: By },
}

/// The entity a scope-debt finding is charged to in a rollup: its file; its function (a binding
/// rolls up into its owning function); or its class (a method rolls up into its class).
pub open spec fn rank_key(f: FindingV, by: By) -> Option<Seq<char>> {
    match by {
        By::File => Some(f.file),
        By::Function => match f.entity_kind {
            EntityKind::Function | EntityKind::Method | EntityKind::Module => Some(f.entity),
            EntityKind::Binding => qual_parent_opt(f.entity),
            EntityKind::Class => None,
        },
        By::Class => match f.entity_kind {
            EntityKind::Class => Some(f.entity),
            EntityKind::Method => qual_parent_opt(f.entity),
            _ => None,
        },
    }
}

/// `f` is a scope-debt finding charged to `k`.
pub open spec fn counted(f: FindingV, by: By, k: Seq<char>) -> bool {
    f.category == Category::ScopeDebt && rank_key(f, by) == Some(k)
}

/// The score charged to `k` by the first `n` findings.
pub open spec fn key_total_upto(fs: Seq<FindingV>, by: By, k: Seq<char>, n: int) -> int
    decreases n,
{
    if n <= 0 {
        0
    } else {
        key_total_upto(fs, by, k, n - 1) + if counted(fs[n - 1], by, k) { fs[n - 1].score as int } else { 0 }
    }
}

pub open spec fn key_total(fs: Seq<FindingV>, by: By, k: Seq<char>) -> int {
    key_total_upto(fs, by, k, fs.len() as int)
}

/// Some finding is charged to `k`.
pub open spec fn keyed(fs: Seq<FindingV>, by: By, k: Seq<char>) -> bool {
    exists|i: int| 0 <= i < fs.len() && counted(#[trigger] fs[i], by, k)
}

/// The scope-debt total of the first `n` findings.
pub open spec fn debt_total_upto(fs: Seq<FindingV>, n: int) -> int
    decreases n,
{
    if n <= 0 {
        0
    } else {
        debt_total_upto(fs, n - 1) + if fs[n - 1].category == Category::ScopeDebt { fs[n - 1].score as int } else { 0 }
    }
}

/// The project's scope-debt total.
pub open spec fn debt_total(fs: Seq<FindingV>) -> int {
    debt_total_upto(fs, fs.len() as int)
}

/// The number of findings of category `c` among the first `n`.
pub open spec fn count_upto(fs: Seq<FindingV>, c: Category, n: int) -> int
    decreases n,
{
    if n <= 0 {
        0
    } else {
        count_upto(fs, c, n - 1) + if fs[n - 1].category == c { 1int } else { 0int }
    }
}

/// Ranking order: higher score first, then name.
pub open spec fn rank_before(a: (Seq<char>, u32), b: (Seq<char>, u32)) -> bool {
    a.1 > b.1 || (a.1 == b.1 && str_lt(a.0, b.0))
}

/// `r` is the rollup of `fs` by `by`: every charged key once, with its total (zero totals only
/// when `keep_zero`), in ranking order.
pub open spec fn is_tally(fs: Seq<FindingV>, by: By, keep_zero: bool, r: Seq<(Seq<char>, u32)>) -> bool {
    &&& forall|i: int, j: int| 0 <= i < j < r.len() ==> rank_before(#[trigger] r[i], #[trigger] r[j])
    &&& forall|i: int|
        0 <= i < r.len() ==> keyed(fs, by, (#[trigger] r[i]).0) && r[i].1 == key_total(fs, by, r[i].0) && (keep_zero
            || r[i].1 > 0)
    &&& forall|k: Seq<char>|
        keyed(fs, by, k) && (keep_zero || key_total(fs, by, k) > 0) ==> exists|i: int| 0 <= i < r.len() && (#[trigger] r[i]).0 == k
}

/// The views of `(name, score)` pairs.
pub open spec fn scores_view(s: Seq<(String, u32)>) -> Seq<(Seq<char>, u32)> {
    s.map_values(|e: (String, u32)| (e.0@, e.1))
}

proof fn lemma_rank_order(a: (Seq<char>, u32), b: (Seq<char>, u32), c: (Seq<char>, u32))
    ensures
        !rank_before(a, a),
        rank_before(a, b) ==> !rank_before(b, a),
        a.0 != b.0 ==> rank_before(a, b) || rank_before(b, a),
        rank_before(a, b) && rank_before(b, c) ==> rank_before(a, c),
{
    lemma_str_lt_order(a.0, b.0, c.0);
    lemma_str_lt_order(b.0, a.0, c.0);
}

proof fn lemma_totals_bounded(fs: Seq<FindingV>, by: By, k: Seq<char>, n: int)
    requires
        0 <= n <= fs.len(),
    ensures
        0 <= key_total_upto(fs, by, k, n) <= debt_total_upto(fs, n),
        debt_total_upto(fs, n) <= debt_total(fs),
    decreases fs.len() - n,
{
    lemma_key_total_le(fs, by, k, n);
    if n < fs.len() {
        lemma_totals_bounded(fs, by, k, n + 1);
    }
}

proof fn lemma_key_total_le(fs: Seq<FindingV>, by: By, k: Seq<char>, n: int)
    ensures
        0 <= key_total_upto(fs, by, k, n) <= debt_total_upto(fs, n),
    decreases n,
{
    if n > 0 {
        lemma_key_total_le(fs, by, k, n - 1);
    }
}

/// The rollup key of one finding (see [`rank_key`]).
fn key_of(f: &Finding, by: By) -> (r: Option<String>)
    ensures
        r matches Some(k) ==> rank_key(f@, by) == Some(k@),
        r is None ==> rank_key(f@, by) is None,
{
    match by {
        By::File => Some(f.file.clone()),
        By::Function => match f.entity_kind {
            EntityKind::Function | EntityKind::Method | EntityKind::Module => Some(f.entity.clone()),
            EntityKind::Binding => parent_opt(f.entity.as_str()),
            EntityKind::Class => None,
        },
        By::Class => match f.entity_kind {
            EntityKind::Class => Some(f.entity.clone()),
            EntityKind::Method => parent_opt(f.entity.as_str()),
            _ => None,
        },
    }
}

/// Does `a` rank before `b`?
fn ranks_before(a: &(String, u32), b: &(String, u32)) -> (r: bool)
    ensures
        r == rank_before((a.0@, a.1), (b.0@, b.1)),
{
    a.1 > b.1 || (a.1 == b.1 && str_less(a.0.as_str(), b.0.as_str()))
}

/// The rollup of `findings` by `by` (see [`is_tally`]).
#[verifier::rlimit(50)]
fn tally(findings: &[Finding], by: By, keep_zero: bool) -> (r: Vec<(String, u32)>)
    requires
        debt_total(findings_view(findings@)) <= u32::MAX,
    ensures
        is_tally(findings_view(findings@), by, keep_zero, scores_view(r@)),
{
    let ghost fs = findings_view(findings@);
    let mut acc: Vec<(String, u32)> = Vec::new();
    let mut i: usize = 0;
    while i < findings.len()
        invariant
            fs == findings_view(findings@),
            debt_total(fs) <= u32::MAX,
            i <= fs.len(),
            forall|a: int, b: int| 0 <= a < b < acc@.len() ==> (#[trigger] acc@[a]).0@ != (#[trigger] acc@[b]).0@,
            forall|a: int|
                0 <= a < acc@.len() ==> (exists|j: int| 0 <= j < i && counted(#[trigger] fs[j], by, (#[trigger] acc@[a]).0@))
                    && acc@[a].1 == key_total_upto(fs, by, acc@[a].0@, i as int),
            forall|k: Seq<char>, j: int|
                0 <= j < i && #[trigger] counted(fs[j], by, k) ==> exists|a: int| 0 <= a < acc@.len() && (#[trigger] acc@[a]).0@ == k,
        decreases fs.len() - i,
    {
        let f = &findings[i];
        assert(fs[i as int] == f@);
        if f.category == Category::ScopeDebt {
            match key_of(f, by) {
                Some(k) => {
                    let mut a: usize = 0;
                    while a < acc.len() && !(acc[a].0 == k)
                        invariant
                            a <= acc@.len(),
                            forall|b: int| 0 <= b < a ==> (#[trigger] acc@[b]).0@ != k@,
                        decreases acc@.len() - a,
                    {
                        a = a + 1;
                    }
                    proof {
                        lemma_totals_bounded(fs, by, k@, i + 1);
                    }
                    let ghost old_acc = acc@;
                    if a < acc.len() {
                        let name = acc[a].0.clone();
                        let v = acc[a].1;
                        assert(v + f.score == key_total_upto(fs, by, k@, i + 1));
                        acc.set(a, (name, v + f.score));
                        proof {
                            assert forall|b: int| 0 <= b < acc@.len() implies (exists|j: int|
                                0 <= j < i + 1 && counted(#[trigger] fs[j], by, (#[trigger] acc@[b]).0@)) && acc@[b].1
                                == key_total_upto(fs, by, acc@[b].0@, i + 1) by {
                                if b != a {
                                    assert(acc@[b] == old_acc[b]);
                                    let j = choose|j: int| 0 <= j < i && counted(#[trigger] fs[j], by, old_acc[b].0@);
                                    assert(counted(fs[j], by, acc@[b].0@));
                                } else {
                                    assert(counted(fs[i as int], by, acc@[b].0@));
                                }
                            }
                            assert forall|kk: Seq<char>, j: int|
                                0 <= j < i + 1 && #[trigger] counted(fs[j], by, kk) implies exists|b: int|
                                0 <= b < acc@.len() && (#[trigger] acc@[b]).0@ == kk by {
                                if j < i {
                                    let b = choose|b: int| 0 <= b < old_acc.len() && (#[trigger] old_acc[b]).0@ == kk;
                                    assert(acc@[b].0@ == old_acc[b].0@);
                                } else {
                                    assert(acc@[a as int].0@ == kk);
                                }
                            }
                        }
                    } else {
                        assert(f.score == key_total_upto(fs, by, k@, i + 1)) by {
                            if key_total_upto(fs, by, k@, i as int) != 0 {
                                lemma_total_zero(fs, by, k@, i as int);
                                let j = choose|j: int| 0 <= j < i && counted(#[trigger] fs[j], by, k@);
                            }
                        }
                        acc.push((k, f.score));
                        proof {
                            assert forall|b: int| 0 <= b < acc@.len() implies (exists|j: int|
                                0 <= j < i + 1 && counted(#[trigger] fs[j], by, (#[trigger] acc@[b]).0@)) && acc@[b].1
                                == key_total_upto(fs, by, acc@[b].0@, i + 1) by {
                                if b < old_acc.len() {
                                    assert(acc@[b] == old_acc[b]);
                                    let j = choose|j: int| 0 <= j < i && counted(#[trigger] fs[j], by, old_acc[b].0@);
                                    assert(counted(fs[j], by, acc@[b].0@));
                                    assert(acc@[b].0@ != k@);
                                } else {
                                    assert(counted(fs[i as int], by, acc@[b].0@));
                                }
                            }
                            assert forall|kk: Seq<char>, j: int|
                                0 <= j < i + 1 && #[trigger] counted(fs[j], by, kk) implies exists|b: int|
                                0 <= b < acc@.len() && (#[trigger] acc@[b]).0@ == kk by {
                                if j < i {
                                    let b = choose|b: int| 0 <= b < old_acc.len() && (#[trigger] old_acc[b]).0@ == kk;
                                    assert(acc@[b].0@ == old_acc[b].0@);
                                } else {
                                    assert(acc@[old_acc.len() as int].0@ == kk);
                                }
                            }
                        }
                    }
                },
                None => {
                    proof {
                        assert forall|b: int| 0 <= b < acc@.len() implies acc@[b].1 == key_total_upto(fs, by, acc@[b].0@, i + 1) by {}
                        assert forall|b: int| 0 <= b < acc@.len() implies (exists|j: int|
                            0 <= j < i + 1 && counted(#[trigger] fs[j], by, (#[trigger] acc@[b]).0@)) by {
                            let j = choose|j: int| 0 <= j < i && counted(#[trigger] fs[j], by, acc@[b].0@);
                        }
                    }
                },
            }
        } else {
            proof {
                assert forall|b: int| 0 <= b < acc@.len() implies (exists|j: int|
                    0 <= j < i + 1 && counted(#[trigger] fs[j], by, (#[trigger] acc@[b]).0@)) by {
                    let j = choose|j: int| 0 <= j < i && counted(#[trigger] fs[j], by, acc@[b].0@);
                }
            }
        }
        i = i + 1;
    }
    let out = sort_ranked(&acc, keep_zero);
    proof {
        let av = scores_view(acc@);
        let r = scores_view(out@);
        assert forall|i: int|
            0 <= i < r.len() implies keyed(fs, by, (#[trigger] r[i]).0) && r[i].1 == key_total(fs, by, r[i].0) && (keep_zero
                || r[i].1 > 0) by {
            let b = choose|b: int| 0 <= b < av.len() && av[b] == r[i];
            assert(av[b] == (acc@[b].0@, acc@[b].1));
            let j = choose|j: int| 0 <= j < i && counted(#[trigger] fs[j], by, acc@[b].0@);
        }
        assert forall|k: Seq<char>|
            keyed(fs, by, k) && (keep_zero || key_total(fs, by, k) > 0) implies exists|i: int|
            0 <= i < r.len() && (#[trigger] r[i]).0 == k by {
            let j = choose|j: int| 0 <= j < fs.len() && counted(#[trigger] fs[j], by, k);
            let b = choose|b: int| 0 <= b < acc@.len() && (#[trigger] acc@[b]).0@ == k;
            assert(av[b] == (acc@[b].0@, acc@[b].1));
            let a = choose|a: int| 0 <= a < r.len() && r[a] == av[b];
        }
    }
    out
}

/// The entries of `acc` to keep (all, or those with a nonzero score), in ranking order.
fn sort_ranked(acc: &Vec<(String, u32)>, keep_zero: bool) -> (out: Vec<(String, u32)>)
    requires
        forall|a: int, b: int| 0 <= a < b < acc@.len() ==> (#[trigger] acc@[a]).0@ != (#[trigger] acc@[b]).0@,
    ensures
        ranked(out@),
        forall|a: int|
            0 <= a < out@.len() ==> scores_view(acc@).contains(#[trigger] scores_view(out@)[a]) && (keep_zero
                || out@[a].1 > 0),
        forall|b: int|
            0 <= b < acc@.len() && (keep_zero || acc@[b].1 > 0) ==> scores_view(out@).contains(#[trigger] scores_view(acc@)[b]),
{
    let ghost av = scores_view(acc@);
    let mut out: Vec<(String, u32)> = Vec::new();
    let mut t: usize = 0;
    while t < acc.len()
        invariant
            av == scores_view(acc@),
            forall|a: int, b: int| 0 <= a < b < acc@.len() ==> (#[trigger] acc@[a]).0@ != (#[trigger] acc@[b]).0@,
            t <= acc@.len(),
            ranked(out@),
            forall|a: int|
                0 <= a < out@.len() ==> av.take(t as int).contains(#[trigger] scores_view(out@)[a]) && (keep_zero
                    || out@[a].1 > 0),
            forall|b: int| 0 <= b < t && (keep_zero || acc@[b].1 > 0) ==> scores_view(out@).contains(#[trigger] av[b]),
        decreases acc@.len() - t,
    {
        let ghost ov = scores_view(out@);
        if keep_zero || acc[t].1 > 0 {
            let e = (acc[t].0.clone(), acc[t].1);
            assert(av[t as int] == (e.0@, e.1));
            proof {
                assert forall|q: int| 0 <= q < out@.len() implies (#[trigger] out@[q]).0@ != e.0@ by {
                    assert(ov[q] == (out@[q].0@, out@[q].1));
                    let b = choose|b: int| 0 <= b < t && av.take(t as int)[b] == ov[q];
                    assert(av[b] == (acc@[b].0@, acc@[b].1));
                }
            }
            let p = insert_ranked(&mut out, e);
            proof {
                let nv = scores_view(out@);
                assert(nv =~= ov.insert(p as int, (e.0@, e.1)));
                assert forall|a: int|
                    0 <= a < out@.len() implies av.take(t + 1).contains(#[trigger] scores_view(out@)[a]) && (keep_zero
                        || out@[a].1 > 0) by {
                    if a < p {
                        let b = choose|b: int| 0 <= b < t && av.take(t as int)[b] == ov[a];
                        assert(av.take(t + 1)[b] == nv[a]);
                    } else if a == p {
                        assert(av.take(t + 1)[t as int] == nv[a]);
                    } else {
                        let b = choose|b: int| 0 <= b < t && av.take(t as int)[b] == ov[a - 1];
                        assert(av.take(t + 1)[b] == nv[a]);
                    }
                }
                assert forall|b: int| 0 <= b < t + 1 && (keep_zero || acc@[b].1 > 0) implies nv.contains(#[trigger] av[b]) by {
                    if b < t {
                        let a = choose|a: int| 0 <= a < ov.len() && ov[a] == av[b];
                        if a < p {
                            assert(nv[a] == av[b]);
                        } else {
                            assert(nv[a + 1] == av[b]);
                        }
                    } else {
                        assert(nv[p as int] == av[b]);
                    }
                }
            }
        } else {
            proof {
                assert forall|a: int|
                    0 <= a < out@.len() implies av.take(t + 1).contains(#[trigger] scores_view(out@)[a]) by {
                    let b = choose|b: int| 0 <= b < t && av.take(t as int)[b] == ov[a];
                    assert(av.take(t + 1)[b] == ov[a]);
                }
            }
        }
        t = t + 1;
    }
    proof {
        assert(av.take(acc@.len() as int) =~= av);
    }
    out
}


/// The entries are in strictly increasing ranking order.
spec fn ranked(s: Seq<(String, u32)>) -> bool {
    forall|a: int, b: int| 0 <= a < b < s.len() ==> rank_before((#[trigger] s[a].0@, s[a].1), (#[trigger] s[b].0@, s[b].1))
}

/// Insert `e` (whose name is not yet present) at its ranking position; returns the position.
fn insert_ranked(out: &mut Vec<(String, u32)>, e: (String, u32)) -> (p: usize)
    requires
        ranked(old(out)@),
        forall|q: int| 0 <= q < old(out)@.len() ==> (#[trigger] old(out)@[q]).0@ != e.0@,
    ensures
        p <= old(out)@.len(),
        final(out)@ == old(out)@.insert(p as int, e),
        ranked(final(out)@),
{
    let mut p: usize = 0;
    while p < out.len() && !ranks_before(&e, &out[p])
        invariant
            p <= out@.len(),
            forall|q: int| 0 <= q < p ==> !rank_before((e.0@, e.1), (#[trigger] out@[q].0@, out@[q].1)),
        decreases out@.len() - p,
    {
        p = p + 1;
    }
    let ghost old_out = out@;
    proof {
        assert forall|q: int| 0 <= q < p implies rank_before((#[trigger] old_out[q].0@, old_out[q].1), (e.0@, e.1)) by {
            lemma_rank_order((old_out[q].0@, old_out[q].1), (e.0@, e.1), (e.0@, e.1));
        }
        assert forall|q: int| p <= q < old_out.len() implies rank_before((e.0@, e.1), (#[trigger] old_out[q].0@, old_out[q].1)) by {
            if q > p {
                lemma_rank_order((e.0@, e.1), (old_out[p as int].0@, old_out[p as int].1), (old_out[q].0@, old_out[q].1));
            }
        }
    }
    out.insert(p, e);
    proof {
        assert forall|a: int, b: int|
            0 <= a < b < out@.len() implies rank_before((#[trigger] out@[a].0@, out@[a].1), (#[trigger] out@[b].0@, out@[b].1)) by {
            if b < p {
                assert(out@[a] == old_out[a] && out@[b] == old_out[b]);
            } else if b == p {
                assert(out@[a] == old_out[a]);
            } else if a < p {
                assert(out@[a] == old_out[a] && out@[b] == old_out[b - 1]);
                lemma_rank_order((old_out[a].0@, old_out[a].1), (e.0@, e.1), (old_out[b - 1].0@, old_out[b - 1].1));
            } else if a == p {
                assert(out@[b] == old_out[b - 1]);
            } else {
                assert(out@[a] == old_out[a - 1] && out@[b] == old_out[b - 1]);
            }
        }
    }
    p
}

proof fn lemma_total_zero(fs: Seq<FindingV>, by: By, k: Seq<char>, n: int)
    requires
        key_total_upto(fs, by, k, n) != 0,
    ensures
        exists|j: int| 0 <= j < n && counted(#[trigger] fs[j], by, k),
    decreases n,
{
    if n > 0 && !counted(fs[n - 1], by, k) {
        lemma_total_zero(fs, by, k, n - 1);
    }
}

/// The scores of a rollup, added up.
pub open spec fn scores_sum(r: Seq<(Seq<char>, u32)>) -> int
    decreases r.len(),
{
    if r.len() == 0 {
        0
    } else {
        scores_sum(r.drop_last()) + r.last().1
    }
}

/// The per-file totals of `keys` over the first `n` findings, added up.
pub open spec fn file_totals_upto(keys: Seq<Seq<char>>, fs: Seq<FindingV>, n: int) -> int
    decreases keys.len(),
{
    if keys.len() == 0 {
        0
    } else {
        file_totals_upto(keys.drop_last(), fs, n) + key_total_upto(fs, By::File, keys.last(), n)
    }
}

/// Adding finding `n` adds its score to the per-file totals of distinct `keys` once, when it is
/// scope debt charged to one of them.
proof fn lemma_file_totals_step(keys: Seq<Seq<char>>, fs: Seq<FindingV>, n: int)
    requires
        0 <= n < fs.len(),
        forall|i: int, j: int| 0 <= i < j < keys.len() ==> keys[i] != keys[j],
    ensures
        file_totals_upto(keys, fs, n + 1) == file_totals_upto(keys, fs, n) + if fs[n].category == Category::ScopeDebt
            && keys.contains(fs[n].file) {
            fs[n].score as int
        } else {
            0
        },
    decreases keys.len(),
{
    if keys.len() > 0 {
        let init = keys.drop_last();
        lemma_file_totals_step(init, fs, n);
        if keys.last() == fs[n].file {
            assert(!init.contains(fs[n].file)) by {
                if init.contains(fs[n].file) {
                    let i = choose|i: int| 0 <= i < init.len() && init[i] == fs[n].file;
                    assert(keys[i] == keys[keys.len() - 1]);
                }
            }
        } else {
            assert(keys.contains(fs[n].file) == init.contains(fs[n].file)) by {
                if keys.contains(fs[n].file) {
                    let i = choose|i: int| 0 <= i < keys.len() && keys[i] == fs[n].file;
                    assert(init[i] == fs[n].file);
                }
            }
        }
    }
}

/// Over distinct keys that include the file of every scope-debt finding, the per-file totals
/// add up to the whole scope debt.
proof fn lemma_file_totals(keys: Seq<Seq<char>>, fs: Seq<FindingV>, n: int)
    requires
        0 <= n <= fs.len(),
        forall|i: int, j: int| 0 <= i < j < keys.len() ==> keys[i] != keys[j],
        forall|j: int| 0 <= j < fs.len() && fs[j].category == Category::ScopeDebt ==> keys.contains(#[trigger] fs[j].file),
    ensures
        file_totals_upto(keys, fs, n) == debt_total_upto(fs, n),
    decreases n,
{
    if n == 0 {
        lemma_file_totals_zero(keys, fs);
    } else {
        lemma_file_totals(keys, fs, n - 1);
        lemma_file_totals_step(keys, fs, n - 1);
    }
}

proof fn lemma_file_totals_zero(keys: Seq<Seq<char>>, fs: Seq<FindingV>)
    ensures
        file_totals_upto(keys, fs, 0) == 0,
    decreases keys.len(),
{
    if keys.len() > 0 {
        lemma_file_totals_zero(keys.drop_last(), fs);
    }
}

/// The per-file rollup adds up to the headline total: the scores of a rollup by file (zero
/// totals kept, as the summary does) sum to the whole scope debt of the findings.
pub proof fn law_file_rollup_sums_to_total(fs: Seq<FindingV>, r: Seq<(Seq<char>, u32)>)
    requires
        is_tally(fs, By::File, true, r),
    ensures
        scores_sum(r) == debt_total(fs),
{
    let keys = r.map_values(|e: (Seq<char>, u32)| e.0);
    assert forall|i: int, j: int| 0 <= i < j < keys.len() implies keys[i] != keys[j] by {
        assert(rank_before(r[i], r[j]));
        if keys[i] == keys[j] {
            assert(r[i].1 == key_total(fs, By::File, r[i].0));
            assert(r[j].1 == key_total(fs, By::File, r[j].0));
            lemma_str_lt_order(r[i].0, r[i].0, r[i].0);
        }
    }
    assert forall|j: int| 0 <= j < fs.len() && fs[j].category == Category::ScopeDebt implies keys.contains(
        #[trigger] fs[j].file,
    ) by {
        assert(counted(fs[j], By::File, fs[j].file));
        assert(keyed(fs, By::File, fs[j].file));
        let i = choose|i: int| 0 <= i < r.len() && (#[trigger] r[i]).0 == fs[j].file;
        assert(keys[i] == fs[j].file);
    }
    lemma_file_totals(keys, fs, fs.len() as int);
    lemma_scores_are_totals(r, fs, keys);
}

/// A rollup's scores are its keys' totals.
proof fn lemma_scores_are_totals(r: Seq<(Seq<char>, u32)>, fs: Seq<FindingV>, keys: Seq<Seq<char>>)
    requires
        keys == r.map_values(|e: (Seq<char>, u32)| e.0),
        forall|i: int| 0 <= i < r.len() ==> (#[trigger] r[i]).1 == key_total(fs, By::File, r[i].0),
    ensures
        scores_sum(r) == file_totals_upto(keys, fs, fs.len() as int),
    decreases r.len(),
{
    if r.len() > 0 {
        let ri = r.drop_last();
        let ki = ri.map_values(|e: (Seq<char>, u32)| e.0);
        assert(keys.drop_last() =~= ki);
        lemma_scores_are_totals(ri, fs, ki);
        assert(r.last().1 == key_total(fs, By::File, r.last().0));
    }
}

/// Rank entities / classes / files by scope-debt score, descending (then by name); keys with a
/// zero total are left out.
pub fn rank(findings: &[Finding], by: By) -> (r: Vec<(String, u32)>)
    requires
        debt_total(findings_view(findings@)) <= u32::MAX,
    ensures
        is_tally(findings_view(findings@), by, false, scores_view(r@)),
{
    tally(findings, by, false)
}

/// Project-level rollup derived from the findings.
pub struct Summary {
    pub scope_total: u32,
    pub warnings: usize,
    pub suggestions: usize,
    pub parse_errors: usize,
    /// (file, scope-debt score), sorted by score desc then path.
    pub per_file: Vec<(String, u32)>,
}

impl Summary {
    /// The headline number — total scope-debt.
    pub fn combined(&self) -> (r: u32)
        ensures
            r == self.scope_total,
    {
        self.scope_total
    }
}

/// Compute the project rollup from a flat finding list.
pub fn summarize(findings: &[Finding]) -> (s: Summary)
    requires
        debt_total(findings_view(findings@)) <= u32::MAX,
    ensures
        s.scope_total == debt_total(findings_view(findings@)),
        s.warnings == count_upto(findings_view(findings@), Category::DeclBeforeUse, findings@.len() as int),
        s.suggestions == count_upto(findings_view(findings@), Category::Suggestion, findings@.len() as int),
        s.parse_errors == count_upto(findings_view(findings@), Category::ParseError, findings@.len() as int),
        is_tally(findings_view(findings@), By::File, true, scores_view(s.per_file@)),
{
    let ghost fs = findings_view(findings@);
    let mut total: u32 = 0;
    let mut warnings: usize = 0;
    let mut suggestions: usize = 0;
    let mut parse_errors: usize = 0;
    let mut i: usize = 0;
    while i < findings.len()
        invariant
            fs == findings_view(findings@),
            debt_total(fs) <= u32::MAX,
            i <= fs.len(),
            total == debt_total_upto(fs, i as int),
            warnings == count_upto(fs, Category::DeclBeforeUse, i as int),
            suggestions == count_upto(fs, Category::Suggestion, i as int),
            parse_errors == count_upto(fs, Category::ParseError, i as int),
            warnings <= i && suggestions <= i && parse_errors <= i,
        decreases fs.len() - i,
    {
        let f = &findings[i];
        assert(fs[i as int] == f@);
        proof {
            lemma_totals_bounded(fs, By::File, Seq::empty(), i + 1);
        }
        match f.category {
            Category::ScopeDebt => {
                total = total + f.score;
            },
            Category::DeclBeforeUse => {
                warnings = warnings + 1;
            },
            Category::Suggestion => {
                suggestions = suggestions + 1;
            },
            Category::ParseError => {
                parse_errors = parse_errors + 1;
            },
        }
        i = i + 1;
    }
    let per_file = tally(findings, By::File, true);
    Summary { scope_total: total, warnings, suggestions, parse_errors, per_file }
}

/// Render findings for the given report and format.
pub fn render(findings: &[Finding], report: Report, format: Format) -> (r: String)
    requires
        debt_total(findings_view(findings@)) <= u32::MAX,
    ensures
        format == Format::Text ==> text::text_report(findings_view(findings@), report, r@),
        format == Format::Json ==> json::json_report(findings_view(findings@), report, r@),
{
    match format {
        Format::Text => text::render(findings, report),
        Format::Json => json::render(findings, report),
    }
}

/// Render a pre-computed ranking (e.g. one computed from the reference graph).
pub fn format_ranking(pairs: &[(String, u32)], n: usize, label: &str, format: Format) -> (r: String)
    ensures
        format == Format::Text ==> r@ == text::ranking_text(scores_view(pairs@), n as nat, label@),
        format == Format::Json ==> r@ == json::ranking_json(scores_view(pairs@), n as nat),
{
    match format {
        Format::Text => text::ranking(pairs, n, label),
        Format::Json => json::ranking(pairs, n),
    }
}

} // verus!
