//! Shared wedge counting — ONE implementation for both value bindings (`scopegraph`) and
//! definitions (`placement`). A definition/value should sit right after the things it depends on;
//! an UNRELATED sibling wedged between it and what it connects to is one unit of debt.
//! "Unrelated" = not a dependency, and not sharing a dependency with the target.

use vstd::prelude::*;

verus! {

/// A key that siblings and dependencies are identified by (a definition index or a name).
pub trait WedgeKey: Sized + View {
    /// Are the two keys the same (as views)?
    fn same(&self, other: &Self) -> (b: bool)
        ensures
            b == (self@ == other@),
    ;
}

impl WedgeKey for usize {
    fn same(&self, other: &usize) -> (b: bool) {
        *self == *other
    }
}

impl WedgeKey for String {
    fn same(&self, other: &String) -> (b: bool) {
        *self == *other
    }
}

/// One candidate sibling: its key, its textual line, and the keys it depends on.
pub struct Sib<K> {
    pub key: K,
    pub line: u32,
    pub deps: Vec<K>,
}

/// The abstract sibling: key view, line, dependency key views.
pub struct SibV<V> {
    pub key: V,
    pub line: u32,
    pub deps: Seq<V>,
}

/// The views of a sequence of keys.
pub open spec fn keys_view<K: View>(ks: Seq<K>) -> Seq<K::V> {
    ks.map_values(|k: K| k@)
}

impl<K: View> View for Sib<K> {
    type V = SibV<K::V>;

    open spec fn view(&self) -> SibV<K::V> {
        SibV { key: self.key@, line: self.line, deps: keys_view(self.deps@) }
    }
}

/// The views of a sequence of siblings.
pub open spec fn sibs_view<K: View>(ss: Seq<Sib<K>>) -> Seq<SibV<K::V>> {
    ss.map_values(|s: Sib<K>| s@)
}

/// `s` is a dependency of the target (its key is among the target's dependencies).
pub open spec fn is_dep<V>(target_deps: Seq<V>, s: SibV<V>) -> bool {
    target_deps.contains(s.key)
}

/// `s` shares no dependency with the target.
pub open spec fn disjoint_deps<V>(target_deps: Seq<V>, s: SibV<V>) -> bool {
    forall|j: int| 0 <= j < s.deps.len() ==> !target_deps.contains(#[trigger] s.deps[j])
}

/// `s` is a wedge in the span `(lo, hi)`: strictly inside it, not a dependency, not sharing a
/// dependency, and not exempted.
pub open spec fn is_wedge<V>(lo: u32, hi: u32, target_deps: Seq<V>, exempt: Seq<V>, s: SibV<V>) -> bool {
    &&& lo < s.line
    &&& s.line < hi
    &&& !is_dep(target_deps, s)
    &&& disjoint_deps(target_deps, s)
    &&& !exempt.contains(s.key)
}

/// The number of wedges among `sibs` in the span `(lo, hi)`.
pub open spec fn count_wedges<V>(lo: u32, hi: u32, target_deps: Seq<V>, exempt: Seq<V>, sibs: Seq<SibV<V>>) -> nat
    decreases sibs.len(),
{
    if sibs.len() == 0 {
        0
    } else {
        count_wedges(lo, hi, target_deps, exempt, sibs.drop_last())
            + if is_wedge(lo, hi, target_deps, exempt, sibs.last()) { 1nat } else { 0nat }
    }
}

/// A sibling that is a dependency of the target declared above `target_line`.
pub open spec fn dep_above<V>(target_line: u32, target_deps: Seq<V>, s: SibV<V>) -> bool {
    s.line < target_line && is_dep(target_deps, s)
}

/// The line of the nearest dependency above `target_line`, if any.
pub open spec fn nearest_dep_above<V>(target_line: u32, target_deps: Seq<V>, sibs: Seq<SibV<V>>) -> Option<u32>
    decreases sibs.len(),
{
    if sibs.len() == 0 {
        None
    } else {
        let rest = nearest_dep_above(target_line, target_deps, sibs.drop_last());
        let s = sibs.last();
        if dep_above(target_line, target_deps, s) {
            match rest {
                Some(m) => Some(if m < s.line { s.line } else { m }),
                None => Some(s.line),
            }
        } else {
            rest
        }
    }
}

/// Dep-side wedge count: unrelated siblings between the target and its nearest dependency above
/// (0 when there is none).
pub open spec fn dep_side_count<V>(target_line: u32, target_deps: Seq<V>, sibs: Seq<SibV<V>>) -> nat {
    match nearest_dep_above(target_line, target_deps, sibs) {
        Some(lo) => count_wedges(lo, target_line, target_deps, Seq::empty(), sibs),
        None => 0,
    }
}

/// The nearest dependency above is the line of some dependency above the target, and no
/// dependency above the target sits closer to it.
pub proof fn lemma_nearest_dep_above<V>(target_line: u32, target_deps: Seq<V>, sibs: Seq<SibV<V>>)
    ensures
        nearest_dep_above(target_line, target_deps, sibs) is None <==> (forall|i: int|
            0 <= i < sibs.len() ==> !dep_above(target_line, target_deps, #[trigger] sibs[i])),
        nearest_dep_above(target_line, target_deps, sibs) matches Some(l) ==> {
            &&& exists|i: int|
                0 <= i < sibs.len() && dep_above(target_line, target_deps, #[trigger] sibs[i]) && sibs[i].line == l
            &&& forall|i: int|
                0 <= i < sibs.len() && dep_above(target_line, target_deps, #[trigger] sibs[i]) ==> sibs[i].line <= l
        },
    decreases sibs.len(),
{
    if sibs.len() > 0 {
        let init = sibs.drop_last();
        lemma_nearest_dep_above(target_line, target_deps, init);
        assert forall|i: int| 0 <= i < init.len() implies init[i] == sibs[i] by {}
        let r = nearest_dep_above(target_line, target_deps, sibs);
        if let Some(l) = r {
            if dep_above(target_line, target_deps, sibs.last()) && (nearest_dep_above(target_line, target_deps, init) is None || l == sibs.last().line) {
                assert(dep_above(target_line, target_deps, sibs[sibs.len() - 1]));
            } else {
                let w = choose|i: int| 0 <= i < init.len() && dep_above(target_line, target_deps, #[trigger] init[i]) && init[i].line == l;
                assert(dep_above(target_line, target_deps, sibs[w]));
            }
        }
    }
}

/// No more wedges than siblings.
pub proof fn lemma_count_wedges_bound<V>(lo: u32, hi: u32, target_deps: Seq<V>, exempt: Seq<V>, sibs: Seq<SibV<V>>)
    ensures
        count_wedges(lo, hi, target_deps, exempt, sibs) <= sibs.len(),
    decreases sibs.len(),
{
    if sibs.len() > 0 {
        lemma_count_wedges_bound(lo, hi, target_deps, exempt, sibs.drop_last());
    }
}

/// No more dep-side wedges than siblings.
pub proof fn lemma_dep_side_bound<V>(target_line: u32, target_deps: Seq<V>, sibs: Seq<SibV<V>>)
    ensures
        dep_side_count(target_line, target_deps, sibs) <= sibs.len(),
{
    if let Some(l) = nearest_dep_above(target_line, target_deps, sibs) {
        lemma_count_wedges_bound(l, target_line, target_deps, Seq::empty(), sibs);
    }
}

/// Does `ks` hold a key equal to `k`?
pub fn contains_key<K: WedgeKey>(ks: &Vec<K>, k: &K) -> (b: bool)
    ensures
        b == keys_view(ks@).contains(k@),
{
    let mut i: usize = 0;
    while i < ks.len()
        invariant
            i <= ks@.len(),
            forall|j: int| 0 <= j < i ==> ks@[j]@ != k@,
        decreases ks@.len() - i,
    {
        if ks[i].same(k) {
            assert(keys_view(ks@)[i as int] == k@);
            return true;
        }
        i = i + 1;
    }
    false
}

/// No key of `b` is among `a`.
fn disjoint<K: WedgeKey>(a: &Vec<K>, b: &Vec<K>) -> (r: bool)
    ensures
        r == (forall|j: int| 0 <= j < b@.len() ==> !keys_view(a@).contains(#[trigger] keys_view(b@)[j])),
{
    let mut i: usize = 0;
    while i < b.len()
        invariant
            i <= b@.len(),
            forall|j: int| 0 <= j < i ==> !keys_view(a@).contains(#[trigger] keys_view(b@)[j]),
        decreases b@.len() - i,
    {
        if contains_key(a, &b[i]) {
            assert(keys_view(b@)[i as int] == b@[i as int]@);
            return false;
        }
        i = i + 1;
    }
    true
}

/// The line of the target's NEAREST dependency declared above it, if any — the closest one, so a
/// far-away shared dependency does not drag the span to the top of the file. `siblings` must
/// exclude the target itself (and anything ineligible).
pub fn first_dep_above<K: WedgeKey>(target_line: u32, target_deps: &Vec<K>, siblings: &Vec<Sib<K>>) -> (r: Option<u32>)
    ensures
        r == nearest_dep_above(target_line, keys_view(target_deps@), sibs_view(siblings@)),
{
    let mut best: Option<u32> = None;
    let mut i: usize = 0;
    while i < siblings.len()
        invariant
            i <= siblings@.len(),
            best == nearest_dep_above(target_line, keys_view(target_deps@), sibs_view(siblings@.take(i as int))),
        decreases siblings@.len() - i,
    {
        let s = &siblings[i];
        proof {
            assert(sibs_view(siblings@.take(i + 1)).drop_last() =~= sibs_view(siblings@.take(i as int)));
            assert(sibs_view(siblings@.take(i + 1)).last() == siblings@[i as int]@);
        }
        if s.line < target_line && contains_key(target_deps, &s.key) {
            best = match best {
                Some(m) => Some(if m < s.line { s.line } else { m }),
                None => Some(s.line),
            };
        }
        i = i + 1;
    }
    proof {
        assert(siblings@.take(siblings@.len() as int) =~= siblings@);
    }
    best
}

/// Count unrelated siblings strictly between lines `lo` and `hi`. A sibling is a wedge unless it is
/// a dependency of the target, shares a dependency with it, or is among `exempt` (the use side
/// exempts siblings co-used at the target's first-use site).
pub fn between<K: WedgeKey>(lo: u32, hi: u32, target_deps: &Vec<K>, siblings: &Vec<Sib<K>>, exempt: &Vec<K>) -> (r: u32)
    ensures
        r == count_wedges(lo, hi, keys_view(target_deps@), keys_view(exempt@), sibs_view(siblings@)) as u32,
{
    let mut n: usize = 0;
    let mut i: usize = 0;
    while i < siblings.len()
        invariant
            i <= siblings@.len(),
            n == count_wedges(lo, hi, keys_view(target_deps@), keys_view(exempt@), sibs_view(siblings@.take(i as int))),
            n <= i,
        decreases siblings@.len() - i,
    {
        let s = &siblings[i];
        proof {
            assert(sibs_view(siblings@.take(i + 1)).drop_last() =~= sibs_view(siblings@.take(i as int)));
            assert(sibs_view(siblings@.take(i + 1)).last() == siblings@[i as int]@);
        }
        let in_span = lo < s.line && s.line < hi;
        let dep = contains_key(target_deps, &s.key);
        let disj = disjoint(target_deps, &s.deps);
        let ex = contains_key(exempt, &s.key);
        proof {
            let sv = siblings@[i as int]@;
            assert(sv.deps == keys_view(s.deps@));
            assert(disj == disjoint_deps(keys_view(target_deps@), sv));
            assert((in_span && !dep && disj && !ex) == is_wedge(lo, hi, keys_view(target_deps@), keys_view(exempt@), sv));
        }
        if in_span && !dep && disj && !ex {
            n = n + 1;
        }
        i = i + 1;
    }
    proof {
        assert(siblings@.take(siblings@.len() as int) =~= siblings@);
    }
    n as u32
}

/// Dep-side wedges: unrelated siblings between the target and its nearest dependency above. Free
/// (0) when the target has no dependency above it.
pub fn dep_side<K: WedgeKey>(target_line: u32, target_deps: &Vec<K>, siblings: &Vec<Sib<K>>) -> (r: u32)
    ensures
        r == dep_side_count(target_line, keys_view(target_deps@), sibs_view(siblings@)) as u32,
{
    match first_dep_above(target_line, target_deps, siblings) {
        Some(lo) => {
            let none: Vec<K> = Vec::new();
            assert(keys_view(none@) =~= Seq::<K::V>::empty());
            between(lo, target_line, target_deps, siblings, &none)
        },
        None => 0,
    }
}

} // verus!
