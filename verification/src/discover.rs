//! File discovery rules: which of the files a directory walk finds are analyzable sources, and in
//! what order they are analyzed. The walk itself (the file system) is the caller's.

use vstd::prelude::*;

use crate::lang::cpp::compdb::strs_view;
use crate::text::{chars_lt, chars_of, last_index, last_index_of, lemma_last_index, lemma_str_lt_order, range_is, str_lt};

verus! {

/// The directories a walk does not descend into (vendored code, caches, build output).
pub open spec fn skipped_dir_name(n: Seq<char>) -> bool {
    n == "venv"@ || n == ".venv"@ || n == "__pycache__"@ || n == "site-packages"@ || n == "node_modules"@ || n == ".git"@
        || n == "target"@ || n == ".mypy_cache"@
}

/// Is a directory with this name one a walk skips?
pub fn is_skipped_dir_name(name: &str) -> (r: bool)
    ensures
        r == skipped_dir_name(name@),
{
    let v = chars_of(name);
    let n = v.len();
    assert(v@.subrange(0, n as int) =~= v@);
    range_is(&v, 0, n, "venv") || range_is(&v, 0, n, ".venv") || range_is(&v, 0, n, "__pycache__") || range_is(
        &v,
        0,
        n,
        "site-packages",
    ) || range_is(&v, 0, n, "node_modules") || range_is(&v, 0, n, ".git") || range_is(&v, 0, n, "target") || range_is(
        &v,
        0,
        n,
        ".mypy_cache",
    )
}

/// The last component of a path (everything after its last `/`).
pub open spec fn file_name(p: Seq<char>) -> Seq<char> {
    match last_index(p, '/') {
        Some(i) => p.skip(i + 1),
        None => p,
    }
}

/// A path's extension: what follows the last `.` of its file name, unless that dot starts the
/// name (a dot file) or there is none.
pub open spec fn extension(p: Seq<char>) -> Option<Seq<char>> {
    let f = file_name(p);
    if f == ".."@ {
        None
    } else {
        match last_index(f, '.') {
            Some(i) => if i == 0 { None } else { Some(f.skip(i + 1)) },
            None => None,
        }
    }
}

/// The C++ source and header extensions.
pub open spec fn cpp_ext(e: Seq<char>) -> bool {
    e == "cpp"@ || e == "cc"@ || e == "cxx"@ || e == "hpp"@ || e == "hh"@ || e == "hxx"@ || e == "h"@
}

/// The TypeScript / JavaScript extensions.
pub open spec fn ts_ext(e: Seq<char>) -> bool {
    e == "ts"@ || e == "tsx"@ || e == "js"@ || e == "jsx"@ || e == "mts"@ || e == "cts"@ || e == "mjs"@ || e == "cjs"@
}

/// Which sources a language takes.
#[derive(Clone, Copy, PartialEq, Eq, Structural)]
pub enum SourceSet {
    Python,
    Rust,
    Cpp,
    TypeScript,
}

/// A path the language takes: `.py`; a C++ extension; a TS/JS extension but not a `.d.ts`
/// declaration file.
pub open spec fn takes(lang: SourceSet, p: Seq<char>) -> bool {
    match lang {
        SourceSet::Python => extension(p) == Some("py"@),
        SourceSet::Rust => extension(p) == Some("rs"@),
        SourceSet::Cpp => extension(p) matches Some(e) && cpp_ext(e),
        SourceSet::TypeScript => extension(p) matches Some(e) && ts_ext(e) && !(p.len() >= 5 && p.skip(p.len() - 5) == ".d.ts"@),
    }
}

/// The extension of `v`, as its bounds in `v`.
fn extension_of(v: &Vec<char>) -> (r: Option<(usize, usize)>)
    ensures
        r matches Some(b) ==> b.0 <= b.1 == v@.len() && extension(v@) == Some(v@.subrange(b.0 as int, b.1 as int)),
        r is None ==> extension(v@) is None,
{
    proof {
        lemma_last_index(v@, '/');
    }
    let n = v.len();
    let start = match last_index_of(v, '/') {
        Some(i) => i + 1,
        None => 0,
    };
    let ghost f = file_name(v@);
    assert(f =~= v@.subrange(start as int, v@.len() as int));
    if range_is(v, start, v.len(), "..") {
        return None;
    }
    let mut i = v.len();
    while i > start && v[i - 1] != '.'
        invariant
            start <= i <= v@.len(),
            last_index(f, '.') == last_index(v@.subrange(start as int, i as int), '.'),
        decreases i - start,
    {
        assert(v@.subrange(start as int, i as int).drop_last() =~= v@.subrange(start as int, i - 1));
        i = i - 1;
    }
    if i == start {
        assert(last_index(v@.subrange(start as int, i as int), '.') is None);
        return None;
    }
    assert(last_index(v@.subrange(start as int, i as int), '.') == Some(i - 1 - start));
    if i - 1 == start {
        return None;
    }
    assert(f.skip(i - start) =~= v@.subrange(i as int, v@.len() as int));
    Some((i, v.len()))
}

/// Does the language take the path (see [`takes`])?
fn takes_path(lang: SourceSet, p: &String) -> (r: bool)
    ensures
        r == takes(lang, p@),
{
    let v = chars_of(p.as_str());
    match extension_of(&v) {
        None => false,
        Some((a, b)) => match lang {
            SourceSet::Python => range_is(&v, a, b, "py"),
            SourceSet::Rust => range_is(&v, a, b, "rs"),
            SourceSet::Cpp => range_is(&v, a, b, "cpp") || range_is(&v, a, b, "cc") || range_is(&v, a, b, "cxx") || range_is(
                &v,
                a,
                b,
                "hpp",
            ) || range_is(&v, a, b, "hh") || range_is(&v, a, b, "hxx") || range_is(&v, a, b, "h"),
            SourceSet::TypeScript => {
                let n = v.len();
                let is_ts = range_is(&v, a, b, "ts") || range_is(&v, a, b, "tsx") || range_is(&v, a, b, "js") || range_is(
                    &v,
                    a,
                    b,
                    "jsx",
                ) || range_is(&v, a, b, "mts") || range_is(&v, a, b, "cts") || range_is(&v, a, b, "mjs") || range_is(
                    &v,
                    a,
                    b,
                    "cjs",
                );
                let dts = n >= 5 && range_is(&v, n - 5, n, ".d.ts");
                assert(n >= 5 ==> v@.subrange(n - 5, n as int) =~= v@.skip(n - 5));
                is_ts && !dts
            },
        },
    }
}

/// No element sorts before an earlier one.
pub open spec fn sorted_strs(s: Seq<Seq<char>>) -> bool {
    forall|i: int, j: int| 0 <= i < j < s.len() ==> !str_lt(#[trigger] s[j], #[trigger] s[i])
}

/// Strictly increasing.
pub open spec fn strictly_sorted_strs(s: Seq<Seq<char>>) -> bool {
    forall|i: int, j: int| 0 <= i < j < s.len() ==> str_lt(#[trigger] s[i], #[trigger] s[j])
}

/// The language's test on paths.
pub open spec fn taker(lang: SourceSet) -> spec_fn(Seq<char>) -> bool {
    |p: Seq<char>| takes(lang, p)
}

/// The paths of `found` the language takes, in walk order.
pub open spec fn taken(lang: SourceSet, found: Seq<Seq<char>>) -> Seq<Seq<char>> {
    found.filter(taker(lang))
}

/// The taken paths, sorted (`str`'s order), repeats kept.
fn sorted_taken(found: &[String], lang: SourceSet) -> (r: Vec<String>)
    ensures
        sorted_strs(strs_view(r@)),
        strs_view(r@).to_multiset() == taken(lang, strs_view(found@)).to_multiset(),
{
    broadcast use vstd::seq_lib::group_to_multiset_ensures;

    let ghost fv = strs_view(found@);
    let mut out: Vec<String> = Vec::new();
    let mut k: usize = 0;
    assert(strs_view(out@) =~= Seq::<Seq<char>>::empty());
    assert(fv.take(0).filter(taker(lang)) =~= Seq::<Seq<char>>::empty());
    while k < found.len()
        invariant
            fv == strs_view(found@),
            k <= fv.len(),
            sorted_strs(strs_view(out@)),
            strs_view(out@).to_multiset() == fv.take(k as int).filter(taker(lang)).to_multiset(),
        decreases fv.len() - k,
    {
        let p = &found[k];
        assert(fv.take(k + 1).drop_last() =~= fv.take(k as int));
        assert(fv.take(k + 1).last() == p@);
        proof {
            fv.take(k as int).lemma_filter_push(p@, taker(lang));
            assert(fv.take(k as int).push(p@) =~= fv.take(k + 1));
        }
        if takes_path(lang, p) {
            let pc = chars_of(p.as_str());
            let mut q = out.len();
            while q > 0 && chars_lt(&pc, &chars_of(out[q - 1].as_str()))
                invariant
                    q <= out@.len(),
                    pc@ == p@,
                    forall|t: int| q <= t < out@.len() ==> str_lt(p@, #[trigger] strs_view(out@)[t]),
                decreases q,
            {
                q = q - 1;
            }
            let ghost before = strs_view(out@);
            out.insert(q, p.clone());
            proof {
                let now = strs_view(out@);
                assert(now =~= before.insert(q as int, p@));
                assert forall|i: int, j: int| 0 <= i < j < now.len() implies !str_lt(#[trigger] now[j], #[trigger] now[i]) by {
                    if j < q {
                        assert(now[i] == before[i] && now[j] == before[j]);
                    } else if j == q {
                        assert(now[i] == before[i] && now[j] == p@);
                        assert(!str_lt(p@, before[q - 1]));
                        lemma_str_lt_order(p@, before[i], before[q - 1]);
                        lemma_str_lt_order(before[i], before[q - 1], p@);
                        if i < q - 1 {
                            assert(!str_lt(before[q - 1], before[i]));
                        }
                    } else if i < q {
                        assert(now[i] == before[i] && now[j] == before[j - 1]);
                    } else if i == q {
                        assert(now[i] == p@ && now[j] == before[j - 1]);
                        assert(str_lt(p@, before[j - 1]));
                        lemma_str_lt_order(p@, before[j - 1], p@);
                    } else {
                        assert(now[i] == before[i - 1] && now[j] == before[j - 1]);
                    }
                }
                vstd::seq_lib::to_multiset_insert(before, q as int, p@);
                assert(takes(lang, p@));
                assert(fv.take(k + 1).filter(taker(lang)) == fv.take(k as int).filter(taker(lang)).push(p@));
                vstd::seq_lib::to_multiset_build(fv.take(k as int).filter(taker(lang)), p@);
            }
        } else {
            assert(!takes(lang, p@));
            assert(fv.take(k + 1).filter(taker(lang)) == fv.take(k as int).filter(taker(lang)));
        }
        k = k + 1;
    }
    assert(fv.take(fv.len() as int) =~= fv);
    out
}

/// Collect `.py` files: of the files a walk under the root found (or the root itself, when it is
/// a file), those with the `.py` extension, sorted.
pub fn python_files(found: &[String]) -> (r: Vec<String>)
    ensures
        sorted_strs(strs_view(r@)),
        strs_view(r@).to_multiset() == taken(SourceSet::Python, strs_view(found@)).to_multiset(),
{
    sorted_taken(found, SourceSet::Python)
}

/// The sorted `v` without repeats.
fn dedup_sorted(v: Vec<String>) -> (r: Vec<String>)
    requires
        sorted_strs(strs_view(v@)),
    ensures
        strictly_sorted_strs(strs_view(r@)),
        forall|x: Seq<char>| strs_view(r@).contains(x) <==> strs_view(v@).contains(x),
{
    let ghost vv = strs_view(v@);
    let mut out: Vec<String> = Vec::new();
    let mut i: usize = 0;
    while i < v.len()
        invariant
            vv == strs_view(v@),
            sorted_strs(vv),
            i <= vv.len(),
            strictly_sorted_strs(strs_view(out@)),
            forall|x: Seq<char>| strs_view(out@).contains(x) <==> vv.take(i as int).contains(x),
            out@.len() > 0 ==> i > 0 && strs_view(out@).last() == vv[i - 1],
        decreases vv.len() - i,
    {
        let ghost before = strs_view(out@);
        let dup = out.len() > 0 && out[out.len() - 1] == v[i];
        assert(vv.take(i + 1) =~= vv.take(i as int).push(vv[i as int]));
        if !dup {
            out.push(v[i].clone());
            proof {
                let now = strs_view(out@);
                assert(now =~= before.push(vv[i as int]));
                if before.len() > 0 {
                    assert(!str_lt(vv[i as int], vv[i - 1]));
                    lemma_str_lt_order(vv[i - 1], vv[i as int], vv[i - 1]);
                }
                assert forall|a: int, b: int| 0 <= a < b < now.len() implies str_lt(#[trigger] now[a], #[trigger] now[b]) by {
                    if b == now.len() - 1 && a < b - 1 {
                        lemma_str_lt_order(before[a], before.last(), vv[i as int]);
                    }
                }
                assert forall|x: Seq<char>| now.contains(x) <==> vv.take(i + 1).contains(x) by {
                    if now.contains(x) && x != vv[i as int] {
                        let j = choose|j: int| 0 <= j < now.len() && now[j] == x;
                        assert(before[j] == x);
                    }
                    if before.contains(x) {
                        let j = choose|j: int| 0 <= j < before.len() && before[j] == x;
                        assert(now[j] == x);
                    }
                    if vv.take(i + 1).contains(x) && x != vv[i as int] {
                        let j = choose|j: int| 0 <= j < i + 1 && #[trigger] vv.take(i + 1)[j] == x;
                        assert(vv.take(i as int)[j] == x);
                    }
                    if x == vv[i as int] {
                        assert(now[now.len() - 1] == x);
                        assert(vv.take(i + 1)[i as int] == x);
                    }
                }
            }
        } else {
            proof {
                assert(before.last() == vv[i as int]);
                assert forall|x: Seq<char>| before.contains(x) <==> vv.take(i + 1).contains(x) by {
                    if vv.take(i + 1).contains(x) && x != vv[i as int] {
                        let j = choose|j: int| 0 <= j < i + 1 && #[trigger] vv.take(i + 1)[j] == x;
                        assert(vv.take(i as int)[j] == x);
                    }
                    if x == vv[i as int] {
                        assert(before[before.len() - 1] == x);
                        assert(vv.take(i + 1)[i as int] == x);
                    }
                    if before.contains(x) {
                        assert(vv.take(i as int).contains(x));
                        let j = choose|j: int| 0 <= j < i && #[trigger] vv.take(i as int)[j] == x;
                        assert(vv.take(i + 1)[j] == x);
                    }
                }
            }
        }
        i = i + 1;
    }
    assert(vv.take(vv.len() as int) =~= vv);
    out
}

/// The paths the language takes from `found`, sorted without repeats.
fn distinct_taken(found: &[String], lang: SourceSet) -> (r: Vec<String>)
    ensures
        strictly_sorted_strs(strs_view(r@)),
        forall|x: Seq<char>| #[trigger] strs_view(r@).contains(x) <==> (strs_view(found@).contains(x) && takes(lang, x)),
{
    broadcast use vstd::seq_lib::group_to_multiset_ensures;

    let s = sorted_taken(found, lang);
    let r = dedup_sorted(s);
    proof {
        let fv = strs_view(found@);
        assert forall|x: Seq<char>| strs_view(r@).contains(x) <==> (fv.contains(x) && takes(lang, x)) by {
            if taken(lang, fv).contains(x) {
                fv.lemma_filter_contains_rev(taker(lang), x);
                let j = choose|j: int| 0 <= j < taken(lang, fv).len() && taken(lang, fv)[j] == x;
                fv.lemma_filter_pred(taker(lang), j);
            }
            if fv.contains(x) && takes(lang, x) {
                let j = choose|j: int| 0 <= j < fv.len() && fv[j] == x;
                fv.lemma_filter_contains(taker(lang), j);
            }
            assert(strs_view(s@).to_multiset().count(x) == taken(lang, fv).to_multiset().count(x));
        }
    }
    r
}

/// Collect `.rs` files: of the files a walk under the root found (or the root itself, when it is
/// a file), those with the `.rs` extension, sorted.
pub fn rust_files(found: &[String]) -> (r: Vec<String>)
    ensures
        sorted_strs(strs_view(r@)),
        strs_view(r@).to_multiset() == taken(SourceSet::Rust, strs_view(found@)).to_multiset(),
{
    sorted_taken(found, SourceSet::Rust)
}

/// Collect C++ files across the C++ extensions, sorted without repeats.
pub fn cpp_files(found: &[String]) -> (r: Vec<String>)
    ensures
        strictly_sorted_strs(strs_view(r@)),
        forall|x: Seq<char>| strs_view(r@).contains(x) <==> (strs_view(found@).contains(x) && takes(SourceSet::Cpp, x)),
{
    distinct_taken(found, SourceSet::Cpp)
}

/// Collect TS/JS files across the TS/JS extensions, sorted without repeats; `.d.ts` declaration
/// files (types only) are left out.
pub fn ts_files(found: &[String]) -> (r: Vec<String>)
    ensures
        strictly_sorted_strs(strs_view(r@)),
        forall|x: Seq<char>| strs_view(r@).contains(x) <==> (strs_view(found@).contains(x) && takes(SourceSet::TypeScript, x)),
{
    distinct_taken(found, SourceSet::TypeScript)
}

} // verus!
