//! The C++ frontend: lowering of the translation unit's cursors into scope actions, the analysis
//! pipeline around it, and the compiler arguments a parse is run with. Parsing is the caller's; it
//! hands over the main file's top-level cursors as [`syntax::Unit`].

pub mod compdb;
pub mod syntax;
pub mod lower;

use vstd::prelude::*;

use crate::text::{join_chars, join_on, push_str, split_chars, split_on, views};

use crate::engine::finding::{Category, Finding, FindingV, findings_view};
use crate::engine::score::default_weights;
use crate::render::{count_upto, debt_total};
use crate::engine::raw::{Frontend, RawModule};
use crate::engine::score::Weights;
use crate::engine::analyze::{project_findings, project_fits, stable_sorted};
use crate::engine::scopegraph::GraphV;
use crate::engine::scopelang::{Limit, build, built_graph};
use crate::lang::{
    analyze_extracted, analyze_extractions, analyze_lowered, count_category, debt_sum, extraction_of, finish,
    lemma_one_parse_error_totals, module_dotted, module_name, module_outcome, module_overflows, parse_error_view,
    parse_errors, parsed_modules,
};
use crate::lang::cpp::lower::{CppLang, cpp_lowering, cpp_node};
use crate::lang::cpp::syntax::{Cursor, Unit};

verus! {

/// The C++ frontend.
pub struct Cpp;

/// The C++ source and header extensions, in the order a file's is looked for.
pub open spec fn cpp_suffixes() -> Seq<Seq<char>> {
    seq![".cpp"@, ".cc"@, ".cxx"@, ".hpp"@, ".hh"@, ".hxx"@, ".h"@]
}

/// The module path of a C++ file: `src/net/sock.cpp` → `net.sock` (the first of its
/// extensions it ends with removed; leading `./` and `src/` dropped).
pub open spec fn cpp_module(file: Seq<char>) -> Seq<char> {
    module_dotted(file, cpp_suffixes(), true)
}

/// The line of a unit's `<module>` entity: its first top-level cursor's, 1 when empty.
pub open spec fn cpp_module_line(m: Unit) -> u32 {
    if m.roots@.len() > 0 {
        m.roots@[0].line
    } else {
        1
    }
}

/// The scope graph a translation unit builds: its top-level cursors, walked under the C++
/// lowering rule ([`cpp_lowering`]).
pub open spec fn cpp_graph(m: Unit) -> Result<GraphV, Limit> {
    built_graph(cpp_lowering(), m.roots@)
}

/// Lower a parsed translation unit and score it: its entities, scope debt, definition-reference
/// edges and declare-before-use warnings, with the `<module>` entity last — the scoring of the
/// module's scope graph ([`cpp_graph`]). An `Err` says the module outgrew a limit of the
/// analysis.
pub fn extract(unit: &Unit, file: &str) -> (r: Result<RawModule, String>)
    ensures
        extraction_of(r, cpp_graph(*unit), file@, cpp_module(file@), cpp_module_line(*unit)),
{
    let mut roots: Vec<&Cursor> = Vec::new();
    let mut i: usize = 0;
    while i < unit.roots.len()
        invariant
            i <= unit.roots@.len(),
            roots@.map_values(cpp_node()) == unit.roots@.take(i as int),
        decreases unit.roots@.len() - i,
    {
        let ghost r0 = roots@;
        roots.push(&unit.roots[i]);
        assert(roots@.map_values(cpp_node()) =~= r0.map_values(cpp_node()).push(unit.roots@[i as int]));
        assert(unit.roots@.take(i + 1) =~= unit.roots@.take(i as int).push(unit.roots@[i as int]));
        i = i + 1;
    }
    assert(unit.roots@.take(unit.roots@.len() as int) =~= unit.roots@);
    let built = build(&CppLang { unit }, roots.as_slice());
    let module_line: u32 = if unit.roots.len() > 0 {
        unit.roots[0].line
    } else {
        1
    };
    let suffixes: Vec<&str> = vec![".cpp", ".cc", ".cxx", ".hpp", ".hh", ".hxx", ".h"];
    proof {
        assert(suffixes@.map_values(|s: &str| s@) =~= cpp_suffixes());
    }
    finish(built, file, module_name(file, &suffixes, true), module_line)
}

impl Frontend for Cpp {
    type Syntax = Unit;

    fn parse_module(&self, syntax: &Unit, file: &str) -> (r: Result<RawModule, String>)
        ensures
            extraction_of(r, cpp_graph(*syntax), file@, cpp_module(file@), cpp_module_line(*syntax)),
    {
        extract(syntax, file)
    }
}

/// One file's findings: a module that did not parse (`Err` with the parser's message) is one
/// `ParseError` finding; otherwise the findings of the scoring of its scope graph
/// ([`module_outcome`]). `None` when a weighted score overflows a `u32`.
pub fn analyze_source(parsed: Result<Unit, String>, file: &str, weights: &Weights) -> (r: Option<Vec<Finding>>)
    ensures
        parsed matches Err(msg) ==> r matches Some(v) && findings_view(v@) == seq![parse_error_view(file@, msg@)],
        parsed matches Ok(md) ==> (r matches Some(v) ==> module_outcome(
            findings_view(v@),
            file@,
            cpp_module(file@),
            cpp_module_line(md),
            *weights,
            cpp_graph(md),
        )),
        parsed matches Ok(md) ==> (r is None ==> module_overflows(
            file@,
            cpp_module(file@),
            cpp_module_line(md),
            *weights,
            cpp_graph(md),
        )),
{
    match parsed {
        Ok(md) => analyze_lowered(
            extract(&md, file),
            file,
            weights,
            Ghost(cpp_module(file@)),
            Ghost(cpp_module_line(md)),
            Ghost(cpp_graph(md)),
        ),
        Err(msg) => analyze_extracted(Err(msg), file, weights),
    }
}

/// Is `res` what a file `file` gives before the project analysis: the parser's error for a
/// module that did not parse, else its extraction?
pub open spec fn cpp_extraction(file: Seq<char>, parsed: Result<Unit, String>, res: Result<RawModule, String>) -> bool {
    match parsed {
        Err(msg) => res matches Err(e) && e@ == msg@,
        Ok(md) => extraction_of(res, cpp_graph(md), file, cpp_module(file), cpp_module_line(md)),
    }
}

/// Are `rs` the per-file results of `files`, in order?
pub open spec fn cpp_extractions(files: Seq<(String, Result<Unit, String>)>, rs: Seq<(String, Result<RawModule, String>)>) -> bool {
    &&& rs.len() == files.len()
    &&& forall|i: int|
        0 <= i < rs.len() ==> #[trigger] rs[i].0@ == files[i].0@ && cpp_extraction(files[i].0@, files[i].1, rs[i].1)
}

/// Whole-project analysis over `(file, parsed)` pairs: the modules that parsed are analyzed
/// together, each that did not adds its `ParseError` finding, and the list is sorted (`None` when
/// a weighted score overflows a `u32`).
pub fn analyze_project(files: Vec<(String, Result<Unit, String>)>, weights: &Weights) -> (r: Option<Vec<Finding>>)
    ensures
        exists|rs: Seq<(String, Result<RawModule, String>)>|
            #![trigger parsed_modules(rs)]
            cpp_extractions(files@, rs) && (r is Some <==> project_fits(parsed_modules(rs), *weights)) && (r matches Some(v)
                ==> findings_view(v@) == stable_sorted(project_findings(parsed_modules(rs), *weights) + parse_errors(rs))),
{
    let ghost orig = files@;
    let mut results: Vec<(String, Result<RawModule, String>)> = Vec::new();
    let mut files = files;
    let n0 = files.len();
    let mut taken: usize = 0;
    assert(files@ =~= orig.skip(0));
    while files.len() > 0
        invariant
            taken + files@.len() == orig.len(),
            orig.len() <= usize::MAX,
            files@ == orig.skip(taken as int),
            results@.len() == taken,
            cpp_extractions(orig.take(taken as int), results@),
        decreases files@.len(),
    {
        let ghost before = files@;
        let (file, parsed) = files.remove(0);
        assert(before[0] == orig[taken as int]);
        assert(files@ =~= orig.skip(taken + 1));
        let res = match parsed {
            Ok(m) => extract(&m, file.as_str()),
            Err(msg) => Err(msg),
        };
        assert(cpp_extraction(orig[taken as int].0@, orig[taken as int].1, res));
        assert(file@ == orig[taken as int].0@);
        let ghost r0 = results@;
        results.push((file, res));
        proof {
            let o1 = orig.take(taken + 1);
            assert forall|i: int| 0 <= i < results@.len() implies #[trigger] results@[i].0@ == o1[i].0@ && cpp_extraction(
                o1[i].0@,
                o1[i].1,
                results@[i].1,
            ) by {
                if i < taken {
                    assert(results@[i] == r0[i]);
                    assert(o1[i] == orig.take(taken as int)[i]);
                }
            }
        }
        taken = taken + 1;
    }
    assert(orig.take(orig.len() as int) =~= orig);
    let ghost rs = results@;
    let r = analyze_extractions(results, weights);
    assert(cpp_extractions(orig, rs));
    r
}

/// The total scope debt of one parsed module (as `test.cpp`, default weights): 0 for a module that
/// did not parse; otherwise the debt total of its findings ([`module_outcome`]). `None` when the
/// analysis or the total overflows a `u32`.
pub fn scope_of(parsed: Result<Unit, String>) -> (r: Option<u32>)
    ensures
        parsed is Err ==> r == Some(0u32),
        parsed matches Ok(md) ==> (r matches Some(n) ==> exists|v: Seq<FindingV>|
            #[trigger] debt_total(v) == n && module_outcome(
                v,
                "test.cpp"@,
                cpp_module("test.cpp"@),
                cpp_module_line(md),
                default_weights(),
                cpp_graph(md),
            )),
        parsed matches Ok(md) ==> (r is None ==> module_overflows(
            "test.cpp"@,
            cpp_module("test.cpp"@),
            cpp_module_line(md),
            default_weights(),
            cpp_graph(md),
        ) || exists|v: Seq<FindingV>|
            #[trigger] debt_total(v) > u32::MAX && module_outcome(
                v,
                "test.cpp"@,
                cpp_module("test.cpp"@),
                cpp_module_line(md),
                default_weights(),
                cpp_graph(md),
            )),
{
    let w = Weights::default();
    match analyze_source(parsed, "test.cpp", &w) {
        Some(v) => {
            let r = debt_sum(v.as_slice());
            proof {
                lemma_one_parse_error_totals(findings_view(v@));
            }
            r
        },
        None => None,
    }
}

/// The number of declare-before-use warnings of one parsed module (as `test.cpp`, default
/// weights): 0 for a module that did not parse; otherwise the count among its findings
/// ([`module_outcome`]). `None` when the analysis overflows a `u32`.
pub fn warnings_of(parsed: Result<Unit, String>) -> (r: Option<usize>)
    ensures
        parsed is Err ==> r == Some(0usize),
        parsed matches Ok(md) ==> (r matches Some(n) ==> exists|v: Seq<FindingV>|
            #[trigger] count_upto(v, Category::DeclBeforeUse, v.len() as int) == n && module_outcome(
                v,
                "test.cpp"@,
                cpp_module("test.cpp"@),
                cpp_module_line(md),
                default_weights(),
                cpp_graph(md),
            )),
        parsed matches Ok(md) ==> (r is None ==> module_overflows(
            "test.cpp"@,
            cpp_module("test.cpp"@),
            cpp_module_line(md),
            default_weights(),
            cpp_graph(md),
        )),
{
    let w = Weights::default();
    match analyze_source(parsed, "test.cpp", &w) {
        Some(v) => {
            let n = count_category(v.as_slice(), Category::DeclBeforeUse);
            proof {
                lemma_one_parse_error_totals(findings_view(v@));
            }
            Some(n)
        },
        None => None,
    }
}

// --- compiler arguments ----------------------------------------------------------------------

/// The base arguments of every parse: C++ source mode for every input (a header too, which would
/// otherwise be taken for one to precompile), C++17.
pub open spec fn base_args() -> Seq<Seq<char>> {
    seq!["-x"@, "c++"@, "-std=c++17"@]
}

/// The arguments a project's parses run with: the base arguments, then the compilation database's
/// flags when the project has one, else an `-I` for each include directory.
pub open spec fn project_args(flags: Option<Seq<Seq<char>>>, include_dirs: Seq<Seq<char>>) -> Seq<Seq<char>> {
    base_args() + match flags {
        Some(f) => f,
        None => include_dirs.map_values(|d: Seq<char>| "-I"@ + d),
    }
}

/// The arguments a project's parses run with (see [`project_args`]).
pub fn compiler_args(flags: Option<Vec<String>>, include_dirs: &Vec<String>) -> (r: Vec<String>)
    ensures
        views(r@) == project_args(
            match flags {
                Some(f) => Some(views(f@)),
                None => None,
            },
            views(include_dirs@),
        ),
{
    let mut r: Vec<String> = Vec::new();
    r.push("-x".to_owned());
    r.push("c++".to_owned());
    r.push("-std=c++17".to_owned());
    assert(views(r@) =~= base_args());
    match flags {
        Some(f) => {
            let ghost r0 = views(r@);
            let mut f = f;
            let ghost fv = views(f@);
            r.append(&mut f);
            assert(views(r@) =~= r0 + fv);
        },
        None => {
            let ghost r0 = views(r@);
            let ghost ds = views(include_dirs@);
            let mut i: usize = 0;
            while i < include_dirs.len()
                invariant
                    i <= include_dirs@.len(),
                    ds == views(include_dirs@),
                    views(r@) == r0 + ds.take(i as int).map_values(|d: Seq<char>| "-I"@ + d),
                decreases include_dirs@.len() - i,
            {
                let mut a = String::new();
                push_str(&mut a, "-I");
                push_str(&mut a, include_dirs[i].as_str());
                let ghost rv = views(r@);
                r.push(a);
                assert(ds.take(i + 1).map_values(|d: Seq<char>| "-I"@ + d) =~= ds.take(i as int).map_values(
                    |d: Seq<char>| "-I"@ + d,
                ).push("-I"@ + ds[i as int]));
                assert(views(r@) =~= rv.push(a@));
                i = i + 1;
            }
            assert(ds.take(ds.len() as int) =~= ds);
        },
    }
    r
}

// --- the project root --------------------------------------------------------------------------

/// The directory part of a path, as text: what `std::path::Path::parent` gives for it (the path
/// without its final component; `None` for a root, a prefix or the empty path).
pub uninterp spec fn path_parent(p: Seq<char>) -> Option<Seq<char>>;

/// `std::path::Path::parent` of `p`, as a string (the parent of a path made from text is text
/// again, so the conversion back cannot fail).
#[verifier::external_body]
fn parent_dir(p: &str) -> (r: Option<String>)
    ensures
        match r {
            Some(d) => path_parent(p@) == Some(d@),
            None => path_parent(p@) is None,
        },
{
    match std::path::Path::new(p).parent() {
        Some(d) => match d.to_str() {
            Some(t) => Some(t.to_owned()),
            None => None,
        },
        None => None,
    }
}

/// Optional strings as values.
pub open spec fn opt_views(ps: Seq<Option<String>>) -> Seq<Option<Seq<char>>> {
    ps.map_values(
        |p: Option<String>|
            match p {
                Some(d) => Some(d@),
                None => None,
            },
    )
}

/// The first `n` directories that are present, each split into its `/`-separated parts.
pub open spec fn dir_parts(dirs: Seq<Option<Seq<char>>>, n: int) -> Seq<Seq<Seq<char>>>
    decreases n,
{
    if n <= 0 {
        Seq::empty()
    } else {
        dir_parts(dirs, n - 1) + match dirs[n - 1] {
            Some(d) => seq![split_on(d, '/')],
            None => Seq::empty(),
        }
    }
}

/// How many leading parts `a` and `b` share, counting from `k`.
pub open spec fn shared_from(a: Seq<Seq<char>>, b: Seq<Seq<char>>, k: int) -> int
    decreases a.len() - k,
{
    if 0 <= k < a.len() && k < b.len() && a[k] == b[k] {
        shared_from(a, b, k + 1)
    } else {
        k
    }
}

/// The parts that the first `n` part lists all start with.
pub open spec fn shared_prefix(ds: Seq<Seq<Seq<char>>>, n: int) -> Seq<Seq<char>>
    decreases n,
{
    if n <= 1 {
        ds[0]
    } else {
        let p = shared_prefix(ds, n - 1);
        p.take(shared_from(p, ds[n - 1], 0))
    }
}

/// The deepest directory below all of `dirs`: the `/`-joined parts that the present ones all
/// start with. `None` when none is present or they share nothing.
pub open spec fn common_dir_of(dirs: Seq<Option<Seq<char>>>) -> Option<Seq<char>> {
    let ds = dir_parts(dirs, dirs.len() as int);
    if ds.len() == 0 {
        None
    } else {
        let root = join_on(shared_prefix(ds, ds.len() as int), '/');
        if root.len() == 0 {
            None
        } else {
            Some(root)
        }
    }
}

/// The deepest directory that contains all `files`: the common directory of their directories
/// ([`path_parent`]). `None` when no file has a directory or they share nothing.
pub open spec fn common_root(files: Seq<Seq<char>>) -> Option<Seq<char>> {
    common_dir_of(files.map_values(|f: Seq<char>| path_parent(f)))
}

/// The deepest directory below all of `dirs` (the present ones), when they share one (see
/// [`common_dir_of`]).
pub fn common_dir(dirs_in: &Vec<Option<String>>) -> (r: Option<String>)
    ensures
        match r {
            Some(root) => common_dir_of(opt_views(dirs_in@)) == Some(root@),
            None => common_dir_of(opt_views(dirs_in@)) is None,
        },
{
    let ghost fs = opt_views(dirs_in@);
    let mut dirs: Vec<Vec<String>> = Vec::new();
    let mut i: usize = 0;
    while i < dirs_in.len()
        invariant
            i <= dirs_in@.len(),
            fs == opt_views(dirs_in@),
            dirs@.len() == dir_parts(fs, i as int).len(),
            forall|k: int| 0 <= k < dirs@.len() ==> views(#[trigger] dirs@[k]@) == dir_parts(fs, i as int)[k],
        decreases dirs_in@.len() - i,
    {
        let ghost before = dir_parts(fs, i as int);
        match &dirs_in[i] {
            Some(d) => {
                assert(fs[i as int] == Some(d@));
                let parts = split_chars(d.as_str(), '/');
                dirs.push(parts);
                assert(dir_parts(fs, i + 1) == before + seq![split_on(d@, '/')]);
            },
            None => {
                assert(fs[i as int] == None::<Seq<char>>);
                assert(dir_parts(fs, i + 1) =~= before);
            },
        }
        i = i + 1;
    }
    let ghost ds = dir_parts(fs, fs.len() as int);
    if dirs.len() == 0 {
        return None;
    }
    let mut prefix: Vec<String> = dirs[0].clone();
    assert(views(prefix@) == views(dirs@[0]@)) by {
        assert forall|k: int| 0 <= k < prefix@.len() implies prefix@[k]@ == dirs@[0]@[k]@ by {}
    }
    let mut n: usize = 1;
    while n < dirs.len()
        invariant
            1 <= n <= dirs@.len(),
            dirs@.len() == ds.len(),
            forall|k: int| 0 <= k < dirs@.len() ==> views(#[trigger] dirs@[k]@) == ds[k],
            views(prefix@) == shared_prefix(ds, n as int),
        decreases dirs@.len() - n,
    {
        let d = &dirs[n];
        let ghost pv = views(prefix@);
        let ghost dv = views(d@);
        assert(dv == ds[n as int]);
        let mut k: usize = 0;
        while k < prefix.len() && k < d.len() && crate::text::str_is(prefix[k].as_str(), d[k].as_str())
            invariant
                k <= prefix@.len(),
                pv == views(prefix@),
                dv == views(d@),
                shared_from(pv, dv, 0) == shared_from(pv, dv, k as int),
            decreases prefix@.len() - k,
        {
            assert(pv[k as int] == prefix@[k as int]@ && dv[k as int] == d@[k as int]@);
            k = k + 1;
        }
        proof {
            if k < prefix@.len() && k < d@.len() {
                assert(pv[k as int] == prefix@[k as int]@ && dv[k as int] == d@[k as int]@);
            }
            assert(shared_from(pv, dv, k as int) == k);
        }
        prefix.truncate(k);
        assert(views(prefix@) =~= pv.take(k as int));
        n = n + 1;
    }
    let root = join_chars(&prefix, '/');
    if crate::text::chars_of(root.as_str()).len() == 0 {
        None
    } else {
        Some(root)
    }
}

/// The deepest directory containing all `files` (where project-relative `#include "pkg/foo.h"`
/// resolve from), when they share one: the common directory ([`common_dir`]) of the files'
/// parent directories.
pub fn common_ancestor(files: &Vec<String>) -> (r: Option<String>)
    ensures
        match r {
            Some(root) => common_root(views(files@)) == Some(root@),
            None => common_root(views(files@)) is None,
        },
{
    let ghost fs = views(files@);
    let mut parents: Vec<Option<String>> = Vec::new();
    let mut i: usize = 0;
    while i < files.len()
        invariant
            i <= files@.len(),
            fs == views(files@),
            opt_views(parents@) == fs.take(i as int).map_values(|f: Seq<char>| path_parent(f)),
        decreases files@.len() - i,
    {
        let ghost p0 = parents@;
        assert(fs[i as int] == files@[i as int]@);
        let d = parent_dir(files[i].as_str());
        parents.push(d);
        assert(opt_views(parents@) =~= opt_views(p0).push(path_parent(fs[i as int])));
        assert(fs.take(i + 1).map_values(|f: Seq<char>| path_parent(f)) =~= fs.take(i as int).map_values(
            |f: Seq<char>| path_parent(f),
        ).push(path_parent(fs[i as int])));
        i = i + 1;
    }
    assert(fs.take(fs.len() as int) =~= fs);
    common_dir(&parents)
}

} // verus!
