//! The Rust frontend: lowering of Rust syntax into scope actions, and the analysis pipeline around
//! it. Source text is parsed by `syn` ([`parse::parse_rust`]); the `_parsed` functions take the
//! syntax tree ([`syntax::File`]) itself.

pub mod syntax;
pub mod lower;
pub mod parse;

use vstd::prelude::*;

use crate::engine::finding::{Category, Finding, FindingV, findings_view};
use crate::engine::score::default_weights;
use crate::render::{count_upto, debt_total};
use crate::engine::raw::{Frontend, RawModule};
use crate::engine::score::Weights;
use crate::engine::analyze::{project_findings, project_fits, stable_sorted};
use crate::engine::scopegraph::GraphV;
use crate::engine::scopelang::{Limit, build, built_graph};
use crate::lang::{
    analyze_extracted, analyze_extractions, analyze_lowered, count_category, debt_sum, extraction_of, finish,
    lemma_one_parse_error_totals, module_dotted, module_name, module_outcome, module_overflows, parse_error_view,
    parse_errors, parsed_modules,
};
use crate::lang::rust::lower::{Ru, RuLang, RuV, ru_node, ru_rule};
use crate::lang::rust::parse::{parse_rust, rust_parse};
use crate::lang::rust::syntax::{File, Item};

verus! {

/// The Rust frontend.
pub struct Rust;

/// The module path of a Rust file: `src/core/a.rs` → `core.a` (leading `./` and `src/` dropped).
pub open spec fn rust_module(file: Seq<char>) -> Seq<char> {
    module_dotted(file, seq![".rs"@], true)
}

/// The line of a file's `<module>` entity: its first item's, 1 when empty.
pub open spec fn rust_module_line(m: File) -> u32 {
    match m.first_line {
        Some(l) => l,
        None => 1,
    }
}

/// The scope graph a parsed file builds: its items, walked under the Rust lowering rule
/// ([`ru_rule`]).
pub open spec fn rust_graph(m: File) -> Result<GraphV, Limit> {
    built_graph(ru_rule(), m.items@.map_values(|it: Item| RuV::Item(it)))
}

/// Lower a parsed file and score it: its entities, scope debt, definition-reference
/// edges and declare-before-use warnings, with the `<module>` entity last — the scoring of the
/// module's scope graph ([`rust_graph`]). An `Err` says the module outgrew a limit of the
/// analysis.
pub fn extract_parsed(parsed: &File, file: &str) -> (r: Result<RawModule, String>)
    ensures
        extraction_of(r, rust_graph(*parsed), file@, rust_module(file@), rust_module_line(*parsed)),
{
    let mut roots: Vec<Ru> = Vec::new();
    let mut i: usize = 0;
    while i < parsed.items.len()
        invariant
            i <= parsed.items@.len(),
            roots@.map_values(ru_node()) == parsed.items@.take(i as int).map_values(|it: Item| RuV::Item(it)),
        decreases parsed.items@.len() - i,
    {
        let ghost r0 = roots@;
        roots.push(Ru::Item(&parsed.items[i]));
        assert(roots@.map_values(ru_node()) =~= r0.map_values(ru_node()).push(RuV::Item(parsed.items@[i as int])));
        assert(parsed.items@.take(i + 1).map_values(|it: Item| RuV::Item(it)) =~= parsed.items@.take(i as int).map_values(
            |it: Item| RuV::Item(it),
        ).push(RuV::Item(parsed.items@[i as int])));
        i = i + 1;
    }
    assert(parsed.items@.take(parsed.items@.len() as int) =~= parsed.items@);
    let built = build(&RuLang { file: parsed }, roots.as_slice());
    let module_line: u32 = match parsed.first_line {
        Some(l) => l,
        None => 1,
    };
    let suffixes: Vec<&str> = vec![".rs"];
    proof {
        assert(suffixes@.map_values(|s: &str| s@) =~= seq![".rs"@]);
    }
    finish(built, file, module_name(file, &suffixes, true), module_line)
}

impl Frontend for Rust {
    type Syntax = File;

    fn parse_module(&self, syntax: &File, file: &str) -> (r: Result<RawModule, String>)
        ensures
            extraction_of(r, rust_graph(*syntax), file@, rust_module(file@), rust_module_line(*syntax)),
    {
        extract_parsed(syntax, file)
    }
}

/// One file's findings: a module that did not parse (`Err` with the parser's message) is one
/// `ParseError` finding; otherwise the findings of the scoring of its scope graph
/// ([`module_outcome`]). `None` when a weighted score overflows a `u32`.
pub fn analyze_parsed(parsed: Result<File, String>, file: &str, weights: &Weights) -> (r: Option<Vec<Finding>>)
    ensures
        parsed matches Err(msg) ==> r matches Some(v) && findings_view(v@) == seq![parse_error_view(file@, msg@)],
        parsed matches Ok(md) ==> (r matches Some(v) ==> module_outcome(
            findings_view(v@),
            file@,
            rust_module(file@),
            rust_module_line(md),
            *weights,
            rust_graph(md),
        )),
        parsed matches Ok(md) ==> (r is None ==> module_overflows(
            file@,
            rust_module(file@),
            rust_module_line(md),
            *weights,
            rust_graph(md),
        )),
{
    match parsed {
        Ok(md) => analyze_lowered(
            extract_parsed(&md, file),
            file,
            weights,
            Ghost(rust_module(file@)),
            Ghost(rust_module_line(md)),
            Ghost(rust_graph(md)),
        ),
        Err(msg) => analyze_extracted(Err(msg), file, weights),
    }
}

/// Is `res` what a file `file` gives before the project analysis: the parser's error for a
/// module that did not parse, else its extraction?
pub open spec fn rust_extraction(file: Seq<char>, parsed: Result<File, String>, res: Result<RawModule, String>) -> bool {
    match parsed {
        Err(msg) => res matches Err(e) && e@ == msg@,
        Ok(md) => extraction_of(res, rust_graph(md), file, rust_module(file), rust_module_line(md)),
    }
}

/// Are `rs` the per-file results of `files`, in order?
pub open spec fn rust_extractions(files: Seq<(String, Result<File, String>)>, rs: Seq<(String, Result<RawModule, String>)>) -> bool {
    &&& rs.len() == files.len()
    &&& forall|i: int|
        0 <= i < rs.len() ==> #[trigger] rs[i].0@ == files[i].0@ && rust_extraction(files[i].0@, files[i].1, rs[i].1)
}

/// Whole-project analysis over `(file, parsed)` pairs: the modules that parsed are analyzed
/// together, each that did not adds its `ParseError` finding, and the list is sorted (`None` when
/// a weighted score overflows a `u32`).
pub fn analyze_parsed_project(files: Vec<(String, Result<File, String>)>, weights: &Weights) -> (r: Option<Vec<Finding>>)
    ensures
        exists|rs: Seq<(String, Result<RawModule, String>)>|
            #![trigger parsed_modules(rs)]
            rust_extractions(files@, rs) && (r is Some <==> project_fits(parsed_modules(rs), *weights)) && (r matches Some(v)
                ==> findings_view(v@) == stable_sorted(project_findings(parsed_modules(rs), *weights) + parse_errors(rs))),
{
    let ghost orig = files@;
    let mut results: Vec<(String, Result<RawModule, String>)> = Vec::new();
    let mut files = files;
    let n0 = files.len();
    let mut taken: usize = 0;
    assert(files@ =~= orig.skip(0));
    while files.len() > 0
        invariant
            taken + files@.len() == orig.len(),
            orig.len() <= usize::MAX,
            files@ == orig.skip(taken as int),
            results@.len() == taken,
            rust_extractions(orig.take(taken as int), results@),
        decreases files@.len(),
    {
        let ghost before = files@;
        let (file, parsed) = files.remove(0);
        assert(before[0] == orig[taken as int]);
        assert(files@ =~= orig.skip(taken + 1));
        let res = match parsed {
            Ok(m) => extract_parsed(&m, file.as_str()),
            Err(msg) => Err(msg),
        };
        assert(rust_extraction(orig[taken as int].0@, orig[taken as int].1, res));
        assert(file@ == orig[taken as int].0@);
        let ghost r0 = results@;
        results.push((file, res));
        proof {
            let o1 = orig.take(taken + 1);
            assert forall|i: int| 0 <= i < results@.len() implies #[trigger] results@[i].0@ == o1[i].0@ && rust_extraction(
                o1[i].0@,
                o1[i].1,
                results@[i].1,
            ) by {
                if i < taken {
                    assert(results@[i] == r0[i]);
                    assert(o1[i] == orig.take(taken as int)[i]);
                }
            }
        }
        taken = taken + 1;
    }
    assert(orig.take(orig.len() as int) =~= orig);
    let ghost rs = results@;
    let r = analyze_extractions(results, weights);
    assert(rust_extractions(orig, rs));
    r
}

/// The total scope debt of one parsed module (as `test.rs`, default weights): 0 for a module that
/// did not parse; otherwise the debt total of its findings ([`module_outcome`]). `None` when the
/// analysis or the total overflows a `u32`.
pub fn scope_of_parsed(parsed: Result<File, String>) -> (r: Option<u32>)
    ensures
        parsed is Err ==> r == Some(0u32),
        parsed matches Ok(md) ==> (r matches Some(n) ==> exists|v: Seq<FindingV>|
            #[trigger] debt_total(v) == n && module_outcome(
                v,
                "test.rs"@,
                rust_module("test.rs"@),
                rust_module_line(md),
                default_weights(),
                rust_graph(md),
            )),
        parsed matches Ok(md) ==> (r is None ==> module_overflows(
            "test.rs"@,
            rust_module("test.rs"@),
            rust_module_line(md),
            default_weights(),
            rust_graph(md),
        ) || exists|v: Seq<FindingV>|
            #[trigger] debt_total(v) > u32::MAX && module_outcome(
                v,
                "test.rs"@,
                rust_module("test.rs"@),
                rust_module_line(md),
                default_weights(),
                rust_graph(md),
            )),
{
    let w = Weights::default();
    match analyze_parsed(parsed, "test.rs", &w) {
        Some(v) => {
            let r = debt_sum(v.as_slice());
            proof {
                lemma_one_parse_error_totals(findings_view(v@));
            }
            r
        },
        None => None,
    }
}

/// The number of declare-before-use warnings of one parsed module (as `test.rs`, default
/// weights): 0 for a module that did not parse; otherwise the count among its findings
/// ([`module_outcome`]). `None` when the analysis overflows a `u32`.
pub fn warnings_of_parsed(parsed: Result<File, String>) -> (r: Option<usize>)
    ensures
        parsed is Err ==> r == Some(0usize),
        parsed matches Ok(md) ==> (r matches Some(n) ==> exists|v: Seq<FindingV>|
            #[trigger] count_upto(v, Category::DeclBeforeUse, v.len() as int) == n && module_outcome(
                v,
                "test.rs"@,
                rust_module("test.rs"@),
                rust_module_line(md),
                default_weights(),
                rust_graph(md),
            )),
        parsed matches Ok(md) ==> (r is None ==> module_overflows(
            "test.rs"@,
            rust_module("test.rs"@),
            rust_module_line(md),
            default_weights(),
            rust_graph(md),
        )),
{
    let w = Weights::default();
    match analyze_parsed(parsed, "test.rs", &w) {
        Some(v) => {
            let n = count_category(v.as_slice(), Category::DeclBeforeUse);
            proof {
                lemma_one_parse_error_totals(findings_view(v@));
            }
            Some(n)
        },
        None => None,
    }
}

// --- from source text --------------------------------------------------------------------

/// Parse and lower a source text (see [`extract_parsed`]): the parser's message when it does not
/// parse.
pub fn extract(src: &str, file: &str) -> (r: Result<RawModule, String>)
    ensures
        match rust_parse(src@) {
            Ok(md) => extraction_of(r, rust_graph(md), file@, rust_module(file@), rust_module_line(md)),
            Err(m) => r matches Err(e) && e@ == m,
        },
{
    match parse_rust(src) {
        Ok(md) => extract_parsed(&md, file),
        Err(e) => Err(e),
    }
}

/// One file's findings from its source text (see [`analyze_parsed`]): one `ParseError` finding
/// when it does not parse; `None` when a weighted score overflows a `u32`.
pub fn analyze_source(src: &str, file: &str, weights: &Weights) -> (r: Option<Vec<Finding>>)
    ensures
        rust_parse(src@) matches Err(msg) ==> r matches Some(v) && findings_view(v@) == seq![parse_error_view(file@, msg)],
        rust_parse(src@) matches Ok(md) ==> (r matches Some(v) ==> module_outcome(
            findings_view(v@),
            file@,
            rust_module(file@),
            rust_module_line(md),
            *weights,
            rust_graph(md),
        )),
        rust_parse(src@) matches Ok(md) ==> (r is None ==> module_overflows(
            file@,
            rust_module(file@),
            rust_module_line(md),
            *weights,
            rust_graph(md),
        )),
{
    analyze_parsed(parse_rust(src), file, weights)
}

/// `parsed` is what the parser makes of source text `src`.
pub open spec fn rust_parsed_as(src: Seq<char>, parsed: Result<File, String>) -> bool {
    match rust_parse(src) {
        Ok(f) => parsed == Ok::<File, String>(f),
        Err(m) => parsed matches Err(e) && e@ == m,
    }
}

/// Are `ps` the parses of the `(file, source)` pairs `files`, in order?
pub open spec fn rust_parses(files: Seq<(&str, &str)>, ps: Seq<(String, Result<File, String>)>) -> bool {
    &&& ps.len() == files.len()
    &&& forall|i: int| 0 <= i < ps.len() ==> #[trigger] ps[i].0@ == files[i].0@ && rust_parsed_as(files[i].1@, ps[i].1)
}

/// Whole-project analysis over `(file, source)` pairs (see [`analyze_parsed_project`]): every
/// source is parsed, the modules that parsed are analyzed together, each that did not adds its
/// `ParseError` finding, and the list is sorted (`None` when a weighted score overflows a `u32`).
pub fn analyze_project(files: &[(&str, &str)], weights: &Weights) -> (r: Option<Vec<Finding>>)
    ensures
        exists|ps: Seq<(String, Result<File, String>)>, rs: Seq<(String, Result<RawModule, String>)>|
            #![trigger rust_parses(files@, ps), parsed_modules(rs)]
            rust_parses(files@, ps) && rust_extractions(ps, rs) && (r is Some <==> project_fits(parsed_modules(rs), *weights))
                && (r matches Some(v) ==> findings_view(v@) == stable_sorted(
                project_findings(parsed_modules(rs), *weights) + parse_errors(rs),
            )),
{
    let mut parsed: Vec<(String, Result<File, String>)> = Vec::new();
    let mut k: usize = 0;
    while k < files.len()
        invariant
            k <= files@.len(),
            parsed@.len() == k,
            forall|i: int| 0 <= i < k ==> #[trigger] parsed@[i].0@ == files@[i].0@ && rust_parsed_as(files@[i].1@, parsed@[i].1),
        decreases files@.len() - k,
    {
        let (file, src) = files[k];
        let p = parse_rust(src);
        parsed.push((file.to_string(), p));
        k = k + 1;
    }
    let ghost ps = parsed@;
    assert(rust_parses(files@, ps));
    analyze_parsed_project(parsed, weights)
}

/// The total scope debt of one source text (as `test.rs`, default weights; see
/// [`scope_of_parsed`]): 0 when it does not parse.
pub fn scope_of(src: &str) -> (r: Option<u32>)
    ensures
        rust_parse(src@) is Err ==> r == Some(0u32),
        rust_parse(src@) matches Ok(md) ==> (r matches Some(n) ==> exists|v: Seq<FindingV>|
            #[trigger] debt_total(v) == n && module_outcome(
                v,
                "test.rs"@,
                rust_module("test.rs"@),
                rust_module_line(md),
                default_weights(),
                rust_graph(md),
            )),
        rust_parse(src@) matches Ok(md) ==> (r is None ==> module_overflows(
            "test.rs"@,
            rust_module("test.rs"@),
            rust_module_line(md),
            default_weights(),
            rust_graph(md),
        ) || exists|v: Seq<FindingV>|
            #[trigger] debt_total(v) > u32::MAX && module_outcome(
                v,
                "test.rs"@,
                rust_module("test.rs"@),
                rust_module_line(md),
                default_weights(),
                rust_graph(md),
            )),
{
    scope_of_parsed(parse_rust(src))
}

/// The number of declare-before-use warnings of one source text (as `test.rs`, default weights;
/// see [`warnings_of_parsed`]): 0 when it does not parse.
pub fn warnings_of(src: &str) -> (r: Option<usize>)
    ensures
        rust_parse(src@) is Err ==> r == Some(0usize),
        rust_parse(src@) matches Ok(md) ==> (r matches Some(n) ==> exists|v: Seq<FindingV>|
            #[trigger] count_upto(v, Category::DeclBeforeUse, v.len() as int) == n && module_outcome(
                v,
                "test.rs"@,
                rust_module("test.rs"@),
                rust_module_line(md),
                default_weights(),
                rust_graph(md),
            )),
        rust_parse(src@) matches Ok(md) ==> (r is None ==> module_overflows(
            "test.rs"@,
            rust_module("test.rs"@),
            rust_module_line(md),
            default_weights(),
            rust_graph(md),
        )),
{
    warnings_of_parsed(parse_rust(src))
}

} // verus!
