//! The TypeScript/JavaScript frontend: lowering of TS/JS syntax (JSX included) into scope actions,
//! and the analysis pipeline around it. Source text is parsed by `oxc` ([`parse::parse_ts`]); the
//! `_parsed` functions take the syntax tree ([`syntax::Program`]) itself.

pub mod syntax;
pub mod lower;
pub mod parse;

use vstd::prelude::*;

use crate::engine::finding::{Category, Finding, FindingV, findings_view};
use crate::engine::score::default_weights;
use crate::render::{count_upto, debt_total};
use crate::engine::raw::{Frontend, RawModule};
use crate::engine::score::Weights;
use crate::engine::analyze::{project_findings, project_fits, stable_sorted};
use crate::engine::scopegraph::GraphV;
use crate::engine::scopelang::{Limit, build, built_graph};
use crate::lang::{
    analyze_extracted, analyze_extractions, analyze_lowered, count_category, debt_sum, extraction_of, finish,
    lemma_one_parse_error_totals, module_dotted, module_name, module_outcome, module_overflows, parse_error_view,
    parse_errors, parsed_modules,
};
use crate::lang::ts::lower::{Ts, TsLang, TsV, ts_node, ts_rule};
use crate::lang::ts::parse::{parse_ts, ts_parse, ts_parse_message};
use crate::lang::ts::syntax::{Program, Stmt};

verus! {

/// The TypeScript/JavaScript frontend.
pub struct TypeScript;

/// The module path of a TS/JS file: `src/ui/App.tsx` → `ui.App` (the first of `.tsx`, `.ts`,
/// `.jsx`, `.js` it ends with removed; leading `./` and `src/` dropped).
pub open spec fn ts_module(file: Seq<char>) -> Seq<char> {
    module_dotted(file, seq![".tsx"@, ".ts"@, ".jsx"@, ".js"@], true)
}

/// The line of a program's `<module>` entity: its first statement's, 1 when empty.
pub open spec fn ts_module_line(m: Program) -> u32 {
    match m.first_line {
        Some(l) => l,
        None => 1,
    }
}

/// The scope graph a parsed program builds: its statements, walked under the TS/JS lowering
/// rule ([`ts_rule`]).
pub open spec fn ts_graph(m: Program) -> Result<GraphV, Limit> {
    built_graph(ts_rule(), m.body@.map_values(|s: Stmt| TsV::Stmt(s)))
}

/// Lower a parsed program and score it: its entities, scope debt, definition-reference
/// edges and declare-before-use warnings, with the `<module>` entity last — the scoring of the
/// module's scope graph ([`ts_graph`]). An `Err` says the module outgrew a limit of the
/// analysis.
pub fn extract_parsed(program: &Program, file: &str) -> (r: Result<RawModule, String>)
    ensures
        extraction_of(r, ts_graph(*program), file@, ts_module(file@), ts_module_line(*program)),
{
    let mut roots: Vec<Ts> = Vec::new();
    let mut i: usize = 0;
    while i < program.body.len()
        invariant
            i <= program.body@.len(),
            roots@.map_values(ts_node()) == program.body@.take(i as int).map_values(|s: Stmt| TsV::Stmt(s)),
        decreases program.body@.len() - i,
    {
        let ghost r0 = roots@;
        roots.push(Ts::Stmt(&program.body[i]));
        assert(roots@.map_values(ts_node()) =~= r0.map_values(ts_node()).push(TsV::Stmt(program.body@[i as int])));
        assert(program.body@.take(i + 1).map_values(|s: Stmt| TsV::Stmt(s)) =~= program.body@.take(i as int).map_values(
            |s: Stmt| TsV::Stmt(s),
        ).push(TsV::Stmt(program.body@[i as int])));
        i = i + 1;
    }
    assert(program.body@.take(program.body@.len() as int) =~= program.body@);
    let built = build(&TsLang { program }, roots.as_slice());
    let module_line: u32 = match program.first_line {
        Some(l) => l,
        None => 1,
    };
    let suffixes: Vec<&str> = vec![".tsx", ".ts", ".jsx", ".js"];
    proof {
        assert(suffixes@.map_values(|s: &str| s@) =~= seq![".tsx"@, ".ts"@, ".jsx"@, ".js"@]);
    }
    finish(built, file, module_name(file, &suffixes, true), module_line)
}

impl Frontend for TypeScript {
    type Syntax = Program;

    fn parse_module(&self, syntax: &Program, file: &str) -> (r: Result<RawModule, String>)
        ensures
            extraction_of(r, ts_graph(*syntax), file@, ts_module(file@), ts_module_line(*syntax)),
    {
        extract_parsed(syntax, file)
    }
}

/// One file's findings: a module that did not parse (`Err` with the parser's message) is one
/// `ParseError` finding; otherwise the findings of the scoring of its scope graph
/// ([`module_outcome`]). `None` when a weighted score overflows a `u32`.
pub fn analyze_parsed(parsed: Result<Program, String>, file: &str, weights: &Weights) -> (r: Option<Vec<Finding>>)
    ensures
        parsed matches Err(msg) ==> r matches Some(v) && findings_view(v@) == seq![parse_error_view(file@, msg@)],
        parsed matches Ok(md) ==> (r matches Some(v) ==> module_outcome(
            findings_view(v@),
            file@,
            ts_module(file@),
            ts_module_line(md),
            *weights,
            ts_graph(md),
        )),
        parsed matches Ok(md) ==> (r is None ==> module_overflows(
            file@,
            ts_module(file@),
            ts_module_line(md),
            *weights,
            ts_graph(md),
        )),
{
    match parsed {
        Ok(md) => analyze_lowered(
            extract_parsed(&md, file),
            file,
            weights,
            Ghost(ts_module(file@)),
            Ghost(ts_module_line(md)),
            Ghost(ts_graph(md)),
        ),
        Err(msg) => analyze_extracted(Err(msg), file, weights),
    }
}

/// Is `res` what a file `file` gives before the project analysis: the parser's error for a
/// module that did not parse, else its extraction?
pub open spec fn ts_extraction(file: Seq<char>, parsed: Result<Program, String>, res: Result<RawModule, String>) -> bool {
    match parsed {
        Err(msg) => res matches Err(e) && e@ == msg@,
        Ok(md) => extraction_of(res, ts_graph(md), file, ts_module(file), ts_module_line(md)),
    }
}

/// Are `rs` the per-file results of `files`, in order?
pub open spec fn ts_extractions(files: Seq<(String, Result<Program, String>)>, rs: Seq<(String, Result<RawModule, String>)>) -> bool {
    &&& rs.len() == files.len()
    &&& forall|i: int|
        0 <= i < rs.len() ==> #[trigger] rs[i].0@ == files[i].0@ && ts_extraction(files[i].0@, files[i].1, rs[i].1)
}

/// Whole-project analysis over `(file, parsed)` pairs: the modules that parsed are analyzed
/// together, each that did not adds its `ParseError` finding, and the list is sorted (`None` when
/// a weighted score overflows a `u32`).
pub fn analyze_parsed_project(files: Vec<(String, Result<Program, String>)>, weights: &Weights) -> (r: Option<Vec<Finding>>)
    ensures
        exists|rs: Seq<(String, Result<RawModule, String>)>|
            #![trigger parsed_modules(rs)]
            ts_extractions(files@, rs) && (r is Some <==> project_fits(parsed_modules(rs), *weights)) && (r matches Some(v)
                ==> findings_view(v@) == stable_sorted(project_findings(parsed_modules(rs), *weights) + parse_errors(rs))),
{
    let ghost orig = files@;
    let mut results: Vec<(String, Result<RawModule, String>)> = Vec::new();
    let mut files = files;
    let n0 = files.len();
    let mut taken: usize = 0;
    assert(files@ =~= orig.skip(0));
    while files.len() > 0
        invariant
            taken + files@.len() == orig.len(),
            orig.len() <= usize::MAX,
            files@ == orig.skip(taken as int),
            results@.len() == taken,
            ts_extractions(orig.take(taken as int), results@),
        decreases files@.len(),
    {
        let ghost before = files@;
        let (file, parsed) = files.remove(0);
        assert(before[0] == orig[taken as int]);
        assert(files@ =~= orig.skip(taken + 1));
        let res = match parsed {
            Ok(m) => extract_parsed(&m, file.as_str()),
            Err(msg) => Err(msg),
        };
        assert(ts_extraction(orig[taken as int].0@, orig[taken as int].1, res));
        assert(file@ == orig[taken as int].0@);
        let ghost r0 = results@;
        results.push((file, res));
        proof {
            let o1 = orig.take(taken + 1);
            assert forall|i: int| 0 <= i < results@.len() implies #[trigger] results@[i].0@ == o1[i].0@ && ts_extraction(
                o1[i].0@,
                o1[i].1,
                results@[i].1,
            ) by {
                if i < taken {
                    assert(results@[i] == r0[i]);
                    assert(o1[i] == orig.take(taken as int)[i]);
                }
            }
        }
        taken = taken + 1;
    }
    assert(orig.take(orig.len() as int) =~= orig);
    let ghost rs = results@;
    let r = analyze_extractions(results, weights);
    assert(ts_extractions(orig, rs));
    r
}

/// The total scope debt of one parsed module (as `test.ts`, default weights): 0 for a module that
/// did not parse; otherwise the debt total of its findings ([`module_outcome`]). `None` when the
/// analysis or the total overflows a `u32`.
pub fn scope_of_parsed(parsed: Result<Program, String>) -> (r: Option<u32>)
    ensures
        parsed is Err ==> r == Some(0u32),
        parsed matches Ok(md) ==> (r matches Some(n) ==> exists|v: Seq<FindingV>|
            #[trigger] debt_total(v) == n && module_outcome(
                v,
                "test.ts"@,
                ts_module("test.ts"@),
                ts_module_line(md),
                default_weights(),
                ts_graph(md),
            )),
        parsed matches Ok(md) ==> (r is None ==> module_overflows(
            "test.ts"@,
            ts_module("test.ts"@),
            ts_module_line(md),
            default_weights(),
            ts_graph(md),
        ) || exists|v: Seq<FindingV>|
            #[trigger] debt_total(v) > u32::MAX && module_outcome(
                v,
                "test.ts"@,
                ts_module("test.ts"@),
                ts_module_line(md),
                default_weights(),
                ts_graph(md),
            )),
{
    let w = Weights::default();
    match analyze_parsed(parsed, "test.ts", &w) {
        Some(v) => {
            let r = debt_sum(v.as_slice());
            proof {
                lemma_one_parse_error_totals(findings_view(v@));
            }
            r
        },
        None => None,
    }
}

/// The number of declare-before-use warnings of one parsed module (as `test.ts`, default
/// weights): 0 for a module that did not parse; otherwise the count among its findings
/// ([`module_outcome`]). `None` when the analysis overflows a `u32`.
pub fn warnings_of_parsed(parsed: Result<Program, String>) -> (r: Option<usize>)
    ensures
        parsed is Err ==> r == Some(0usize),
        parsed matches Ok(md) ==> (r matches Some(n) ==> exists|v: Seq<FindingV>|
            #[trigger] count_upto(v, Category::DeclBeforeUse, v.len() as int) == n && module_outcome(
                v,
                "test.ts"@,
                ts_module("test.ts"@),
                ts_module_line(md),
                default_weights(),
                ts_graph(md),
            )),
        parsed matches Ok(md) ==> (r is None ==> module_overflows(
            "test.ts"@,
            ts_module("test.ts"@),
            ts_module_line(md),
            default_weights(),
            ts_graph(md),
        )),
{
    let w = Weights::default();
    match analyze_parsed(parsed, "test.ts", &w) {
        Some(v) => {
            let n = count_category(v.as_slice(), Category::DeclBeforeUse);
            proof {
                lemma_one_parse_error_totals(findings_view(v@));
            }
            Some(n)
        },
        None => None,
    }
}

// --- from source text --------------------------------------------------------------------

/// Parse and lower a source text (see [`extract_parsed`]): the parser's message when it does not
/// parse.
pub fn extract(src: &str, file: &str) -> (r: Result<RawModule, String>)
    ensures
        match ts_parse(src@, file@) {
            Ok(md) => extraction_of(r, ts_graph(md), file@, ts_module(file@), ts_module_line(md)),
            Err(m) => r matches Err(e) && e@ == ts_parse_message(m),
        },
{
    match parse_ts(src, file) {
        Ok(md) => extract_parsed(&md, file),
        Err(e) => Err(e),
    }
}

/// One file's findings from its source text (see [`analyze_parsed`]): one `ParseError` finding
/// when it does not parse; `None` when a weighted score overflows a `u32`.
pub fn analyze_source(src: &str, file: &str, weights: &Weights) -> (r: Option<Vec<Finding>>)
    ensures
        ts_parse(src@, file@) matches Err(m) ==> r matches Some(v) && findings_view(v@) == seq![
            parse_error_view(file@, ts_parse_message(m)),
        ],
        ts_parse(src@, file@) matches Ok(md) ==> (r matches Some(v) ==> module_outcome(
            findings_view(v@),
            file@,
            ts_module(file@),
            ts_module_line(md),
            *weights,
            ts_graph(md),
        )),
        ts_parse(src@, file@) matches Ok(md) ==> (r is None ==> module_overflows(
            file@,
            ts_module(file@),
            ts_module_line(md),
            *weights,
            ts_graph(md),
        )),
{
    analyze_parsed(parse_ts(src, file), file, weights)
}

/// `parsed` is what the parser makes of source text `src` of file `file`.
pub open spec fn ts_parsed_as(src: Seq<char>, file: Seq<char>, parsed: Result<Program, String>) -> bool {
    match ts_parse(src, file) {
        Ok(p) => parsed == Ok::<Program, String>(p),
        Err(m) => parsed matches Err(e) && e@ == ts_parse_message(m),
    }
}

/// Are `ps` the parses of the `(file, source)` pairs `files`, in order?
pub open spec fn ts_parses(files: Seq<(&str, &str)>, ps: Seq<(String, Result<Program, String>)>) -> bool {
    &&& ps.len() == files.len()
    &&& forall|i: int|
        0 <= i < ps.len() ==> #[trigger] ps[i].0@ == files[i].0@ && ts_parsed_as(files[i].1@, files[i].0@, ps[i].1)
}

/// Whole-project analysis over `(file, source)` pairs (see [`analyze_parsed_project`]): every
/// source is parsed, the modules that parsed are analyzed together, each that did not adds its
/// `ParseError` finding, and the list is sorted (`None` when a weighted score overflows a `u32`).
pub fn analyze_project(files: &[(&str, &str)], weights: &Weights) -> (r: Option<Vec<Finding>>)
    ensures
        exists|ps: Seq<(String, Result<Program, String>)>, rs: Seq<(String, Result<RawModule, String>)>|
            #![trigger ts_parses(files@, ps), parsed_modules(rs)]
            ts_parses(files@, ps) && ts_extractions(ps, rs) && (r is Some <==> project_fits(parsed_modules(rs), *weights))
                && (r matches Some(v) ==> findings_view(v@) == stable_sorted(
                project_findings(parsed_modules(rs), *weights) + parse_errors(rs),
            )),
{
    let mut parsed: Vec<(String, Result<Program, String>)> = Vec::new();
    let mut k: usize = 0;
    while k < files.len()
        invariant
            k <= files@.len(),
            parsed@.len() == k,
            forall|i: int|
                0 <= i < k ==> #[trigger] parsed@[i].0@ == files@[i].0@ && ts_parsed_as(files@[i].1@, files@[i].0@, parsed@[i].1),
        decreases files@.len() - k,
    {
        let (file, src) = files[k];
        let p = parse_ts(src, file);
        parsed.push((file.to_string(), p));
        k = k + 1;
    }
    let ghost ps = parsed@;
    assert(ts_parses(files@, ps));
    analyze_parsed_project(parsed, weights)
}

/// The total scope debt of one source text (as `test.ts`, default weights; see
/// [`scope_of_parsed`]): 0 when it does not parse.
pub fn scope_of(src: &str) -> (r: Option<u32>)
    ensures
        ts_parse(src@, "test.ts"@) is Err ==> r == Some(0u32),
        ts_parse(src@, "test.ts"@) matches Ok(md) ==> (r matches Some(n) ==> exists|v: Seq<FindingV>|
            #[trigger] debt_total(v) == n && module_outcome(
                v,
                "test.ts"@,
                ts_module("test.ts"@),
                ts_module_line(md),
                default_weights(),
                ts_graph(md),
            )),
        ts_parse(src@, "test.ts"@) matches Ok(md) ==> (r is None ==> module_overflows(
            "test.ts"@,
            ts_module("test.ts"@),
            ts_module_line(md),
            default_weights(),
            ts_graph(md),
        ) || exists|v: Seq<FindingV>|
            #[trigger] debt_total(v) > u32::MAX && module_outcome(
                v,
                "test.ts"@,
                ts_module("test.ts"@),
                ts_module_line(md),
                default_weights(),
                ts_graph(md),
            )),
{
    scope_of_parsed(parse_ts(src, "test.ts"))
}

/// The number of declare-before-use warnings of one source text (as `test.ts`, default weights;
/// see [`warnings_of_parsed`]): 0 when it does not parse.
pub fn warnings_of(src: &str) -> (r: Option<usize>)
    ensures
        ts_parse(src@, "test.ts"@) is Err ==> r == Some(0usize),
        ts_parse(src@, "test.ts"@) matches Ok(md) ==> (r matches Some(n) ==> exists|v: Seq<FindingV>|
            #[trigger] count_upto(v, Category::DeclBeforeUse, v.len() as int) == n && module_outcome(
                v,
                "test.ts"@,
                ts_module("test.ts"@),
                ts_module_line(md),
                default_weights(),
                ts_graph(md),
            )),
        ts_parse(src@, "test.ts"@) matches Ok(md) ==> (r is None ==> module_overflows(
            "test.ts"@,
            ts_module("test.ts"@),
            ts_module_line(md),
            default_weights(),
            ts_graph(md),
        )),
{
    warnings_of_parsed(parse_ts(src, "test.ts"))
}

} // verus!
