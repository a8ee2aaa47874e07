//! The Python frontend: lowering of Python syntax into scope actions, and the analysis pipeline
//! around it. Parsing is the caller's; it hands over the syntax tree as [`syntax::Module`].

pub mod syntax;
pub mod lower;

use vstd::prelude::*;

use crate::engine::finding::{Category, Finding, FindingV, findings_view};
use crate::engine::score::default_weights;
use crate::render::{count_upto, debt_total};
use crate::engine::raw::{Frontend, RawModule};
use crate::engine::score::Weights;
use crate::engine::analyze::{project_findings, project_fits, stable_sorted};
use crate::engine::scopegraph::GraphV;
use crate::engine::scopelang::{Limit, build, built_graph};
use crate::lang::{
    analyze_extracted, analyze_extractions, analyze_lowered, count_category, debt_sum, extraction_of, finish,
    lemma_one_parse_error_totals, module_dotted, module_name, module_outcome, module_overflows, parse_error_view,
    parse_errors, parsed_modules,
};
use crate::lang::python::lower::{Py, PyLang, PyV, py_node, py_rule};
use crate::lang::python::syntax::{Module, Stmt};

verus! {

/// The Python frontend.
pub struct Python;

/// The module path of a Python file: `pkg/a.py` → `pkg.a` (a leading `./` is dropped).
pub open spec fn python_module(file: Seq<char>) -> Seq<char> {
    module_dotted(file, seq![".py"@], false)
}

/// The line of a module's `<module>` entity: its first statement's, 1 when empty.
pub open spec fn python_module_line(m: Module) -> u32 {
    match m.first_line {
        Some(l) => l,
        None => 1,
    }
}

/// The scope graph a parsed module builds: its statements, walked under the Python lowering
/// rule ([`py_rule`]).
pub open spec fn python_graph(m: Module) -> Result<GraphV, Limit> {
    built_graph(py_rule(), m.body@.map_values(|s: Stmt| PyV::Stmt(s)))
}

/// Lower a parsed module of `file` and score it: its entities, scope debt, definition-reference
/// edges and declare-before-use warnings, with the `<module>` entity last — the scoring of the
/// module's scope graph ([`python_graph`]). An `Err` says the module outgrew a limit of the
/// analysis.
pub fn extract(module: &Module, file: &str) -> (r: Result<RawModule, String>)
    ensures
        extraction_of(r, python_graph(*module), file@, python_module(file@), python_module_line(*module)),
{
    let mut roots: Vec<Py> = Vec::new();
    let mut i: usize = 0;
    while i < module.body.len()
        invariant
            i <= module.body@.len(),
            roots@.map_values(py_node()) == module.body@.take(i as int).map_values(|s: Stmt| PyV::Stmt(s)),
        decreases module.body@.len() - i,
    {
        let ghost r0 = roots@;
        roots.push(Py::Stmt(&module.body[i]));
        assert(roots@.map_values(py_node()) =~= r0.map_values(py_node()).push(PyV::Stmt(module.body@[i as int])));
        assert(module.body@.take(i + 1).map_values(|s: Stmt| PyV::Stmt(s)) =~= module.body@.take(i as int).map_values(
            |s: Stmt| PyV::Stmt(s),
        ).push(PyV::Stmt(module.body@[i as int])));
        i = i + 1;
    }
    assert(module.body@.take(module.body@.len() as int) =~= module.body@);
    let built = build(&PyLang { module }, roots.as_slice());
    let module_line: u32 = match module.first_line {
        Some(l) => l,
        None => 1,
    };
    let suffixes: Vec<&str> = vec![".py"];
    proof {
        assert(suffixes@.map_values(|s: &str| s@) =~= seq![".py"@]);
    }
    finish(built, file, module_name(file, &suffixes, false), module_line)
}

impl Frontend for Python {
    type Syntax = Module;

    fn parse_module(&self, syntax: &Module, file: &str) -> (r: Result<RawModule, String>)
        ensures
            extraction_of(r, python_graph(*syntax), file@, python_module(file@), python_module_line(*syntax)),
    {
        extract(syntax, file)
    }
}

/// One file's findings: a module that did not parse (`Err` with the parser's message) is one
/// `ParseError` finding; otherwise the findings of the scoring of its scope graph
/// ([`module_outcome`]). `None` when a weighted score overflows a `u32`.
pub fn analyze_source(parsed: Result<Module, String>, file: &str, weights: &Weights) -> (r: Option<Vec<Finding>>)
    ensures
        parsed matches Err(msg) ==> r matches Some(v) && findings_view(v@) == seq![parse_error_view(file@, msg@)],
        parsed matches Ok(md) ==> (r matches Some(v) ==> module_outcome(
            findings_view(v@),
            file@,
            python_module(file@),
            python_module_line(md),
            *weights,
            python_graph(md),
        )),
        parsed matches Ok(md) ==> (r is None ==> module_overflows(
            file@,
            python_module(file@),
            python_module_line(md),
            *weights,
            python_graph(md),
        )),
{
    match parsed {
        Ok(md) => analyze_lowered(
            extract(&md, file),
            file,
            weights,
            Ghost(python_module(file@)),
            Ghost(python_module_line(md)),
            Ghost(python_graph(md)),
        ),
        Err(msg) => analyze_extracted(Err(msg), file, weights),
    }
}

/// Is `res` what a file `file` gives before the project analysis: the parser's error for a
/// module that did not parse, else its extraction?
pub open spec fn python_extraction(file: Seq<char>, parsed: Result<Module, String>, res: Result<RawModule, String>) -> bool {
    match parsed {
        Err(msg) => res matches Err(e) && e@ == msg@,
        Ok(md) => extraction_of(res, python_graph(md), file, python_module(file), python_module_line(md)),
    }
}

/// Are `rs` the per-file results of `files`, in order?
pub open spec fn python_extractions(files: Seq<(String, Result<Module, String>)>, rs: Seq<(String, Result<RawModule, String>)>) -> bool {
    &&& rs.len() == files.len()
    &&& forall|i: int|
        0 <= i < rs.len() ==> #[trigger] rs[i].0@ == files[i].0@ && python_extraction(files[i].0@, files[i].1, rs[i].1)
}

/// Whole-project analysis over `(file, parsed)` pairs: the modules that parsed are analyzed
/// together, each that did not adds its `ParseError` finding, and the list is sorted (`None` when
/// a weighted score overflows a `u32`).
pub fn analyze_project(files: Vec<(String, Result<Module, String>)>, weights: &Weights) -> (r: Option<Vec<Finding>>)
    ensures
        exists|rs: Seq<(String, Result<RawModule, String>)>|
            #![trigger parsed_modules(rs)]
            python_extractions(files@, rs) && (r is Some <==> project_fits(parsed_modules(rs), *weights)) && (r matches Some(v)
                ==> findings_view(v@) == stable_sorted(project_findings(parsed_modules(rs), *weights) + parse_errors(rs))),
{
    let ghost orig = files@;
    let mut results: Vec<(String, Result<RawModule, String>)> = Vec::new();
    let mut files = files;
    let n0 = files.len();
    let mut taken: usize = 0;
    assert(files@ =~= orig.skip(0));
    while files.len() > 0
        invariant
            taken + files@.len() == orig.len(),
            orig.len() <= usize::MAX,
            files@ == orig.skip(taken as int),
            results@.len() == taken,
            python_extractions(orig.take(taken as int), results@),
        decreases files@.len(),
    {
        let ghost before = files@;
        let (file, parsed) = files.remove(0);
        assert(before[0] == orig[taken as int]);
        assert(files@ =~= orig.skip(taken + 1));
        let res = match parsed {
            Ok(m) => extract(&m, file.as_str()),
            Err(msg) => Err(msg),
        };
        assert(python_extraction(orig[taken as int].0@, orig[taken as int].1, res));
        assert(file@ == orig[taken as int].0@);
        let ghost r0 = results@;
        results.push((file, res));
        proof {
            let o1 = orig.take(taken + 1);
            assert forall|i: int| 0 <= i < results@.len() implies #[trigger] results@[i].0@ == o1[i].0@ && python_extraction(
                o1[i].0@,
                o1[i].1,
                results@[i].1,
            ) by {
                if i < taken {
                    assert(results@[i] == r0[i]);
                    assert(o1[i] == orig.take(taken as int)[i]);
                }
            }
        }
        taken = taken + 1;
    }
    assert(orig.take(orig.len() as int) =~= orig);
    let ghost rs = results@;
    let r = analyze_extractions(results, weights);
    assert(python_extractions(orig, rs));
    r
}

/// The total scope debt of one parsed module (as `test.py`, default weights): 0 for a module that
/// did not parse; otherwise the debt total of its findings ([`module_outcome`]). `None` when the
/// analysis or the total overflows a `u32`.
pub fn scope_of(parsed: Result<Module, String>) -> (r: Option<u32>)
    ensures
        parsed is Err ==> r == Some(0u32),
        parsed matches Ok(md) ==> (r matches Some(n) ==> exists|v: Seq<FindingV>|
            #[trigger] debt_total(v) == n && module_outcome(
                v,
                "test.py"@,
                python_module("test.py"@),
                python_module_line(md),
                default_weights(),
                python_graph(md),
            )),
        parsed matches Ok(md) ==> (r is None ==> module_overflows(
            "test.py"@,
            python_module("test.py"@),
            python_module_line(md),
            default_weights(),
            python_graph(md),
        ) || exists|v: Seq<FindingV>|
            #[trigger] debt_total(v) > u32::MAX && module_outcome(
                v,
                "test.py"@,
                python_module("test.py"@),
                python_module_line(md),
                default_weights(),
                python_graph(md),
            )),
{
    let w = Weights::default();
    match analyze_source(parsed, "test.py", &w) {
        Some(v) => {
            let r = debt_sum(v.as_slice());
            proof {
                lemma_one_parse_error_totals(findings_view(v@));
            }
            r
        },
        None => None,
    }
}

/// The number of declare-before-use warnings of one parsed module (as `test.py`, default
/// weights): 0 for a module that did not parse; otherwise the count among its findings
/// ([`module_outcome`]). `None` when the analysis overflows a `u32`.
pub fn warnings_of(parsed: Result<Module, String>) -> (r: Option<usize>)
    ensures
        parsed is Err ==> r == Some(0usize),
        parsed matches Ok(md) ==> (r matches Some(n) ==> exists|v: Seq<FindingV>|
            #[trigger] count_upto(v, Category::DeclBeforeUse, v.len() as int) == n && module_outcome(
                v,
                "test.py"@,
                python_module("test.py"@),
                python_module_line(md),
                default_weights(),
                python_graph(md),
            )),
        parsed matches Ok(md) ==> (r is None ==> module_overflows(
            "test.py"@,
            python_module("test.py"@),
            python_module_line(md),
            default_weights(),
            python_graph(md),
        )),
{
    let w = Weights::default();
    match analyze_source(parsed, "test.py", &w) {
        Some(v) => {
            let n = count_category(v.as_slice(), Category::DeclBeforeUse);
            proof {
                lemma_one_parse_error_totals(findings_view(v@));
            }
            Some(n)
        },
        None => None,
    }
}

} // verus!
