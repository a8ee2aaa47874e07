//! Language frontends. Each frontend lowers its syntax tree into the language-agnostic scope
//! actions ([`crate::engine::scopelang`]); the engine then builds, scores and analyzes. This module
//! holds what the frontends share: the line index, the parse-error finding, module naming, and the
//! analysis pipeline around a frontend's extracted modules.

pub mod cpp;
pub mod python;
pub mod rust;
pub mod ts;

use vstd::prelude::*;
use vstd::string::StringSliceAdditionalSpecFns;

use crate::engine::analyze::{analyze_checked, project_findings, project_fits, sort_findings, stable_sorted};
use crate::engine::finding::{Category, Finding, FindingV, Severity, findings_view};
use crate::engine::model::{EntityKind, Reason, ReasonV};
use crate::engine::raw::{RawEntity, RawEntityV, RawKind, RawModule, debts_view, entities_view, lines_view, pairs_view};
use crate::engine::scopegraph::{
    GraphV, ScopeGraph, ScopeOutput, debt_upto, edges_upto, entities_upto, graph_wf, scopes_small, warnings_upto,
};
use crate::engine::scopelang::Limit;
use crate::engine::score::Weights;
use crate::render::{count_upto, debt_total};
use crate::text::{chars_of, push_char, push_str, range_starts_with};

verus! {

// --- line index: byte offset -> 1-based row ------------------------------------------------

/// The offsets at which the lines of `b[..n]` start: 0, then one past each line break.
pub open spec fn line_starts(b: Seq<u8>, n: int) -> Seq<usize>
    decreases n,
{
    if n <= 0 {
        seq![0usize]
    } else if b[n - 1] == 10 {
        line_starts(b, n - 1).push(n as usize)
    } else {
        line_starts(b, n - 1)
    }
}

/// How many of `s` are at most `o`.
pub open spec fn count_le(s: Seq<usize>, o: usize) -> int
    decreases s.len(),
{
    if s.len() == 0 {
        0
    } else {
        count_le(s.drop_last(), o) + if s.last() <= o { 1int } else { 0int }
    }
}

/// Maps byte offsets of a source text to 1-based line numbers.
pub struct LineIndex {
    starts: Vec<usize>,
}

impl LineIndex {
    /// The offsets at which lines start.
    pub closed spec fn starts(&self) -> Seq<usize> {
        self.starts@
    }

    /// The line starts are strictly increasing.
    #[verifier::type_invariant]
    spec fn increasing(&self) -> bool {
        forall|a: int, b: int| 0 <= a < b < self.starts@.len() ==> self.starts@[a] < self.starts@[b]
    }

    /// The index of `src`.
    pub fn new(src: &str) -> (r: LineIndex)
        ensures
            r.starts() == line_starts(src.spec_bytes(), src.spec_bytes().len() as int),
    {
        let b = src.as_bytes();
        let mut starts: Vec<usize> = Vec::new();
        starts.push(0);
        let mut i: usize = 0;
        assert(starts@ =~= line_starts(b@, 0));
        while i < b.len()
            invariant
                i <= b@.len(),
                b@ == src.spec_bytes(),
                starts@ == line_starts(b@, i as int),
            decreases b@.len() - i,
        {
            if b[i] == 10u8 {
                starts.push(i + 1);
            }
            i = i + 1;
        }
        proof {
            lemma_line_starts_sorted(b@, b@.len() as int);
        }
        LineIndex { starts }
    }

    /// The 1-based line of byte offset `offset`: how many lines start at or before it.
    pub fn row(&self, offset: usize) -> (r: u32)
        ensures
            r == count_le(self.starts(), offset) as u32,
    {
        proof {
            use_type_invariant(self);
        }
        let mut lo: usize = 0;
        let mut hi: usize = self.starts.len();
        while lo < hi
            invariant
                lo <= hi <= self.starts@.len(),
                forall|a: int, b: int| 0 <= a < b < self.starts@.len() ==> self.starts@[a] < self.starts@[b],
                forall|k: int| 0 <= k < lo ==> self.starts@[k] <= offset,
                forall|k: int| hi <= k < self.starts@.len() ==> self.starts@[k] > offset,
            decreases hi - lo,
        {
            let mid = lo + (hi - lo) / 2;
            if self.starts[mid] <= offset {
                lo = mid + 1;
            } else {
                hi = mid;
            }
        }
        proof {
            lemma_count_le(self.starts@, offset, lo as int);
        }
        #[verifier::truncate]
        (lo as u32)
    }
}

proof fn lemma_count_le(s: Seq<usize>, o: usize, p: int)
    requires
        0 <= p <= s.len(),
        forall|k: int| 0 <= k < p ==> s[k] <= o,
        forall|k: int| p <= k < s.len() ==> s[k] > o,
    ensures
        count_le(s, o) == p,
    decreases s.len(),
{
    if s.len() > 0 {
        let init = s.drop_last();
        if p == s.len() {
            lemma_count_le(init, o, p - 1);
        } else {
            lemma_count_le(init, o, p);
        }
    }
}

/// Line starts are strictly increasing.
pub proof fn lemma_line_starts_sorted(b: Seq<u8>, n: int)
    requires
        0 <= n <= b.len(),
        b.len() <= usize::MAX,
    ensures
        forall|a: int, c: int| 0 <= a < c < line_starts(b, n).len() ==> line_starts(b, n)[a] < line_starts(b, n)[c],
        forall|a: int| 0 <= a < line_starts(b, n).len() ==> line_starts(b, n)[a] <= n,
    decreases n,
{
    if n > 0 {
        lemma_line_starts_sorted(b, n - 1);
        let s = line_starts(b, n - 1);
        if b[n - 1] == 10 {
            let t = s.push(n as usize);
            assert(line_starts(b, n) == t);
            assert forall|a: int, c: int| 0 <= a < c < t.len() implies t[a] < t[c] by {
                if c < s.len() {
                    assert(t[a] == s[a] && t[c] == s[c]);
                } else {
                    assert(t[a] == s[a]);
                }
            }
        }
    }
}

// --- the shared pipeline ----------------------------------------------------------------------

/// The finding for a file the frontend could not parse.
pub open spec fn parse_error_view(file: Seq<char>, msg: Seq<char>) -> FindingV {
    FindingV {
        file,
        line: 1,
        entity: "<module>"@,
        entity_kind: EntityKind::Module,
        category: Category::ParseError,
        severity: Severity::Error,
        score: 0,
        reason: ReasonV::ParseError(msg),
    }
}

/// A `ParseError` finding for a file the frontend could not parse.
pub fn parse_error_finding(file: &str, msg: String) -> (f: Finding)
    ensures
        f@ == parse_error_view(file@, msg@),
{
    Finding {
        file: file.to_owned(),
        line: 1,
        entity: "<module>".to_owned(),
        entity_kind: EntityKind::Module,
        category: Category::ParseError,
        severity: Severity::Error,
        score: 0,
        reason: Reason::ParseError(msg),
    }
}

/// `s` without its leading run of `pre` (`str::trim_start_matches` with a string).
pub open spec fn strip_leading(s: Seq<char>, pre: Seq<char>) -> Seq<char>
    decreases s.len(),
{
    if pre.len() > 0 && pre.len() <= s.len() && s.take(pre.len() as int) == pre {
        strip_leading(s.skip(pre.len() as int), pre)
    } else {
        s
    }
}

/// `s` with every `/` and `\` turned into `.`.
pub open spec fn dotted_path(s: Seq<char>) -> Seq<char> {
    s.map_values(|c: char| if c == '/' || c == '\\' { '.' } else { c })
}

/// The index just past the leading run of `pre` in `v[lo..]`.
fn skip_leading(v: &Vec<char>, lo: usize, pre: &str) -> (r: usize)
    requires
        lo <= v@.len(),
        pre@.len() > 0,
    ensures
        lo <= r <= v@.len(),
        v@.skip(r as int) == strip_leading(v@.skip(lo as int), pre@),
{
    let plen = chars_of(pre).len();
    let mut a = lo;
    while range_starts_with(v, a, v.len(), pre)
        invariant
            lo <= a <= v@.len(),
            pre@.len() > 0,
            plen == pre@.len(),
            strip_leading(v@.skip(lo as int), pre@) == strip_leading(v@.skip(a as int), pre@),
        decreases v@.len() - a,
    {
        assert(v@.skip(a as int).take(pre@.len() as int) =~= v@.subrange(a as int, a + pre@.len()));
        assert(v@.skip(a as int).skip(pre@.len() as int) =~= v@.skip(a + pre@.len()));
        a = a + plen;
    }
    assert(!(pre@.len() <= v@.skip(a as int).len() && v@.skip(a as int).take(pre@.len() as int) == pre@)) by {
        if pre@.len() <= v@.skip(a as int).len() {
            assert(v@.skip(a as int).take(pre@.len() as int) =~= v@.subrange(a as int, a + pre@.len()));
        }
    }
    a
}

/// `v[lo..hi]` with path separators turned into dots.
fn dotted_from(v: &Vec<char>, lo: usize, hi: usize) -> (s: String)
    requires
        lo <= hi <= v@.len(),
    ensures
        s@ == dotted_path(v@.subrange(lo as int, hi as int)),
{
    let mut s = String::new();
    let mut i = lo;
    while i < hi
        invariant
            lo <= i <= hi <= v@.len(),
            s@ == dotted_path(v@.subrange(lo as int, i as int)),
        decreases hi - i,
    {
        let c = v[i];
        push_char(&mut s, if c == '/' || c == '\\' { '.' } else { c });
        assert(s@ =~= dotted_path(v@.subrange(lo as int, i + 1)));
        i = i + 1;
    }
    s
}

/// A module path from a file path: the first of `suffixes` it ends with removed, leading `./`
/// dropped (and leading `src/` when `drop_src`), separators turned into dots.
pub open spec fn module_dotted(file: Seq<char>, suffixes: Seq<Seq<char>>, drop_src: bool) -> Seq<char> {
    let stem = match first_suffix(file, suffixes) {
        Some(k) => file.take(file.len() - suffixes[k].len()),
        None => file,
    };
    let s1 = strip_leading(stem, "./"@);
    dotted_path(if drop_src { strip_leading(s1, "src/"@) } else { s1 })
}

/// The index of the first of `suffixes` that `file` ends with.
pub open spec fn first_suffix(file: Seq<char>, suffixes: Seq<Seq<char>>) -> Option<int> {
    first_suffix_from(file, suffixes, 0)
}

/// The module path of `file` (see [`module_dotted`]).
pub fn module_name(file: &str, suffixes: &Vec<&str>, drop_src: bool) -> (r: String)
    ensures
        r@ == module_dotted(file@, suffixes@.map_values(|s: &str| s@), drop_src),
{
    let v = chars_of(file);
    let ghost sv = suffixes@.map_values(|s: &str| s@);
    let mut end = v.len();
    let mut k: usize = 0;
    let mut found = false;
    while k < suffixes.len() && !found
        invariant
            k <= suffixes@.len(),
            sv == suffixes@.map_values(|s: &str| s@),
            v@ == file@,
            found ==> k > 0 && first_suffix(v@, sv) == Some(k - 1) && end == v@.len() - sv[k - 1].len(),
            !found ==> end == v@.len() && first_suffix(v@, sv) == first_suffix_from(v@, sv, k as int),
        decreases suffixes@.len() - k + if found { 0int } else { 1int },
    {
        let w = chars_of(suffixes[k]);
        assert(w@ == sv[k as int]);
        if w.len() <= v.len() && crate::text::range_is(&v, v.len() - w.len(), v.len(), suffixes[k]) {
            assert(v@.subrange(v@.len() - w@.len(), v@.len() as int) =~= v@.skip(v@.len() - w@.len()));
            end = v.len() - w.len();
            found = true;
        } else {
            proof {
                if w@.len() <= v@.len() {
                    assert(v@.subrange(v@.len() - w@.len(), v@.len() as int) =~= v@.skip(v@.len() - w@.len()));
                }
            }
        }
        k = k + 1;
    }
    proof {
        if !found {
            assert(first_suffix_from(v@, sv, k as int) is None);
        }
    }
    proof {
        reveal_strlit("./");
        reveal_strlit("src/");
    }
    let stem_end = end;
    let v2 = string_chars(&v, stem_end);
    assert(v2@ =~= match first_suffix(file@, sv) {
        Some(k) => file@.take(file@.len() - sv[k].len()),
        None => file@,
    });
    let a = skip_leading(&v2, 0, "./");
    let b = if drop_src { skip_leading(&v2, a, "src/") } else { a };
    assert(v2@.skip(0) =~= v2@);
    assert(v2@.subrange(b as int, v2@.len() as int) =~= v2@.skip(b as int));
    dotted_from(&v2, b, v2.len())
}

/// `first_suffix` looking from suffix `k` on.
pub open spec fn first_suffix_from(file: Seq<char>, suffixes: Seq<Seq<char>>, k: int) -> Option<int>
    decreases suffixes.len() - k,
{
    if k < 0 || k >= suffixes.len() {
        None
    } else if suffixes[k].len() <= file.len() && file.skip(file.len() - suffixes[k].len()) == suffixes[k] {
        Some(k)
    } else {
        first_suffix_from(file, suffixes, k + 1)
    }
}

/// The first `n` characters of `v`, as a new vector.
fn string_chars(v: &Vec<char>, n: usize) -> (r: Vec<char>)
    requires
        n <= v@.len(),
    ensures
        r@ == v@.take(n as int),
{
    let mut r: Vec<char> = Vec::new();
    let mut i: usize = 0;
    while i < n
        invariant
            i <= n <= v@.len(),
            r@ == v@.take(i as int),
        decreases n - i,
    {
        r.push(v[i]);
        assert(r@ =~= v@.take(i + 1));
        i = i + 1;
    }
    r
}


/// The module a frontend extracts: the scope graph's outputs, plus the synthetic `<module>`
/// entity (top-level code) at `module_line`.
pub fn raw_module(file: &str, module: String, out: ScopeOutput, module_line: u32) -> (m: RawModule)
    ensures
        m.file@ == file@,
        m.module == module,
        entities_view(m.entities@) == entities_view(out.entities@).push(
            RawEntityV { qualname: "<module>"@, kind: RawKind::Module, line: module_line },
        ),
        m.scope == out.debt,
        m.def_edges == out.edges,
        m.decl_warnings == out.decl_warnings,
{
    let mut entities = out.entities;
    let ghost e0 = entities@;
    let e = RawEntity { qualname: "<module>".to_owned(), kind: RawKind::Module, line: module_line };
    entities.push(e);
    assert(entities_view(entities@) =~= entities_view(e0).push(e@));
    RawModule {
        file: file.to_owned(),
        module,
        entities,
        scope: out.debt,
        def_edges: out.edges,
        decl_warnings: out.decl_warnings,
    }
}

/// The message of a module that outgrew a limit of the analysis.
pub open spec fn too_large_view() -> Seq<char> {
    "the module is too large to analyze"@
}

/// Is `m` the extraction of a module of `file` with module path `module`, its synthetic
/// `<module>` entity last at `module_line`?
pub open spec fn extracted_as(m: RawModule, file: Seq<char>, module: Seq<char>, module_line: u32) -> bool {
    &&& m.file@ == file
    &&& m.module@ == module
    &&& entities_view(m.entities@).len() > 0
    &&& entities_view(m.entities@).last() == RawEntityV { qualname: "<module>"@, kind: RawKind::Module, line: module_line }
}

/// Is `m` the scoring of the scope graph `g` of a module of `file` with module path `module`:
/// the graph's entities with the `<module>` entity (at `module_line`) last, its per-scope debt,
/// its definition-reference edges and its declare-before-use warnings?
pub open spec fn scored_as(m: RawModule, file: Seq<char>, module: Seq<char>, g: GraphV, module_line: u32) -> bool {
    &&& m.file@ == file
    &&& m.module@ == module
    &&& entities_view(m.entities@) == entities_upto(g, g.scopes.len() as int).push(
        RawEntityV { qualname: "<module>"@, kind: RawKind::Module, line: module_line },
    )
    &&& debts_view(m.scope@) == debt_upto(g, g.scopes.len() as int)
    &&& pairs_view(m.def_edges@) == edges_upto(g, g.uses.len() as int)
    &&& lines_view(m.decl_warnings@) == warnings_upto(g, g.scopes.len() as int)
}

/// Did the build give a graph that can be scored (no limit reached, every scope small enough)?
pub open spec fn scorable(graph: Result<GraphV, Limit>) -> bool {
    graph matches Ok(g) && scopes_small(g)
}

/// Is `res` what extraction gives for a module whose build gave `graph`: its scoring, or, when
/// the graph cannot be scored, the error [`too_large_view`]?
pub open spec fn extraction_of(
    res: Result<RawModule, String>,
    graph: Result<GraphV, Limit>,
    file: Seq<char>,
    module: Seq<char>,
    module_line: u32,
) -> bool {
    match res {
        Ok(m) => scorable(graph) && scored_as(m, file, module, graph->Ok_0, module_line) && extracted_as(
            m,
            file,
            module,
            module_line,
        ),
        Err(msg) => !scorable(graph) && msg@ == too_large_view(),
    }
}

/// The last step of every frontend's extraction: score the built graph and add the `<module>`
/// entity. A graph that outgrew a limit (a build limit, or too many bindings in a scope to score)
/// is the error [`too_large_view`].
pub fn finish(built: Result<ScopeGraph, Limit>, file: &str, module: String, module_line: u32) -> (r: Result<
    RawModule,
    String,
>)
    requires
        built matches Ok(g) ==> graph_wf(g@),
    ensures
        extraction_of(
            r,
            match built {
                Ok(g) => Ok(g@),
                Err(l) => Err(l),
            },
            file@,
            module@,
            module_line,
        ),
{
    let g = match built {
        Ok(g) => g,
        Err(_) => {
            return Err("the module is too large to analyze".to_owned());
        },
    };
    if !g.fits() {
        return Err("the module is too large to analyze".to_owned());
    }
    let ghost gv = g@;
    let m = raw_module(file, module, g.score(), module_line);
    proof {
        assert(entities_view(m.entities@).last() == RawEntityV { qualname: "<module>"@, kind: RawKind::Module, line: module_line });
        assert(scored_as(m, file@, m.module@, gv, module_line));
    }
    Ok(m)
}

/// What one file's analysis gives when its tree lowered, its build having given `graph`: the
/// findings of the module scored from the graph (extracted as `file`/`module`, its `<module>`
/// entity at `module_line`), or, for a graph that cannot be scored, that one `ParseError`
/// finding.
pub open spec fn module_outcome(
    v: Seq<FindingV>,
    file: Seq<char>,
    module: Seq<char>,
    module_line: u32,
    w: Weights,
    graph: Result<GraphV, Limit>,
) -> bool {
    if scorable(graph) {
        exists|m: RawModule|
            #![trigger project_findings(seq![m], w)]
            scored_as(m, file, module, graph->Ok_0, module_line) && extracted_as(m, file, module, module_line) && project_fits(
                seq![m],
                w,
            ) && v == project_findings(seq![m], w)
    } else {
        v == seq![parse_error_view(file, too_large_view())]
    }
}

/// When no result came: the module scored from the graph does not fit (a weighted score
/// overflows a `u32`).
pub open spec fn module_overflows(
    file: Seq<char>,
    module: Seq<char>,
    module_line: u32,
    w: Weights,
    graph: Result<GraphV, Limit>,
) -> bool {
    scorable(graph) && exists|m: RawModule|
        #![trigger project_fits(seq![m], w)]
        scored_as(m, file, module, graph->Ok_0, module_line) && !project_fits(seq![m], w)
}

/// Analyze one file's lowering result (what `extract` gave for its parsed tree, whose build gave
/// `graph`): the outcome [`module_outcome`], or `None` when it overflows.
pub(crate) fn analyze_lowered(
    res: Result<RawModule, String>,
    file: &str,
    weights: &Weights,
    Ghost(module): Ghost<Seq<char>>,
    Ghost(module_line): Ghost<u32>,
    Ghost(graph): Ghost<Result<GraphV, Limit>>,
) -> (r: Option<Vec<Finding>>)
    requires
        extraction_of(res, graph, file@, module, module_line),
    ensures
        r matches Some(v) ==> module_outcome(findings_view(v@), file@, module, module_line, *weights, graph),
        r is None ==> module_overflows(file@, module, module_line, *weights, graph),
{
    let r = analyze_extracted(res, file, weights);
    proof {
        if res is Ok {
            let m = res->Ok_0;
            if r is Some {
                let v = r->Some_0;
                assert(scored_as(m, file@, module, graph->Ok_0, module_line) && extracted_as(m, file@, module, module_line)
                    && project_fits(seq![m], *weights) && findings_view(v@) == project_findings(seq![m], *weights));
            } else {
                assert(scored_as(m, file@, module, graph->Ok_0, module_line) && !project_fits(seq![m], *weights));
            }
        }
    }
    r
}

/// A lone `ParseError` finding carries no scope debt and no declare-before-use warning.
pub proof fn lemma_one_parse_error_totals(v: Seq<FindingV>)
    ensures
        v.len() == 1 && v[0].category == Category::ParseError ==> debt_total(v) == 0 && count_upto(
            v,
            Category::DeclBeforeUse,
            1,
        ) == 0,
{
    if v.len() == 1 && v[0].category == Category::ParseError {
        reveal_with_fuel(crate::render::debt_total_upto, 2);
        reveal_with_fuel(count_upto, 2);
    }
}

/// Analyze one file's extraction: a file that failed to parse is one `ParseError` finding;
/// otherwise the module's findings (`None` when a weighted score overflows a `u32`).
pub fn analyze_extracted(res: Result<RawModule, String>, file: &str, weights: &Weights) -> (r: Option<Vec<Finding>>)
    ensures
        match res {
            Err(msg) => r matches Some(v) && findings_view(v@) == seq![parse_error_view(file@, msg@)],
            Ok(m) => (r is Some <==> project_fits(seq![m], *weights)) && (r matches Some(v) ==> findings_view(v@)
                == project_findings(seq![m], *weights)),
        },
{
    match res {
        Ok(m) => {
            let ms = vec![m];
            assert(ms@ =~= seq![m]);
            analyze_checked(ms.as_slice(), weights)
        },
        Err(msg) => {
            let f = parse_error_finding(file, msg);
            let v = vec![f];
            assert(findings_view(v@) =~= seq![f@]);
            Some(v)
        },
    }
}

/// The modules among per-file extractions that parsed.
pub open spec fn parsed_modules(rs: Seq<(String, Result<RawModule, String>)>) -> Seq<RawModule>
    decreases rs.len(),
{
    if rs.len() == 0 {
        Seq::empty()
    } else {
        parsed_modules(rs.drop_last()) + match rs.last().1 {
            Ok(m) => seq![m],
            Err(_) => Seq::empty(),
        }
    }
}

/// The `ParseError` findings of the files that did not parse.
pub open spec fn parse_errors(rs: Seq<(String, Result<RawModule, String>)>) -> Seq<FindingV>
    decreases rs.len(),
{
    if rs.len() == 0 {
        Seq::empty()
    } else {
        parse_errors(rs.drop_last()) + match rs.last().1 {
            Ok(_) => Seq::empty(),
            Err(msg) => seq![parse_error_view(rs.last().0@, msg@)],
        }
    }
}

/// Whole-project analysis over per-file extractions `(file, result)`: the parsed modules are
/// analyzed together, each file that failed to parse adds its `ParseError` finding, and the whole
/// list is sorted (`None` when a weighted score overflows a `u32`).
pub fn analyze_extractions(results: Vec<(String, Result<RawModule, String>)>, weights: &Weights) -> (r: Option<
    Vec<Finding>,
>)
    ensures
        r is Some <==> project_fits(parsed_modules(results@), *weights),
        r matches Some(v) ==> findings_view(v@) == stable_sorted(
            project_findings(parsed_modules(results@), *weights) + parse_errors(results@),
        ),
{
    let ghost rs = results@;
    let mut modules: Vec<RawModule> = Vec::new();
    let mut errors: Vec<Finding> = Vec::new();
    let mut results = results;
    let total_n = results.len();
    let mut taken: usize = 0;
    assert(rs.take(0) =~= Seq::<(String, Result<RawModule, String>)>::empty());
    assert(findings_view(errors@) =~= Seq::<FindingV>::empty());
    assert(results@ =~= rs.skip(0));
    while results.len() > 0
        invariant
            rs.len() == total_n,
            taken + results@.len() == rs.len(),
            results@ == rs.skip(taken as int),
            modules@ == parsed_modules(rs.take(taken as int)),
            findings_view(errors@) == parse_errors(rs.take(taken as int)),
        decreases results@.len(),
    {
        let ghost before = results@;
        let (file, res) = results.remove(0);
        proof {
            assert(before[0] == rs[taken as int]);
            assert(rs.take(taken + 1).drop_last() =~= rs.take(taken as int));
            assert(rs.take(taken + 1).last() == rs[taken as int]);
            assert(results@ =~= rs.skip(taken + 1));
        }
        match res {
            Ok(m) => {
                let ghost m0 = modules@;
                modules.push(m);
                assert(modules@ =~= m0 + seq![m]);
            },
            Err(msg) => {
                let ghost e0 = findings_view(errors@);
                let f = parse_error_finding(file.as_str(), msg);
                errors.push(f);
                assert(findings_view(errors@) =~= e0 + seq![f@]);
            },
        }
        taken = taken + 1;
    }
    assert(rs.take(rs.len() as int) =~= rs);
    let mut findings = match analyze_checked(modules.as_slice(), weights) {
        Some(v) => v,
        None => {
            return None;
        },
    };
    let ghost f0 = findings_view(findings@);
    let ghost e0 = findings_view(errors@);
    findings.append(&mut errors);
    assert(findings_view(findings@) =~= f0 + e0);
    sort_findings(&mut findings);
    Some(findings)
}

/// The project's scope-debt total, when it fits in a `u32`.
pub fn debt_sum(findings: &[Finding]) -> (r: Option<u32>)
    ensures
        r matches Some(n) ==> n == debt_total(findings_view(findings@)),
        r is None <==> debt_total(findings_view(findings@)) > u32::MAX,
{
    let ghost fs = findings_view(findings@);
    let mut total: u64 = 0;
    let mut i: usize = 0;
    while i < findings.len()
        invariant
            fs == findings_view(findings@),
            i <= fs.len(),
            total == crate::render::debt_total_upto(fs, i as int),
            total <= u32::MAX,
        decreases fs.len() - i,
    {
        assert(fs[i as int] == findings@[i as int]@);
        if findings[i].category == Category::ScopeDebt {
            total = total + findings[i].score as u64;
            if total > 0xffff_ffff {
                proof {
                    lemma_debt_total_mono(fs, i + 1);
                }
                return None;
            }
        }
        i = i + 1;
    }
    Some(total as u32)
}

proof fn lemma_debt_total_mono(fs: Seq<FindingV>, n: int)
    requires
        0 <= n <= fs.len(),
    ensures
        crate::render::debt_total_upto(fs, n) <= debt_total(fs),
    decreases fs.len() - n,
{
    if n < fs.len() {
        lemma_debt_total_mono(fs, n + 1);
    }
}

/// The number of findings of category `c`.
pub fn count_category(findings: &[Finding], c: Category) -> (r: usize)
    ensures
        r == count_upto(findings_view(findings@), c, findings@.len() as int),
{
    let ghost fs = findings_view(findings@);
    let mut n: usize = 0;
    let mut i: usize = 0;
    while i < findings.len()
        invariant
            fs == findings_view(findings@),
            i <= fs.len(),
            n == count_upto(fs, c, i as int),
            n <= i,
        decreases fs.len() - i,
    {
        assert(fs[i as int] == findings@[i as int]@);
        if findings[i].category == c {
            n = n + 1;
        }
        i = i + 1;
    }
    n
}

} // verus!
