//! JSON renderer, hand-rolled: stable and byte-deterministic for a fixed input.

use vstd::prelude::*;

use crate::engine::finding::{Category, Finding, FindingV, Severity, findings_view};
use crate::engine::model::EntityKind;
use crate::render::text::{reason_text, reason_words};
use crate::render::{By, Report, count_upto, debt_total, is_tally, rank, scores_view, summarize};
use crate::text::{chars_of, dec, push_char, push_dec, push_str};

verus! {

/// The escaped form of one character inside a JSON string.
pub open spec fn escape_char(c: char) -> Seq<char> {
    if c == '"' {
        "\\\""@
    } else if c == '\\' {
        "\\\\"@
    } else if c == '\n' {
        "\\n"@
    } else if c == '\t' {
        "\\t"@
    } else if c == '\r' {
        "\\r"@
    } else {
        seq![c]
    }
}

pub open spec fn escaped(s: Seq<char>) -> Seq<char>
    decreases s.len(),
{
    if s.len() == 0 {
        Seq::empty()
    } else {
        escaped(s.drop_last()) + escape_char(s.last())
    }
}

/// `s` as a JSON string literal.
pub open spec fn quoted(s: Seq<char>) -> Seq<char> {
    "\""@ + escaped(s) + "\""@
}

/// Append `s` as a JSON string literal.
fn push_quoted(out: &mut String, s: &str)
    ensures
        final(out)@ == old(out)@ + quoted(s@),
{
    let ghost o0 = out@;
    push_str(out, "\"");
    let v = chars_of(s);
    let mut i: usize = 0;
    while i < v.len()
        invariant
            i <= v@.len(),
            v@ == s@,
            out@ == o0 + "\""@ + escaped(v@.take(i as int)),
        decreases v@.len() - i,
    {
        let c = v[i];
        let ghost m = out@;
        if c == '"' {
            push_str(out, "\\\"");
        } else if c == '\\' {
            push_str(out, "\\\\");
        } else if c == '\n' {
            push_str(out, "\\n");
        } else if c == '\t' {
            push_str(out, "\\t");
        } else if c == '\r' {
            push_str(out, "\\r");
        } else {
            push_char(out, c);
        }
        assert(out@ == m + escape_char(c));
        assert(v@.take(i + 1).drop_last() =~= v@.take(i as int));
        assert(out@ =~= o0 + "\""@ + escaped(v@.take(i + 1)));
        i = i + 1;
    }
    assert(v@.take(v@.len() as int) =~= v@);
    push_str(out, "\"");
    assert(out@ =~= o0 + quoted(s@));
}

/// One element of a JSON ranking.
pub open spec fn rank_item(first: bool, p: (Seq<char>, u32)) -> Seq<char> {
    (if first { Seq::empty() } else { ","@ }) + "\n  {\"name\": "@ + quoted(p.0) + ", \"score\": "@ + dec(p.1 as nat) + "}"@
}

pub open spec fn rank_items(ps: Seq<(Seq<char>, u32)>) -> Seq<char>
    decreases ps.len(),
{
    if ps.len() == 0 {
        Seq::empty()
    } else {
        rank_items(ps.drop_last()) + rank_item(ps.len() == 1, ps.last())
    }
}

/// A ranking as a JSON array of its first `n` entries.
pub open spec fn ranking_json(ps: Seq<(Seq<char>, u32)>, n: nat) -> Seq<char> {
    let items = ps.take(if n < ps.len() { n as int } else { ps.len() as int });
    "["@ + rank_items(items) + if items.len() == 0 { "]\n"@ } else { "\n]\n"@ }
}

/// Render a ranking as a JSON array.
pub fn ranking(pairs: &[(String, u32)], n: usize) -> (r: String)
    ensures
        r@ == ranking_json(scores_view(pairs@), n as nat),
{
    let k = if n < pairs.len() { n } else { pairs.len() };
    let ghost ps = scores_view(pairs@);
    let mut out = String::new();
    push_str(&mut out, "[");
    let mut i: usize = 0;
    assert(ps.take(0) =~= Seq::<(Seq<char>, u32)>::empty());
    while i < k
        invariant
            ps == scores_view(pairs@),
            i <= k <= pairs@.len(),
            out@ == "["@ + rank_items(ps.take(i as int)),
        decreases k - i,
    {
        let ghost o0 = out@;
        if i > 0 {
            push_str(&mut out, ",");
        }
        push_str(&mut out, "\n  {\"name\": ");
        push_quoted(&mut out, pairs[i].0.as_str());
        push_str(&mut out, ", \"score\": ");
        push_dec(&mut out, pairs[i].1 as u64);
        push_str(&mut out, "}");
        proof {
            let t = ps.take(i + 1);
            assert(t.drop_last() =~= ps.take(i as int));
            assert(t.last() == (pairs@[i as int].0@, pairs@[i as int].1));
        }
        assert(out@ =~= "["@ + rank_items(ps.take(i + 1)));
        i = i + 1;
    }
    if k == 0 {
        push_str(&mut out, "]\n");
    } else {
        push_str(&mut out, "\n]\n");
    }
    assert(out@ =~= ranking_json(ps, n as nat));
    out
}

pub open spec fn kind_words(k: EntityKind) -> Seq<char> {
    match k {
        EntityKind::Function => "Function"@,
        EntityKind::Method => "Method"@,
        EntityKind::Class => "Class"@,
        EntityKind::Module => "Module"@,
        EntityKind::Binding => "Binding"@,
    }
}

fn kind_str(k: EntityKind) -> (r: &'static str)
    ensures
        r@ == kind_words(k),
{
    match k {
        EntityKind::Function => "Function",
        EntityKind::Method => "Method",
        EntityKind::Class => "Class",
        EntityKind::Module => "Module",
        EntityKind::Binding => "Binding",
    }
}

pub open spec fn category_name(c: Category) -> Seq<char> {
    match c {
        Category::ScopeDebt => "ScopeDebt"@,
        Category::DeclBeforeUse => "DeclBeforeUse"@,
        Category::Suggestion => "Suggestion"@,
        Category::ParseError => "ParseError"@,
    }
}

fn category_str(c: Category) -> (r: &'static str)
    ensures
        r@ == category_name(c),
{
    match c {
        Category::ScopeDebt => "ScopeDebt",
        Category::DeclBeforeUse => "DeclBeforeUse",
        Category::Suggestion => "Suggestion",
        Category::ParseError => "ParseError",
    }
}

pub open spec fn severity_name(s: Severity) -> Seq<char> {
    match s {
        Severity::Error => "Error"@,
        Severity::Warning => "Warning"@,
        Severity::Info => "Info"@,
    }
}

fn severity_str(s: Severity) -> (r: &'static str)
    ensures
        r@ == severity_name(s),
{
    match s {
        Severity::Error => "Error",
        Severity::Warning => "Warning",
        Severity::Info => "Info",
    }
}

/// One element of the per-file array of the JSON summary.
pub open spec fn file_item(first: bool, p: (Seq<char>, u32)) -> Seq<char> {
    (if first { Seq::empty() } else { ","@ }) + "\n    {\"file\": "@ + quoted(p.0) + ", \"score\": "@ + dec(p.1 as nat) + "}"@
}

pub open spec fn file_items(ps: Seq<(Seq<char>, u32)>) -> Seq<char>
    decreases ps.len(),
{
    if ps.len() == 0 {
        Seq::empty()
    } else {
        file_items(ps.drop_last()) + file_item(ps.len() == 1, ps.last())
    }
}

/// The JSON summary object.
pub open spec fn summary_json(total: nat, warnings: nat, suggestions: nat, parse_errors: nat, per_file: Seq<(Seq<char>, u32)>) -> Seq<
    char,
> {
    "{\n"@ + "  \"combined\": "@ + dec(total) + ",\n"@ + "  \"scope_total\": "@ + dec(total) + ",\n"@ + "  \"warnings\": "@
        + dec(warnings) + ",\n"@ + "  \"suggestions\": "@ + dec(suggestions) + ",\n"@ + "  \"parse_errors\": "@ + dec(
        parse_errors,
    ) + ",\n"@ + "  \"per_file\": ["@ + file_items(per_file) + if per_file.len() == 0 {
        "]\n}\n"@
    } else {
        "\n  ]\n}\n"@
    }
}

fn summary(findings: &[Finding]) -> (r: String)
    requires
        debt_total(findings_view(findings@)) <= u32::MAX,
    ensures
        exists|pf: Seq<(Seq<char>, u32)>|
            is_tally(findings_view(findings@), By::File, true, pf) && r@ == summary_json(
                debt_total(findings_view(findings@)) as nat,
                count_upto(findings_view(findings@), Category::DeclBeforeUse, findings@.len() as int) as nat,
                count_upto(findings_view(findings@), Category::Suggestion, findings@.len() as int) as nat,
                count_upto(findings_view(findings@), Category::ParseError, findings@.len() as int) as nat,
                pf,
            ),
{
    let s = summarize(findings);
    let ghost pf = scores_view(s.per_file@);
    let mut out = String::new();
    push_str(&mut out, "{\n");
    push_str(&mut out, "  \"combined\": ");
    push_dec(&mut out, s.combined() as u64);
    push_str(&mut out, ",\n");
    push_str(&mut out, "  \"scope_total\": ");
    push_dec(&mut out, s.scope_total as u64);
    push_str(&mut out, ",\n");
    push_str(&mut out, "  \"warnings\": ");
    push_dec(&mut out, s.warnings as u64);
    push_str(&mut out, ",\n");
    push_str(&mut out, "  \"suggestions\": ");
    push_dec(&mut out, s.suggestions as u64);
    push_str(&mut out, ",\n");
    push_str(&mut out, "  \"parse_errors\": ");
    push_dec(&mut out, s.parse_errors as u64);
    push_str(&mut out, ",\n");
    push_str(&mut out, "  \"per_file\": [");
    let ghost head = out@;
    let mut i: usize = 0;
    assert(pf.take(0) =~= Seq::<(Seq<char>, u32)>::empty());
    while i < s.per_file.len()
        invariant
            pf == scores_view(s.per_file@),
            i <= pf.len(),
            out@ == head + file_items(pf.take(i as int)),
        decreases pf.len() - i,
    {
        let ghost o0 = out@;
        if i > 0 {
            push_str(&mut out, ",");
        }
        push_str(&mut out, "\n    {\"file\": ");
        push_quoted(&mut out, s.per_file[i].0.as_str());
        push_str(&mut out, ", \"score\": ");
        push_dec(&mut out, s.per_file[i].1 as u64);
        push_str(&mut out, "}");
        proof {
            let t = pf.take(i + 1);
            assert(t.drop_last() =~= pf.take(i as int));
            assert(t.last() == (s.per_file@[i as int].0@, s.per_file@[i as int].1));
        }
        assert(out@ =~= head + file_items(pf.take(i + 1)));
        i = i + 1;
    }
    assert(pf.take(pf.len() as int) =~= pf);
    if s.per_file.len() == 0 {
        push_str(&mut out, "]\n}\n");
    } else {
        push_str(&mut out, "\n  ]\n}\n");
    }
    assert(out@ =~= summary_json(s.scope_total as nat, s.warnings as nat, s.suggestions as nat, s.parse_errors as nat, pf));
    out
}

/// One finding as a JSON object (with its leading separator).
pub open spec fn finding_item(first: bool, f: FindingV) -> Seq<char> {
    (if first { Seq::empty() } else { ","@ }) + "\n  {"@ + "\"file\": "@ + quoted(f.file) + ", "@ + "\"line\": "@ + dec(
        f.line as nat,
    ) + ", "@ + "\"entity\": "@ + quoted(f.entity) + ", "@ + "\"kind\": "@ + quoted(kind_words(f.entity_kind)) + ", "@
        + "\"category\": "@ + quoted(category_name(f.category)) + ", "@ + "\"severity\": "@ + quoted(
        severity_name(f.severity),
    ) + ", "@ + "\"score\": "@ + dec(f.score as nat) + ", "@ + "\"reason\": "@ + quoted(reason_words(f.reason)) + "}"@
}

pub open spec fn finding_items(fs: Seq<FindingV>) -> Seq<char>
    decreases fs.len(),
{
    if fs.len() == 0 {
        Seq::empty()
    } else {
        finding_items(fs.drop_last()) + finding_item(fs.len() == 1, fs.last())
    }
}

/// Every finding as a JSON array.
pub open spec fn all_json(fs: Seq<FindingV>) -> Seq<char> {
    "["@ + finding_items(fs) + if fs.len() == 0 { "]\n"@ } else { "\n]\n"@ }
}

/// Append one finding as a JSON object (see [`finding_item`]).
#[verifier::rlimit(90)]
#[verifier::spinoff_prover]
fn push_finding(out: &mut String, f: &Finding, first: bool)
    ensures
        final(out)@ == old(out)@ + finding_item(first, f@),
{
    let ghost o0 = out@;
    if !first {
        push_str(out, ",");
    }
    push_str(out, "\n  {");
    push_str(out, "\"file\": ");
    push_quoted(out, f.file.as_str());
    push_str(out, ", ");
    push_str(out, "\"line\": ");
    push_dec(out, f.line as u64);
    push_str(out, ", ");
    push_str(out, "\"entity\": ");
    push_quoted(out, f.entity.as_str());
    push_str(out, ", ");
    push_str(out, "\"kind\": ");
    push_quoted(out, kind_str(f.entity_kind));
    push_str(out, ", ");
    push_str(out, "\"category\": ");
    push_quoted(out, category_str(f.category));
    push_str(out, ", ");
    push_str(out, "\"severity\": ");
    push_quoted(out, severity_str(f.severity));
    push_str(out, ", ");
    push_str(out, "\"score\": ");
    push_dec(out, f.score as u64);
    push_str(out, ", ");
    push_str(out, "\"reason\": ");
    let rt = reason_text(&f.reason);
    push_quoted(out, rt.as_str());
    push_str(out, "}");
    assert(out@ =~= o0 + finding_item(first, f@));
}

fn all(findings: &[Finding]) -> (r: String)
    ensures
        r@ == all_json(findings_view(findings@)),
{
    let ghost fs = findings_view(findings@);
    let mut out = String::new();
    push_str(&mut out, "[");
    let mut i: usize = 0;
    assert(fs.take(0) =~= Seq::<FindingV>::empty());
    while i < findings.len()
        invariant
            fs == findings_view(findings@),
            i <= fs.len(),
            out@ == "["@ + finding_items(fs.take(i as int)),
        decreases fs.len() - i,
    {
        let f = &findings[i];
        push_finding(&mut out, f, i == 0);
        proof {
            let t = fs.take(i + 1);
            assert(t.drop_last() =~= fs.take(i as int));
            assert(t.last() == f@);
        }
        assert(out@ =~= "["@ + finding_items(fs.take(i + 1)));
        i = i + 1;
    }
    assert(fs.take(fs.len() as int) =~= fs);
    if findings.len() == 0 {
        push_str(&mut out, "]\n");
    } else {
        push_str(&mut out, "\n]\n");
    }
    out
}

fn top(findings: &[Finding], n: usize, by: By) -> (r: String)
    requires
        debt_total(findings_view(findings@)) <= u32::MAX,
    ensures
        exists|rk: Seq<(Seq<char>, u32)>| is_tally(findings_view(findings@), by, false, rk) && r@ == ranking_json(rk, n as nat),
{
    let rk = rank(findings, by);
    ranking(rk.as_slice(), n)
}

/// `r` is the json rendering of findings `fs` for `report`: the full listing, the summary
/// (over the per-file rollup, see [`is_tally`]), or the top entries of a ranking.
pub open spec fn json_report(fs: Seq<FindingV>, report: Report, r: Seq<char>) -> bool {
    match report {
        Report::All => r == all_json(fs),
        Report::Summary => exists|pf: Seq<(Seq<char>, u32)>|
            is_tally(fs, By::File, true, pf) && r == summary_json(
                debt_total(fs) as nat,
                count_upto(fs, Category::DeclBeforeUse, fs.len() as int) as nat,
                count_upto(fs, Category::Suggestion, fs.len() as int) as nat,
                count_upto(fs, Category::ParseError, fs.len() as int) as nat,
                pf,
            ),
        Report::Top { n, by } => exists|rk: Seq<(Seq<char>, u32)>| is_tally(fs, by, false, rk) && r == ranking_json(rk, n as nat),
    }
}

/// Render findings as JSON for the given report.
pub fn render(findings: &[Finding], report: Report) -> (r: String)
    requires
        debt_total(findings_view(findings@)) <= u32::MAX,
    ensures
        json_report(findings_view(findings@), report, r@),
{
    match report {
        Report::Summary => summary(findings),
        Report::All => all(findings),
        Report::Top { n, by } => top(findings, n, by),
    }
}

} // verus!
