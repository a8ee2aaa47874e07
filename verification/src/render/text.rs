//! Text renderer (the default). Human wording for reason codes lives here, not in the engine.

use vstd::prelude::*;

use crate::engine::finding::{Category, Finding, FindingV, findings_view};
use crate::engine::model::{Reason, ReasonV};
use crate::render::{By, Report, by_label, count_upto, debt_total, is_tally, rank, scores_view, summarize};
use crate::text::{dec, pad_left, push_dec, push_padded, push_str};

verus! {

/// One ranking line: the score right-aligned in six columns, then the name.
pub open spec fn rank_line(p: (Seq<char>, u32)) -> Seq<char> {
    "  "@ + pad_left(dec(p.1 as nat), 6) + "  "@ + p.0 + "\n"@
}

pub open spec fn rank_lines(ps: Seq<(Seq<char>, u32)>) -> Seq<char>
    decreases ps.len(),
{
    if ps.len() == 0 {
        Seq::empty()
    } else {
        rank_lines(ps.drop_last()) + rank_line(ps.last())
    }
}

/// The text of a ranking: a header, a placeholder when there is nothing, the first `n` lines.
pub open spec fn ranking_text(ps: Seq<(Seq<char>, u32)>, n: nat, label: Seq<char>) -> Seq<char> {
    "top "@ + dec(n) + " by "@ + label + ":\n"@ + (if ps.len() == 0 { "  (nothing scored)\n"@ } else { Seq::empty() })
        + rank_lines(ps.take(if n < ps.len() { n as int } else { ps.len() as int }))
}

/// Append the ranking lines of `pairs[..k]`.
fn push_rank_lines(out: &mut String, pairs: &[(String, u32)], k: usize)
    requires
        k <= pairs@.len(),
    ensures
        final(out)@ == old(out)@ + rank_lines(scores_view(pairs@).take(k as int)),
{
    let ghost o0 = out@;
    let mut i: usize = 0;
    assert(scores_view(pairs@).take(0) =~= Seq::<(Seq<char>, u32)>::empty());
    while i < k
        invariant
            i <= k <= pairs@.len(),
            out@ == o0 + rank_lines(scores_view(pairs@).take(i as int)),
        decreases k - i,
    {
        let (name, score) = (&pairs[i].0, pairs[i].1);
        push_str(out, "  ");
        push_padded(out, score as u64, 6);
        push_str(out, "  ");
        push_str(out, name.as_str());
        push_str(out, "\n");
        proof {
            let ps = scores_view(pairs@).take(i + 1);
            assert(ps.drop_last() =~= scores_view(pairs@).take(i as int));
            assert(ps.last() == (name@, score));
        }
        assert(out@ =~= o0 + rank_lines(scores_view(pairs@).take(i + 1)));
        i = i + 1;
    }
}

/// Render a ranking (the top `n` of `pairs`).
pub fn ranking(pairs: &[(String, u32)], n: usize, label: &str) -> (r: String)
    ensures
        r@ == ranking_text(scores_view(pairs@), n as nat, label@),
{
    let mut out = String::new();
    push_str(&mut out, "top ");
    push_dec(&mut out, n as u64);
    push_str(&mut out, " by ");
    push_str(&mut out, label);
    push_str(&mut out, ":\n");
    if pairs.len() == 0 {
        push_str(&mut out, "  (nothing scored)\n");
    }
    let k = if n < pairs.len() { n } else { pairs.len() };
    let ghost o1 = out@;
    push_rank_lines(&mut out, pairs, k);
    assert(out@ =~= ranking_text(scores_view(pairs@), n as nat, label@));
    out
}

pub open spec fn category_words(c: Category) -> Seq<char> {
    match c {
        Category::ScopeDebt => "scope"@,
        Category::DeclBeforeUse => "decl-before-use"@,
        Category::Suggestion => "suggest"@,
        Category::ParseError => "parse-error"@,
    }
}

fn category_text(c: Category) -> (r: &'static str)
    ensures
        r@ == category_words(c),
{
    match c {
        Category::ScopeDebt => "scope",
        Category::DeclBeforeUse => "decl-before-use",
        Category::Suggestion => "suggest",
        Category::ParseError => "parse-error",
    }
}

/// The human wording of a reason code.
pub open spec fn reason_words(r: ReasonV) -> Seq<char> {
    match r {
        ReasonV::ExcessLevels(n) => "declared "@ + dec(n as nat) + " level(s) too high"@,
        ReasonV::Misplaced(n) => dec(n as nat) + " unrelated definition(s) between it and what it connects to"@,
        ReasonV::UseBeforeDecl => "used before its declaration"@,
        ReasonV::ForwardRef { callee, below } => if below {
            "references `"@ + callee + "`, declared below it"@
        } else {
            "references `"@ + callee + "`, declared above it (stepdown order wants callees below)"@
        },
        ReasonV::ExtractShared(n) => "referenced "@ + dec(n as nat)
            + " times here — extract into its own module (cross-file refs aren't penalized)"@,
        ReasonV::CrowdedScope(n) => "a bag of independent locals carries "@ + dec(n as nat)
            + " scope-debt — group them into a struct"@,
        ReasonV::ReorderBinding { first_use, wedged } => dec(wedged as nat)
            + " unrelated definition(s) before its first use (line "@ + dec(first_use as nat)
            + ") — move the declaration down to it"@,
        ReasonV::NarrowToBlock { first_use, levels } => "used only inside a block "@ + dec(levels as nat)
            + " level(s) deeper — declare it at its first use (line "@ + dec(first_use as nat) + ")"@,
        ReasonV::ParseError(m) => "parse error: "@ + m,
    }
}

/// The human wording for a stable reason code.
pub fn reason_text(r: &Reason) -> (s: String)
    ensures
        s@ == reason_words(r@),
{
    let mut out = String::new();
    match r {
        Reason::ExcessLevels(n) => {
            push_str(&mut out, "declared ");
            push_dec(&mut out, *n as u64);
            push_str(&mut out, " level(s) too high");
        },
        Reason::Misplaced(n) => {
            push_dec(&mut out, *n as u64);
            push_str(&mut out, " unrelated definition(s) between it and what it connects to");
        },
        Reason::UseBeforeDecl => {
            push_str(&mut out, "used before its declaration");
        },
        Reason::ForwardRef { callee, below } => {
            push_str(&mut out, "references `");
            push_str(&mut out, callee.as_str());
            if *below {
                push_str(&mut out, "`, declared below it");
            } else {
                push_str(&mut out, "`, declared above it (stepdown order wants callees below)");
            }
        },
        Reason::ExtractShared(n) => {
            push_str(&mut out, "referenced ");
            push_dec(&mut out, *n as u64);
            push_str(&mut out, " times here — extract into its own module (cross-file refs aren't penalized)");
        },
        Reason::CrowdedScope(n) => {
            push_str(&mut out, "a bag of independent locals carries ");
            push_dec(&mut out, *n as u64);
            push_str(&mut out, " scope-debt — group them into a struct");
        },
        Reason::ReorderBinding { first_use, wedged } => {
            push_dec(&mut out, *wedged as u64);
            push_str(&mut out, " unrelated definition(s) before its first use (line ");
            push_dec(&mut out, *first_use as u64);
            push_str(&mut out, ") — move the declaration down to it");
        },
        Reason::NarrowToBlock { first_use, levels } => {
            push_str(&mut out, "used only inside a block ");
            push_dec(&mut out, *levels as u64);
            push_str(&mut out, " level(s) deeper — declare it at its first use (line ");
            push_dec(&mut out, *first_use as u64);
            push_str(&mut out, ")");
        },
        Reason::ParseError(msg) => {
            push_str(&mut out, "parse error: ");
            push_str(&mut out, msg.as_str());
        },
    }
    out
}

/// The summary report.
pub open spec fn summary_text(total: nat, warnings: nat, suggestions: nat, parse_errors: nat, per_file: Seq<(Seq<char>, u32)>) -> Seq<
    char,
> {
    "scope-debt "@ + dec(total) + "\n"@ + "warnings: "@ + dec(warnings) + "   suggestions: "@ + dec(suggestions)
        + "   parse errors: "@ + dec(parse_errors) + "\n"@ + (if per_file.len() > 0 {
        "\nby file:\n"@ + rank_lines(per_file)
    } else {
        Seq::empty()
    })
}

fn summary(findings: &[Finding]) -> (r: String)
    requires
        debt_total(findings_view(findings@)) <= u32::MAX,
    ensures
        exists|pf: Seq<(Seq<char>, u32)>|
            is_tally(findings_view(findings@), By::File, true, pf) && r@ == summary_text(
                debt_total(findings_view(findings@)) as nat,
                count_upto(findings_view(findings@), Category::DeclBeforeUse, findings@.len() as int) as nat,
                count_upto(findings_view(findings@), Category::Suggestion, findings@.len() as int) as nat,
                count_upto(findings_view(findings@), Category::ParseError, findings@.len() as int) as nat,
                pf,
            ),
{
    let s = summarize(findings);
    let mut out = String::new();
    push_str(&mut out, "scope-debt ");
    push_dec(&mut out, s.scope_total as u64);
    push_str(&mut out, "\n");
    push_str(&mut out, "warnings: ");
    push_dec(&mut out, s.warnings as u64);
    push_str(&mut out, "   suggestions: ");
    push_dec(&mut out, s.suggestions as u64);
    push_str(&mut out, "   parse errors: ");
    push_dec(&mut out, s.parse_errors as u64);
    push_str(&mut out, "\n");
    if s.per_file.len() > 0 {
        push_str(&mut out, "\nby file:\n");
        push_rank_lines(&mut out, s.per_file.as_slice(), s.per_file.len());
        assert(scores_view(s.per_file@).take(s.per_file@.len() as int) =~= scores_view(s.per_file@));
    }
    let ghost pf = scores_view(s.per_file@);
    assert(out@ =~= summary_text(s.scope_total as nat, s.warnings as nat, s.suggestions as nat, s.parse_errors as nat, pf));
    out
}

/// One line of the full report.
pub open spec fn finding_line(f: FindingV) -> Seq<char> {
    f.file + ":"@ + dec(f.line as nat) + "  "@ + (if f.category == Category::ScopeDebt {
        pad_left(dec(f.score as nat), 4) + "  "@
    } else {
        "      "@
    }) + f.entity + "  ["@ + category_words(f.category) + "]  "@ + reason_words(f.reason) + "\n"@
}

pub open spec fn finding_lines(fs: Seq<FindingV>) -> Seq<char>
    decreases fs.len(),
{
    if fs.len() == 0 {
        Seq::empty()
    } else {
        finding_lines(fs.drop_last()) + finding_line(fs.last())
    }
}

/// The full report: every finding, then the combined score.
pub open spec fn all_text(fs: Seq<FindingV>) -> Seq<char> {
    if fs.len() == 0 {
        "clean — no findings\n"@
    } else {
        finding_lines(fs) + "\ncombined "@ + dec(debt_total(fs) as nat) + "\n"@
    }
}

fn all(findings: &[Finding]) -> (r: String)
    requires
        debt_total(findings_view(findings@)) <= u32::MAX,
    ensures
        r@ == all_text(findings_view(findings@)),
{
    let ghost fs = findings_view(findings@);
    if findings.len() == 0 {
        let mut out = String::new();
        push_str(&mut out, "clean — no findings\n");
        return out;
    }
    let mut out = String::new();
    let mut i: usize = 0;
    assert(fs.take(0) =~= Seq::<FindingV>::empty());
    while i < findings.len()
        invariant
            fs == findings_view(findings@),
            i <= fs.len(),
            out@ == finding_lines(fs.take(i as int)),
        decreases fs.len() - i,
    {
        let f = &findings[i];
        let ghost o0 = out@;
        push_str(&mut out, f.file.as_str());
        push_str(&mut out, ":");
        push_dec(&mut out, f.line as u64);
        push_str(&mut out, "  ");
        if f.category == Category::ScopeDebt {
            push_padded(&mut out, f.score as u64, 4);
            push_str(&mut out, "  ");
        } else {
            push_str(&mut out, "      ");
        }
        push_str(&mut out, f.entity.as_str());
        push_str(&mut out, "  [");
        push_str(&mut out, category_text(f.category));
        push_str(&mut out, "]  ");
        let rt = reason_text(&f.reason);
        push_str(&mut out, rt.as_str());
        push_str(&mut out, "\n");
        proof {
            let ps = fs.take(i + 1);
            assert(ps.drop_last() =~= fs.take(i as int));
            assert(ps.last() == f@);
        }
        assert(out@ =~= o0 + finding_line(f@));
        i = i + 1;
    }
    assert(fs.take(fs.len() as int) =~= fs);
    let s = summarize(findings);
    push_str(&mut out, "\ncombined ");
    push_dec(&mut out, s.combined() as u64);
    push_str(&mut out, "\n");
    out
}

fn top(findings: &[Finding], n: usize, by: By) -> (r: String)
    requires
        debt_total(findings_view(findings@)) <= u32::MAX,
    ensures
        exists|rk: Seq<(Seq<char>, u32)>|
            is_tally(findings_view(findings@), by, false, rk) && r@ == ranking_text(rk, n as nat, by_label(by)),
{
    let rk = rank(findings, by);
    ranking(rk.as_slice(), n, by.label())
}

/// `r` is the text rendering of findings `fs` for `report`: the full listing, the summary
/// (over the per-file rollup, see [`is_tally`]), or the top entries of a ranking.
pub open spec fn text_report(fs: Seq<FindingV>, report: Report, r: Seq<char>) -> bool {
    match report {
        Report::All => r == all_text(fs),
        Report::Summary => exists|pf: Seq<(Seq<char>, u32)>|
            is_tally(fs, By::File, true, pf) && r == summary_text(
                debt_total(fs) as nat,
                count_upto(fs, Category::DeclBeforeUse, fs.len() as int) as nat,
                count_upto(fs, Category::Suggestion, fs.len() as int) as nat,
                count_upto(fs, Category::ParseError, fs.len() as int) as nat,
                pf,
            ),
        Report::Top { n, by } => exists|rk: Seq<(Seq<char>, u32)>| is_tally(fs, by, false, rk) && r == ranking_text(rk, n as nat, by_label(by)),
    }
}

/// Render findings as text for the given report.
pub fn render(findings: &[Finding], report: Report) -> (r: String)
    requires
        debt_total(findings_view(findings@)) <= u32::MAX,
    ensures
        text_report(findings_view(findings@), report, r@),
{
    match report {
        Report::Summary => summary(findings),
        Report::All => all(findings),
        Report::Top { n, by } => top(findings, n, by),
    }
}

} // verus!
