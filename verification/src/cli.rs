//! The command line: `ventouse [PATH] [--lang=…] [--order=…] [--format=…] [--summary|--all|--top=N
//! --by=…] [--error]` read into settings, the language chosen when none is given, and the exit
//! decision. PATH defaults to `.`, the report to the summary.

use vstd::prelude::*;

use crate::config::parse_unsigned;
use crate::engine::finding::{Category, Finding, FindingV, Severity, findings_view};
use crate::engine::score::DeclOrder;
use crate::lang::cpp::compdb::{has_prefix, strs_view};
use crate::render::{By, Format, Report};
use crate::text::{chars_of, push_str, range_is, range_starts_with, string_of};

verus! {

/// The frontend to run.
#[derive(Clone, Copy, Debug, PartialEq, Eq, Structural)]
pub enum Lang {
    Python,
    Rust,
    Cpp,
    Ts,
}

/// The settings the command line asks for.
pub struct Args {
    pub path: String,
    pub format: Format,
    pub report: Report,
    pub error_exit: bool,
    pub lang: Option<Lang>,
    pub order: DeclOrder,
}

pub struct ArgsV {
    pub path: Seq<char>,
    pub format: Format,
    pub report: Report,
    pub error_exit: bool,
    pub lang: Option<Lang>,
    pub order: DeclOrder,
}

impl View for Args {
    type V = ArgsV;

    open spec fn view(&self) -> ArgsV {
        ArgsV {
            path: self.path@,
            format: self.format,
            report: self.report,
            error_exit: self.error_exit,
            lang: self.lang,
            order: self.order,
        }
    }
}

pub open spec fn usage_text() -> Seq<char> {
    "usage: ventouse [PATH] [--lang=python|rust|cpp|ts] [--order=bottom-up|top-down] [--format=text|json] [--summary|--all|--top=N --by=function|class|file] [--error]"@
}

/// The usage line.
pub fn usage() -> (s: String)
    ensures
        s@ == usage_text(),
{
    let mut s = String::new();
    push_str(
        &mut s,
        "usage: ventouse [PATH] [--lang=python|rust|cpp|ts] [--order=bottom-up|top-down] [--format=text|json] [--summary|--all|--top=N --by=function|class|file] [--error]",
    );
    s
}

/// The settings while reading the arguments, with the pending `--top=` count and `--by=` rollup.
pub struct CliState {
    pub args: ArgsV,
    pub top_n: Option<usize>,
    pub by: By,
}

/// Nothing read yet: path `.`, text, summary, no language, bottom-up, by function.
pub open spec fn initial_state() -> CliState {
    CliState {
        args: ArgsV {
            path: "."@,
            format: Format::Text,
            report: Report::Summary,
            error_exit: false,
            lang: None,
            order: DeclOrder::BottomUp,
        },
        top_n: None,
        by: By::Function,
    }
}

/// The settings after one argument, or the message it is refused with.
pub open spec fn arg_step(st: CliState, a: Seq<char>) -> Result<CliState, Seq<char>> {
    let s = st.args;
    if a == "--summary"@ {
        Ok(CliState { args: ArgsV { report: Report::Summary, ..s }, ..st })
    } else if a == "--all"@ {
        Ok(CliState { args: ArgsV { report: Report::All, ..s }, ..st })
    } else if a == "--format=text"@ {
        Ok(CliState { args: ArgsV { format: Format::Text, ..s }, ..st })
    } else if a == "--format=json"@ {
        Ok(CliState { args: ArgsV { format: Format::Json, ..s }, ..st })
    } else if a == "--error"@ {
        Ok(CliState { args: ArgsV { error_exit: true, ..s }, ..st })
    } else if a == "--lang=python"@ {
        Ok(CliState { args: ArgsV { lang: Some(Lang::Python), ..s }, ..st })
    } else if a == "--lang=rust"@ {
        Ok(CliState { args: ArgsV { lang: Some(Lang::Rust), ..s }, ..st })
    } else if a == "--lang=cpp"@ {
        Ok(CliState { args: ArgsV { lang: Some(Lang::Cpp), ..s }, ..st })
    } else if a == "--lang=ts"@ || a == "--lang=typescript"@ || a == "--lang=js"@ {
        Ok(CliState { args: ArgsV { lang: Some(Lang::Ts), ..s }, ..st })
    } else if a == "--order=bottom-up"@ {
        Ok(CliState { args: ArgsV { order: DeclOrder::BottomUp, ..s }, ..st })
    } else if a == "--order=top-down"@ {
        Ok(CliState { args: ArgsV { order: DeclOrder::TopDown, ..s }, ..st })
    } else if a == "-h"@ || a == "--help"@ {
        Err(usage_text())
    } else if has_prefix(a, "--top="@) {
        match parse_unsigned(a.skip(6), usize::MAX as int) {
            Some(n) => Ok(CliState { top_n: Some(n as usize), ..st }),
            None => Err("--top= needs a number\n"@ + usage_text()),
        }
    } else if has_prefix(a, "--by="@) {
        let o = a.skip(5);
        if o == "function"@ {
            Ok(CliState { by: By::Function, ..st })
        } else if o == "class"@ {
            Ok(CliState { by: By::Class, ..st })
        } else if o == "file"@ {
            Ok(CliState { by: By::File, ..st })
        } else {
            Err("unknown --by="@ + o + "\n"@ + usage_text())
        }
    } else if has_prefix(a, "--"@) {
        Err("unknown flag: "@ + a + "\n"@ + usage_text())
    } else {
        Ok(CliState { args: ArgsV { path: a, ..s }, ..st })
    }
}

/// The settings after the arguments from index `i` on; the first refused argument stops.
pub open spec fn args_from(args: Seq<Seq<char>>, i: int, st: CliState) -> Result<CliState, Seq<char>>
    decreases args.len() - i,
{
    if i < 0 || i >= args.len() {
        Ok(st)
    } else {
        match arg_step(st, args[i]) {
            Ok(next) => args_from(args, i + 1, next),
            Err(e) => Err(e),
        }
    }
}

/// The settings the arguments ask for: a `--top=N` makes the report the top `N` by the rollup.
pub open spec fn parsed_args(args: Seq<Seq<char>>) -> Result<ArgsV, Seq<char>> {
    match args_from(args, 0, initial_state()) {
        Ok(st) => Ok(
            match st.top_n {
                Some(n) => ArgsV { report: Report::Top { n, by: st.by }, ..st.args },
                None => st.args,
            },
        ),
        Err(e) => Err(e),
    }
}

// --- the language flags --------------------------------------------------------------------

/// An argument that is no `--lang=` flag leaves the language as it was.
proof fn lemma_step_keeps_lang(st: CliState, a: Seq<char>)
    requires
        !has_prefix(a, "--lang="@),
    ensures
        arg_step(st, a) matches Ok(n) ==> n.args.lang == st.args.lang,
{
    reveal_strlit("--lang=");
    reveal_strlit("--lang=python");
    reveal_strlit("--lang=rust");
    reveal_strlit("--lang=cpp");
    reveal_strlit("--lang=ts");
    reveal_strlit("--lang=typescript");
    reveal_strlit("--lang=js");
    if a == "--lang=python"@ {
        assert(a.take(7) =~= "--lang="@);
    }
    if a == "--lang=rust"@ {
        assert(a.take(7) =~= "--lang="@);
    }
    if a == "--lang=cpp"@ {
        assert(a.take(7) =~= "--lang="@);
    }
    if a == "--lang=ts"@ {
        assert(a.take(7) =~= "--lang="@);
    }
    if a == "--lang=typescript"@ {
        assert(a.take(7) =~= "--lang="@);
    }
    if a == "--lang=js"@ {
        assert(a.take(7) =~= "--lang="@);
    }
}

proof fn lemma_rest_keeps_lang(args: Seq<Seq<char>>, i: int, st: CliState)
    requires
        0 <= i,
        forall|j: int| i <= j < args.len() ==> !has_prefix(#[trigger] args[j], "--lang="@),
    ensures
        args_from(args, i, st) matches Ok(f) ==> f.args.lang == st.args.lang,
    decreases args.len() - i,
{
    if i < args.len() {
        lemma_step_keeps_lang(st, args[i]);
        if let Ok(n) = arg_step(st, args[i]) {
            lemma_rest_keeps_lang(args, i + 1, n);
        }
    }
}

/// The language a `--lang=` flag names.
pub open spec fn lang_named(a: Seq<char>, l: Lang) -> bool {
    ||| a == "--lang=python"@ && l == Lang::Python
    ||| a == "--lang=rust"@ && l == Lang::Rust
    ||| a == "--lang=cpp"@ && l == Lang::Cpp
    ||| (a == "--lang=ts"@ || a == "--lang=typescript"@ || a == "--lang=js"@) && l == Lang::Ts
}

proof fn lemma_flag_step(st: CliState, a: Seq<char>, l: Lang)
    requires
        lang_named(a, l),
    ensures
        arg_step(st, a) matches Ok(n) && n.args.lang == Some(l),
{
    reveal_strlit("--summary");
    reveal_strlit("--all");
    reveal_strlit("--format=text");
    reveal_strlit("--format=json");
    reveal_strlit("--error");
    reveal_strlit("--lang=python");
    reveal_strlit("--lang=rust");
    reveal_strlit("--lang=cpp");
    reveal_strlit("--lang=ts");
    reveal_strlit("--lang=typescript");
    reveal_strlit("--lang=js");
}

proof fn lemma_lang_from(args: Seq<Seq<char>>, i: int, k: int, st: CliState, l: Lang)
    requires
        0 <= i <= k < args.len(),
        lang_named(args[k], l),
        forall|j: int| k < j < args.len() ==> !has_prefix(#[trigger] args[j], "--lang="@),
    ensures
        args_from(args, i, st) matches Ok(f) ==> f.args.lang == Some(l),
    decreases k - i,
{
    if i == k {
        lemma_flag_step(st, args[k], l);
        let n = arg_step(st, args[k])->Ok_0;
        lemma_rest_keeps_lang(args, k + 1, n);
    } else if let Ok(n) = arg_step(st, args[i]) {
        lemma_lang_from(args, i + 1, k, n, l);
    }
}

/// The language flags: when the last `--lang=` flag of an accepted command line is
/// `--lang=python`, `--lang=rust`, `--lang=cpp`, or `--lang=ts` (also `typescript`, `js`), the
/// language is Python, Rust, C++ or TypeScript; with no `--lang=` flag, none is chosen.
pub proof fn law_last_lang_flag_picks_the_language(args: Seq<Seq<char>>, k: int)
    requires
        0 <= k < args.len(),
        forall|j: int| k < j < args.len() ==> !has_prefix(#[trigger] args[j], "--lang="@),
    ensures
        args[k] == "--lang=python"@ ==> (parsed_args(args) matches Ok(a) ==> a.lang == Some(Lang::Python)),
        args[k] == "--lang=rust"@ ==> (parsed_args(args) matches Ok(a) ==> a.lang == Some(Lang::Rust)),
        args[k] == "--lang=cpp"@ ==> (parsed_args(args) matches Ok(a) ==> a.lang == Some(Lang::Cpp)),
        args[k] == "--lang=ts"@ || args[k] == "--lang=typescript"@ || args[k] == "--lang=js"@ ==> (parsed_args(
            args,
        ) matches Ok(a) ==> a.lang == Some(Lang::Ts)),
{
    if args[k] == "--lang=python"@ {
        lemma_lang_from(args, 0, k, initial_state(), Lang::Python);
    }
    if args[k] == "--lang=rust"@ {
        lemma_lang_from(args, 0, k, initial_state(), Lang::Rust);
    }
    if args[k] == "--lang=cpp"@ {
        lemma_lang_from(args, 0, k, initial_state(), Lang::Cpp);
    }
    if args[k] == "--lang=ts"@ || args[k] == "--lang=typescript"@ || args[k] == "--lang=js"@ {
        lemma_lang_from(args, 0, k, initial_state(), Lang::Ts);
    }
}

/// With no `--lang=` flag, an accepted command line chooses no language (it is picked from the
/// files found).
pub proof fn law_no_lang_flag_no_language(args: Seq<Seq<char>>)
    requires
        forall|j: int| 0 <= j < args.len() ==> !has_prefix(#[trigger] args[j], "--lang="@),
    ensures
        parsed_args(args) matches Ok(a) ==> a.lang is None,
{
    lemma_rest_keeps_lang(args, 0, initial_state());
}


// --- the order and format flags ----------------------------------------------------------

proof fn lemma_step_keeps_order_format(st: CliState, a: Seq<char>)
    ensures
        !has_prefix(a, "--order="@) ==> (arg_step(st, a) matches Ok(n) ==> n.args.order == st.args.order),
        !has_prefix(a, "--format="@) ==> (arg_step(st, a) matches Ok(n) ==> n.args.format == st.args.format),
{
    reveal_strlit("--order=");
    reveal_strlit("--order=bottom-up");
    reveal_strlit("--order=top-down");
    reveal_strlit("--format=");
    reveal_strlit("--format=text");
    reveal_strlit("--format=json");
    if a == "--order=bottom-up"@ || a == "--order=top-down"@ {
        assert(a.take(8) =~= "--order="@);
    }
    if a == "--format=text"@ || a == "--format=json"@ {
        assert(a.take(9) =~= "--format="@);
    }
}

proof fn lemma_rest_keeps_order_format(args: Seq<Seq<char>>, i: int, st: CliState)
    requires
        0 <= i,
    ensures
        (forall|j: int| i <= j < args.len() ==> !has_prefix(#[trigger] args[j], "--order="@)) ==> (args_from(args, i, st) matches Ok(
            f,
        ) ==> f.args.order == st.args.order),
        (forall|j: int| i <= j < args.len() ==> !has_prefix(#[trigger] args[j], "--format="@)) ==> (args_from(args, i, st) matches Ok(
            f,
        ) ==> f.args.format == st.args.format),
    decreases args.len() - i,
{
    if i < args.len() {
        lemma_step_keeps_order_format(st, args[i]);
        if let Ok(n) = arg_step(st, args[i]) {
            lemma_rest_keeps_order_format(args, i + 1, n);
        }
    }
}

proof fn lemma_setting_from(args: Seq<Seq<char>>, i: int, k: int, st: CliState)
    requires
        0 <= i <= k < args.len(),
    ensures
        args[k] == "--order=bottom-up"@ && (forall|j: int| k < j < args.len() ==> !has_prefix(#[trigger] args[j], "--order="@))
            ==> (args_from(args, i, st) matches Ok(f) ==> f.args.order == DeclOrder::BottomUp),
        args[k] == "--order=top-down"@ && (forall|j: int| k < j < args.len() ==> !has_prefix(#[trigger] args[j], "--order="@))
            ==> (args_from(args, i, st) matches Ok(f) ==> f.args.order == DeclOrder::TopDown),
        args[k] == "--format=text"@ && (forall|j: int| k < j < args.len() ==> !has_prefix(#[trigger] args[j], "--format="@))
            ==> (args_from(args, i, st) matches Ok(f) ==> f.args.format == Format::Text),
        args[k] == "--format=json"@ && (forall|j: int| k < j < args.len() ==> !has_prefix(#[trigger] args[j], "--format="@))
            ==> (args_from(args, i, st) matches Ok(f) ==> f.args.format == Format::Json),
    decreases k - i,
{
    if i == k {
        reveal_strlit("--summary");
        reveal_strlit("--all");
        reveal_strlit("--format=text");
        reveal_strlit("--format=json");
        reveal_strlit("--error");
        reveal_strlit("--lang=python");
        reveal_strlit("--lang=rust");
        reveal_strlit("--lang=cpp");
        reveal_strlit("--lang=ts");
        reveal_strlit("--lang=typescript");
        reveal_strlit("--lang=js");
        reveal_strlit("--order=bottom-up");
        reveal_strlit("--order=top-down");
        assert("--format=json"@[9] != "--format=text"@[9]);
        if let Ok(n) = arg_step(st, args[k]) {
            lemma_rest_keeps_order_format(args, k + 1, n);
        }
    } else if let Ok(n) = arg_step(st, args[i]) {
        lemma_setting_from(args, i + 1, k, n);
    }
}

/// The order and format flags: when the last `--order=` flag of an accepted command line is
/// `--order=bottom-up` or `--order=top-down`, that is the reading convention; when the last
/// `--format=` flag is `--format=text` or `--format=json`, that is the report format.
pub proof fn law_last_order_and_format_flags_win(args: Seq<Seq<char>>, k: int)
    requires
        0 <= k < args.len(),
    ensures
        args[k] == "--order=bottom-up"@ && (forall|j: int| k < j < args.len() ==> !has_prefix(#[trigger] args[j], "--order="@))
            ==> (parsed_args(args) matches Ok(a) ==> a.order == DeclOrder::BottomUp),
        args[k] == "--order=top-down"@ && (forall|j: int| k < j < args.len() ==> !has_prefix(#[trigger] args[j], "--order="@))
            ==> (parsed_args(args) matches Ok(a) ==> a.order == DeclOrder::TopDown),
        args[k] == "--format=text"@ && (forall|j: int| k < j < args.len() ==> !has_prefix(#[trigger] args[j], "--format="@))
            ==> (parsed_args(args) matches Ok(a) ==> a.format == Format::Text),
        args[k] == "--format=json"@ && (forall|j: int| k < j < args.len() ==> !has_prefix(#[trigger] args[j], "--format="@))
            ==> (parsed_args(args) matches Ok(a) ==> a.format == Format::Json),
{
    lemma_setting_from(args, 0, k, initial_state());
}


/// One argument, read into the settings (see [`arg_step`]).
#[verifier::rlimit(60)]
fn read_arg(a: &String, args: &mut Args, top_n: &mut Option<usize>, by: &mut By) -> (r: Result<(), String>)
    ensures
        match arg_step(CliState { args: old(args)@, top_n: *old(top_n), by: *old(by) }, a@) {
            Ok(st) => r is Ok && final(args)@ == st.args && *final(top_n) == st.top_n && *final(by) == st.by,
            Err(e) => r matches Err(m) && m@ == e,
        },
{
    let v = chars_of(a.as_str());
    let n = v.len();
    assert(v@.subrange(0, n as int) =~= v@);
    if range_is(&v, 0, n, "--summary") {
        args.report = Report::Summary;
    } else if range_is(&v, 0, n, "--all") {
        args.report = Report::All;
    } else if range_is(&v, 0, n, "--format=text") {
        args.format = Format::Text;
    } else if range_is(&v, 0, n, "--format=json") {
        args.format = Format::Json;
    } else if range_is(&v, 0, n, "--error") {
        args.error_exit = true;
    } else if range_is(&v, 0, n, "--lang=python") {
        args.lang = Some(Lang::Python);
    } else if range_is(&v, 0, n, "--lang=rust") {
        args.lang = Some(Lang::Rust);
    } else if range_is(&v, 0, n, "--lang=cpp") {
        args.lang = Some(Lang::Cpp);
    } else if range_is(&v, 0, n, "--lang=ts") || range_is(&v, 0, n, "--lang=typescript") || range_is(&v, 0, n, "--lang=js") {
        args.lang = Some(Lang::Ts);
    } else if range_is(&v, 0, n, "--order=bottom-up") {
        args.order = DeclOrder::BottomUp;
    } else if range_is(&v, 0, n, "--order=top-down") {
        args.order = DeclOrder::TopDown;
    } else if range_is(&v, 0, n, "-h") || range_is(&v, 0, n, "--help") {
        return Err(usage());
    } else if range_starts_with(&v, 0, n, "--top=") {
        proof {
            reveal_strlit("--top=");
        }
        assert(v@.skip(6) =~= v@.subrange(6, n as int));
        match crate::config::parse_digits(&v, 6, n, usize::MAX as u64) {
            Some(k) => {
                *top_n = Some(k as usize);
            },
            None => {
                let mut m = String::new();
                push_str(&mut m, "--top= needs a number\n");
                let u = usage();
                push_str(&mut m, u.as_str());
                return Err(m);
            },
        }
    } else if range_starts_with(&v, 0, n, "--by=") {
        proof {
            reveal_strlit("--by=");
        }
        assert(v@.skip(5) =~= v@.subrange(5, n as int));
        if range_is(&v, 5, n, "function") {
            *by = By::Function;
        } else if range_is(&v, 5, n, "class") {
            *by = By::Class;
        } else if range_is(&v, 5, n, "file") {
            *by = By::File;
        } else {
            let mut m = String::new();
            push_str(&mut m, "unknown --by=");
            let o = string_of(&v, 5, n);
            push_str(&mut m, o.as_str());
            push_str(&mut m, "\n");
            let u = usage();
            push_str(&mut m, u.as_str());
            return Err(m);
        }
    } else if range_starts_with(&v, 0, n, "--") {
        let mut m = String::new();
        push_str(&mut m, "unknown flag: ");
        push_str(&mut m, a.as_str());
        push_str(&mut m, "\n");
        let u = usage();
        push_str(&mut m, u.as_str());
        return Err(m);
    } else {
        args.path = a.clone();
    }
    Ok(())
}

/// Read the command-line arguments (without the program name) into settings (see
/// [`parsed_args`]); a refused argument gives the message to print.
pub fn parse_args(argv: &[String]) -> (r: Result<Args, String>)
    ensures
        match parsed_args(strs_view(argv@)) {
            Ok(a) => r matches Ok(x) && x@ == a,
            Err(e) => r matches Err(m) && m@ == e,
        },
{
    let ghost av = strs_view(argv@);
    let mut path = String::new();
    push_str(&mut path, ".");
    let mut a = Args {
        path,
        format: Format::Text,
        report: Report::Summary,
        error_exit: false,
        lang: None,
        order: DeclOrder::BottomUp,
    };
    let mut top_n: Option<usize> = None;
    let mut by = By::Function;
    let mut i: usize = 0;
    while i < argv.len()
        invariant
            av == strs_view(argv@),
            i <= av.len(),
            args_from(av, 0, initial_state()) == args_from(av, i as int, CliState { args: a@, top_n, by }),
        decreases av.len() - i,
    {
        assert(av[i as int] == argv@[i as int]@);
        match read_arg(&argv[i], &mut a, &mut top_n, &mut by) {
            Ok(()) => {},
            Err(m) => {
                return Err(m);
            },
        }
        i = i + 1;
    }
    match top_n {
        Some(n) => {
            a.report = Report::Top { n, by };
        },
        None => {},
    }
    Ok(a)
}

/// The language with the most files (among those with any); on a tie the later of Python, Rust,
/// C++, TypeScript; Python when there are none.
pub open spec fn most_files(py: usize, rs: usize, cpp: usize, ts: usize) -> Lang {
    let best1 = if py > 0 { Some((Lang::Python, py)) } else { None::<(Lang, usize)> };
    let best2 = if rs > 0 && (best1 matches Some(b) ==> rs >= b.1) { Some((Lang::Rust, rs)) } else { best1 };
    let best3 = if cpp > 0 && (best2 matches Some(b) ==> cpp >= b.1) { Some((Lang::Cpp, cpp)) } else { best2 };
    let best4 = if ts > 0 && (best3 matches Some(b) ==> ts >= b.1) { Some((Lang::Ts, ts)) } else { best3 };
    match best4 {
        Some(b) => b.0,
        None => Lang::Python,
    }
}

/// Pick the language from the number of files of each found under the path.
pub fn pick_lang(py: usize, rs: usize, cpp: usize, ts: usize) -> (l: Lang)
    ensures
        l == most_files(py, rs, cpp, ts),
{
    let mut best: Option<(Lang, usize)> = None;
    if py > 0 {
        best = Some((Lang::Python, py));
    }
    if rs > 0 {
        match best {
            Some(b) => if rs >= b.1 { best = Some((Lang::Rust, rs)); },
            None => { best = Some((Lang::Rust, rs)); },
        }
    }
    if cpp > 0 {
        match best {
            Some(b) => if cpp >= b.1 { best = Some((Lang::Cpp, cpp)); },
            None => { best = Some((Lang::Cpp, cpp)); },
        }
    }
    if ts > 0 {
        match best {
            Some(b) => if ts >= b.1 { best = Some((Lang::Ts, ts)); },
            None => { best = Some((Lang::Ts, ts)); },
        }
    }
    match best {
        Some(b) => b.0,
        None => Lang::Python,
    }
}

/// Some finding is a parse error.
pub open spec fn has_parse_error(fs: Seq<FindingV>) -> bool {
    exists|i: int| 0 <= i < fs.len() && (#[trigger] fs[i]).severity == Severity::Error && fs[i].category == Category::ParseError
}

/// Should the run exit with failure: `--error` was given and some file failed to parse.
pub fn fails(findings: &[Finding], error_exit: bool) -> (r: bool)
    ensures
        r == (error_exit && has_parse_error(findings_view(findings@))),
{
    if !error_exit {
        return false;
    }
    let ghost fs = findings_view(findings@);
    let mut i: usize = 0;
    while i < findings.len()
        invariant
            error_exit,
            fs == findings_view(findings@),
            i <= fs.len(),
            forall|j: int| 0 <= j < i ==> !(fs[j].severity == Severity::Error && fs[j].category == Category::ParseError),
        decreases fs.len() - i,
    {
        assert(fs[i as int] == findings@[i as int]@);
        if findings[i].severity == Severity::Error && findings[i].category == Category::ParseError {
            assert(fs[i as int].severity == Severity::Error && fs[i as int].category == Category::ParseError);
            return true;
        }
        i = i + 1;
    }
    proof {
        if has_parse_error(fs) {
            let j = choose|j: int| 0 <= j < fs.len() && fs[j].severity == Severity::Error && fs[j].category == Category::ParseError;
            assert(!(fs[j].severity == Severity::Error && fs[j].category == Category::ParseError));
        }
    }
    false
}

} // verus!
