//! `compile_commands.json` (a compilation database) support: the precise `-I`/`-D`/`-std` flags a
//! real build uses, so the parser resolves types. Only the flags that affect TYPE RESOLUTION are
//! taken (`-I`/`-isystem`/`-iquote` → emitted as `-I`, `-D`, `-std`); relative include paths
//! resolve against the entry's `directory`. Flags are aggregated across all entries, deduplicated.

use vstd::prelude::*;

use crate::text::{chars_of, is_space, is_ws, push_char, push_str, range_is, range_starts_with, str_is, string_of};

verus! {

/// The tokens of a shell command from index `i` on, in the splitting state (`out` done, `cur` the
/// token being read, `quote` the open quote, `started` whether `cur` is a token). Quotes group and
/// vanish, a backslash outside quotes takes the next character literally, whitespace separates.
pub open spec fn split_from(
    s: Seq<char>,
    i: int,
    out: Seq<Seq<char>>,
    cur: Seq<char>,
    quote: Option<char>,
    started: bool,
) -> Seq<Seq<char>>
    decreases s.len() - i,
{
    if i < 0 || i >= s.len() {
        if started { out.push(cur) } else { out }
    } else {
        let c = s[i];
        match quote {
            Some(q) => if c == q {
                split_from(s, i + 1, out, cur, None, started)
            } else {
                split_from(s, i + 1, out, cur.push(c), quote, started)
            },
            None => if c == '"' || c == '\'' {
                split_from(s, i + 1, out, cur, Some(c), true)
            } else if c == '\\' {
                if i + 1 < s.len() {
                    split_from(s, i + 2, out, cur.push(s[i + 1]), None, true)
                } else {
                    split_from(s, i + 1, out, cur, None, started)
                }
            } else if is_ws(c) {
                if started {
                    split_from(s, i + 1, out.push(cur), Seq::empty(), None, false)
                } else {
                    split_from(s, i + 1, out, cur, None, false)
                }
            } else {
                split_from(s, i + 1, out, cur.push(c), None, true)
            },
        }
    }
}

/// The tokens of a shell command (see [`split_from`]).
pub open spec fn shell_tokens(s: Seq<char>) -> Seq<Seq<char>> {
    split_from(s, 0, Seq::empty(), Seq::empty(), None, false)
}

/// The views of a list of strings.
pub open spec fn strs_view(v: Seq<String>) -> Seq<Seq<char>> {
    v.map_values(|s: String| s@)
}

/// Split a shell `command` string into tokens, respecting `"`/`'` quotes and `\` escapes — used
/// when an entry gives a `command` string rather than an `arguments` array.
pub fn shell_split(s: &str) -> (r: Vec<String>)
    ensures
        strs_view(r@) == shell_tokens(s@),
{
    let v = chars_of(s);
    let ghost sv = v@;
    let mut out: Vec<String> = Vec::new();
    let mut cur = String::new();
    let mut quote: Option<char> = None;
    let mut started = false;
    let mut i: usize = 0;
    assert(strs_view(out@) =~= Seq::<Seq<char>>::empty());
    while i < v.len()
        invariant
            sv == v@,
            sv == s@,
            i <= sv.len(),
            shell_tokens(sv) == split_from(sv, i as int, strs_view(out@), cur@, quote, started),
        decreases sv.len() - i,
    {
        let c = v[i];
        let ghost o0 = out@;
        match quote {
            Some(q) => {
                if c == q {
                    quote = None;
                } else {
                    push_char(&mut cur, c);
                }
                i = i + 1;
            },
            None => {
                if c == '"' || c == '\'' {
                    quote = Some(c);
                    started = true;
                    i = i + 1;
                } else if c == '\\' {
                    if i + 1 < v.len() {
                        push_char(&mut cur, v[i + 1]);
                        started = true;
                        i = i + 2;
                    } else {
                        i = i + 1;
                    }
                } else if is_space(c) {
                    if started {
                        let tok = cur;
                        out.push(tok);
                        assert(strs_view(out@) =~= strs_view(o0).push(tok@));
                        cur = String::new();
                        started = false;
                    }
                    i = i + 1;
                } else {
                    push_char(&mut cur, c);
                    started = true;
                    i = i + 1;
                }
            },
        }
    }
    if started {
        let ghost o0 = out@;
        let tok = cur;
        out.push(tok);
        assert(strs_view(out@) =~= strs_view(o0).push(tok@));
    }
    out
}

/// `p` resolved against directory `dir` (POSIX path joining: an absolute `p` stands alone, an
/// empty `dir` adds nothing, otherwise one `/` separates them).
pub open spec fn join_path(dir: Seq<char>, p: Seq<char>) -> Seq<char> {
    if p.len() > 0 && p[0] == '/' {
        p
    } else if dir.len() == 0 {
        p
    } else if dir.last() == '/' {
        dir + p
    } else {
        dir + seq!['/'] + p
    }
}

/// `a` starts with `pre`.
pub open spec fn has_prefix(a: Seq<char>, pre: Seq<char>) -> bool {
    pre.len() <= a.len() && a.take(pre.len() as int) == pre
}

/// The resolution-affecting flags of `args` from index `i` on: `-I<dir>` and `-isystem<dir>`
/// (resolved against `dir`), `-D<def>`, `-std=…`, and the separated forms `-I`/`-isystem`/`-iquote
/// <dir>` and `-D <def>`; everything else is dropped.
pub open spec fn flags_from(args: Seq<Seq<char>>, dir: Seq<char>, i: int) -> Seq<Seq<char>>
    decreases args.len() - i,
{
    if i < 0 || i >= args.len() {
        Seq::empty()
    } else {
        let a = args[i];
        if has_prefix(a, "-I"@) && a.len() > 2 {
            seq!["-I"@ + join_path(dir, a.skip(2))] + flags_from(args, dir, i + 1)
        } else if has_prefix(a, "-isystem"@) && a.len() > 8 {
            seq!["-I"@ + join_path(dir, a.skip(8))] + flags_from(args, dir, i + 1)
        } else if has_prefix(a, "-D"@) && a.len() > 2 {
            seq!["-D"@ + a.skip(2)] + flags_from(args, dir, i + 1)
        } else if has_prefix(a, "-std="@) {
            seq![a] + flags_from(args, dir, i + 1)
        } else if (a == "-I"@ || a == "-isystem"@ || a == "-iquote"@) && i + 1 < args.len() {
            seq!["-I"@ + join_path(dir, args[i + 1])] + flags_from(args, dir, i + 2)
        } else if a == "-D"@ && i + 1 < args.len() {
            seq!["-D"@ + args[i + 1]] + flags_from(args, dir, i + 2)
        } else {
            flags_from(args, dir, i + 1)
        }
    }
}

/// `prefix` followed by `p` joined onto `dir` (see [`join_path`]).
fn joined(prefix: &str, dir: &str, p: &Vec<char>, lo: usize) -> (r: String)
    requires
        lo <= p@.len(),
    ensures
        r@ == prefix@ + join_path(dir@, p@.skip(lo as int)),
{
    let mut r = String::new();
    push_str(&mut r, prefix);
    let rest = string_of(p, lo, p.len());
    assert(rest@ =~= p@.skip(lo as int));
    let d = chars_of(dir);
    if lo < p.len() && p[lo] == '/' {
        push_str(&mut r, rest.as_str());
    } else if d.len() == 0 {
        push_str(&mut r, rest.as_str());
    } else if d[d.len() - 1] == '/' {
        push_str(&mut r, dir);
        push_str(&mut r, rest.as_str());
    } else {
        push_str(&mut r, dir);
        push_char(&mut r, '/');
        push_str(&mut r, rest.as_str());
        assert(r@ =~= prefix@ + (dir@ + seq!['/'] + p@.skip(lo as int)));
    }
    r
}

/// Emit the resolution-affecting flags of one entry's tokens (see [`flags_from`]), appending them
/// to `out`.
pub fn extract(args: &[String], directory: &str, out: &mut Vec<String>)
    ensures
        strs_view(final(out)@) == strs_view(old(out)@) + flags_from(strs_view(args@), directory@, 0),
{
    let ghost av = strs_view(args@);
    let ghost o0 = strs_view(out@);
    let mut i: usize = 0;
    while i < args.len()
        invariant
            av == strs_view(args@),
            i <= av.len() + 1,
            o0 + flags_from(av, directory@, 0) == strs_view(out@) + flags_from(av, directory@, i as int),
        decreases av.len() + 1 - i,
    {
        let a = chars_of(args[i].as_str());
        assert(a@ == av[i as int]);
        let n = a.len();
        let ghost before = out@;
        if n > 2 && range_starts_with(&a, 0, n, "-I") {
            let f = joined("-I", directory, &a, 2);
            out.push(f);
            assert(strs_view(out@) =~= strs_view(before).push(f@));
            i = i + 1;
        } else if n > 8 && range_starts_with(&a, 0, n, "-isystem") {
            let f = joined("-I", directory, &a, 8);
            out.push(f);
            assert(strs_view(out@) =~= strs_view(before).push(f@));
            i = i + 1;
        } else if n > 2 && range_starts_with(&a, 0, n, "-D") {
            let mut f = String::new();
            push_str(&mut f, "-D");
            let rest = string_of(&a, 2, n);
            push_str(&mut f, rest.as_str());
            assert(rest@ =~= a@.skip(2));
            out.push(f);
            assert(strs_view(out@) =~= strs_view(before).push(f@));
            i = i + 1;
        } else if range_starts_with(&a, 0, n, "-std=") {
            let f = args[i].clone();
            out.push(f);
            assert(strs_view(out@) =~= strs_view(before).push(f@));
            i = i + 1;
        } else if (range_is(&a, 0, n, "-I") || range_is(&a, 0, n, "-isystem") || range_is(&a, 0, n, "-iquote")) && i + 1
            < args.len() {
            let next = chars_of(args[i + 1].as_str());
            let f = joined("-I", directory, &next, 0);
            assert(next@.skip(0) =~= next@);
            out.push(f);
            assert(strs_view(out@) =~= strs_view(before).push(f@));
            i = i + 2;
        } else if range_is(&a, 0, n, "-D") && i + 1 < args.len() {
            let mut f = String::new();
            push_str(&mut f, "-D");
            push_str(&mut f, args[i + 1].as_str());
            out.push(f);
            assert(strs_view(out@) =~= strs_view(before).push(f@));
            i = i + 1;
            i = i + 1;
        } else {
            i = i + 1;
        }
        assert(a@.subrange(0, n as int) =~= a@);
    }
}


/// One entry of a compilation database, as plain values: its `directory` (empty when absent),
/// its `arguments` array (the string items) and its `command` string, when present.
pub struct CompileEntry {
    pub directory: String,
    pub arguments: Option<Vec<String>>,
    pub command: Option<String>,
}

/// An entry's tokens: its `arguments`, else its split `command`, else none (the entry is skipped).
pub open spec fn entry_tokens(e: CompileEntry) -> Option<Seq<Seq<char>>> {
    match e.arguments {
        Some(a) => Some(strs_view(a@)),
        None => match e.command {
            Some(c) => Some(shell_tokens(c@)),
            None => None,
        },
    }
}

/// The flags of the first `k` entries, in order (repeats included).
pub open spec fn entries_flags(es: Seq<CompileEntry>, k: int) -> Seq<Seq<char>>
    decreases k,
{
    if k <= 0 {
        Seq::empty()
    } else {
        entries_flags(es, k - 1) + match entry_tokens(es[k - 1]) {
            Some(t) => flags_from(t, es[k - 1].directory@, 0),
            None => Seq::empty(),
        }
    }
}

/// `s` with every repeat of an earlier element removed (first occurrences, in order).
pub open spec fn dedup(s: Seq<Seq<char>>) -> Seq<Seq<char>>
    decreases s.len(),
{
    if s.len() == 0 {
        s
    } else {
        let d = dedup(s.drop_last());
        if d.contains(s.last()) { d } else { d.push(s.last()) }
    }
}

/// Does `v` hold `x`?
fn holds(v: &Vec<String>, x: &String) -> (r: bool)
    ensures
        r == strs_view(v@).contains(x@),
{
    let mut i: usize = 0;
    while i < v.len()
        invariant
            i <= v@.len(),
            forall|j: int| 0 <= j < i ==> v@[j]@ != x@,
        decreases v@.len() - i,
    {
        if v[i] == *x {
            assert(strs_view(v@)[i as int] == x@);
            return true;
        }
        i = i + 1;
    }
    proof {
        if strs_view(v@).contains(x@) {
            let j = choose|j: int| 0 <= j < v@.len() && strs_view(v@)[j] == x@;
            assert(v@[j]@ == x@);
        }
    }
    false
}

/// The compile flags of a compilation database's entries: every entry's resolution flags (see
/// [`extract`]), aggregated across entries with repeats dropped; `None` when there are none.
pub fn flags_from_entries(entries: &[CompileEntry]) -> (r: Option<Vec<String>>)
    ensures
        r matches Some(v) ==> strs_view(v@) == dedup(entries_flags(entries@, entries@.len() as int)) && v@.len() > 0,
        r is None ==> dedup(entries_flags(entries@, entries@.len() as int)).len() == 0,
{
    let mut out: Vec<String> = Vec::new();
    let mut k: usize = 0;
    assert(strs_view(out@) =~= dedup(Seq::<Seq<char>>::empty()));
    while k < entries.len()
        invariant
            k <= entries@.len(),
            strs_view(out@) == dedup(entries_flags(entries@, k as int)),
        decreases entries@.len() - k,
    {
        let e = &entries[k];
        let toks: Option<Vec<String>> = match &e.arguments {
            Some(a) => Some(a.clone()),
            None => match &e.command {
                Some(c) => Some(shell_split(c.as_str())),
                None => None,
            },
        };
        let ghost prev = entries_flags(entries@, k as int);
        match toks {
            Some(t) => {
                assert(strs_view(t@) == entry_tokens(entries@[k as int])->0) by {
                    if e.arguments is Some {
                        assert(t@ =~= e.arguments->0@);
                    }
                }
                let mut fl: Vec<String> = Vec::new();
                extract(t.as_slice(), e.directory.as_str(), &mut fl);
                assert(strs_view(fl@) =~= flags_from(strs_view(t@), e.directory@, 0));
                let mut j: usize = 0;
                while j < fl.len()
                    invariant
                        j <= fl@.len(),
                        strs_view(out@) == dedup(prev + strs_view(fl@).take(j as int)),
                    decreases fl@.len() - j,
                {
                    let ghost cur = prev + strs_view(fl@).take(j as int);
                    assert(prev + strs_view(fl@).take(j + 1) =~= cur.push(fl@[j as int]@));
                    assert(cur.push(fl@[j as int]@).drop_last() =~= cur);
                    if !holds(&out, &fl[j]) {
                        let ghost o0 = out@;
                        out.push(fl[j].clone());
                        assert(strs_view(out@) =~= strs_view(o0).push(fl@[j as int]@));
                    }
                    j = j + 1;
                }
                assert(strs_view(fl@).take(fl@.len() as int) =~= strs_view(fl@));
            },
            None => {
                assert(entries_flags(entries@, k + 1) =~= prev);
            },
        }
        k = k + 1;
    }
    if out.len() == 0 {
        None
    } else {
        Some(out)
    }
}


// --- reading the database ----------------------------------------------------------------

/// A JSON value as the database is read. Numbers are never read, so they keep no payload; an
/// object keeps its members in the parser's order.
pub enum Json {
    Null,
    Bool(bool),
    Number,
    Str(String),
    Array(Vec<Json>),
    Object(Vec<(String, Json)>),
}

#[verifier::external_type_specification]
#[verifier::external_body]
pub struct ExJsonValue(serde_json::Value);

/// What `serde_json` parses a text into, as a [`Json`]; `None` when the text is not JSON.
pub uninterp spec fn json_of(text: Seq<char>) -> Option<Json>;

/// `serde_json::Value` as a [`Json`], variant for variant (the number's value is dropped).
#[verifier::external_body]
fn json_from_value(v: serde_json::Value) -> Json {
    match v {
        serde_json::Value::Null => Json::Null,
        serde_json::Value::Bool(b) => Json::Bool(b),
        serde_json::Value::Number(_) => Json::Number,
        serde_json::Value::String(s) => Json::Str(s),
        serde_json::Value::Array(a) => Json::Array(a.into_iter().map(json_from_value).collect()),
        serde_json::Value::Object(o) => Json::Object(o.into_iter().map(|(k, x)| (k, json_from_value(x))).collect()),
    }
}

/// Parse `text` with `serde_json::from_str` into a `serde_json::Value`: the result is named by
/// [`json_of`] (a function of the text alone); `None` when `serde_json` rejects the text.
#[verifier::external_body]
fn parse_json(text: &str) -> (r: Option<Json>)
    ensures
        r == json_of(text@),
{
    match serde_json::from_str::<serde_json::Value>(text) {
        Ok(v) => Some(json_from_value(v)),
        Err(_) => None,
    }
}

/// The first member named `key` among the members of an object from index `i` on.
pub open spec fn member_from(ms: Seq<(String, Json)>, key: Seq<char>, i: int) -> Option<Json>
    decreases ms.len() - i,
{
    if i < 0 || i >= ms.len() {
        None
    } else if ms[i].0@ == key {
        Some(ms[i].1)
    } else {
        member_from(ms, key, i + 1)
    }
}

/// The member `key` of an object (`None` for anything else).
pub open spec fn field(e: Json, key: Seq<char>) -> Option<Json> {
    match e {
        Json::Object(ms) => member_from(ms@, key, 0),
        _ => None,
    }
}

/// A string value's text.
pub open spec fn text_of(j: Option<Json>) -> Option<Seq<char>> {
    match j {
        Some(Json::Str(s)) => Some(s@),
        _ => None,
    }
}

/// The strings among the first `k` items of an array, in order (other items are skipped).
pub open spec fn strings_in(a: Seq<Json>, k: int) -> Seq<Seq<char>>
    decreases k,
{
    if k <= 0 {
        Seq::empty()
    } else {
        strings_in(a, k - 1) + match a[k - 1] {
            Json::Str(s) => seq![s@],
            _ => Seq::empty(),
        }
    }
}

/// `c` is database entry `e` as read: its `directory` string (empty when there is none), its
/// `arguments` array's strings (when it is an array), its `command` string (when there is one).
pub open spec fn entry_read(e: Json, c: CompileEntry) -> bool {
    &&& c.directory@ == match text_of(field(e, "directory"@)) {
        Some(d) => d,
        None => Seq::empty(),
    }
    &&& match field(e, "arguments"@) {
        Some(Json::Array(a)) => c.arguments matches Some(v) && strs_view(v@) == strings_in(a@, a@.len() as int),
        _ => c.arguments is None,
    }
    &&& match text_of(field(e, "command"@)) {
        Some(t) => c.command matches Some(x) && x@ == t,
        None => c.command is None,
    }
}

/// `es` are the entries of the database array `a`, one for one.
pub open spec fn entries_read(a: Seq<Json>, es: Seq<CompileEntry>) -> bool {
    es.len() == a.len() && forall|i: int| 0 <= i < a.len() ==> entry_read(#[trigger] a[i], es[i])
}

/// The index of the first member named `key`.
fn member_index(ms: &Vec<(String, Json)>, key: &str) -> (r: Option<usize>)
    ensures
        match r {
            Some(i) => i < ms@.len() && member_from(ms@, key@, 0) == Some(ms@[i as int].1),
            None => member_from(ms@, key@, 0) is None,
        },
{
    let mut i: usize = 0;
    while i < ms.len()
        invariant
            i <= ms@.len(),
            member_from(ms@, key@, 0) == member_from(ms@, key@, i as int),
        decreases ms@.len() - i,
    {
        if str_is(ms[i].0.as_str(), key) {
            return Some(i);
        }
        i = i + 1;
    }
    None
}

/// The strings among an array's items, in order.
fn strings_of(a: &Vec<Json>) -> (v: Vec<String>)
    ensures
        strs_view(v@) == strings_in(a@, a@.len() as int),
{
    let mut v: Vec<String> = Vec::new();
    let mut k: usize = 0;
    while k < a.len()
        invariant
            k <= a@.len(),
            strs_view(v@) == strings_in(a@, k as int),
        decreases a@.len() - k,
    {
        let ghost before = strs_view(v@);
        match &a[k] {
            Json::Str(s) => {
                let c = s.clone();
                v.push(c);
                assert(strs_view(v@) =~= before + seq![s@]);
            },
            _ => {
                assert(strs_view(v@) =~= before + Seq::<Seq<char>>::empty());
            },
        }
        k = k + 1;
    }
    v
}

/// The string member `key` of an object's members.
fn text_member(ms: &Vec<(String, Json)>, key: &str) -> (r: Option<String>)
    ensures
        match r {
            Some(s) => text_of(member_from(ms@, key@, 0)) == Some(s@),
            None => text_of(member_from(ms@, key@, 0)) is None,
        },
{
    match member_index(ms, key) {
        Some(i) => match &ms[i].1 {
            Json::Str(s) => Some(s.clone()),
            _ => None,
        },
        None => None,
    }
}

/// Read one database entry.
fn entry_of(e: &Json) -> (c: CompileEntry)
    ensures
        entry_read(*e, c),
{
    match e {
        Json::Object(ms) => {
            let directory = match text_member(ms, "directory") {
                Some(d) => d,
                None => String::new(),
            };
            let arguments = match member_index(ms, "arguments") {
                Some(i) => match &ms[i].1 {
                    Json::Array(a) => Some(strings_of(a)),
                    _ => None,
                },
                None => None,
            };
            let command = text_member(ms, "command");
            CompileEntry { directory, arguments, command }
        },
        _ => CompileEntry { directory: String::new(), arguments: None, command: None },
    }
}

/// The compile flags of a `compile_commands.json` text: its array's entries are read (see
/// [`entry_read`]) and their flags gathered (see [`flags_from_entries`]). `None` when the text is
/// not a JSON array, or when the entries yield no flag.
pub fn flags_from_json(text: &str) -> (r: Option<Vec<String>>)
    ensures
        !(json_of(text@) matches Some(Json::Array(_))) ==> r is None,
        json_of(text@) matches Some(Json::Array(a)) ==> exists|es: Seq<CompileEntry>|
            #![trigger entries_read(a@, es)]
            entries_read(a@, es) && (r matches Some(v) ==> strs_view(v@) == dedup(entries_flags(es, es.len() as int))
                && v@.len() > 0) && (r is None ==> dedup(entries_flags(es, es.len() as int)).len() == 0),
{
    let j = parse_json(text);
    match j {
        Some(Json::Array(items)) => {
            let mut entries: Vec<CompileEntry> = Vec::new();
            let mut k: usize = 0;
            while k < items.len()
                invariant
                    k <= items@.len(),
                    entries@.len() == k,
                    forall|i: int| 0 <= i < k ==> entry_read(#[trigger] items@[i], entries@[i]),
                decreases items@.len() - k,
            {
                let c = entry_of(&items[k]);
                entries.push(c);
                k = k + 1;
            }
            let r = flags_from_entries(&entries);
            assert(entries_read(items@, entries@));
            r
        },
        _ => None,
    }
}

} // verus!
