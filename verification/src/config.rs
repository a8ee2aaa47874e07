//! Configuration from `pyproject.toml` (`[tool.ventouse.weights]`): a minimal reader of
//! `key = value` lines that overrides the default scoring constants. Reading the file itself is
//! the caller's business; this module only interprets its text.

use vstd::prelude::*;

use crate::engine::score::{DeclOrder, Weights, default_weights};
use crate::text::{chars_of, find_char, first_index, is_ws, range_is, strip_end, strip_end_range, trim, trim_end, trim_range, trim_start};

verus! {

/// Every character of `s` is an ASCII digit.
pub open spec fn all_digits(s: Seq<char>) -> bool {
    forall|i: int| 0 <= i < s.len() ==> '0' <= #[trigger] s[i] && s[i] <= '9'
}

/// The decimal value of a digit string.
pub open spec fn digits_value(s: Seq<char>) -> int
    decreases s.len(),
{
    if s.len() == 0 {
        0
    } else {
        digits_value(s.drop_last()) * 10 + (s.last() as int - '0' as int)
    }
}

/// `str::parse` of an unsigned integer no larger than `max`: an optional `+`, then one or more
/// ASCII digits whose value is at most `max`.
pub open spec fn parse_unsigned(s: Seq<char>, max: int) -> Option<int> {
    let d = if s.len() > 0 && s[0] == '+' { s.skip(1) } else { s };
    if d.len() > 0 && all_digits(d) && digits_value(d) <= max {
        Some(digits_value(d))
    } else {
        None
    }
}

/// `c` is a quote character (`"` or `'`).
pub open spec fn is_quote(c: char) -> bool {
    c == '"' || c == '\''
}

pub open spec fn unquote_start(s: Seq<char>) -> Seq<char>
    decreases s.len(),
{
    if s.len() > 0 && is_quote(s[0]) { unquote_start(s.skip(1)) } else { s }
}

pub open spec fn unquote_end(s: Seq<char>) -> Seq<char>
    decreases s.len(),
{
    if s.len() > 0 && is_quote(s.last()) { unquote_end(s.drop_last()) } else { s }
}

/// `s` without leading and trailing quote characters.
pub open spec fn unquote(s: Seq<char>) -> Seq<char> {
    unquote_end(unquote_start(s))
}

/// An unsigned setting: the parsed value, or `old` when `val` does not parse.
pub open spec fn num_or(val: Seq<char>, max: int, old: int) -> int {
    match parse_unsigned(val, max) {
        Some(n) => n,
        None => old,
    }
}

/// The weights after one `key = value` entry. Unknown keys, and values that do not parse, leave
/// the weights as they were.
pub open spec fn apply_entry(w: Weights, key: Seq<char>, val: Seq<char>) -> Weights {
    if key == "scope_level"@ {
        Weights { scope_level: num_or(val, u32::MAX as int, w.scope_level as int) as u32, ..w }
    } else if key == "shared_callers"@ {
        Weights { shared_callers: num_or(val, usize::MAX as int, w.shared_callers as int) as usize, ..w }
    } else if key == "shared_uses"@ {
        Weights { shared_uses: num_or(val, u32::MAX as int, w.shared_uses as int) as u32, ..w }
    } else if key == "crowded_scope"@ {
        Weights { crowded_scope: num_or(val, u32::MAX as int, w.crowded_scope as int) as u32, ..w }
    } else if key == "reorder_wedges"@ {
        Weights { reorder_wedges: num_or(val, u32::MAX as int, w.reorder_wedges as int) as u32, ..w }
    } else if key == "narrow_levels"@ {
        Weights { narrow_levels: num_or(val, u32::MAX as int, w.narrow_levels as int) as u32, ..w }
    } else if key == "accessor_fanin"@ {
        Weights { accessor_fanin: num_or(val, usize::MAX as int, w.accessor_fanin as int) as usize, ..w }
    } else if key == "order"@ {
        let q = unquote(val);
        if q == "bottom-up"@ || q == "bottom_up"@ {
            Weights { order: DeclOrder::BottomUp, ..w }
        } else if q == "top-down"@ || q == "top_down"@ {
            Weights { order: DeclOrder::TopDown, ..w }
        } else {
            w
        }
    } else {
        w
    }
}

/// The weights and section flag after one trimmed line: a `[...]` header switches the section
/// (on exactly for `[tool.ventouse.weights]`); inside the section, a non-comment `key = value`
/// line is applied (the value's trailing commas dropped).
pub open spec fn line_step(w: Weights, in_section: bool, l: Seq<char>) -> (Weights, bool) {
    if l.len() > 0 && l[0] == '[' {
        (w, trim(strip_end(l.skip(1), ']')) == "tool.ventouse.weights"@)
    } else if !in_section || l.len() == 0 || l[0] == '#' {
        (w, in_section)
    } else {
        match first_index(l, '=') {
            Some(p) => (apply_entry(w, trim(l.take(p)), trim(strip_end(trim(l.skip(p + 1)), ','))), in_section),
            None => (w, in_section),
        }
    }
}

/// The weights after the text of `s` from index `i` on, the current line having started at
/// `line_start`: each line (split at `\n`) is trimmed and fed to [`line_step`]; a text that ends
/// with a line break has no empty last line.
pub open spec fn parse_from(s: Seq<char>, i: int, line_start: int, w: Weights, in_section: bool) -> Weights
    decreases s.len() - i,
{
    if i < 0 || i >= s.len() {
        if 0 <= line_start < s.len() {
            line_step(w, in_section, trim(s.subrange(line_start, s.len() as int))).0
        } else {
            w
        }
    } else if s[i] == '\n' {
        let st = line_step(w, in_section, trim(s.subrange(line_start, i)));
        parse_from(s, i + 1, i + 1, st.0, st.1)
    } else {
        parse_from(s, i + 1, line_start, w, in_section)
    }
}

/// The weights a configuration text sets, from the defaults.
pub open spec fn parsed_weights(s: Seq<char>) -> Weights {
    parse_from(s, 0, 0, default_weights(), false)
}

/// Parse an unsigned integer no larger than `max` from `v[lo..hi]` (see [`parse_unsigned`]).
pub fn parse_digits(v: &Vec<char>, lo: usize, hi: usize, max: u64) -> (r: Option<u64>)
    requires
        lo <= hi <= v@.len(),
    ensures
        r matches Some(n) ==> parse_unsigned(v@.subrange(lo as int, hi as int), max as int) == Some(n as int),
        r is None ==> parse_unsigned(v@.subrange(lo as int, hi as int), max as int) is None,
{
    let ghost s = v@.subrange(lo as int, hi as int);
    let mut a = lo;
    if a < hi && v[a] == '+' {
        a = a + 1;
    }
    let ghost d = v@.subrange(a as int, hi as int);
    assert(d == if s.len() > 0 && s[0] == '+' { s.skip(1) } else { s });
    if a == hi {
        return None;
    }
    let mut n: u64 = 0;
    let mut over = false;
    let mut i = a;
    while i < hi
        invariant
            a <= i <= hi <= v@.len(),
            d == v@.subrange(a as int, hi as int),
            s == v@.subrange(lo as int, hi as int),
            d == if s.len() > 0 && s[0] == '+' { s.skip(1) } else { s },
            all_digits(v@.subrange(a as int, i as int)),
            digits_value(v@.subrange(a as int, i as int)) >= 0,
            over <==> digits_value(v@.subrange(a as int, i as int)) > max,
            !over ==> n == digits_value(v@.subrange(a as int, i as int)),
        decreases hi - i,
    {
        let c = v[i];
        if !('0' <= c && c <= '9') {
            assert(d[i - a] == c);
            return None;
        }
        let ghost prev = v@.subrange(a as int, i as int);
        assert(v@.subrange(a as int, i + 1).drop_last() =~= prev);
        let dg = (c as u32 - '0' as u32) as u64;
        if !over {
            let m = (n as u128) * 10 + (dg as u128);
            if m > max as u128 {
                over = true;
            } else {
                n = m as u64;
            }
        }
        i = i + 1;
    }
    assert(v@.subrange(a as int, hi as int) == d);
    if over {
        None
    } else {
        Some(n)
    }
}

/// The bounds of `unquote(v[lo..hi])`.
fn unquote_range(v: &Vec<char>, lo: usize, hi: usize) -> (r: (usize, usize))
    requires
        lo <= hi <= v@.len(),
    ensures
        lo <= r.0 <= r.1 <= hi,
        v@.subrange(r.0 as int, r.1 as int) == unquote(v@.subrange(lo as int, hi as int)),
{
    let mut a = lo;
    while a < hi && (v[a] == '"' || v[a] == '\'')
        invariant
            lo <= a <= hi <= v@.len(),
            unquote_start(v@.subrange(lo as int, hi as int)) == unquote_start(v@.subrange(a as int, hi as int)),
        decreases hi - a,
    {
        assert(v@.subrange(a as int, hi as int).skip(1) =~= v@.subrange(a + 1, hi as int));
        a = a + 1;
    }
    let mut b = hi;
    while b > a && (v[b - 1] == '"' || v[b - 1] == '\'')
        invariant
            lo <= a <= b <= hi <= v@.len(),
            unquote_end(v@.subrange(a as int, hi as int)) == unquote_end(v@.subrange(a as int, b as int)),
        decreases b - a,
    {
        assert(v@.subrange(a as int, b as int).drop_last() =~= v@.subrange(a as int, b - 1));
        b = b - 1;
    }
    (a, b)
}

/// Apply one `key = value` entry, the key at `v[klo..khi]`, the value at `v[vlo..vhi]`.
fn apply(w: &mut Weights, v: &Vec<char>, klo: usize, khi: usize, vlo: usize, vhi: usize)
    requires
        klo <= khi <= v@.len(),
        vlo <= vhi <= v@.len(),
    ensures
        *final(w) == apply_entry(*old(w), v@.subrange(klo as int, khi as int), v@.subrange(vlo as int, vhi as int)),
{
    if range_is(v, klo, khi, "scope_level") {
        if let Some(n) = parse_digits(v, vlo, vhi, 0xffff_ffff) {
            w.scope_level = n as u32;
        }
    } else if range_is(v, klo, khi, "shared_callers") {
        if let Some(n) = parse_digits(v, vlo, vhi, usize::MAX as u64) {
            w.shared_callers = n as usize;
        }
    } else if range_is(v, klo, khi, "shared_uses") {
        if let Some(n) = parse_digits(v, vlo, vhi, 0xffff_ffff) {
            w.shared_uses = n as u32;
        }
    } else if range_is(v, klo, khi, "crowded_scope") {
        if let Some(n) = parse_digits(v, vlo, vhi, 0xffff_ffff) {
            w.crowded_scope = n as u32;
        }
    } else if range_is(v, klo, khi, "reorder_wedges") {
        if let Some(n) = parse_digits(v, vlo, vhi, 0xffff_ffff) {
            w.reorder_wedges = n as u32;
        }
    } else if range_is(v, klo, khi, "narrow_levels") {
        if let Some(n) = parse_digits(v, vlo, vhi, 0xffff_ffff) {
            w.narrow_levels = n as u32;
        }
    } else if range_is(v, klo, khi, "accessor_fanin") {
        if let Some(n) = parse_digits(v, vlo, vhi, usize::MAX as u64) {
            w.accessor_fanin = n as usize;
        }
    } else if range_is(v, klo, khi, "order") {
        let (a, b) = unquote_range(v, vlo, vhi);
        if range_is(v, a, b, "bottom-up") || range_is(v, a, b, "bottom_up") {
            w.order = DeclOrder::BottomUp;
        } else if range_is(v, a, b, "top-down") || range_is(v, a, b, "top_down") {
            w.order = DeclOrder::TopDown;
        }
    }
}

/// One line, `v[lo..hi]` before trimming (see [`line_step`]).
fn line(v: &Vec<char>, lo: usize, hi: usize, w: Weights, in_section: bool) -> (r: (Weights, bool))
    requires
        lo <= hi <= v@.len(),
    ensures
        r == line_step(w, in_section, trim(v@.subrange(lo as int, hi as int))),
{
    let ghost s = v@;
    let (lo, hi) = trim_range(v, lo, hi);
    let ghost l = s.subrange(lo as int, hi as int);
    if lo < hi && v[lo] == '[' {
        let he = strip_end_range(v, lo + 1, hi, ']');
        let (a, b) = trim_range(v, lo + 1, he);
        assert(s.subrange(lo + 1, hi as int) =~= l.skip(1));
        return (w, range_is(v, a, b, "tool.ventouse.weights"));
    }
    if !in_section || lo == hi || v[lo] == '#' {
        return (w, in_section);
    }
    match find_char(v, lo, hi, '=') {
        Some(p) => {
            let (ka, kb) = trim_range(v, lo, p);
            let (va, vb) = trim_range(v, p + 1, hi);
            let ve = strip_end_range(v, va, vb, ',');
            let (va2, vb2) = trim_range(v, va, ve);
            assert(s.subrange(lo as int, p as int) =~= l.take(p - lo));
            assert(s.subrange(p + 1, hi as int) =~= l.skip(p - lo + 1));
            let mut w2 = w;
            apply(&mut w2, v, ka, kb, va2, vb2);
            (w2, in_section)
        },
        None => (w, in_section),
    }
}

/// Parse `[tool.ventouse.weights]` keys from TOML text; unknown keys keep their default.
pub fn parse_weights(toml: &str) -> (w: Weights)
    ensures
        w == parsed_weights(toml@),
{
    let v = chars_of(toml);
    let ghost s = v@;
    let mut w = Weights::default();
    let mut in_section = false;
    let mut line_start: usize = 0;
    let mut i: usize = 0;
    while i < v.len()
        invariant
            s == v@,
            s == toml@,
            line_start <= i <= s.len(),
            parsed_weights(s) == parse_from(s, i as int, line_start as int, w, in_section),
        decreases s.len() - i,
    {
        if v[i] == '\n' {
            let st = line(&v, line_start, i, w, in_section);
            w = st.0;
            in_section = st.1;
            line_start = i + 1;
        }
        i = i + 1;
    }
    if line_start < v.len() {
        let st = line(&v, line_start, v.len(), w, in_section);
        w = st.0;
    }
    w
}

// --- how an `order` line is read -----------------------------------------------------------

/// Reading text after a prefix: from a position past the prefix on, the text is read as the
/// rest is on its own.
proof fn lemma_shift(p: Seq<char>, r: Seq<char>, i: int, ls: int, w: Weights, f: bool)
    requires
        0 <= ls <= i <= r.len(),
    ensures
        parse_from(p + r, i + p.len(), ls + p.len(), w, f) == parse_from(r, i, ls, w, f),
    decreases r.len() - i,
{
    let s = p + r;
    let n = p.len() as int;
    if i >= r.len() {
        assert(s.subrange(ls + n, s.len() as int) =~= r.subrange(ls, r.len() as int));
    } else {
        assert(s[i + n] == r[i]);
        if r[i] == '\n' {
            assert(s.subrange(ls + n, i + n) =~= r.subrange(ls, i));
            let st = line_step(w, f, trim(r.subrange(ls, i)));
            lemma_shift(p, r, i + 1, i + 1, st.0, st.1);
        } else {
            lemma_shift(p, r, i + 1, ls, w, f);
        }
    }
}

/// Two texts with the same lines up to the end of prefix `a` (which ends with a line break) are
/// read alike when what follows is read alike from every state.
proof fn lemma_prefix_same(a: Seq<char>, r1: Seq<char>, r2: Seq<char>, i: int, ls: int, w: Weights, f: bool)
    requires
        a.len() == 0 || a.last() == '\n',
        0 <= ls <= i <= a.len(),
        i == a.len() ==> ls == a.len(),
        forall|ww: Weights, ff: bool| #[trigger] parse_from(a + r1, a.len() as int, a.len() as int, ww, ff) == parse_from(a + r2, a.len() as int, a.len() as int, ww, ff),
    ensures
        parse_from(a + r1, i, ls, w, f) == parse_from(a + r2, i, ls, w, f),
    decreases a.len() - i,
{
    if i < a.len() {
        let s1 = a + r1;
        let s2 = a + r2;
        assert(s1[i] == a[i] && s2[i] == a[i]);
        if a[i] == '\n' {
            assert(s1.subrange(ls, i) =~= a.subrange(ls, i));
            assert(s2.subrange(ls, i) =~= a.subrange(ls, i));
            let st = line_step(w, f, trim(a.subrange(ls, i)));
            lemma_prefix_same(a, r1, r2, i + 1, i + 1, st.0, st.1);
        } else {
            lemma_prefix_same(a, r1, r2, i + 1, ls, w, f);
        }
    }
}

/// A text that opens with a line `l` (then a line break, or nothing) is read as that line, then
/// the rest on its own.
proof fn lemma_line_then(l: Seq<char>, b: Seq<char>, i: int, w: Weights, f: bool)
    requires
        l.len() > 0,
        forall|j: int| 0 <= j < l.len() ==> l[j] != '\n',
        b.len() == 0 || b[0] == '\n',
        0 <= i <= l.len(),
    ensures
        parse_from(l + b, i, 0, w, f) == if b.len() == 0 {
            line_step(w, f, trim(l)).0
        } else {
            parse_from(b.skip(1), 0, 0, line_step(w, f, trim(l)).0, line_step(w, f, trim(l)).1)
        },
    decreases l.len() - i,
{
    let s = l + b;
    if i < l.len() {
        assert(s[i] == l[i]);
        lemma_line_then(l, b, i + 1, w, f);
    } else {
        assert(s.subrange(0, i) =~= l);
        if b.len() > 0 {
            assert(s[i] == b[0]);
            let st = line_step(w, f, trim(l));
            let p = l.push('\n');
            assert(p + b.skip(1) =~= s);
            lemma_shift(p, b.skip(1), 0, 0, st.0, st.1);
        } else {
            assert(s.subrange(0, s.len() as int) =~= l);
        }
    }
}

/// Every character of `s` is a quote character.
pub open spec fn all_quotes(s: Seq<char>) -> bool {
    forall|j: int| 0 <= j < s.len() ==> is_quote(s[j])
}

proof fn lemma_unquote_start_push(x: Seq<char>, q: char)
    requires
        is_quote(q),
    ensures
        unquote_start(x.push(q)) == if all_quotes(x) { Seq::<char>::empty() } else { unquote_start(x).push(q) },
        all_quotes(x) ==> unquote_start(x) == Seq::<char>::empty(),
    decreases x.len(),
{
    if x.len() == 0 {
        assert(x.push(q).skip(1) =~= Seq::<char>::empty());
        assert(x.push(q)[0] == q);
        assert(unquote_start(x.push(q)) == unquote_start(x.push(q).skip(1)));
        assert(unquote_start(Seq::<char>::empty()) == Seq::<char>::empty());
    } else if is_quote(x[0]) {
        assert(x.push(q)[0] == x[0]);
        assert(x.push(q).skip(1) =~= x.skip(1).push(q));
        assert(unquote_start(x.push(q)) == unquote_start(x.push(q).skip(1)));
        assert(unquote_start(x) == unquote_start(x.skip(1)));
        lemma_unquote_start_push(x.skip(1), q);
        if all_quotes(x) {
            assert(all_quotes(x.skip(1)));
        } else {
            assert(!all_quotes(x.skip(1))) by {
                let j = choose|j: int| 0 <= j < x.len() && !is_quote(x[j]);
                assert(x.skip(1)[j - 1] == x[j]);
            }
        }
    } else {
        assert(x.push(q)[0] == x[0]);
    }
}

/// A value between two quote characters unquotes as the value itself does.
proof fn lemma_unquote_quoted(x: Seq<char>, q: char)
    requires
        is_quote(q),
    ensures
        unquote(seq![q] + x + seq![q]) == unquote(x),
{
    let v = seq![q] + x + seq![q];
    assert(v.skip(1) =~= x.push(q));
    lemma_unquote_start_push(x, q);
    if !all_quotes(x) {
        let z = unquote_start(x).push(q);
        assert(z.drop_last() =~= unquote_start(x));
    }
}

/// The line `order = <v>`, for a value without surrounding whitespace or trailing comma, reads
/// as the entry `order` with value `v` inside the section.
proof fn lemma_order_line(v: Seq<char>, w: Weights, f: bool)
    requires
        v.len() > 0,
        !is_ws(v[0]),
        !is_ws(v.last()),
        v.last() != ',',
    ensures
        trim("order = "@ + v) == "order = "@ + v,
        line_step(w, f, "order = "@ + v) == if f { (apply_entry(w, "order"@, v), f) } else { (w, f) },
{
    reveal_strlit("order = ");
    reveal_strlit("order");
    let l = "order = "@ + v;
    assert(l[0] == 'o');
    assert(trim_start(l) == l);
    assert(l.last() == v.last());
    assert(trim_end(l) == l);
    assert(l.skip(1).skip(1).skip(1).skip(1).skip(1).skip(1)[0] == '=');
    assert(first_index(l.skip(6), '=') == Some(0int));
    assert(l.skip(5).skip(1) =~= l.skip(6));
    assert(l.skip(4).skip(1) =~= l.skip(5));
    assert(l.skip(3).skip(1) =~= l.skip(4));
    assert(l.skip(2).skip(1) =~= l.skip(3));
    assert(l.skip(1).skip(1) =~= l.skip(2));
    assert(first_index(l.skip(5), '=') == Some(1int));
    assert(first_index(l.skip(4), '=') == Some(2int));
    assert(first_index(l.skip(3), '=') == Some(3int));
    assert(first_index(l.skip(2), '=') == Some(4int));
    assert(first_index(l.skip(1), '=') == Some(5int));
    assert(first_index(l, '=') == Some(6int));
    let key = l.take(6);
    assert(key.drop_last() =~= "order"@);
    assert(trim_start(key) == key);
    assert(trim_end("order"@) == "order"@);
    assert(trim(key) =~= "order"@);
    let rest = l.skip(7);
    assert(rest.skip(1) =~= v);
    assert(trim_start(v) == v);
    assert(trim_start(rest) == v);
    assert(trim_end(v) == v);
    assert(strip_end(v, ',') == v);
}

/// Reading the convention: in `pyproject.toml`, an `order` line whose value is in single quotes
/// (`order = 'top-down'`, a TOML literal string) sets the weights exactly as the same value in
/// double quotes does, and, for a value without surrounding whitespace or trailing comma, as the
/// bare value does — wherever the line stands in the text.
pub proof fn law_single_quoted_order_reads_as_double_quoted(a: Seq<char>, b: Seq<char>, x: Seq<char>)
    requires
        a.len() == 0 || a.last() == '\n',
        b.len() == 0 || b[0] == '\n',
        forall|j: int| 0 <= j < x.len() ==> x[j] != '\n',
    ensures
        parsed_weights(a + "order = '"@ + x + "'"@ + b) == parsed_weights(a + "order = \""@ + x + "\""@ + b),
        x.len() > 0 && !is_ws(x[0]) && !is_ws(x.last()) && x.last() != ',' ==> parsed_weights(a + "order = '"@ + x + "'"@ + b)
            == parsed_weights(a + "order = "@ + x + b),
{
    let v1 = seq!['\''] + x + seq!['\''];
    let v2 = seq!['"'] + x + seq!['"'];
    lemma_quoted_value(x, '\'');
    lemma_quoted_value(x, '"');
    lemma_lines_alike(a, b, v1, v2);
    lemma_texts(a, b, x);
    if x.len() > 0 && !is_ws(x[0]) && !is_ws(x.last()) && x.last() != ',' {
        lemma_lines_alike(a, b, v1, x);
    }
}

/// A quoted value: not blank at either end, no trailing comma, no line break, unquoted as the
/// value itself.
proof fn lemma_quoted_value(x: Seq<char>, q: char)
    requires
        is_quote(q),
        forall|j: int| 0 <= j < x.len() ==> x[j] != '\n',
    ensures
        ({
            let v = seq![q] + x + seq![q];
            &&& v.len() > 0 && !is_ws(v[0]) && !is_ws(v.last()) && v.last() != ','
            &&& forall|j: int| 0 <= j < v.len() ==> v[j] != '\n'
            &&& unquote(v) == unquote(x)
        }),
{
    let v = seq![q] + x + seq![q];
    lemma_unquote_quoted(x, q);
    assert(v.last() == q && v[0] == q);
    assert forall|j: int| 0 <= j < v.len() implies v[j] != '\n' by {
        if 0 < j < v.len() - 1 {
            assert(v[j] == x[j - 1]);
        }
    }
}

/// The three spellings of the `order` line, as one line of the text.
proof fn lemma_texts(a: Seq<char>, b: Seq<char>, x: Seq<char>)
    ensures
        a + "order = '"@ + x + "'"@ + b == a + ("order = "@ + (seq!['\''] + x + seq!['\'']) + b),
        a + "order = \""@ + x + "\""@ + b == a + ("order = "@ + (seq!['"'] + x + seq!['"']) + b),
        a + "order = "@ + x + b == a + ("order = "@ + x + b),
{
    reveal_strlit("order = '");
    reveal_strlit("order = \"");
    reveal_strlit("order = ");
    reveal_strlit("'");
    reveal_strlit("\"");
    assert(a + "order = '"@ + x + "'"@ + b =~= a + ("order = "@ + (seq!['\''] + x + seq!['\'']) + b));
    assert(a + "order = \""@ + x + "\""@ + b =~= a + ("order = "@ + (seq!['"'] + x + seq!['"']) + b));
    assert(a + "order = "@ + x + b =~= a + ("order = "@ + x + b));
}

/// Two texts that differ only in one whole line `order = <v1>` / `order = <v2>`, whose values
/// unquote alike, give the same weights.
proof fn lemma_lines_alike(a: Seq<char>, b: Seq<char>, v1: Seq<char>, v2: Seq<char>)
    requires
        a.len() == 0 || a.last() == '\n',
        b.len() == 0 || b[0] == '\n',
        v1.len() > 0 && !is_ws(v1[0]) && !is_ws(v1.last()) && v1.last() != ',',
        v2.len() > 0 && !is_ws(v2[0]) && !is_ws(v2.last()) && v2.last() != ',',
        forall|j: int| 0 <= j < v1.len() ==> v1[j] != '\n',
        forall|j: int| 0 <= j < v2.len() ==> v2[j] != '\n',
        unquote(v1) == unquote(v2),
    ensures
        parsed_weights(a + ("order = "@ + v1 + b)) == parsed_weights(a + ("order = "@ + v2 + b)),
{
    reveal_strlit("order = ");
    let l1 = "order = "@ + v1;
    let l2 = "order = "@ + v2;
    assert forall|j: int| 0 <= j < l1.len() implies l1[j] != '\n' by {
        if j >= 8 {
            assert(l1[j] == v1[j - 8]);
        }
    }
    assert forall|j: int| 0 <= j < l2.len() implies l2[j] != '\n' by {
        if j >= 8 {
            assert(l2[j] == v2[j - 8]);
        }
    }
    let r1 = l1 + b;
    let r2 = l2 + b;
    let n = a.len() as int;
    assert forall|ww: Weights, ff: bool| #[trigger] parse_from(a + r1, n, n, ww, ff) == parse_from(a + r2, n, n, ww, ff) by {
        lemma_shift(a, r1, 0, 0, ww, ff);
        lemma_shift(a, r2, 0, 0, ww, ff);
        lemma_order_line(v1, ww, ff);
        lemma_order_line(v2, ww, ff);
        lemma_order_entry(ww, v1, v2);
        lemma_line_then(l1, b, 0, ww, ff);
        lemma_line_then(l2, b, 0, ww, ff);
    }
    lemma_prefix_same(a, r1, r2, 0, 0, default_weights(), false);
}

/// The `order` entry reads its value only through its unquoted text.
proof fn lemma_order_entry(w: Weights, v1: Seq<char>, v2: Seq<char>)
    requires
        unquote(v1) == unquote(v2),
    ensures
        apply_entry(w, "order"@, v1) == apply_entry(w, "order"@, v2),
{
    reveal_strlit("order");
    reveal_strlit("scope_level");
    reveal_strlit("shared_callers");
    reveal_strlit("shared_uses");
    reveal_strlit("crowded_scope");
    reveal_strlit("reorder_wedges");
    reveal_strlit("narrow_levels");
    reveal_strlit("accessor_fanin");
    assert("order"@.len() == 5);
    assert("scope_level"@.len() != 5 && "shared_callers"@.len() != 5 && "shared_uses"@.len() != 5);
    assert("crowded_scope"@.len() != 5 && "reorder_wedges"@.len() != 5 && "narrow_levels"@.len() != 5);
    assert("accessor_fanin"@.len() != 5);
    assert("order"@ != "scope_level"@ && "order"@ != "shared_callers"@ && "order"@ != "shared_uses"@);
    assert("order"@ != "crowded_scope"@ && "order"@ != "reorder_wedges"@ && "order"@ != "narrow_levels"@);
    assert("order"@ != "accessor_fanin"@);
}


} // verus!
