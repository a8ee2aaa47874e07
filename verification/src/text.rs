//! Small verified text helpers: strings as character sequences (qualname splitting, building
//! strings, decimal numbers).

use vstd::prelude::*;
use vstd::std_specs::iter::IteratorSpec;
use vstd::string::StrSliceExecFns;

verus! {

broadcast use vstd::string::group_string_axioms;

/// Index of the last occurrence of `c` in `s`, if any.
pub open spec fn last_index(s: Seq<char>, c: char) -> Option<int>
    decreases s.len(),
{
    if s.len() == 0 {
        None
    } else if s.last() == c {
        Some(s.len() - 1)
    } else {
        last_index(s.drop_last(), c)
    }
}

/// The enclosing scope of a qualname: everything before the last `.` (empty at top level).
pub open spec fn qual_parent(q: Seq<char>) -> Seq<char> {
    match last_index(q, '.') {
        Some(i) => q.take(i),
        None => Seq::empty(),
    }
}

/// The enclosing scope of a qualname when it has one (`None` for a top-level name).
pub open spec fn qual_parent_opt(q: Seq<char>) -> Option<Seq<char>> {
    match last_index(q, '.') {
        Some(i) => Some(q.take(i)),
        None => None,
    }
}

/// The leaf (own) name of a qualname: everything after the last `.`.
pub open spec fn qual_leaf(q: Seq<char>) -> Seq<char> {
    match last_index(q, '.') {
        Some(i) => q.skip(i + 1),
        None => q,
    }
}

pub proof fn lemma_last_index(s: Seq<char>, c: char)
    ensures
        last_index(s, c) matches Some(i) ==> 0 <= i < s.len() && s[i] == c && forall|j: int| i < j < s.len() ==> s[j] != c,
        last_index(s, c) is None ==> forall|j: int| 0 <= j < s.len() ==> s[j] != c,
    decreases s.len(),
{
    if s.len() > 0 {
        let init = s.drop_last();
        lemma_last_index(init, c);
        assert forall|j: int| 0 <= j < init.len() implies init[j] == s[j] by {}
    }
}

/// The characters of `s`.
pub fn chars_of(s: &str) -> (v: Vec<char>)
    ensures
        v@ == s@,
{
    let mut v: Vec<char> = Vec::new();
    let mut it = s.chars();
    loop
        invariant
            v@ + it.remaining() == s@,
            it.obeys_prophetic_iter_laws(),
            it.decrease() is Some,
        ensures
            v@ == s@,
        decreases it.decrease()->0,
    {
        let ghost before = it.remaining();
        match it.next() {
            Some(c) => {
                v.push(c);
                assert(v@ + it.remaining() =~= s@);
            },
            None => {
                assert(v@ =~= s@);
                break;
            },
        }
    }
    v
}

/// Append one character (std `String::push`).
#[verifier::external_body]
pub(crate) fn push_char(s: &mut String, c: char)
    ensures
        final(s)@ == old(s)@.push(c),
{
    s.push(c);
}

/// The string holding `v[lo..hi]`.
pub fn string_of(v: &Vec<char>, lo: usize, hi: usize) -> (s: String)
    requires
        lo <= hi <= v@.len(),
    ensures
        s@ == v@.subrange(lo as int, hi as int),
{
    let mut s = String::new();
    let mut i = lo;
    while i < hi
        invariant
            lo <= i <= hi <= v@.len(),
            s@ == v@.subrange(lo as int, i as int),
        decreases hi - i,
    {
        push_char(&mut s, v[i]);
        assert(s@ =~= v@.subrange(lo as int, i + 1));
        i = i + 1;
    }
    s
}

/// Index of the last occurrence of `c` in `v`.
pub fn last_index_of(v: &Vec<char>, c: char) -> (r: Option<usize>)
    ensures
        r matches Some(i) ==> last_index(v@, c) == Some(i as int),
        r is None ==> last_index(v@, c) is None,
{
    let mut i = v.len();
    assert(v@.take(i as int) =~= v@);
    while i > 0
        invariant
            i <= v@.len(),
            last_index(v@, c) == last_index(v@.take(i as int), c),
        decreases i,
    {
        assert(v@.take(i as int).drop_last() =~= v@.take(i - 1));
        if v[i - 1] == c {
            return Some(i - 1);
        }
        i = i - 1;
    }
    None
}

/// The enclosing scope of a qualname (see [`qual_parent`]).
pub fn parent_of(q: &str) -> (r: String)
    ensures
        r@ == qual_parent(q@),
{
    let v = chars_of(q);
    proof {
        lemma_last_index(v@, '.');
    }
    match last_index_of(&v, '.') {
        Some(i) => string_of(&v, 0, i),
        None => String::new(),
    }
}

/// The enclosing scope of a qualname, `None` at top level (see [`qual_parent_opt`]).
pub fn parent_opt(q: &str) -> (r: Option<String>)
    ensures
        r matches Some(p) ==> qual_parent_opt(q@) == Some(p@),
        r is None ==> qual_parent_opt(q@) is None,
{
    let v = chars_of(q);
    proof {
        lemma_last_index(v@, '.');
    }
    match last_index_of(&v, '.') {
        Some(i) => Some(string_of(&v, 0, i)),
        None => None,
    }
}

/// The leaf name of a qualname (see [`qual_leaf`]).
pub fn leaf_of(q: &str) -> (r: String)
    ensures
        r@ == qual_leaf(q@),
{
    let v = chars_of(q);
    proof {
        lemma_last_index(v@, '.');
    }
    match last_index_of(&v, '.') {
        Some(i) => {
            let n = v.len();
            assert(i < n);
            let s = string_of(&v, i + 1, n);
            assert(s@ =~= v@.skip(i + 1));
            s
        },
        None => {
            let s = string_of(&v, 0, v.len());
            assert(s@ =~= v@);
            s
        },
    }
}

/// Lexicographic order on character sequences (code-point order — the same order Rust's `str`
/// comparison gives, since UTF-8 preserves code-point order).
pub open spec fn str_lt(a: Seq<char>, b: Seq<char>) -> bool
    decreases a.len(),
{
    if a.len() == 0 {
        b.len() > 0
    } else if b.len() == 0 {
        false
    } else if a[0] != b[0] {
        a[0] < b[0]
    } else {
        str_lt(a.drop_first(), b.drop_first())
    }
}

/// `str_lt` is a strict total order.
pub proof fn lemma_str_lt_order(a: Seq<char>, b: Seq<char>, c: Seq<char>)
    ensures
        !str_lt(a, a),
        str_lt(a, b) ==> !str_lt(b, a),
        a != b ==> str_lt(a, b) || str_lt(b, a),
        str_lt(a, b) && str_lt(b, c) ==> str_lt(a, c),
    decreases a.len(),
{
    if a.len() > 0 {
        lemma_str_lt_order(a.drop_first(), a.drop_first(), a.drop_first());
        if b.len() > 0 {
            if c.len() > 0 {
                lemma_str_lt_order(a.drop_first(), b.drop_first(), c.drop_first());
            } else {
                lemma_str_lt_order(a.drop_first(), b.drop_first(), b.drop_first());
            }
            if a != b && a[0] == b[0] {
                assert(a.drop_first() != b.drop_first()) by {
                    if a.drop_first() == b.drop_first() {
                        assert(a =~= seq![a[0]] + a.drop_first());
                        assert(b =~= seq![b[0]] + b.drop_first());
                    }
                }
            }
        }
    } else {
        if b.len() == 0 {
            assert(a =~= b);
        }
    }
}

/// Is `a` before `b` lexicographically?
pub fn chars_lt(a: &Vec<char>, b: &Vec<char>) -> (r: bool)
    ensures
        r == str_lt(a@, b@),
{
    let mut i: usize = 0;
    assert(a@.skip(0) =~= a@ && b@.skip(0) =~= b@);
    while i < a.len() && i < b.len() && a[i] == b[i]
        invariant
            i <= a@.len(),
            i <= b@.len(),
            str_lt(a@, b@) == str_lt(a@.skip(i as int), b@.skip(i as int)),
        decreases a@.len() - i,
    {
        proof {
            let sa = a@.skip(i as int);
            let sb = b@.skip(i as int);
            assert(sa.drop_first() =~= a@.skip(i + 1));
            assert(sb.drop_first() =~= b@.skip(i + 1));
        }
        i = i + 1;
    }
    proof {
        let sa = a@.skip(i as int);
        let sb = b@.skip(i as int);
        if i < a@.len() && i < b@.len() {
            assert(sa[0] == a@[i as int] && sb[0] == b@[i as int]);
        }
    }
    if i == a.len() {
        i < b.len()
    } else if i == b.len() {
        false
    } else {
        a[i] < b[i]
    }
}

/// Is `a` before `b` lexicographically?
pub fn str_less(a: &str, b: &str) -> (r: bool)
    ensures
        r == str_lt(a@, b@),
{
    chars_lt(&chars_of(a), &chars_of(b))
}

/// The owner of a local binding's qualname: everything before the last `.` (the whole name when
/// it has no dot).
pub open spec fn qual_owner(q: Seq<char>) -> Seq<char> {
    match last_index(q, '.') {
        Some(i) => q.take(i),
        None => q,
    }
}

/// The owner of a local binding's qualname (see [`qual_owner`]).
pub fn owner_of(q: &str) -> (r: String)
    ensures
        r@ == qual_owner(q@),
{
    let v = chars_of(q);
    proof {
        lemma_last_index(v@, '.');
    }
    match last_index_of(&v, '.') {
        Some(i) => string_of(&v, 0, i),
        None => {
            let s = string_of(&v, 0, v.len());
            assert(s@ =~= v@);
            s
        },
    }
}


// --- trimming and searching on character ranges ---------------------------------------------

/// Unicode `White_Space` — what `char::is_whitespace` and `str::trim` test.
pub open spec fn is_ws(c: char) -> bool {
    c == ' ' || ('\t' <= c && c <= '\r') || c == '\u{85}' || c == '\u{a0}' || c == '\u{1680}' || ('\u{2000}' <= c
        && c <= '\u{200a}') || c == '\u{2028}' || c == '\u{2029}' || c == '\u{202f}' || c == '\u{205f}' || c == '\u{3000}'
}

/// Is `c` whitespace (see [`is_ws`])?
pub fn is_space(c: char) -> (r: bool)
    ensures
        r == is_ws(c),
{
    c == ' ' || ('\t' <= c && c <= '\r') || c == '\u{85}' || c == '\u{a0}' || c == '\u{1680}' || ('\u{2000}' <= c
        && c <= '\u{200a}') || c == '\u{2028}' || c == '\u{2029}' || c == '\u{202f}' || c == '\u{205f}' || c == '\u{3000}'
}

/// `s` without its leading whitespace.
pub open spec fn trim_start(s: Seq<char>) -> Seq<char>
    decreases s.len(),
{
    if s.len() > 0 && is_ws(s[0]) { trim_start(s.skip(1)) } else { s }
}

/// `s` without its trailing whitespace.
pub open spec fn trim_end(s: Seq<char>) -> Seq<char>
    decreases s.len(),
{
    if s.len() > 0 && is_ws(s.last()) { trim_end(s.drop_last()) } else { s }
}

/// `s` without leading and trailing whitespace (`str::trim`).
pub open spec fn trim(s: Seq<char>) -> Seq<char> {
    trim_end(trim_start(s))
}

/// `s` without its trailing run of `c` (`str::trim_end_matches` with one character).
pub open spec fn strip_end(s: Seq<char>, c: char) -> Seq<char>
    decreases s.len(),
{
    if s.len() > 0 && s.last() == c { strip_end(s.drop_last(), c) } else { s }
}

/// The index of the first `c` in `s`, if any.
pub open spec fn first_index(s: Seq<char>, c: char) -> Option<int>
    decreases s.len(),
{
    if s.len() == 0 {
        None
    } else if s[0] == c {
        Some(0)
    } else {
        match first_index(s.skip(1), c) {
            Some(i) => Some(i + 1),
            None => None,
        }
    }
}

/// The bounds of `trim(v[lo..hi])` within `v`.
pub fn trim_range(v: &Vec<char>, lo: usize, hi: usize) -> (r: (usize, usize))
    requires
        lo <= hi <= v@.len(),
    ensures
        lo <= r.0 <= r.1 <= hi,
        v@.subrange(r.0 as int, r.1 as int) == trim(v@.subrange(lo as int, hi as int)),
{
    let mut a = lo;
    while a < hi && is_space(v[a])
        invariant
            lo <= a <= hi <= v@.len(),
            trim_start(v@.subrange(lo as int, hi as int)) == trim_start(v@.subrange(a as int, hi as int)),
        decreases hi - a,
    {
        assert(v@.subrange(a as int, hi as int).skip(1) =~= v@.subrange(a + 1, hi as int));
        a = a + 1;
    }
    assert(trim_start(v@.subrange(a as int, hi as int)) == v@.subrange(a as int, hi as int));
    let mut b = hi;
    while b > a && is_space(v[b - 1])
        invariant
            lo <= a <= b <= hi <= v@.len(),
            trim_end(v@.subrange(a as int, hi as int)) == trim_end(v@.subrange(a as int, b as int)),
        decreases b - a,
    {
        assert(v@.subrange(a as int, b as int).drop_last() =~= v@.subrange(a as int, b - 1));
        b = b - 1;
    }
    (a, b)
}

/// The end of `strip_end(v[lo..hi], c)` within `v`.
pub fn strip_end_range(v: &Vec<char>, lo: usize, hi: usize, c: char) -> (r: usize)
    requires
        lo <= hi <= v@.len(),
    ensures
        lo <= r <= hi,
        v@.subrange(lo as int, r as int) == strip_end(v@.subrange(lo as int, hi as int), c),
{
    let mut b = hi;
    while b > lo && v[b - 1] == c
        invariant
            lo <= b <= hi <= v@.len(),
            strip_end(v@.subrange(lo as int, hi as int), c) == strip_end(v@.subrange(lo as int, b as int), c),
        decreases b - lo,
    {
        assert(v@.subrange(lo as int, b as int).drop_last() =~= v@.subrange(lo as int, b - 1));
        b = b - 1;
    }
    b
}

/// The index of the first `c` in `v[lo..hi]` (absolute), if any.
pub fn find_char(v: &Vec<char>, lo: usize, hi: usize, c: char) -> (r: Option<usize>)
    requires
        lo <= hi <= v@.len(),
    ensures
        r matches Some(i) ==> lo <= i < hi && first_index(v@.subrange(lo as int, hi as int), c) == Some(i - lo),
        r is None ==> first_index(v@.subrange(lo as int, hi as int), c) is None,
{
    let mut i = lo;
    while i < hi
        invariant
            lo <= i <= hi <= v@.len(),
            first_index(v@.subrange(lo as int, hi as int), c) == match first_index(v@.subrange(i as int, hi as int), c) {
                Some(j) => Some(j + (i - lo)),
                None => None::<int>,
            },
        decreases hi - i,
    {
        if v[i] == c {
            return Some(i);
        }
        assert(v@.subrange(i as int, hi as int).skip(1) =~= v@.subrange(i + 1, hi as int));
        i = i + 1;
    }
    None
}

/// Is `s` exactly `lit`?
pub fn str_is(s: &str, lit: &str) -> (r: bool)
    ensures
        r == (s@ == lit@),
{
    let v = chars_of(s);
    assert(v@.subrange(0, v@.len() as int) =~= v@);
    range_is(&v, 0, v.len(), lit)
}

/// Is `v[lo..hi]` exactly `lit`?
pub fn range_is(v: &Vec<char>, lo: usize, hi: usize, lit: &str) -> (r: bool)
    requires
        lo <= hi <= v@.len(),
    ensures
        r == (v@.subrange(lo as int, hi as int) == lit@),
{
    let w = chars_of(lit);
    if hi - lo != w.len() {
        return false;
    }
    let mut i: usize = 0;
    while i < w.len()
        invariant
            hi - lo == w@.len(),
            lo <= hi <= v@.len(),
            w@ == lit@,
            i <= w@.len(),
            forall|j: int| 0 <= j < i ==> v@[lo + j] == w@[j],
        decreases w@.len() - i,
    {
        if v[lo + i] != w[i] {
            assert(v@.subrange(lo as int, hi as int)[i as int] != lit@[i as int]);
            return false;
        }
        i = i + 1;
    }
    assert(v@.subrange(lo as int, hi as int) =~= lit@);
    true
}


/// Append the characters of `t`.
pub fn push_str(s: &mut String, t: &str)
    ensures
        final(s)@ == old(s)@ + t@,
{
    let v = chars_of(t);
    let ghost s0 = s@;
    let mut i: usize = 0;
    while i < v.len()
        invariant
            i <= v@.len(),
            v@ == t@,
            s@ == s0 + v@.take(i as int),
        decreases v@.len() - i,
    {
        push_char(s, v[i]);
        assert(s@ =~= s0 + v@.take(i + 1));
        i = i + 1;
    }
    assert(v@.take(v@.len() as int) =~= v@);
}

/// `v[lo..]` starts with `lit`.
pub fn range_starts_with(v: &Vec<char>, lo: usize, hi: usize, lit: &str) -> (r: bool)
    requires
        lo <= hi <= v@.len(),
    ensures
        r == (lit@.len() <= hi - lo && v@.subrange(lo as int, lo + lit@.len()) == lit@),
{
    let w = chars_of(lit);
    if w.len() > hi - lo {
        return false;
    }
    range_is(v, lo, lo + w.len(), lit)
}


// --- decimal numbers ----------------------------------------------------------------------------

/// The decimal digit of `d` (0 to 9).
pub open spec fn digit_char(d: nat) -> char {
    if d == 0 { '0' } else if d == 1 { '1' } else if d == 2 { '2' } else if d == 3 { '3' } else if d == 4 {
        '4'
    } else if d == 5 { '5' } else if d == 6 { '6' } else if d == 7 { '7' } else if d == 8 { '8' } else { '9' }
}

/// The decimal representation of `n` (no leading zeros; `0` is "0").
pub open spec fn dec(n: nat) -> Seq<char>
    decreases n,
{
    if n < 10 {
        seq![digit_char(n)]
    } else {
        dec(n / 10).push(digit_char(n % 10))
    }
}

/// `k` spaces.
pub open spec fn spaces(k: nat) -> Seq<char> {
    Seq::new(k, |i: int| ' ')
}

/// `s` right-aligned in a field of `w` characters (unchanged when wider).
pub open spec fn pad_left(s: Seq<char>, w: nat) -> Seq<char> {
    if s.len() >= w { s } else { spaces((w - s.len()) as nat) + s }
}

fn digit_of(d: u64) -> (c: char)
    requires
        d < 10,
    ensures
        c == digit_char(d as nat),
{
    if d == 0 { '0' } else if d == 1 { '1' } else if d == 2 { '2' } else if d == 3 { '3' } else if d == 4 {
        '4'
    } else if d == 5 { '5' } else if d == 6 { '6' } else if d == 7 { '7' } else if d == 8 { '8' } else { '9' }
}

/// The decimal representation of `n`.
pub fn decimal(n: u64) -> (s: String)
    ensures
        s@ == dec(n as nat),
    decreases n,
{
    if n < 10 {
        let mut s = String::new();
        push_char(&mut s, digit_of(n));
        assert(s@ =~= seq![digit_char(n as nat)]);
        s
    } else {
        let mut s = decimal(n / 10);
        push_char(&mut s, digit_of(n % 10));
        s
    }
}

/// Append `n` in decimal, right-aligned in a field of `w` characters.
pub fn push_padded(out: &mut String, n: u64, w: usize)
    ensures
        final(out)@ == old(out)@ + pad_left(dec(n as nat), w as nat),
{
    let d = decimal(n);
    let ghost o0 = out@;
    let len = d.as_str().unicode_len();
    if len < w {
        let mut k: usize = 0;
        while k < w - len
            invariant
                k <= w - len,
                out@ == o0 + spaces(k as nat),
            decreases w - len - k,
        {
            push_char(out, ' ');
            assert(out@ =~= o0 + spaces((k + 1) as nat));
            k = k + 1;
        }
    } else {
        assert(out@ =~= o0);
    }
    let ghost mid = out@;
    push_str(out, d.as_str());
    assert(out@ =~= o0 + pad_left(dec(n as nat), w as nat));
}

/// Append `n` in decimal.
pub fn push_dec(out: &mut String, n: u64)
    ensures
        final(out)@ == old(out)@ + dec(n as nat),
{
    let d = decimal(n);
    push_str(out, d.as_str());
}

/// `s` split at every `c` (`str::split` with a character): one part more than there are `c`s.
pub open spec fn split_on(s: Seq<char>, c: char) -> Seq<Seq<char>>
    decreases s.len(),
{
    match last_index(s, c) {
        Some(i) => if 0 <= i < s.len() {
            split_on(s.take(i), c) + seq![s.skip(i + 1)]
        } else {
            seq![s]
        },
        None => seq![s],
    }
}

/// `parts` joined with `c` between each two.
pub open spec fn join_on(parts: Seq<Seq<char>>, c: char) -> Seq<char>
    decreases parts.len(),
{
    if parts.len() == 0 {
        Seq::empty()
    } else if parts.len() == 1 {
        parts[0]
    } else {
        join_on(parts.drop_last(), c) + seq![c] + parts.last()
    }
}

/// The views of a list of strings.
pub open spec fn views(v: Seq<String>) -> Seq<Seq<char>> {
    v.map_values(|s: String| s@)
}

/// Split `s` at every `c`.
pub fn split_chars(s: &str, c: char) -> (r: Vec<String>)
    ensures
        views(r@) == split_on(s@, c),
{
    let v = chars_of(s);
    let mut parts: Vec<String> = Vec::new();
    let mut cur = String::new();
    let mut i: usize = 0;
    assert(v@.take(0) =~= Seq::<char>::empty());
    while i < v.len()
        invariant
            i <= v@.len(),
            split_on(v@.take(i as int), c) == views(parts@).push(cur@),
        decreases v@.len() - i,
    {
        let ghost t0 = v@.take(i as int);
        let ghost t1 = v@.take(i + 1);
        assert(t1.drop_last() =~= t0);
        assert(t1.take(i as int) =~= t0);
        if v[i] == c {
            assert(t1.skip(i + 1) =~= Seq::<char>::empty());
            let ghost p0 = views(parts@);
            let ghost c0 = cur@;
            parts.push(cur);
            assert(views(parts@) =~= p0.push(c0));
            cur = String::new();
            assert(last_index(t1, c) == Some(i as int));
            assert(split_on(t1, c) == split_on(t0, c) + seq![Seq::<char>::empty()]);
            assert(split_on(t1, c) =~= views(parts@).push(cur@));
        } else {
            let ghost cur0 = cur@;
            push_char(&mut cur, v[i]);
            assert(cur@ =~= cur0.push(v@[i as int]));
            proof {
                lemma_last_index(t0, c);
                assert(last_index(t1, c) == last_index(t0, c));
                let sp0 = split_on(t0, c);
                assert(sp0.drop_last() =~= views(parts@));
                assert(sp0.last() == cur0);
                match last_index(t0, c) {
                    Some(j) => {
                        assert(t1.take(j) =~= t0.take(j));
                        assert(t1.skip(j + 1) =~= t0.skip(j + 1).push(v@[i as int]));
                        assert(sp0 == split_on(t0.take(j), c) + seq![t0.skip(j + 1)]);
                        assert((split_on(t0.take(j), c) + seq![t0.skip(j + 1)]).drop_last() =~= split_on(t0.take(j), c));
                        assert(split_on(t1, c) == split_on(t1.take(j), c) + seq![t1.skip(j + 1)]);
                    },
                    None => {
                        assert(sp0 == seq![t0]);
                        assert(split_on(t1, c) == seq![t1]);
                        assert(t1 =~= t0.push(v@[i as int]));
                    },
                }
                assert(split_on(t1, c) =~= views(parts@).push(cur@));
            }
        }
        i = i + 1;
    }
    assert(v@.take(v@.len() as int) =~= v@);
    let ghost p0 = views(parts@);
    parts.push(cur);
    assert(views(parts@) =~= p0.push(cur@));
    parts
}

/// `parts` joined with `c`.
pub fn join_chars(parts: &Vec<String>, c: char) -> (r: String)
    ensures
        r@ == join_on(views(parts@), c),
{
    let mut s = String::new();
    let mut i: usize = 0;
    while i < parts.len()
        invariant
            i <= parts@.len(),
            s@ == join_on(views(parts@.take(i as int)), c),
        decreases parts@.len() - i,
    {
        let ghost before = views(parts@.take(i as int));
        assert(views(parts@.take(i + 1)).drop_last() =~= before);
        assert(views(parts@.take(i + 1)).last() == parts@[i as int]@);
        if i > 0 {
            let ghost s0 = s@;
            push_char(&mut s, c);
            push_str(&mut s, parts[i].as_str());
            assert(s@ =~= s0 + seq![c] + parts@[i as int]@);
        } else {
            push_str(&mut s, parts[i].as_str());
            assert(views(parts@.take(1)) =~= seq![parts@[0]@]);
        }
        i = i + 1;
    }
    assert(parts@.take(parts@.len() as int) =~= parts@);
    s
}

/// A copy of a list of strings.
pub fn copy_strings(v: &Vec<String>) -> (r: Vec<String>)
    ensures
        views(r@) == views(v@),
{
    let mut out: Vec<String> = Vec::new();
    let mut k: usize = 0;
    while k < v.len()
        invariant
            k <= v@.len(),
            views(out@) == views(v@.take(k as int)),
        decreases v@.len() - k,
    {
        let ghost o0 = out@;
        out.push(v[k].clone());
        assert(views(out@) =~= views(o0).push(v@[k as int]@));
        assert(views(v@.take(k + 1)) =~= views(v@.take(k as int)).push(v@[k as int]@));
        k = k + 1;
    }
    assert(v@.take(v@.len() as int) =~= v@);
    out
}

} // verus!
