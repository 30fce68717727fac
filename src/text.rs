//! Character-level helpers shared by the parsers: scanning for literals,
//! whitespace and digit runs, and converting between `str` and `Vec<char>`.
use vstd::prelude::*;
use vstd::std_specs::iter::IteratorSpec;

verus! {

broadcast use vstd::string::group_string_axioms;

/// Copies the characters of `s` into a vector.
pub fn chars_of(s: &str) -> (r: Vec<char>)
    ensures
        r@ == s@,
{
    let mut out: Vec<char> = Vec::new();
    let mut it = s.chars();
    loop
        invariant
            it.obeys_prophetic_iter_laws(),
            it.decrease() is Some,
            out@ + it.remaining() == s@,
        ensures
            out@ == s@,
        decreases it.decrease()->0,
    {
        match it.next() {
            Some(c) => {
                out.push(c);
            },
            None => {
                assert(out@ + it.remaining() =~= out@);
                break;
            },
        }
    }
    out
}


/// Relies on `FromIterator<&char> for String`: the string holds exactly the
/// given characters, in order.
#[verifier::external_body]
pub fn string_of(v: &[char]) -> (r: String)
    ensures
        r@ == v@,
{
    v.iter().collect()
}

/// Whitespace in the ASCII range, as the tools' output uses it.
pub open spec fn is_ws(c: char) -> bool {
    c == ' ' || c == '\t' || c == '\n' || c == '\r' || c == '\x0B' || c == '\x0C'
}

pub open spec fn is_digit(c: char) -> bool {
    '0' <= c && c <= '9'
}

/// A character of a decimal number written with digits and dots.
pub open spec fn is_num_char(c: char) -> bool {
    is_digit(c) || c == '.'
}

pub fn ws(c: char) -> (r: bool)
    ensures
        r == is_ws(c),
{
    c == ' ' || c == '\t' || c == '\n' || c == '\r' || c == '\x0B' || c == '\x0C'
}

pub fn digit(c: char) -> (r: bool)
    ensures
        r == is_digit(c),
{
    '0' <= c && c <= '9'
}

/// Does `lit` occur in `s` at position `p`?
pub open spec fn lit_at(s: Seq<char>, p: int, lit: Seq<char>) -> bool {
    0 <= p && p + lit.len() <= s.len() && s.subrange(p, p + lit.len()) == lit
}

pub fn has_lit_at(s: &[char], p: usize, lit: &[char]) -> (r: bool)
    ensures
        r == lit_at(s@, p as int, lit@),
{
    if p > s.len() || lit.len() > s.len() - p {
        return false;
    }
    let mut k: usize = 0;
    while k < lit.len()
        invariant
            p + lit@.len() <= s@.len(),
            s@.len() == s.len(),
            lit@.len() == lit.len(),
            k <= lit@.len(),
            forall|j: int| 0 <= j < k ==> s@[p + j] == lit@[j],
        decreases lit.len() - k,
    {
        assert(p + k < s@.len());
        if s[p + k] != lit[k] {
            assert(s@.subrange(p as int, p + lit@.len())[k as int] != lit@[k as int]);
            return false;
        }
        k = k + 1;
    }
    assert(s@.subrange(p as int, p + lit@.len()) =~= lit@);
    true
}

/// The first position at or after `p` where `lit` occurs.
pub open spec fn find_lit(s: Seq<char>, lit: Seq<char>, p: int) -> Option<int>
    decreases s.len() - p,
{
    if p < 0 || p + lit.len() > s.len() {
        None
    } else if lit_at(s, p, lit) {
        Some(p)
    } else if p >= s.len() {
        None
    } else {
        find_lit(s, lit, p + 1)
    }
}

pub fn find_lit_from(s: &[char], lit: &[char], p: usize) -> (r: Option<usize>)
    ensures
        r matches Some(i) ==> find_lit(s@, lit@, p as int) == Some(i as int) && lit_at(s@, i as int, lit@)
            && i + lit@.len() <= s.len(),
        r is None ==> find_lit(s@, lit@, p as int) is None,
{
    assert(s@.len() == s.len());
    let mut i: usize = p;
    while i <= s.len() && lit.len() <= s.len() - i
        invariant
            p <= i,
            find_lit(s@, lit@, i as int) == find_lit(s@, lit@, p as int),
        decreases s.len() + 1 - i,
    {
        if has_lit_at(s, i, lit) {
            return Some(i);
        }
        if i >= s.len() {
            return None;
        }
        i = i + 1;
    }
    None
}

/// The end of the run of whitespace that starts at `p`.
pub open spec fn ws_end(s: Seq<char>, p: int) -> int
    decreases s.len() - p,
{
    if 0 <= p < s.len() && is_ws(s[p]) {
        ws_end(s, p + 1)
    } else {
        p
    }
}

pub fn skip_ws(s: &[char], p: usize) -> (r: usize)
    requires
        p <= s@.len(),
    ensures
        r as int == ws_end(s@, p as int),
        p <= r <= s@.len(),
{
    let mut i: usize = p;
    while i < s.len() && ws(s[i])
        invariant
            p <= i <= s@.len(),
            ws_end(s@, i as int) == ws_end(s@, p as int),
        decreases s.len() - i,
    {
        i = i + 1;
    }
    i
}

/// A run of whitespace from `i` that stops at `j` ends there.
pub proof fn lemma_ws_end_at(s: Seq<char>, i: int, j: int)
    requires
        0 <= i <= j <= s.len(),
        forall|k: int| i <= k < j ==> is_ws(#[trigger] s[k]),
        j < s.len() ==> !is_ws(s[j]),
    ensures
        ws_end(s, i) == j,
    decreases j - i,
{
    if i < j {
        lemma_ws_end_at(s, i + 1, j);
    }
}

/// A run of digits from `i` that stops at `j` ends there.
pub proof fn lemma_digit_end_at(s: Seq<char>, i: int, j: int)
    requires
        0 <= i <= j <= s.len(),
        forall|k: int| i <= k < j ==> is_digit(#[trigger] s[k]),
        j < s.len() ==> !is_digit(s[j]),
    ensures
        digit_end(s, i) == j,
    decreases j - i,
{
    if i < j {
        lemma_digit_end_at(s, i + 1, j);
    }
}

/// The end of the run of digits that starts at `p`.
pub open spec fn digit_end(s: Seq<char>, p: int) -> int
    decreases s.len() - p,
{
    if 0 <= p < s.len() && is_digit(s[p]) {
        digit_end(s, p + 1)
    } else {
        p
    }
}

pub fn skip_digits(s: &[char], p: usize) -> (r: usize)
    requires
        p <= s@.len(),
    ensures
        r as int == digit_end(s@, p as int),
        p <= r <= s@.len(),
        forall|i: int| p <= i < r ==> is_digit(#[trigger] s@[i]),
{
    let mut i: usize = p;
    while i < s.len() && digit(s[i])
        invariant
            p <= i <= s@.len(),
            forall|j: int| p <= j < i ==> is_digit(#[trigger] s@[j]),
            digit_end(s@, i as int) == digit_end(s@, p as int),
        decreases s.len() - i,
    {
        i = i + 1;
    }
    i
}

/// The end of the run of digits and dots that starts at `p`.
pub open spec fn num_end(s: Seq<char>, p: int) -> int
    decreases s.len() - p,
{
    if 0 <= p < s.len() && is_num_char(s[p]) {
        num_end(s, p + 1)
    } else {
        p
    }
}

pub fn skip_num(s: &[char], p: usize) -> (r: usize)
    requires
        p <= s@.len(),
    ensures
        r as int == num_end(s@, p as int),
        p <= r <= s@.len(),
        forall|i: int| p <= i < r ==> is_num_char(#[trigger] s@[i]),
{
    let mut i: usize = p;
    while i < s.len() && (digit(s[i]) || s[i] == '.')
        invariant
            p <= i <= s@.len(),
            forall|j: int| p <= j < i ==> is_num_char(#[trigger] s@[j]),
            num_end(s@, i as int) == num_end(s@, p as int),
        decreases s.len() - i,
    {
        i = i + 1;
    }
    i
}

/// The position of the first line break at or after `p`, or the end of `s`.
pub open spec fn line_end(s: Seq<char>, p: int) -> int
    decreases s.len() - p,
{
    if 0 <= p < s.len() && s[p] != '\n' {
        line_end(s, p + 1)
    } else {
        p
    }
}

pub fn skip_to_line_end(s: &[char], p: usize) -> (r: usize)
    requires
        p <= s@.len(),
    ensures
        r as int == line_end(s@, p as int),
        p <= r <= s@.len(),
{
    let mut i: usize = p;
    while i < s.len() && s[i] != '\n'
        invariant
            p <= i <= s@.len(),
            line_end(s@, i as int) == line_end(s@, p as int),
        decreases s.len() - i,
    {
        i = i + 1;
    }
    i
}


/// The first result of `f` at a position in `p..=len`, scanning left to right.
pub open spec fn first_match<T>(len: int, p: int, f: spec_fn(int) -> Option<T>) -> Option<T>
    decreases len + 1 - p,
{
    if p > len || p < 0 {
        None
    } else if f(p) is Some {
        f(p)
    } else {
        first_match(len, p + 1, f)
    }
}

/// The position of the last colon in `s[k..e]`, or -1.
pub open spec fn last_colon(s: Seq<char>, k: int, e: int) -> int
    decreases e - k,
{
    if e <= k {
        -1
    } else if s[e - 1] == ':' {
        e - 1
    } else {
        last_colon(s, k, e - 1)
    }
}

pub fn find_last_colon(s: &[char], k: usize, e: usize) -> (r: Option<usize>)
    requires
        k <= e <= s@.len(),
    ensures
        r matches Some(c) ==> last_colon(s@, k as int, e as int) == c as int && k <= c < e,
        r is None ==> last_colon(s@, k as int, e as int) == -1,
{
    let mut i: usize = e;
    while i > k
        invariant
            k <= i <= e <= s@.len(),
            last_colon(s@, k as int, i as int) == last_colon(s@, k as int, e as int),
        decreases i,
    {
        if s[i - 1] == ':' {
            return Some(i - 1);
        }
        i = i - 1;
    }
    None
}

/// Whitespace removed from both ends.
pub open spec fn trim_start(t: Seq<char>) -> Seq<char>
    decreases t.len(),
{
    if t.len() > 0 && is_ws(t[0]) {
        trim_start(t.drop_first())
    } else {
        t
    }
}

pub open spec fn trim_end(t: Seq<char>) -> Seq<char>
    decreases t.len(),
{
    if t.len() > 0 && is_ws(t.last()) {
        trim_end(t.drop_last())
    } else {
        t
    }
}

pub open spec fn trim(t: Seq<char>) -> Seq<char> {
    trim_end(trim_start(t))
}

/// The bounds of `s[from..to]` with whitespace removed from both ends.
pub fn trim_bounds(s: &[char], from: usize, to: usize) -> (r: (usize, usize))
    requires
        from <= to <= s@.len(),
    ensures
        from <= r.0 <= r.1 <= to,
        s@.subrange(r.0 as int, r.1 as int) == trim(s@.subrange(from as int, to as int)),
{
    let mut a: usize = from;
    while a < to && ws(s[a])
        invariant
            from <= a <= to <= s@.len(),
            trim_start(s@.subrange(a as int, to as int)) == trim_start(s@.subrange(from as int, to as int)),
        decreases to - a,
    {
        assert(s@.subrange(a as int, to as int).drop_first() =~= s@.subrange(a + 1, to as int));
        a = a + 1;
    }
    let mut b: usize = to;
    while b > a && ws(s[b - 1])
        invariant
            from <= a <= b <= to <= s@.len(),
            trim_end(s@.subrange(a as int, b as int)) == trim_end(s@.subrange(a as int, to as int)),
        decreases b,
    {
        assert(s@.subrange(a as int, b as int).drop_last() =~= s@.subrange(a as int, b - 1));
        b = b - 1;
    }
    (a, b)
}

/// Does `lit` occur anywhere in `t`?
pub open spec fn contains_lit(t: Seq<char>, lit: Seq<char>) -> bool {
    find_lit(t, lit, 0) is Some
}

pub fn has_lit(t: &[char], lit: &str) -> (r: bool)
    ensures
        r == contains_lit(t@, lit@),
{
    let l = chars_of(lit);
    find_lit_from(t, l.as_slice(), 0).is_some()
}

} // verus!
