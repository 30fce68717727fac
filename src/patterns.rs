//! The textual patterns that the diagnostic tools' output is read with. Each
//! pattern is a spec function saying where it matches at a given position and
//! which spans it captures; `match_at` decides the same by scanning, and
//! `find_pattern` looks for the leftmost match.
use vstd::prelude::*;
use crate::text::{
    chars_of, digit, first_match, is_num_char, find_last_colon, has_lit_at, is_digit, last_colon, line_end, lit_at,
    num_end, skip_digits, skip_num, skip_to_line_end, skip_ws, digit_end, ws_end,
};

verus! {

broadcast use vstd::string::group_string_axioms;

/// The patterns read from the tools' output.
#[derive(Debug, Clone, Copy, PartialEq, Eq, Structural)]
pub enum Pattern {
    /// `ch <digits>` in a channel descriptor.
    ChannelNumber,
    /// `<digits>[.<digits>] GHz` in a channel descriptor.
    Gigahertz,
    /// The "Current Network Information:" header, a line break, and the
    /// next line up to its last colon.
    CurrentNetwork,
    /// `PHY Mode: <rest of line>`.
    PhyMode,
    /// `Channel: <digits>`, optionally followed by `(<ghz> GHz, <mhz> MHz)`.
    Channel,
    /// `Transmit Rate: <digits and dots>`.
    TransmitRate,
    /// `Signal / Noise: <int> dBm / <int> dBm`.
    SignalNoise,
    /// `Channel: <digits>`, optionally followed by `(<ghz> GHz`.
    NeighborChannel,
    /// `<digits and dots>% packet loss`.
    PacketLoss,
    /// `round-trip min/avg/max/stddev = a/b/c/d`.
    PingStats,
    /// `nameserver[<digits>] : <digits and dots>`.
    NameServer,
    /// `Router: <digits and dots>`.
    Router,
    /// `Query time: <digits> msec`.
    QueryTime,
    /// `Current Wi-Fi Network: <rest of line>`.
    CurrentSsid,
}

/// Where a match captured: up to three spans `[s_i, e_i)`, and whether an
/// optional part matched.
#[derive(Debug, Clone, Copy, PartialEq, Eq, Structural)]
pub struct Captures {
    pub s0: usize,
    pub e0: usize,
    pub s1: usize,
    pub e1: usize,
    pub s2: usize,
    pub e2: usize,
    pub has_opt: bool,
}

pub open spec fn cap1(a: int, b: int) -> Captures {
    Captures { s0: a as usize, e0: b as usize, s1: 0, e1: 0, s2: 0, e2: 0, has_opt: false }
}

pub open spec fn cap2(a: int, b: int, c: int, d: int) -> Captures {
    Captures {
        s0: a as usize,
        e0: b as usize,
        s1: c as usize,
        e1: d as usize,
        s2: 0,
        e2: 0,
        has_opt: false,
    }
}

pub open spec fn char_at(s: Seq<char>, p: int, c: char) -> bool {
    0 <= p < s.len() && s[p] == c
}

/// After a digit run ending at `e`: the end of an optional `.<digits>`.
pub open spec fn frac_end(s: Seq<char>, e: int) -> int {
    if char_at(s, e, '.') && e + 1 < s.len() && is_digit(s[e + 1]) {
        digit_end(s, e + 1)
    } else {
        e
    }
}

/// After an optional minus sign at `p`.
pub open spec fn sign_end(s: Seq<char>, p: int) -> int {
    if char_at(s, p, '-') {
        p + 1
    } else {
        p
    }
}

/// `(<digits>[.<digits>] GHz, <digits> MHz)` after whitespace at `e`: the GHz and MHz spans.
pub open spec fn channel_suffix(s: Seq<char>, e: int) -> Option<(int, int, int, int)> {
    let a = ws_end(s, e);
    let g1 = a + 1;
    let g1e = digit_end(s, g1);
    let g2 = frac_end(s, g1e);
    let x = ws_end(s, g2);
    let m1 = ws_end(s, x + "GHz,"@.len());
    let m2 = digit_end(s, m1);
    let y = ws_end(s, m2);
    if char_at(s, a, '(') && g1e > g1 && lit_at(s, x, "GHz,"@) && m2 > m1 && lit_at(s, y, "MHz)"@) {
        Some((g1, g2, m1, m2))
    } else {
        None
    }
}

/// `(<digits>[.<digits>] GHz` after whitespace at `e`: the GHz span.
pub open spec fn ghz_suffix(s: Seq<char>, e: int) -> Option<(int, int)> {
    let a = ws_end(s, e);
    let g1 = a + 1;
    let g1e = digit_end(s, g1);
    let g2 = frac_end(s, g1e);
    let x = ws_end(s, g2);
    if char_at(s, a, '(') && g1e > g1 && lit_at(s, x, "GHz"@) {
        Some((g1, g2))
    } else {
        None
    }
}

/// Where a label is followed by whitespace and a run of the kind that `run_end` ends.
pub open spec fn label_run(s: Seq<char>, p: int, label: Seq<char>, digits_only: bool) -> Option<Captures> {
    let q = ws_end(s, p + label.len());
    let e = if digits_only {
        digit_end(s, q)
    } else {
        num_end(s, q)
    };
    if lit_at(s, p, label) && e > q {
        Some(cap1(q, e))
    } else {
        None
    }
}

/// Where a label is followed by whitespace and a non-empty rest of the line.
pub open spec fn label_line(s: Seq<char>, p: int, label: Seq<char>) -> Option<Captures> {
    let k = ws_end(s, p + label.len());
    let e = line_end(s, k);
    if lit_at(s, p, label) && e > k {
        Some(cap1(k, e))
    } else {
        None
    }
}

/// Does `pat` match at `p` in `s`, and with which captures?
pub open spec fn match_at(pat: Pattern, s: Seq<char>, p: int) -> Option<Captures> {
    match pat {
        Pattern::ChannelNumber => label_run(s, p, "ch"@, true),
        Pattern::Gigahertz => {
            let e1 = digit_end(s, p);
            let e2 = frac_end(s, e1);
            let x = ws_end(s, e2);
            if e1 > p && lit_at(s, x, "GHz"@) {
                Some(cap1(p, e2))
            } else {
                None
            }
        },
        Pattern::CurrentNetwork => {
            let b = p + "Current Network Information:"@.len();
            let k = ws_end(s, b);
            let e = line_end(s, k);
            let c = last_colon(s, k, e);
            if lit_at(s, p, "Current Network Information:"@) && line_end(s, b) < k && c > k {
                Some(cap1(k, c))
            } else {
                None
            }
        },
        Pattern::PhyMode => label_line(s, p, "PHY Mode:"@),
        Pattern::Channel => match label_run(s, p, "Channel:"@, true) {
            Some(c) => match channel_suffix(s, c.e0 as int) {
                Some((g1, g2, m1, m2)) => Some(
                    Captures {
                        s1: g1 as usize,
                        e1: g2 as usize,
                        s2: m1 as usize,
                        e2: m2 as usize,
                        has_opt: true,
                        ..c
                    },
                ),
                None => Some(c),
            },
            None => None,
        },
        Pattern::TransmitRate => label_run(s, p, "Transmit Rate:"@, false),
        Pattern::SignalNoise => {
            let a = ws_end(s, p + "Signal / Noise:"@.len());
            let a2 = digit_end(s, sign_end(s, a));
            let b = ws_end(s, a2);
            let c = ws_end(s, b + "dBm"@.len());
            let d = ws_end(s, c + 1);
            let d2 = digit_end(s, sign_end(s, d));
            let e = ws_end(s, d2);
            if lit_at(s, p, "Signal / Noise:"@) && a2 > sign_end(s, a) && lit_at(s, b, "dBm"@)
                && char_at(s, c, '/') && d2 > sign_end(s, d) && lit_at(s, e, "dBm"@) {
                Some(cap2(a, a2, d, d2))
            } else {
                None
            }
        },
        Pattern::NeighborChannel => match label_run(s, p, "Channel:"@, true) {
            Some(c) => match ghz_suffix(s, c.e0 as int) {
                Some((g1, g2)) => Some(Captures { s1: g1 as usize, e1: g2 as usize, has_opt: true, ..c }),
                None => Some(c),
            },
            None => None,
        },
        Pattern::PacketLoss => {
            let e = num_end(s, p);
            if e > p && lit_at(s, e, "% packet loss"@) {
                Some(cap1(p, e))
            } else {
                None
            }
        },
        Pattern::PingStats => {
            let x0 = p + "round-trip min/avg/max/stddev = "@.len();
            let x1 = num_end(s, x0);
            let x2 = num_end(s, x1 + 1);
            let x3 = num_end(s, x2 + 1);
            let x4 = num_end(s, x3 + 1);
            if lit_at(s, p, "round-trip min/avg/max/stddev = "@) && x1 > x0 && char_at(s, x1, '/')
                && x2 > x1 + 1 && char_at(s, x2, '/') && x3 > x2 + 1 && char_at(s, x3, '/') && x4
                > x3 + 1 {
                Some(cap2(x1 + 1, x2, x3 + 1, x4))
            } else {
                None
            }
        },
        Pattern::NameServer => {
            let d0 = p + "nameserver["@.len();
            let d = digit_end(s, d0);
            let x = ws_end(s, d + 1);
            let y = ws_end(s, x + 1);
            let z = num_end(s, y);
            if lit_at(s, p, "nameserver["@) && d > d0 && char_at(s, d, ']') && char_at(s, x, ':')
                && z > y {
                Some(cap1(y, z))
            } else {
                None
            }
        },
        Pattern::Router => label_run(s, p, "Router:"@, false),
        Pattern::QueryTime => match label_run(s, p, "Query time:"@, true) {
            Some(c) => if lit_at(s, ws_end(s, c.e0 as int), "msec"@) {
                Some(c)
            } else {
                None
            },
            None => None,
        },
        Pattern::CurrentSsid => label_line(s, p, "Current Wi-Fi Network:"@),
    }
}

pub open spec fn digit_span(s: Seq<char>, a: int, b: int) -> bool {
    0 <= a <= b <= s.len() && forall|i: int| a <= i < b ==> is_digit(#[trigger] s[i])
}

pub open spec fn num_span(s: Seq<char>, a: int, b: int) -> bool {
    0 <= a <= b <= s.len() && forall|i: int| a <= i < b ==> is_num_char(#[trigger] s[i])
}

/// `s[a..b]` is digits after an optional minus sign.
pub open spec fn signed_span(s: Seq<char>, a: int, b: int) -> bool {
    if a < b && s[a] == '-' {
        digit_span(s, a + 1, b)
    } else {
        digit_span(s, a, b)
    }
}

/// The captures of a match of `pat` lie in `s` and hold what the pattern's
/// groups admit.
pub open spec fn captures_ok(pat: Pattern, s: Seq<char>, c: Captures) -> bool {
    let (s0, e0, s1, e1, s2, e2) = (c.s0 as int, c.e0 as int, c.s1 as int, c.e1 as int, c.s2 as int, c.e2 as int);
    match pat {
        Pattern::ChannelNumber => digit_span(s, s0, e0),
        Pattern::QueryTime => digit_span(s, s0, e0),
        Pattern::Channel => digit_span(s, s0, e0) && (c.has_opt ==> num_span(s, s1, e1) && digit_span(s, s2, e2)),
        Pattern::NeighborChannel => digit_span(s, s0, e0) && (c.has_opt ==> num_span(s, s1, e1)),
        Pattern::Gigahertz | Pattern::TransmitRate | Pattern::PacketLoss | Pattern::Router | Pattern::NameServer => num_span(s, s0, e0),
        Pattern::PingStats => num_span(s, s0, e0) && num_span(s, s1, e1),
        Pattern::SignalNoise => signed_span(s, s0, e0) && signed_span(s, s1, e1),
        Pattern::CurrentNetwork | Pattern::PhyMode | Pattern::CurrentSsid => 0 <= s0 <= e0 <= s.len(),
    }
}

/// The leftmost match of `pat` in `s` at or after `p`.
pub open spec fn find_match(pat: Pattern, s: Seq<char>, p: int) -> Option<Captures> {
    first_match(s.len() as int, p, |q: int| match_at(pat, s, q))
}


fn char_is(s: &[char], p: usize, c: char) -> (r: bool)
    ensures
        r == char_at(s@, p as int, c),
        r ==> p < s.len(),
{
    p < s.len() && s[p] == c
}

fn skip_frac(s: &[char], e: usize) -> (r: usize)
    requires
        e <= s@.len(),
    ensures
        r as int == frac_end(s@, e as int),
        e <= r <= s@.len(),
        forall|i: int| e <= i < r ==> is_num_char(#[trigger] s@[i]),
{
    if char_is(s, e, '.') && e + 1 < s.len() && digit(s[e + 1]) {
        skip_digits(s, e + 1)
    } else {
        e
    }
}

fn skip_sign(s: &[char], p: usize) -> (r: usize)
    requires
        p <= s@.len(),
    ensures
        r as int == sign_end(s@, p as int),
        p <= r <= s@.len(),
{
    if char_is(s, p, '-') {
        p + 1
    } else {
        p
    }
}

fn lit_here(s: &[char], p: usize, lit: &str) -> (r: bool)
    ensures
        r == lit_at(s@, p as int, lit@),
{
    let l = chars_of(lit);
    has_lit_at(s, p, l.as_slice())
}

/// `s[p..]` is at least as long as `lit`; then `p + lit.len()` is a position of `s`.
fn after_lit(s: &[char], p: usize, lit: &str) -> (r: Option<usize>)
    ensures
        r matches Some(q) ==> lit_at(s@, p as int, lit@) && q == p + lit@.len() && q <= s@.len()
            && q <= s.len(),
        r is None ==> !lit_at(s@, p as int, lit@),
{
    let l = chars_of(lit);
    assert(s@.len() == s.len());
    if has_lit_at(s, p, l.as_slice()) {
        Some(p + l.len())
    } else {
        None
    }
}

fn ex_channel_suffix(s: &[char], e: usize) -> (r: Option<(usize, usize, usize, usize)>)
    requires
        e <= s@.len(),
    ensures
        match r {
            Some((a, b, c, d)) => channel_suffix(s@, e as int) == Some((a as int, b as int, c as int, d as int))
                && num_span(s@, a as int, b as int) && digit_span(s@, c as int, d as int),
            None => channel_suffix(s@, e as int) is None,
        },
{
    let a = skip_ws(s, e);
    if !char_is(s, a, '(') {
        return None;
    }
    let g1 = a + 1;
    let g1e = skip_digits(s, g1);
    if g1e == g1 {
        return None;
    }
    let g2 = skip_frac(s, g1e);
    let x = skip_ws(s, g2);
    let m1 = match after_lit(s, x, "GHz,") {
        Some(q) => skip_ws(s, q),
        None => {
            return None;
        },
    };
    let m2 = skip_digits(s, m1);
    if m2 == m1 {
        return None;
    }
    let y = skip_ws(s, m2);
    if lit_here(s, y, "MHz)") {
        Some((g1, g2, m1, m2))
    } else {
        None
    }
}

fn ex_ghz_suffix(s: &[char], e: usize) -> (r: Option<(usize, usize)>)
    requires
        e <= s@.len(),
    ensures
        match r {
            Some((a, b)) => ghz_suffix(s@, e as int) == Some((a as int, b as int)) && num_span(s@, a as int, b as int),
            None => ghz_suffix(s@, e as int) is None,
        },
{
    let a = skip_ws(s, e);
    if !char_is(s, a, '(') {
        return None;
    }
    let g1 = a + 1;
    let g1e = skip_digits(s, g1);
    if g1e == g1 {
        return None;
    }
    let g2 = skip_frac(s, g1e);
    let x = skip_ws(s, g2);
    if lit_here(s, x, "GHz") {
        Some((g1, g2))
    } else {
        None
    }
}

fn ex_label_run(s: &[char], p: usize, label: &str, digits_only: bool) -> (r: Option<Captures>)
    ensures
        r == label_run(s@, p as int, label@, digits_only),
        r matches Some(c) ==> c.s0 < c.e0 <= s@.len() && (if digits_only {
            digit_span(s@, c.s0 as int, c.e0 as int)
        } else {
            num_span(s@, c.s0 as int, c.e0 as int)
        }),
{
    let q = match after_lit(s, p, label) {
        Some(q) => skip_ws(s, q),
        None => {
            return None;
        },
    };
    let e = if digits_only {
        skip_digits(s, q)
    } else {
        skip_num(s, q)
    };
    if e > q {
        Some(Captures { s0: q, e0: e, s1: 0, e1: 0, s2: 0, e2: 0, has_opt: false })
    } else {
        None
    }
}

fn ex_label_line(s: &[char], p: usize, label: &str) -> (r: Option<Captures>)
    ensures
        r == label_line(s@, p as int, label@),
        r matches Some(c) ==> c.s0 <= c.e0 <= s@.len(),
{
    let k = match after_lit(s, p, label) {
        Some(q) => skip_ws(s, q),
        None => {
            return None;
        },
    };
    let e = skip_to_line_end(s, k);
    if e > k {
        Some(Captures { s0: k, e0: e, s1: 0, e1: 0, s2: 0, e2: 0, has_opt: false })
    } else {
        None
    }
}

/// Decides `match_at(pat, s, p)`.
pub fn pattern_at(pat: Pattern, s: &[char], p: usize) -> (r: Option<Captures>)
    requires
        p <= s@.len(),
    ensures
        r == match_at(pat, s@, p as int),
        r matches Some(c) ==> captures_ok(pat, s@, c),
{
    match pat {
        Pattern::ChannelNumber => ex_label_run(s, p, "ch", true),
        Pattern::Gigahertz => {
            let e1 = skip_digits(s, p);
            let e2 = skip_frac(s, e1);
            let x = skip_ws(s, e2);
            if e1 > p && lit_here(s, x, "GHz") {
                Some(Captures { s0: p, e0: e2, s1: 0, e1: 0, s2: 0, e2: 0, has_opt: false })
            } else {
                None
            }
        },
        Pattern::CurrentNetwork => {
            let b = match after_lit(s, p, "Current Network Information:") {
                Some(b) => b,
                None => {
                    return None;
                },
            };
            let k = skip_ws(s, b);
            if skip_to_line_end(s, b) >= k {
                return None;
            }
            let e = skip_to_line_end(s, k);
            match find_last_colon(s, k, e) {
                Some(c) => if c > k {
                    Some(Captures { s0: k, e0: c, s1: 0, e1: 0, s2: 0, e2: 0, has_opt: false })
                } else {
                    None
                },
                None => None,
            }
        },
        Pattern::PhyMode => ex_label_line(s, p, "PHY Mode:"),
        Pattern::Channel => match ex_label_run(s, p, "Channel:", true) {
            Some(c) => match ex_channel_suffix(s, c.e0) {
                Some((g1, g2, m1, m2)) => Some(
                    Captures { s1: g1, e1: g2, s2: m1, e2: m2, has_opt: true, ..c },
                ),
                None => Some(c),
            },
            None => None,
        },
        Pattern::TransmitRate => ex_label_run(s, p, "Transmit Rate:", false),
        Pattern::SignalNoise => {
            let a = match after_lit(s, p, "Signal / Noise:") {
                Some(q) => skip_ws(s, q),
                None => {
                    return None;
                },
            };
            let a1 = skip_sign(s, a);
            let a2 = skip_digits(s, a1);
            if a2 == a1 {
                return None;
            }
            let b = skip_ws(s, a2);
            let c = match after_lit(s, b, "dBm") {
                Some(q) => skip_ws(s, q),
                None => {
                    return None;
                },
            };
            if !char_is(s, c, '/') {
                return None;
            }
            let d = skip_ws(s, c + 1);
            let d1 = skip_sign(s, d);
            let d2 = skip_digits(s, d1);
            if d2 == d1 {
                return None;
            }
            let e = skip_ws(s, d2);
            if lit_here(s, e, "dBm") {
                Some(Captures { s0: a, e0: a2, s1: d, e1: d2, s2: 0, e2: 0, has_opt: false })
            } else {
                None
            }
        },
        Pattern::NeighborChannel => match ex_label_run(s, p, "Channel:", true) {
            Some(c) => match ex_ghz_suffix(s, c.e0) {
                Some((g1, g2)) => Some(Captures { s1: g1, e1: g2, has_opt: true, ..c }),
                None => Some(c),
            },
            None => None,
        },
        Pattern::PacketLoss => {
            let e = skip_num(s, p);
            if e > p && lit_here(s, e, "% packet loss") {
                Some(Captures { s0: p, e0: e, s1: 0, e1: 0, s2: 0, e2: 0, has_opt: false })
            } else {
                None
            }
        },
        Pattern::PingStats => {
            let x0 = match after_lit(s, p, "round-trip min/avg/max/stddev = ") {
                Some(q) => q,
                None => {
                    return None;
                },
            };
            let x1 = skip_num(s, x0);
            if x1 == x0 || !char_is(s, x1, '/') {
                return None;
            }
            let x2 = skip_num(s, x1 + 1);
            if x2 == x1 + 1 || !char_is(s, x2, '/') {
                return None;
            }
            let x3 = skip_num(s, x2 + 1);
            if x3 == x2 + 1 || !char_is(s, x3, '/') {
                return None;
            }
            let x4 = skip_num(s, x3 + 1);
            if x4 == x3 + 1 {
                return None;
            }
            Some(Captures { s0: x1 + 1, e0: x2, s1: x3 + 1, e1: x4, s2: 0, e2: 0, has_opt: false })
        },
        Pattern::NameServer => {
            let d0 = match after_lit(s, p, "nameserver[") {
                Some(q) => q,
                None => {
                    return None;
                },
            };
            let d = skip_digits(s, d0);
            if d == d0 || !char_is(s, d, ']') {
                return None;
            }
            let x = skip_ws(s, d + 1);
            if !char_is(s, x, ':') {
                return None;
            }
            let y = skip_ws(s, x + 1);
            let z = skip_num(s, y);
            if z > y {
                Some(Captures { s0: y, e0: z, s1: 0, e1: 0, s2: 0, e2: 0, has_opt: false })
            } else {
                None
            }
        },
        Pattern::Router => ex_label_run(s, p, "Router:", false),
        Pattern::QueryTime => match ex_label_run(s, p, "Query time:", true) {
            Some(c) => {
                let x = skip_ws(s, c.e0);
                if lit_here(s, x, "msec") {
                    Some(c)
                } else {
                    None
                }
            },
            None => None,
        },
        Pattern::CurrentSsid => ex_label_line(s, p, "Current Wi-Fi Network:"),
    }
}

/// The leftmost match of `pat` in `s` at or after `p`.
pub fn find_pattern(pat: Pattern, s: &[char], p: usize) -> (r: Option<Captures>)
    requires
        p <= s@.len(),
    ensures
        r == find_match(pat, s@, p as int),
        r matches Some(c) ==> captures_ok(pat, s@, c),
{
    let ghost f = |q: int| match_at(pat, s@, q);
    let mut i: usize = p;
    loop
        invariant
            p <= i <= s@.len(),
            f == (|q: int| match_at(pat, s@, q)),
            first_match(s@.len() as int, i as int, f) == first_match(s@.len() as int, p as int, f),
        decreases s@.len() - i,
    {
        let r = pattern_at(pat, s, i);
        if r.is_some() {
            return r;
        }
        if i == s.len() {
            proof {
                assert(first_match(s@.len() as int, i + 1, f) is None);
            }
            return None;
        }
        i = i + 1;
    }
}

} // verus!
