//! Neighbouring networks from the scan listing: the entries under the
//! "Other Local Wi-Fi Networks:" header, each an indented name line followed
//! by deeper-indented property lines.
use vstd::prelude::*;
use crate::interference::{NearbyNetwork, default_freq};
use crate::network::{copy_span, span, span_string};
use crate::num::{Decimal, decimal_of, digits_val, parse_decimal, parse_digits};
use crate::patterns::{Pattern, find_match, find_pattern};
use crate::text::{
    chars_of, find_lit, find_lit_from, is_ws, line_end, skip_to_line_end, trim, trim_bounds, ws,
};

verus! {

broadcast use vstd::string::group_string_axioms;

/// Indentation, in spaces, that every line of the section after its first has.
pub const ENTRY_INDENT: usize = 16;

/// Indentation, in spaces, of an entry's property lines.
pub const PROPERTY_INDENT: usize = 22;

/// Where the line after the one that starts at `ls` starts (the end of `s` at the last line).
pub open spec fn next_line(s: Seq<char>, ls: int) -> int {
    if ls <= line_end(s, ls) < s.len() {
        line_end(s, ls) + 1
    } else {
        s.len() as int
    }
}

/// The line that starts at `ls`, without its line break or a carriage return before it.
pub open spec fn line_text(s: Seq<char>, ls: int) -> Seq<char> {
    let t = s.subrange(ls, line_end(s, ls));
    if t.len() > 0 && t.last() == '\r' {
        t.drop_last()
    } else {
        t
    }
}

pub open spec fn is_blank(t: Seq<char>) -> bool {
    trim(t).len() == 0
}

pub open spec fn indented(t: Seq<char>, n: nat) -> bool {
    t.len() >= n && forall|i: int| 0 <= i < n ==> t[i] == ' '
}

pub open spec fn all_ws(t: Seq<char>, a: int, b: int) -> bool {
    forall|i: int| a <= i < b ==> is_ws(#[trigger] t[i])
}

/// An entry's name line: at least 16 whitespace characters, then a name of
/// no colons, then a colon and nothing but whitespace. The name, trimmed.
pub open spec fn entry_name(t: Seq<char>) -> Option<Seq<char>> {
    match find_lit(t, seq![':'], 0) {
        Some(c) => if c >= ENTRY_INDENT + 1 && all_ws(t, 0, ENTRY_INDENT as int) && all_ws(t, c + 1, t.len() as int) {
            Some(trim(t.subrange(0, c)))
        } else {
            None
        },
        None => None,
    }
}

/// Does this line end an entry's property lines?
pub open spec fn ends_properties(t: Seq<char>) -> bool {
    is_blank(t) || entry_name(t) is Some || !indented(t, PROPERTY_INDENT as nat)
}

/// What a property line says of the channel, when it has "Channel: N": the
/// number (when it fits `u32`) and the frequency in GHz, given or implied by
/// the channel number.
pub open spec fn channel_reading(t: Seq<char>) -> Option<(Option<u32>, Option<Decimal>)> {
    match find_match(Pattern::NeighborChannel, t, 0) {
        None => None,
        Some(c) => {
            let ch = if digits_val(span(t, c.s0, c.e0)) <= u32::MAX {
                Some(digits_val(span(t, c.s0, c.e0)) as u32)
            } else {
                None
            };
            let given = if c.has_opt {
                decimal_of(span(t, c.s1, c.e1))
            } else {
                None
            };
            let f = match given {
                Some(d) => Some(d),
                None => match ch {
                    Some(x) => Some(default_freq(x)),
                    None => None,
                },
            };
            Some((ch, f))
        },
    }
}

/// The property lines from `ls` on: the first channel reading among them, and
/// where they end.
pub open spec fn properties_from(s: Seq<char>, ls: int) -> (Option<(Option<u32>, Option<Decimal>)>, int)
    decreases s.len() - ls,
{
    if ls < 0 || ls >= s.len() || ends_properties(line_text(s, ls)) {
        (None, ls)
    } else {
        let (found, end) = properties_from(s, next_line(s, ls));
        match channel_reading(line_text(s, ls)) {
            Some(x) => (Some(x), end),
            None => (found, end),
        }
    }
}

/// The entries from the line at `ls` on (`first`: it is the section's first
/// line), as name, channel and frequency. An entry without both a channel
/// and a frequency is left out; a non-blank line with less indentation ends
/// the section.
pub open spec fn entries_from(s: Seq<char>, ls: int, first: bool) -> Seq<(Seq<char>, u32, Decimal)>
    decreases s.len() - ls,
{
    if ls < 0 || ls >= s.len() {
        Seq::empty()
    } else {
        let t = line_text(s, ls);
        if is_blank(t) {
            entries_from(s, next_line(s, ls), false)
        } else if !indented(t, ENTRY_INDENT as nat) && !first {
            Seq::empty()
        } else {
            match entry_name(t) {
                Some(name) => {
                    let (found, end) = properties_from(s, next_line(s, ls));
                    let rest = if ls < end <= s.len() {
                        entries_from(s, end, false)
                    } else {
                        Seq::empty()
                    };
                    match found {
                        Some((Some(ch), Some(f))) => seq![(name, ch, f)] + rest,
                        _ => rest,
                    }
                },
                None => entries_from(s, next_line(s, ls), false),
            }
        }
    }
}

pub open spec fn section_header() -> Seq<char> {
    "Other Local Wi-Fi Networks:"@
}

/// The neighbouring networks that the scan listing shows; none without the header.
pub open spec fn nearby_of(s: Seq<char>) -> Seq<(Seq<char>, u32, Decimal)> {
    match find_lit(s, section_header(), 0) {
        Some(h) => entries_from(s, h + section_header().len(), true),
        None => Seq::empty(),
    }
}

pub open spec fn model(v: Seq<NearbyNetwork>) -> Seq<(Seq<char>, u32, Decimal)> {
    v.map_values(|n: NearbyNetwork| (n.ssid@, n.channel, n.frequency_ghz))
}


/// The line that starts at `ls`, and where the next one starts.
fn line_at(s: &[char], ls: usize) -> (r: (Vec<char>, usize))
    requires
        ls < s@.len(),
    ensures
        r.0@ == line_text(s@, ls as int),
        r.1 == next_line(s@, ls as int),
{
    let le = skip_to_line_end(s, ls);
    let mut t = copy_span(s, ls, le);
    if t.len() > 0 && t[t.len() - 1] == '\r' {
        t.pop();
        assert(t@ =~= s@.subrange(ls as int, le as int).drop_last());
    }
    let next = if le < s.len() {
        le + 1
    } else {
        s.len()
    };
    (t, next)
}

fn blank(t: &[char]) -> (r: bool)
    ensures
        r == is_blank(t@),
{
    let (a, b) = trim_bounds(t, 0, t.len());
    assert(t@.subrange(0, t@.len() as int) =~= t@);
    a == b
}

fn indent(t: &[char], n: usize) -> (r: bool)
    ensures
        r == indented(t@, n as nat),
{
    if t.len() < n {
        return false;
    }
    let mut i: usize = 0;
    while i < n
        invariant
            i <= n <= t@.len(),
            forall|j: int| 0 <= j < i ==> t@[j] == ' ',
        decreases n - i,
    {
        if t[i] != ' ' {
            return false;
        }
        i = i + 1;
    }
    true
}

fn ws_between(t: &[char], a: usize, b: usize) -> (r: bool)
    requires
        a <= b <= t@.len(),
    ensures
        r == all_ws(t@, a as int, b as int),
{
    let mut i: usize = a;
    while i < b
        invariant
            a <= i <= b <= t@.len(),
            all_ws(t@, a as int, i as int),
        decreases b - i,
    {
        if !ws(t[i]) {
            return false;
        }
        i = i + 1;
    }
    true
}

fn entry_name_of(t: &[char]) -> (r: Option<String>)
    ensures
        match r {
            Some(x) => entry_name(t@) == Some(x@),
            None => entry_name(t@) is None,
        },
{
    let colon = vec![':'];
    assert(colon@ =~= seq![':']);
    match find_lit_from(t, colon.as_slice(), 0) {
        Some(c) => {
            if c >= ENTRY_INDENT + 1 && ws_between(t, 0, ENTRY_INDENT) && ws_between(t, c + 1, t.len()) {
                let (a, b) = trim_bounds(t, 0, c);
                Some(span_string(t, a, b))
            } else {
                None
            }
        },
        None => None,
    }
}

fn ends_props(t: &[char]) -> (r: bool)
    ensures
        r == ends_properties(t@),
{
    blank(t) || entry_name_of(t).is_some() || !indent(t, PROPERTY_INDENT)
}

fn read_channel(t: &[char]) -> (r: Option<(Option<u32>, Option<Decimal>)>)
    ensures
        r == channel_reading(t@),
{
    let c = match find_pattern(Pattern::NeighborChannel, t, 0) {
        Some(c) => c,
        None => {
            return None;
        },
    };
    let ch: Option<u32> = match parse_digits(t, c.s0, c.e0, 4294967295) {
        Some(v) => Some(v as u32),
        None => None,
    };
    let given = if c.has_opt {
        parse_decimal(t, c.s1, c.e1)
    } else {
        None
    };
    let f = match given {
        Some(d) => Some(d),
        None => match ch {
            Some(x) => Some(
                if x <= 14 {
                    Decimal { mantissa: 24, scale: 1 }
                } else {
                    Decimal { mantissa: 5, scale: 0 }
                },
            ),
            None => None,
        },
    };
    Some((ch, f))
}

proof fn lemma_properties_end(s: Seq<char>, ls: int)
    requires
        0 <= ls <= s.len(),
    ensures
        ls <= properties_from(s, ls).1 <= s.len(),
    decreases s.len() - ls,
{
    if ls < s.len() && !ends_properties(line_text(s, ls)) {
        lemma_properties_end(s, next_line(s, ls));
    }
}

/// The property lines from `ls` on: the first channel reading and where they end.
fn read_properties(s: &[char], ls: usize) -> (r: (Option<(Option<u32>, Option<Decimal>)>, usize))
    requires
        ls <= s@.len(),
    ensures
        (r.0, r.1 as int) == properties_from(s@, ls as int),
{
    let mut found: Option<(Option<u32>, Option<Decimal>)> = None;
    let mut p: usize = ls;
    loop
        invariant
            ls <= p <= s@.len(),
            properties_from(s@, ls as int) == (match found {
                Some(x) => (Some(x), properties_from(s@, p as int).1),
                None => properties_from(s@, p as int),
            }),
        ensures
            properties_from(s@, ls as int) == (found, p as int),
        decreases s@.len() - p,
    {
        if p >= s.len() {
            assert(properties_from(s@, p as int) == (None::<(Option<u32>, Option<Decimal>)>, p as int));
            break;
        }
        let (t, next) = line_at(s, p);
        if ends_props(t.as_slice()) {
            assert(properties_from(s@, p as int) == (None::<(Option<u32>, Option<Decimal>)>, p as int));
            break;
        }
        proof {
            let (f2, e2) = properties_from(s@, next as int);
            assert(properties_from(s@, p as int).1 == e2);
        }
        if found.is_none() {
            found = read_channel(t.as_slice());
        }
        p = next;
    }
    (found, p)
}

/// Reads the neighbouring networks from the scan listing. Never fails: no
/// header gives no networks, and an entry without a channel is left out.
pub fn parse_nearby_networks(output: &str) -> (r: Vec<NearbyNetwork>)
    ensures
        model(r@) == nearby_of(output@),
{
    let s = chars_of(output);
    let s = s.as_slice();
    let mut networks: Vec<NearbyNetwork> = Vec::new();
    let header = chars_of("Other Local Wi-Fi Networks:");
    let b = match find_lit_from(s, header.as_slice(), 0) {
        Some(h) => {
            h + header.len()
        },
        None => {
            assert(model(networks@) =~= Seq::<(Seq<char>, u32, Decimal)>::empty());
            return networks;
        },
    };
    let mut ls: usize = b;
    let mut first = true;
    assert(model(networks@) + entries_from(s@, ls as int, first) =~= entries_from(s@, b as int, true));
    loop
        invariant
            b <= ls <= s@.len(),
            s@ == output@,
            nearby_of(s@) == entries_from(s@, b as int, true),
            model(networks@) + entries_from(s@, ls as int, first) == entries_from(s@, b as int, true),
        ensures
            model(networks@) == entries_from(s@, b as int, true),
        decreases s@.len() - ls,
    {
        if ls >= s.len() {
            assert(model(networks@) + entries_from(s@, ls as int, first) =~= model(networks@));
            break;
        }
        let (t, next) = line_at(s, ls);
        let t = t.as_slice();
        if blank(t) {
            ls = next;
            first = false;
            continue;
        }
        if !indent(t, ENTRY_INDENT) && !first {
            assert(model(networks@) + entries_from(s@, ls as int, first) =~= model(networks@));
            break;
        }
        match entry_name_of(t) {
            Some(name) => {
                let (found, end) = read_properties(s, next);
                proof {
                    lemma_properties_end(s@, next as int);
                }
                match found {
                    Some((Some(ch), Some(f))) => {
                        let ghost before = model(networks@);
                        networks.push(NearbyNetwork { ssid: name, channel: ch, frequency_ghz: f });
                        assert(model(networks@) =~= before.push((name@, ch, f)));
                        assert(model(networks@) + entries_from(s@, end as int, false) =~= before + (
                        seq![(name@, ch, f)] + entries_from(s@, end as int, false)));
                    },
                    _ => {},
                }
                ls = end;
                first = false;
            },
            None => {
                ls = next;
                first = false;
            },
        }
    }
    networks
}

} // verus!
