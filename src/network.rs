//! Path quality: round-trip statistics from ping output, resolver addresses
//! and lookup time from DNS tools, and the router address.
use vstd::prelude::*;
use crate::num::{Decimal, decimal_of, parse_decimal};
use crate::patterns::{Pattern, find_match, find_pattern};
use crate::text::{chars_of, string_of};
use crate::wifi::WifiInfo;

verus! {

/// Latency, jitter and loss of a ping run; all absent is a valid "unknown".
#[derive(Debug, Clone, Copy, PartialEq, Eq, Structural)]
pub struct PingResult {
    pub latency_ms: Option<Decimal>,
    pub jitter_ms: Option<Decimal>,
    pub packet_loss_percent: Option<Decimal>,
}

/// Resolver addresses, first seen first, and the lookup time against the first.
#[derive(Debug, Clone, PartialEq)]
pub struct DnsInfo {
    pub servers: Vec<String>,
    pub lookup_latency_ms: Option<Decimal>,
}

/// A snapshot of the link and of the paths to the router, the internet and
/// the resolvers.
#[derive(Debug, Clone, PartialEq)]
pub struct NetworkMetrics {
    pub wifi: WifiInfo,
    pub router_ip: Option<String>,
    pub router_ping: Option<PingResult>,
    pub internet_ping: Option<PingResult>,
    pub dns: DnsInfo,
}

impl Default for PingResult {
    fn default() -> (r: Self)
        ensures
            r.latency_ms is None,
            r.jitter_ms is None,
            r.packet_loss_percent is None,
    {
        PingResult { latency_ms: None, jitter_ms: None, packet_loss_percent: None }
    }
}

impl Default for DnsInfo {
    fn default() -> (r: Self)
        ensures
            r.servers@.len() == 0,
            r.lookup_latency_ms is None,
    {
        DnsInfo { servers: Vec::new(), lookup_latency_ms: None }
    }
}

/// The text of a span of `s`.
pub open spec fn span(s: Seq<char>, a: usize, b: usize) -> Seq<char> {
    s.subrange(a as int, b as int)
}

/// The number that the first capture of the leftmost match of `pat` spells.
pub open spec fn first_decimal(pat: Pattern, s: Seq<char>) -> Option<Decimal> {
    match find_match(pat, s, 0) {
        Some(c) => decimal_of(span(s, c.s0, c.e0)),
        None => None,
    }
}

/// What a ping run's output says: loss from "<n>% packet loss", average and
/// standard deviation from the "min/avg/max/stddev" line.
pub open spec fn ping_of(s: Seq<char>) -> PingResult {
    let stats = find_match(Pattern::PingStats, s, 0);
    PingResult {
        latency_ms: match stats {
            Some(c) => decimal_of(span(s, c.s0, c.e0)),
            None => None,
        },
        jitter_ms: match stats {
            Some(c) => decimal_of(span(s, c.s1, c.e1)),
            None => None,
        },
        packet_loss_percent: first_decimal(Pattern::PacketLoss, s),
    }
}

/// Reads the statistics of a ping run from its output.
pub fn parse_ping_output(output: &str) -> (r: PingResult)
    ensures
        r == ping_of(output@),
{
    let s = chars_of(output);
    let mut result = PingResult::default();
    match find_pattern(Pattern::PacketLoss, s.as_slice(), 0) {
        Some(c) => {
            result.packet_loss_percent = parse_decimal(s.as_slice(), c.s0, c.e0);
        },
        None => {},
    }
    match find_pattern(Pattern::PingStats, s.as_slice(), 0) {
        Some(c) => {
            result.latency_ms = parse_decimal(s.as_slice(), c.s0, c.e0);
            result.jitter_ms = parse_decimal(s.as_slice(), c.s1, c.e1);
        },
        None => {},
    }
    result
}

/// Reads the lookup time in milliseconds from "Query time: <n> msec".
pub fn parse_query_time(output: &str) -> (r: Option<Decimal>)
    ensures
        r == first_decimal(Pattern::QueryTime, output@),
{
    let s = chars_of(output);
    match find_pattern(Pattern::QueryTime, s.as_slice(), 0) {
        Some(c) => parse_decimal(s.as_slice(), c.s0, c.e0),
        None => None,
    }
}

/// The router address from "Router: <address>".
pub open spec fn router_of(s: Seq<char>) -> Option<Seq<char>> {
    match find_match(Pattern::Router, s, 0) {
        Some(c) => Some(span(s, c.s0, c.e0)),
        None => None,
    }
}

pub fn copy_span(s: &[char], a: usize, b: usize) -> (r: Vec<char>)
    requires
        a <= b <= s@.len(),
    ensures
        r@ == s@.subrange(a as int, b as int),
{
    let mut v: Vec<char> = Vec::new();
    let mut i: usize = a;
    while i < b
        invariant
            a <= i <= b <= s@.len(),
            v@ == s@.subrange(a as int, i as int),
        decreases b - i,
    {
        v.push(s[i]);
        i = i + 1;
        assert(v@ =~= s@.subrange(a as int, i as int));
    }
    v
}

/// The text of `s[a..b]`.
pub fn span_string(s: &[char], a: usize, b: usize) -> (r: String)
    requires
        a <= b <= s@.len(),
    ensures
        r@ == s@.subrange(a as int, b as int),
{
    let v = copy_span(s, a, b);
    string_of(v.as_slice())
}

/// Reads the router address from network-service information.
pub fn parse_router_ip(output: &str) -> (r: Option<String>)
    ensures
        match r {
            Some(x) => router_of(output@) == Some(x@),
            None => router_of(output@) is None,
        },
{
    let s = chars_of(output);
    match find_pattern(Pattern::Router, s.as_slice(), 0) {
        Some(c) => Some(span_string(s.as_slice(), c.s0, c.e0)),
        None => None,
    }
}


/// Every resolver address in `s` from position `p` on, in order, repeats
/// included: each match of "nameserver[<n>] : <address>" starts the search
/// for the next after its end.
pub open spec fn nameservers_from(s: Seq<char>, p: int) -> Seq<Seq<char>>
    decreases s.len() + 1 - p,
{
    match find_match(Pattern::NameServer, s, p) {
        Some(c) => if p < c.e0 as int <= s.len() {
            seq![span(s, c.s0, c.e0)] + nameservers_from(s, c.e0 as int)
        } else {
            Seq::empty()
        },
        None => Seq::empty(),
    }
}

/// `xs` with every repeat of an earlier item left out.
pub open spec fn dedup(xs: Seq<Seq<char>>) -> Seq<Seq<char>>
    decreases xs.len(),
{
    if xs.len() == 0 {
        Seq::empty()
    } else {
        let d = dedup(xs.drop_last());
        if d.contains(xs.last()) {
            d
        } else {
            d.push(xs.last())
        }
    }
}

pub open spec fn dns_servers_of(s: Seq<char>) -> Seq<Seq<char>> {
    dedup(nameservers_from(s, 0))
}

pub open spec fn views(v: Seq<String>) -> Seq<Seq<char>> {
    v.map_values(|x: String| x@)
}

/// Reads the resolver addresses from a resolver-configuration listing, first
/// seen first, each once.
pub fn parse_dns_servers(output: &str) -> (r: Vec<String>)
    ensures
        views(r@) == dns_servers_of(output@),
{
    let s = chars_of(output);
    let mut servers: Vec<String> = Vec::new();
    let mut pos: usize = 0;
    let ghost mut found: Seq<Seq<char>> = Seq::empty();
    assert(views(servers@) =~= dedup(found));
    assert(found + nameservers_from(s@, 0) =~= nameservers_from(s@, 0));
    loop
        invariant
            pos <= s@.len(),
            s@ == output@,
            views(servers@) == dedup(found),
            found + nameservers_from(s@, pos as int) == nameservers_from(s@, 0),
        ensures
            views(servers@) == dedup(nameservers_from(s@, 0)),
        decreases s@.len() - pos,
    {
        let c = match find_pattern(Pattern::NameServer, s.as_slice(), pos) {
            Some(c) => c,
            None => {
                assert(found =~= nameservers_from(s@, 0));
                break;
            },
        };
        if c.e0 <= pos || c.e0 > s.len() {
            assert(found =~= nameservers_from(s@, 0));
            break;
        }
        let server = span_string(s.as_slice(), c.s0, c.e0);
        let ghost t = span(s@, c.s0, c.e0);
        let mut seen = false;
        let mut j: usize = 0;
        while j < servers.len()
            invariant
                j <= servers@.len(),
                server@ == t,
                seen == (exists|k: int| 0 <= k < j && #[trigger] servers@[k]@ == t),
            decreases servers.len() - j,
        {
            if servers[j] == server {
                seen = true;
            }
            j = j + 1;
        }
        proof {
            let d = dedup(found);
            assert(d.contains(t) <==> seen) by {
                if seen {
                    let k = choose|k: int| 0 <= k < servers@.len() && #[trigger] servers@[k]@ == t;
                    assert(views(servers@)[k] == t);
                }
                if d.contains(t) {
                    let k = choose|k: int| 0 <= k < d.len() && d[k] == t;
                    assert(servers@[k]@ == views(servers@)[k]);
                }
            }
            let found2 = found.push(t);
            assert(found2.drop_last() =~= found);
            assert(found2 + nameservers_from(s@, c.e0 as int) =~= found + nameservers_from(s@, pos as int));
            found = found2;
        }
        if !seen {
            servers.push(server);
            proof {
                assert(views(servers@) =~= dedup(found));
            }
        }
        pos = c.e0;
    }
    servers
}

/// The result of dropping repeats holds each item once.
pub open spec fn no_repeats(xs: Seq<Seq<char>>) -> bool {
    forall|i: int, j: int| 0 <= i < j < xs.len() ==> xs[i] != xs[j]
}

/// Leaving out repeats keeps every address exactly once and keeps the order
/// in which addresses were first seen: the result for a prefix of the input
/// is a prefix of the result for the whole.
pub proof fn lemma_dedup_first_seen_order(xs: Seq<Seq<char>>, k: int)
    requires
        0 <= k <= xs.len(),
    ensures
        no_repeats(dedup(xs)),
        forall|x: Seq<char>|
            #![trigger xs.contains(x)]
            #![trigger dedup(xs).contains(x)]
            xs.contains(x) <==> dedup(xs).contains(x),
        dedup(xs.take(k)).len() <= dedup(xs).len(),
        dedup(xs.take(k)) == dedup(xs).take(dedup(xs.take(k)).len() as int),
    decreases xs.len(),
{
    if xs.len() == 0 {
        assert(xs.take(k) =~= xs);
    } else {
        let ys = xs.drop_last();
        if k < xs.len() {
            assert(ys.take(k) =~= xs.take(k));
            lemma_dedup_first_seen_order(ys, k);
        } else {
            assert(xs.take(k) =~= xs);
            lemma_dedup_first_seen_order(ys, 0);
        }
        let d = dedup(ys);
        assert forall|x: Seq<char>| xs.contains(x) <==> dedup(xs).contains(x) by {
            if xs.contains(x) {
                let i = choose|i: int| 0 <= i < xs.len() && xs[i] == x;
                if i < ys.len() {
                    assert(ys[i] == x);
                    assert(ys.contains(x));
                    assert(d.contains(x));
                    let j = choose|j: int| 0 <= j < d.len() && d[j] == x;
                    assert(dedup(xs)[j] == x);
                } else if !d.contains(x) {
                    assert(dedup(xs)[d.len() as int] == x);
                } else {
                    let j = choose|j: int| 0 <= j < d.len() && d[j] == x;
                    assert(dedup(xs)[j] == x);
                }
            }
            if dedup(xs).contains(x) {
                let i = choose|i: int| 0 <= i < dedup(xs).len() && dedup(xs)[i] == x;
                if i < d.len() {
                    assert(d[i] == x);
                    assert(d.contains(x));
                    let m = choose|m: int| 0 <= m < ys.len() && ys[m] == x;
                    assert(xs[m] == x);
                } else {
                    assert(xs[xs.len() - 1] == x);
                }
            }
        }
        if k < xs.len() {
            assert(d.take(dedup(ys.take(k)).len() as int) =~= dedup(xs).take(dedup(ys.take(k)).len() as int));
        } else {
            assert(dedup(xs).take(dedup(xs).len() as int) =~= dedup(xs));
        }
    }
}

} // verus!
