//! Link state: the current network, its radio generation, channel, signal
//! and noise, and link rate, read from the adapter-status listing.
use vstd::prelude::*;
use crate::network::{copy_span, span, span_string};
use crate::num::{Decimal, all_digits, dec_digits, decimal_of, digits_val, i32_of, parse_decimal, parse_digits, parse_i32, push_digits};
use crate::patterns::{Captures, Pattern, channel_suffix, find_match, find_pattern, match_at};
use crate::text::{
    chars_of, contains_lit, has_lit, is_digit, is_ws, lemma_digit_end_at, lemma_ws_end_at, lit_at, string_of,
    trim, trim_bounds,
};

verus! {

broadcast use vstd::string::group_string_axioms;

/// The radio generation, from the PHY mode.
#[derive(Debug, Clone, PartialEq, Eq)]
pub enum FrequencyBand {
    WiFi4,
    WiFi5,
    WiFi6,
    /// A PHY mode of no known generation, as reported.
    Other(String),
}

/// The state of the wireless link.
#[derive(Debug, Clone, PartialEq)]
pub struct WifiInfo {
    pub connected: bool,
    pub ssid: Option<String>,
    pub frequency_band: Option<FrequencyBand>,
    pub channel: Option<String>,
    pub link_rate_mbps: Option<Decimal>,
    pub signal_dbm: Option<i32>,
    pub noise_dbm: Option<i32>,
}

pub open spec fn opt_view(o: Option<String>) -> Option<Seq<char>> {
    match o {
        Some(x) => Some(x@),
        None => None,
    }
}

impl WifiInfo {
    /// Nothing known: not connected, every field absent.
    pub open spec fn is_empty(&self) -> bool {
        &&& !self.connected
        &&& self.ssid is None
        &&& self.frequency_band is None
        &&& self.channel is None
        &&& self.link_rate_mbps is None
        &&& self.signal_dbm is None
        &&& self.noise_dbm is None
    }
}

impl Default for WifiInfo {
    fn default() -> (r: Self)
        ensures
            r.is_empty(),
    {
        WifiInfo {
            connected: false,
            ssid: None,
            frequency_band: None,
            channel: None,
            link_rate_mbps: None,
            signal_dbm: None,
            noise_dbm: None,
        }
    }
}

impl FrequencyBand {
    pub open spec fn label_spec(&self) -> Seq<char> {
        match self {
            FrequencyBand::WiFi4 => "Wi-Fi 4"@,
            FrequencyBand::WiFi5 => "Wi-Fi 5"@,
            FrequencyBand::WiFi6 => "Wi-Fi 6"@,
            FrequencyBand::Other(s) => s@,
        }
    }

    /// The generation as a person reads it ("Wi-Fi 6"), or the PHY mode as reported.
    pub fn label(&self) -> (r: String)
        ensures
            r@ == self.label_spec(),
    {
        match self {
            FrequencyBand::WiFi4 => String::from_str("Wi-Fi 4"),
            FrequencyBand::WiFi5 => String::from_str("Wi-Fi 5"),
            FrequencyBand::WiFi6 => String::from_str("Wi-Fi 6"),
            FrequencyBand::Other(s) => s.clone(),
        }
    }
}

/// The generation that a PHY mode names: the first of "802.11ax"/"Wi-Fi 6",
/// "802.11ac"/"Wi-Fi 5", "802.11n" that it contains, else the mode itself.
pub open spec fn band_is(b: FrequencyBand, phy: Seq<char>) -> bool {
    let six = contains_lit(phy, "802.11ax"@) || contains_lit(phy, "Wi-Fi 6"@);
    let five = contains_lit(phy, "802.11ac"@) || contains_lit(phy, "Wi-Fi 5"@);
    let four = contains_lit(phy, "802.11n"@);
    match b {
        FrequencyBand::WiFi6 => six,
        FrequencyBand::WiFi5 => !six && five,
        FrequencyBand::WiFi4 => !six && !five && four,
        FrequencyBand::Other(x) => !six && !five && !four && x@ == phy,
    }
}

/// Classifies a PHY mode by the generation it names.
pub fn classify_phy_mode(phy: &[char]) -> (r: FrequencyBand)
    ensures
        band_is(r, phy@),
{
    if has_lit(phy, "802.11ax") || has_lit(phy, "Wi-Fi 6") {
        FrequencyBand::WiFi6
    } else if has_lit(phy, "802.11ac") || has_lit(phy, "Wi-Fi 5") {
        FrequencyBand::WiFi5
    } else if has_lit(phy, "802.11n") {
        FrequencyBand::WiFi4
    } else {
        FrequencyBand::Other(string_of(phy))
    }
}

/// The canonical descriptor "ch N, G GHz, M MHz", or "ch N, 2.4 GHz" /
/// "ch N, 5 GHz" by the channel number when the listing gives no band.
pub open spec fn descriptor_of(s: Seq<char>, c: Captures) -> Seq<char> {
    let n = digits_val(span(s, c.s0, c.e0));
    if c.has_opt {
        "ch "@ + dec_digits(n) + ", "@ + span(s, c.s1, c.e1) + " GHz, "@ + span(s, c.s2, c.e2) + " MHz"@
    } else if n <= 14 {
        "ch "@ + dec_digits(n) + ", 2.4 GHz"@
    } else {
        "ch "@ + dec_digits(n) + ", 5 GHz"@
    }
}

/// The descriptor of a channel line, absent when its number exceeds `i32`.
pub open spec fn channel_of(s: Seq<char>, c: Captures) -> Option<Seq<char>> {
    if digits_val(span(s, c.s0, c.e0)) <= i32::MAX {
        Some(descriptor_of(s, c))
    } else {
        None
    }
}

/// The section of the current network: the header's match, when there is one.
pub open spec fn current_section(s: Seq<char>) -> Option<Captures> {
    find_match(Pattern::CurrentNetwork, s, 0)
}

/// What the adapter-status listing says of the current network. Nothing is
/// read without the "Current Network Information:" header; with it, the
/// network's name comes from the line after the header, and each other field
/// from the first line after the name that has it.
pub open spec fn wifi_info_matches(r: WifiInfo, s: Seq<char>) -> bool {
    match current_section(s) {
        None => r.is_empty(),
        Some(h) => {
            let b = h.e0 as int;
            &&& r.connected
            &&& opt_view(r.ssid) == Some(trim(span(s, h.s0, h.e0)))
            &&& match find_match(Pattern::PhyMode, s, b) {
                Some(c) => r.frequency_band matches Some(band) && band_is(band, trim(span(s, c.s0, c.e0))),
                None => r.frequency_band is None,
            }
            &&& opt_view(r.channel) == match find_match(Pattern::Channel, s, b) {
                Some(c) => channel_of(s, c),
                None => None,
            }
            &&& r.link_rate_mbps == match find_match(Pattern::TransmitRate, s, b) {
                Some(c) => decimal_of(span(s, c.s0, c.e0)),
                None => None,
            }
            &&& r.signal_dbm == match find_match(Pattern::SignalNoise, s, b) {
                Some(c) => i32_of(span(s, c.s0, c.e0)),
                None => None,
            }
            &&& r.noise_dbm == match find_match(Pattern::SignalNoise, s, b) {
                Some(c) => i32_of(span(s, c.s1, c.e1)),
                None => None,
            }
        },
    }
}

fn channel_descriptor(s: &[char], c: Captures) -> (r: Option<String>)
    requires
        c.s0 <= c.e0 <= s@.len(),
        all_digits(s@.subrange(c.s0 as int, c.e0 as int)),
        c.has_opt ==> c.s1 <= c.e1 <= s@.len() && c.s2 <= c.e2 <= s@.len(),
    ensures
        opt_view(r) == channel_of(s@, c),
{
    let n: u64 = match parse_digits(s, c.s0, c.e0, 2147483647) {
        Some(v) => v,
        None => {
            return None;
        },
    };
    let mut digits: Vec<char> = Vec::new();
    push_digits(&mut digits, n);
    let mut r = String::from_str("ch ");
    r.append(string_of(digits.as_slice()).as_str());
    if c.has_opt {
        r.append(", ");
        r.append(span_string(s, c.s1, c.e1).as_str());
        r.append(" GHz, ");
        r.append(span_string(s, c.s2, c.e2).as_str());
        r.append(" MHz");
    } else if n <= 14 {
        r.append(", 2.4 GHz");
    } else {
        r.append(", 5 GHz");
    }
    Some(r)
}

/// Reads the link state from the adapter-status listing. Never fails: what
/// is not found stays absent, and without the current network's header the
/// result is the empty, disconnected state.
pub fn parse_wifi_info(output: &str) -> (r: WifiInfo)
    ensures
        wifi_info_matches(r, output@),
{
    let s = chars_of(output);
    let s = s.as_slice();
    let mut info = WifiInfo::default();
    let h = match find_pattern(Pattern::CurrentNetwork, s, 0) {
        Some(h) => h,
        None => {
            return info;
        },
    };
    let (a, z) = trim_bounds(s, h.s0, h.e0);
    info.connected = true;
    info.ssid = Some(span_string(s, a, z));
    let b = h.e0;

    match find_pattern(Pattern::PhyMode, s, b) {
        Some(c) => {
            let (a, z) = trim_bounds(s, c.s0, c.e0);
            let v = copy_span(s, a, z);
            info.frequency_band = Some(classify_phy_mode(v.as_slice()));
        },
        None => {},
    }
    match find_pattern(Pattern::Channel, s, b) {
        Some(c) => {
            info.channel = channel_descriptor(s, c);
        },
        None => {},
    }
    match find_pattern(Pattern::TransmitRate, s, b) {
        Some(c) => {
            info.link_rate_mbps = parse_decimal(s, c.s0, c.e0);
        },
        None => {},
    }
    match find_pattern(Pattern::SignalNoise, s, b) {
        Some(c) => {
            info.signal_dbm = parse_i32(s, c.s0, c.e0);
            info.noise_dbm = parse_i32(s, c.s1, c.e1);
        },
        None => {},
    }
    info
}


/// What the network service reports when no network is joined.
pub open spec fn not_associated() -> Seq<char> {
    "You are not associated with an AirPort network."@
}

/// The current network's name in the output of the lighter query, from
/// "Current Wi-Fi Network: <name>": absent when the name is empty or says
/// that no network is joined.
pub open spec fn current_ssid_of(s: Seq<char>) -> Option<Seq<char>> {
    match find_match(Pattern::CurrentSsid, s, 0) {
        Some(c) => {
            let name = trim(span(s, c.s0, c.e0));
            if name.len() == 0 || name == not_associated() {
                None
            } else {
                Some(name)
            }
        },
        None => None,
    }
}

/// Reads the current network's name from the network service's answer.
pub fn parse_current_ssid(output: &str) -> (r: Option<String>)
    ensures
        opt_view(r) == current_ssid_of(output@),
{
    let s = chars_of(output);
    let s = s.as_slice();
    match find_pattern(Pattern::CurrentSsid, s, 0) {
        Some(c) => {
            let (a, z) = trim_bounds(s, c.s0, c.e0);
            let name = span_string(s, a, z);
            let sentinel = String::from_str("You are not associated with an AirPort network.");
            if a == z || name == sentinel {
                None
            } else {
                Some(name)
            }
        },
        None => None,
    }
}

/// Reconciles the two sources of the network's name: the name from the
/// lighter query wins; without it, the listing's name stands. Connected
/// exactly when a name results; the other fields are the listing's.
pub fn merge_wifi_info(current_ssid: Option<String>, listing: WifiInfo) -> (r: WifiInfo)
    ensures
        opt_view(r.ssid) == match current_ssid {
            Some(x) => Some(x@),
            None => opt_view(listing.ssid),
        },
        r.connected == (r.ssid is Some),
        r.frequency_band == listing.frequency_band,
        r.channel == listing.channel,
        r.link_rate_mbps == listing.link_rate_mbps,
        r.signal_dbm == listing.signal_dbm,
        r.noise_dbm == listing.noise_dbm,
{
    let mut info = listing;
    match current_ssid {
        Some(x) => {
            info.ssid = Some(x);
        },
        None => {},
    }
    info.connected = info.ssid.is_some();
    info
}


pub open spec fn all_ws_seq(w: Seq<char>) -> bool {
    forall|i: int| 0 <= i < w.len() ==> is_ws(#[trigger] w[i])
}

pub open spec fn all_digit_seq(d: Seq<char>) -> bool {
    forall|i: int| 0 <= i < d.len() ==> is_digit(#[trigger] d[i])
}

/// A channel line "Channel:" w1 N w2 "(" G w3 "GHz," w4 M w5 "MHz)", whatever
/// runs of whitespace w1 to w5 hold, with G written as "D" or "D.D".
pub open spec fn channel_line(
    w1: Seq<char>,
    n: Seq<char>,
    w2: Seq<char>,
    g: Seq<char>,
    w3: Seq<char>,
    w4: Seq<char>,
    m: Seq<char>,
    w5: Seq<char>,
) -> Seq<char> {
    "Channel:"@ + w1 + n + w2 + seq!['('] + g + w3 + "GHz,"@ + w4 + m + w5 + "MHz)"@
}

/// The characters of a channel line, position by position.
spec fn channel_line_at(
    w1: Seq<char>,
    n: Seq<char>,
    w2: Seq<char>,
    g: Seq<char>,
    w3: Seq<char>,
    w4: Seq<char>,
    m: Seq<char>,
    w5: Seq<char>,
    k: int,
) -> char {
    let q = 8 + w1.len();
    let e = q + n.len();
    let a = e + w2.len();
    let g2 = a + 1 + g.len();
    let x = g2 + w3.len();
    let m1 = x + 4 + w4.len();
    let m2 = m1 + m.len();
    let y = m2 + w5.len();
    if k < 8 {
        "Channel:"@[k]
    } else if k < q {
        w1[k - 8]
    } else if k < e {
        n[k - q]
    } else if k < a {
        w2[k - e]
    } else if k == a {
        '('
    } else if k < g2 {
        g[k - a - 1]
    } else if k < x {
        w3[k - g2]
    } else if k < x + 4 {
        "GHz,"@[k - x]
    } else if k < m1 {
        w4[k - x - 4]
    } else if k < m2 {
        m[k - m1]
    } else if k < y {
        w5[k - m2]
    } else {
        "MHz)"@[k - y]
    }
}

proof fn lemma_channel_line_flat(
    w1: Seq<char>,
    n: Seq<char>,
    w2: Seq<char>,
    g: Seq<char>,
    w3: Seq<char>,
    w4: Seq<char>,
    m: Seq<char>,
    w5: Seq<char>,
)
    ensures
        channel_line(w1, n, w2, g, w3, w4, m, w5) =~= Seq::new(
            8 + w1.len() + n.len() + w2.len() + 1 + g.len() + w3.len() + 4 + w4.len() + m.len() + w5.len()
                + 4,
            |k: int| channel_line_at(w1, n, w2, g, w3, w4, m, w5, k),
        ),
{
    reveal_strlit("Channel:");
    reveal_strlit("GHz,");
    reveal_strlit("MHz)");
}

/// Reading a channel line and writing its descriptor gives the canonical
/// "ch N, G GHz, M MHz" whatever the spacing of the line: the channel
/// pattern matches at its start with both the GHz and the MHz part, and the
/// descriptor holds the channel number, G and M, and nothing of the spacing.
#[verifier::rlimit(100)]
pub proof fn lemma_channel_descriptor_canonical(
    w1: Seq<char>,
    n: Seq<char>,
    w2: Seq<char>,
    g_int: Seq<char>,
    g_frac: Seq<char>,
    w3: Seq<char>,
    w4: Seq<char>,
    m: Seq<char>,
    w5: Seq<char>,
)
    requires
        all_ws_seq(w1) && all_ws_seq(w2) && all_ws_seq(w3) && all_ws_seq(w4) && all_ws_seq(w5),
        n.len() > 0 && all_digit_seq(n),
        digits_val(n) <= i32::MAX,
        g_int.len() > 0 && all_digit_seq(g_int) && all_digit_seq(g_frac),
        m.len() > 0 && all_digit_seq(m),
        8 + w1.len() + n.len() + w2.len() + 1 + g_int.len() + 1 + g_frac.len() + w3.len() + 4 + w4.len()
            + m.len() + w5.len() + 4 <= usize::MAX,
    ensures
        ({
            let g = if g_frac.len() == 0 {
                g_int
            } else {
                g_int + seq!['.'] + g_frac
            };
            let t = channel_line(w1, n, w2, g, w3, w4, m, w5);
            &&& match_at(Pattern::Channel, t, 0) matches Some(c)
            &&& c.has_opt
            &&& find_match(Pattern::Channel, t, 0) == Some(c)
            &&& channel_of(t, c) == Some("ch "@ + dec_digits(digits_val(n)) + ", "@ + g + " GHz, "@ + m
                + " MHz"@)
        }),
{
    let g = if g_frac.len() == 0 {
        g_int
    } else {
        g_int + seq!['.'] + g_frac
    };
    let t = channel_line(w1, n, w2, g, w3, w4, m, w5);
    lemma_channel_line_flat(w1, n, w2, g, w3, w4, m, w5);
    let lbl = "Channel:"@;
    let ghz = "GHz,"@;
    let mhz = "MHz)"@;
    assert(lbl.len() == 8) by {
        reveal_strlit("Channel:");
    }
    assert(ghz.len() == 4 && ghz[0] == 'G') by {
        reveal_strlit("GHz,");
    }
    assert(mhz.len() == 4 && mhz[0] == 'M') by {
        reveal_strlit("MHz)");
    }
    let q: int = 8 + w1.len() as int;
    let e: int = q + n.len();
    let a: int = e + w2.len();
    let g1: int = a + 1;
    let g1e: int = g1 + g_int.len();
    let g2: int = g1 + g.len();
    let x: int = g2 + w3.len();
    let m1: int = x + 4 + w4.len();
    let m2: int = m1 + m.len();
    let y: int = m2 + w5.len();
    assert(t.len() == y + 4);
    assert forall|k: int| 8 <= k < q implies is_ws(#[trigger] t[k]) by {
        assert(t[k] == w1[k - 8]);
    }
    assert forall|k: int| q <= k < e implies is_digit(#[trigger] t[k]) by {
        assert(t[k] == n[k - q]);
    }
    assert forall|k: int| e <= k < a implies is_ws(#[trigger] t[k]) by {
        assert(t[k] == w2[k - e]);
    }
    assert(t[a] == '(');
    assert forall|k: int| g1 <= k < g1e implies is_digit(#[trigger] t[k]) by {
        assert(t[k] == g[k - g1]);
        assert(g[k - g1] == g_int[k - g1]);
    }
    assert forall|k: int| g2 <= k < x implies is_ws(#[trigger] t[k]) by {
        assert(t[k] == w3[k - g2]);
    }
    assert forall|k: int| x + 4 <= k < m1 implies is_ws(#[trigger] t[k]) by {
        assert(t[k] == w4[k - x - 4]);
    }
    assert forall|k: int| m1 <= k < m2 implies is_digit(#[trigger] t[k]) by {
        assert(t[k] == m[k - m1]);
    }
    assert forall|k: int| m2 <= k < y implies is_ws(#[trigger] t[k]) by {
        assert(t[k] == w5[k - m2]);
    }
    assert(t.subrange(0, 8) =~= lbl);
    assert(t.subrange(x, x + 4) =~= ghz);
    assert(t.subrange(y, y + 4) =~= mhz);
    assert(t[x] == 'G');
    assert(t[y] == 'M');
    lemma_ws_end_at(t, 8, q);
    lemma_digit_end_at(t, q, e);
    lemma_ws_end_at(t, e, a);
    if g_frac.len() == 0 {
        lemma_digit_end_at(t, g1, g1e);
        lemma_ws_end_at(t, g2, x);
    } else {
        assert(t[g1e] == '.');
        assert(t[g1e + 1] == g_frac[0]);
        assert forall|k: int| g1e + 1 <= k < g2 implies is_digit(#[trigger] t[k]) by {
            assert(t[k] == g_frac[k - g1e - 1]);
        }
        lemma_digit_end_at(t, g1, g1e);
        lemma_digit_end_at(t, g1e + 1, g2);
        lemma_ws_end_at(t, g2, x);
    }
    lemma_ws_end_at(t, x + 4, m1);
    lemma_digit_end_at(t, m1, m2);
    lemma_ws_end_at(t, m2, y);
    assert(lit_at(t, 0, lbl));
    assert(lit_at(t, x, ghz));
    assert(lit_at(t, y, mhz));
    assert(channel_suffix(t, e) == Some((g1, g2, m1, m2)));
    let c = match_at(Pattern::Channel, t, 0)->0;
    assert(span(t, c.s0, c.e0) =~= n);
    assert(span(t, c.s1, c.e1) =~= g);
    assert(span(t, c.s2, c.e2) =~= m);
}

} // verus!
