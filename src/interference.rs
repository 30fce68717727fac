//! Interference analysis: signal-to-noise classification, channel congestion
//! among neighbouring networks, an overall verdict, and suggestions.
use vstd::prelude::*;
use crate::network::{span, views};
use crate::num::{Decimal, dec_digits, decimal_of, digits_val, parse_decimal, parse_digits, push_digits};
use crate::patterns::{Pattern, find_match, find_pattern};
use crate::text::{chars_of, string_of};
use crate::wifi::WifiInfo;

verus! {

/// A neighbouring network seen in a scan.
#[derive(Debug, Clone, PartialEq)]
pub struct NearbyNetwork {
    pub ssid: String,
    pub channel: u32,
    pub frequency_ghz: Decimal,
}

/// Quality of the signal-to-noise ratio.
#[derive(Debug, Clone, Copy, PartialEq, Eq, Structural)]
pub enum SnrQuality {
    Excellent,
    Good,
    Fair,
    Poor,
    VeryPoor,
    Unknown,
}

/// Overall interference verdict.
#[derive(Debug, Clone, Copy, PartialEq, Eq, Structural)]
pub enum InterferenceLevel {
    Low,
    Moderate,
    High,
    Severe,
}

/// The result of an interference analysis.
#[derive(Debug, Clone, PartialEq)]
pub struct InterferenceAnalysis {
    pub snr_db: Option<i64>,
    pub snr_quality: SnrQuality,
    pub current_channel: Option<u32>,
    pub current_frequency_ghz: Option<Decimal>,
    pub same_channel_count: u32,
    pub overlapping_count: u32,
    pub nearby_networks: Vec<NearbyNetwork>,
    pub interference_level: InterferenceLevel,
    pub suggestions: Vec<String>,
}

/// Largest channel-number distance at which two 2.4 GHz channels still overlap, plus one.
pub const OVERLAP_CHANNELS_24GHZ: u32 = 5;

/// Largest centre-frequency distance in MHz at which two 5 GHz channels still overlap, plus one.
pub const OVERLAP_MHZ_5GHZ: u64 = 40;

pub open spec fn snr_quality_of(snr: Option<i64>) -> SnrQuality {
    match snr {
        Some(s) => if s >= 40 {
            SnrQuality::Excellent
        } else if s >= 25 {
            SnrQuality::Good
        } else if s >= 15 {
            SnrQuality::Fair
        } else if s >= 10 {
            SnrQuality::Poor
        } else {
            SnrQuality::VeryPoor
        },
        None => SnrQuality::Unknown,
    }
}

impl SnrQuality {
    pub open spec fn label_spec(self) -> Seq<char> {
        match self {
            SnrQuality::Excellent => "Excellent"@,
            SnrQuality::Good => "Good"@,
            SnrQuality::Fair => "Fair"@,
            SnrQuality::Poor => "Poor"@,
            SnrQuality::VeryPoor => "Very Poor"@,
            SnrQuality::Unknown => "Unknown"@,
        }
    }

    /// The quality as a person reads it ("Very Poor").
    pub fn label(&self) -> (r: String)
        ensures
            r@ == self.label_spec(),
    {
        match self {
            SnrQuality::Excellent => String::from_str("Excellent"),
            SnrQuality::Good => String::from_str("Good"),
            SnrQuality::Fair => String::from_str("Fair"),
            SnrQuality::Poor => String::from_str("Poor"),
            SnrQuality::VeryPoor => String::from_str("Very Poor"),
            SnrQuality::Unknown => String::from_str("Unknown"),
        }
    }
}

impl InterferenceLevel {
    pub open spec fn label_spec(self) -> Seq<char> {
        match self {
            InterferenceLevel::Low => "Low"@,
            InterferenceLevel::Moderate => "Moderate"@,
            InterferenceLevel::High => "High"@,
            InterferenceLevel::Severe => "Severe"@,
        }
    }

    /// The level as a person reads it.
    pub fn label(&self) -> (r: String)
        ensures
            r@ == self.label_spec(),
    {
        match self {
            InterferenceLevel::Low => String::from_str("Low"),
            InterferenceLevel::Moderate => String::from_str("Moderate"),
            InterferenceLevel::High => String::from_str("High"),
            InterferenceLevel::Severe => String::from_str("Severe"),
        }
    }
}

/// Classifies a signal-to-noise ratio by inclusive lower bounds 40, 25, 15, 10.
pub fn classify_snr(snr: Option<i64>) -> (r: SnrQuality)
    ensures
        r == snr_quality_of(snr),
{
    match snr {
        Some(s) => if s >= 40 {
            SnrQuality::Excellent
        } else if s >= 25 {
            SnrQuality::Good
        } else if s >= 15 {
            SnrQuality::Fair
        } else if s >= 10 {
            SnrQuality::Poor
        } else {
            SnrQuality::VeryPoor
        },
        None => SnrQuality::Unknown,
    }
}

/// The signal part of the interference score; an unknown ratio is neutral.
pub open spec fn snr_score(snr: Option<i64>) -> nat {
    match snr {
        Some(s) => if s >= 40 {
            0
        } else if s >= 25 {
            1
        } else if s >= 15 {
            2
        } else {
            3
        },
        None => 1,
    }
}

/// The congestion part of the interference score; the first case that fits wins.
pub open spec fn congestion_score(same: nat, overlap: nat) -> nat {
    if same == 0 && overlap == 0 {
        0
    } else if same == 0 && overlap <= 2 {
        1
    } else if same <= 1 {
        1
    } else if same <= 2 && overlap <= 3 {
        2
    } else {
        3
    }
}

pub open spec fn level_of_score(total: nat) -> InterferenceLevel {
    if total <= 1 {
        InterferenceLevel::Low
    } else if total <= 3 {
        InterferenceLevel::Moderate
    } else if total <= 5 {
        InterferenceLevel::High
    } else {
        InterferenceLevel::Severe
    }
}

pub open spec fn interference_level_of(snr: Option<i64>, same: nat, overlap: nat) -> InterferenceLevel {
    level_of_score(snr_score(snr) + congestion_score(same, overlap))
}

/// Combines the signal score and the congestion score into a verdict.
pub fn classify_interference(snr: Option<i64>, same_channel: u32, overlapping: u32) -> (r: InterferenceLevel)
    ensures
        r == interference_level_of(snr, same_channel as nat, overlapping as nat),
{
    let snr_score: u32 = match snr {
        Some(s) => if s >= 40 {
            0
        } else if s >= 25 {
            1
        } else if s >= 15 {
            2
        } else {
            3
        },
        None => 1,
    };
    let congestion_score: u32 = if same_channel == 0 && overlapping == 0 {
        0
    } else if same_channel == 0 && overlapping <= 2 {
        1
    } else if same_channel <= 1 {
        1
    } else if same_channel <= 2 && overlapping <= 3 {
        2
    } else {
        3
    };
    let total = snr_score + congestion_score;
    if total <= 1 {
        InterferenceLevel::Low
    } else if total <= 3 {
        InterferenceLevel::Moderate
    } else if total <= 5 {
        InterferenceLevel::High
    } else {
        InterferenceLevel::Severe
    }
}


/// Centre frequency in MHz of a 5 GHz channel.
pub open spec fn center_freq_5ghz(channel: nat) -> nat {
    5000 + channel * 5
}

pub fn channel_to_center_freq_5ghz(channel: u32) -> (r: u64)
    ensures
        r as nat == center_freq_5ghz(channel as nat),
{
    5000 + channel as u64 * 5
}

pub open spec fn abs_diff(a: nat, b: nat) -> nat {
    if a >= b {
        (a - b) as nat
    } else {
        (b - a) as nat
    }
}

/// Is a radio on `freq` GHz (or, unknown, on `channel`) on the 2.4 GHz band?
pub open spec fn on_24ghz(channel: u32, freq: Option<Decimal>) -> bool {
    match freq {
        Some(f) => f.below(3),
        None => channel <= 14,
    }
}

/// Does neighbour `n` share our channel?
pub open spec fn is_same_channel(channel: u32, n: NearbyNetwork) -> bool {
    n.channel == channel
}

/// Does neighbour `n`, on another channel of our band, overlap ours?
pub open spec fn is_overlapping(channel: u32, own_24: bool, n: NearbyNetwork) -> bool {
    &&& n.channel != channel
    &&& if own_24 {
        n.frequency_ghz.below(3) && abs_diff(n.channel as nat, channel as nat) < OVERLAP_CHANNELS_24GHZ
    } else {
        !n.frequency_ghz.below(5) && abs_diff(
            center_freq_5ghz(n.channel as nat),
            center_freq_5ghz(channel as nat),
        ) < OVERLAP_MHZ_5GHZ
    }
}

/// The number of networks in `s` that satisfy `f`.
pub open spec fn count_where(s: Seq<NearbyNetwork>, f: spec_fn(NearbyNetwork) -> bool) -> nat
    decreases s.len(),
{
    if s.len() == 0 {
        0
    } else {
        count_where(s.drop_last(), f) + if f(s.last()) {
            1nat
        } else {
            0nat
        }
    }
}

/// Same-channel and overlapping counts; both zero when our channel is unknown.
pub open spec fn congestion_of(channel: Option<u32>, freq: Option<Decimal>, s: Seq<NearbyNetwork>) -> (nat, nat) {
    match channel {
        Some(c) => (
            count_where(s, |n: NearbyNetwork| is_same_channel(c, n)),
            count_where(s, |n: NearbyNetwork| is_overlapping(c, on_24ghz(c, freq), n)),
        ),
        None => (0, 0),
    }
}

proof fn lemma_count_where_le(s: Seq<NearbyNetwork>, f: spec_fn(NearbyNetwork) -> bool)
    ensures
        count_where(s, f) <= s.len(),
    decreases s.len(),
{
    if s.len() > 0 {
        lemma_count_where_le(s.drop_last(), f);
    }
}

/// Counts the neighbours on our channel and those on an overlapping channel of our band.
pub fn calculate_channel_congestion(
    current_channel: Option<u32>,
    current_freq: Option<Decimal>,
    nearby: &[NearbyNetwork],
) -> (r: (u32, u32))
    requires
        nearby@.len() <= u32::MAX,
    ensures
        (r.0 as nat, r.1 as nat) == congestion_of(current_channel, current_freq, nearby@),
{
    let my_channel = match current_channel {
        Some(c) => c,
        None => {
            return (0, 0);
        },
    };
    let is_24ghz = match current_freq {
        Some(f) => f.is_below(3),
        None => my_channel <= 14,
    };
    let ghost same_f = |n: NearbyNetwork| is_same_channel(my_channel, n);
    let ghost over_f = |n: NearbyNetwork| is_overlapping(my_channel, is_24ghz, n);
    let mut same_count: u32 = 0;
    let mut overlap_count: u32 = 0;
    let mut i: usize = 0;
    while i < nearby.len()
        invariant
            i <= nearby@.len() <= u32::MAX,
            is_24ghz == on_24ghz(my_channel, current_freq),
            same_f == (|n: NearbyNetwork| is_same_channel(my_channel, n)),
            over_f == (|n: NearbyNetwork| is_overlapping(my_channel, is_24ghz, n)),
            same_count as nat == count_where(nearby@.subrange(0, i as int), same_f),
            overlap_count as nat == count_where(nearby@.subrange(0, i as int), over_f),
        decreases nearby.len() - i,
    {
        let network = &nearby[i];
        proof {
            assert(nearby@.subrange(0, i + 1).drop_last() =~= nearby@.subrange(0, i as int));
            lemma_count_where_le(nearby@.subrange(0, i as int), same_f);
            lemma_count_where_le(nearby@.subrange(0, i as int), over_f);
            assert(nearby@.subrange(0, i + 1).last() == *network);
            assert(same_f(*network) == (network.channel == my_channel));
            assert(over_f(*network) == is_overlapping(my_channel, is_24ghz, *network));
        }
        if network.channel == my_channel {
            same_count = same_count + 1;
        } else if is_24ghz && network.frequency_ghz.is_below(3) {
            let diff = if network.channel >= my_channel {
                network.channel - my_channel
            } else {
                my_channel - network.channel
            };
            if diff < OVERLAP_CHANNELS_24GHZ {
                overlap_count = overlap_count + 1;
            }
        } else if !is_24ghz && !network.frequency_ghz.is_below(5) {
            let my_center = channel_to_center_freq_5ghz(my_channel);
            let their_center = channel_to_center_freq_5ghz(network.channel);
            let diff = if my_center >= their_center {
                my_center - their_center
            } else {
                their_center - my_center
            };
            if diff < OVERLAP_MHZ_5GHZ {
                overlap_count = overlap_count + 1;
            }
        }
        i = i + 1;
    }
    proof {
        assert(nearby@.subrange(0, i as int) =~= nearby@);
    }
    (same_count, overlap_count)
}


pub open spec fn msg_move_closer() -> Seq<char> {
    "Move closer to your router or remove physical obstructions"@
}

pub open spec fn msg_same_channel(count: nat) -> Seq<char> {
    dec_digits(count) + " networks on the same channel. Consider changing to a less congested channel"@
}

pub open spec fn msg_many_overlapping() -> Seq<char> {
    "Many overlapping networks. Try using 5 GHz if available"@
}

pub open spec fn msg_switch_band() -> Seq<char> {
    "Consider switching to 5 GHz band for less interference"@
}

pub open spec fn msg_use_1_6_11(channel: nat) -> Seq<char> {
    "Channel "@ + dec_digits(channel) + " overlaps with neighbors. Use channel 1, 6, or 11 on 2.4 GHz"@
}

pub open spec fn msg_looks_good() -> Seq<char> {
    "Your Wi-Fi environment looks good!"@
}

pub open spec fn msg_no_issues() -> Seq<char> {
    "No major issues detected"@
}

/// The message, alone in a sequence, when `cond` holds; else nothing.
pub open spec fn when(cond: bool, msg: Seq<char>) -> Seq<Seq<char>> {
    if cond {
        seq![msg]
    } else {
        Seq::empty()
    }
}

/// Neighbours on the 5 GHz band.
pub open spec fn count_5ghz(s: Seq<NearbyNetwork>) -> nat {
    count_where(s, |n: NearbyNetwork| !n.frequency_ghz.below(5))
}

/// The suggestions in their fixed order: each condition that holds adds its
/// message, and when none holds there is a single "no major issues" message.
pub open spec fn suggestions_of(
    snr: Option<i64>,
    quality: SnrQuality,
    channel: Option<u32>,
    freq: Option<Decimal>,
    same: nat,
    overlap: nat,
    nearby: Seq<NearbyNetwork>,
) -> Seq<Seq<char>> {
    let on_24 = freq is Some && freq->0.below(3);
    let fired = when(snr is Some && snr->0 < 15, msg_move_closer())
        + when(same >= 2, msg_same_channel(same))
        + when(overlap >= 3, msg_many_overlapping())
        + when(on_24 && count_5ghz(nearby) < 3, msg_switch_band())
        + when(
            on_24 && channel is Some && channel->0 != 1 && channel->0 != 6 && channel->0 != 11,
            msg_use_1_6_11(channel->0 as nat),
        )
        + when(quality == SnrQuality::Excellent && same == 0 && overlap <= 1, msg_looks_good());
    if fired.len() == 0 {
        seq![msg_no_issues()]
    } else {
        fired
    }
}

fn push_message(v: &mut Vec<String>, m: String)
    ensures
        views(final(v)@) == views(old(v)@).push(m@),
{
    v.push(m);
    proof {
        assert(views(final(v)@) =~= views(old(v)@).push(m@));
    }
}

fn count_message(count: u32, text: &str) -> (r: String)
    ensures
        r@ == dec_digits(count as nat) + text@,
{
    let mut digits: Vec<char> = Vec::new();
    push_digits(&mut digits, count as u64);
    assert(digits@ =~= dec_digits(count as nat));
    let mut r = string_of(digits.as_slice());
    r.append(text);
    r
}

/// Builds the suggestions for the measured situation; never empty.
pub fn generate_suggestions(
    snr: Option<i64>,
    snr_quality: SnrQuality,
    current_channel: Option<u32>,
    current_freq: Option<Decimal>,
    same_channel: u32,
    overlapping: u32,
    nearby: &[NearbyNetwork],
) -> (r: Vec<String>)
    ensures
        views(r@) == suggestions_of(
            snr,
            snr_quality,
            current_channel,
            current_freq,
            same_channel as nat,
            overlapping as nat,
            nearby@,
        ),
        r@.len() >= 1,
{
    let ghost on_24 = current_freq is Some && current_freq->0.below(3);
    let mut suggestions: Vec<String> = Vec::new();
    let ghost mut expect: Seq<Seq<char>> = Seq::empty();
    assert(views(suggestions@) =~= expect);

    let c1 = match snr {
        Some(s) => s < 15,
        None => false,
    };
    if c1 {
        push_message(&mut suggestions, String::from_str("Move closer to your router or remove physical obstructions"));
    }
    proof {
        expect = expect + when(c1, msg_move_closer());
        assert(views(suggestions@) =~= expect);
    }

    if same_channel >= 2 {
        push_message(&mut suggestions, count_message(same_channel, " networks on the same channel. Consider changing to a less congested channel"));
    }
    proof {
        expect = expect + when(same_channel >= 2, msg_same_channel(same_channel as nat));
        assert(views(suggestions@) =~= expect);
    }

    if overlapping >= 3 {
        push_message(&mut suggestions, String::from_str("Many overlapping networks. Try using 5 GHz if available"));
    }
    proof {
        expect = expect + when(overlapping >= 3, msg_many_overlapping());
        assert(views(suggestions@) =~= expect);
    }

    let is_24 = match current_freq {
        Some(f) => f.is_below(3),
        None => false,
    };
    if is_24 {
        let mut n5: usize = 0;
        let mut i: usize = 0;
        let ghost f5 = |n: NearbyNetwork| !n.frequency_ghz.below(5);
        while i < nearby.len()
            invariant
                i <= nearby@.len(),
                f5 == (|n: NearbyNetwork| !n.frequency_ghz.below(5)),
                n5 as nat == count_where(nearby@.subrange(0, i as int), f5),
            decreases nearby.len() - i,
        {
            proof {
                assert(nearby@.subrange(0, i + 1).drop_last() =~= nearby@.subrange(0, i as int));
                assert(nearby@.subrange(0, i + 1).last() == nearby@[i as int]);
                lemma_count_where_le(nearby@.subrange(0, i as int), f5);
            }
            if !nearby[i].frequency_ghz.is_below(5) {
                n5 = n5 + 1;
            }
            i = i + 1;
        }
        proof {
            assert(nearby@.subrange(0, i as int) =~= nearby@);
        }
        if n5 < 3 {
            push_message(&mut suggestions, String::from_str("Consider switching to 5 GHz band for less interference"));
        }
    }
    proof {
        expect = expect + when(on_24 && count_5ghz(nearby@) < 3, msg_switch_band());
        assert(views(suggestions@) =~= expect);
    }

    let c5 = match current_channel {
        Some(ch) => is_24 && ch != 1 && ch != 6 && ch != 11,
        None => false,
    };
    if c5 {
        let ch = current_channel.unwrap();
        let mut m = String::from_str("Channel ");
        let tail = count_message(ch, " overlaps with neighbors. Use channel 1, 6, or 11 on 2.4 GHz");
        m.append(tail.as_str());
        assert(m@ =~= msg_use_1_6_11(ch as nat));
        push_message(&mut suggestions, m);
    }
    proof {
        expect = expect + when(
            on_24 && current_channel is Some && current_channel->0 != 1 && current_channel->0 != 6
                && current_channel->0 != 11,
            msg_use_1_6_11(current_channel->0 as nat),
        );
        assert(views(suggestions@) =~= expect);
    }

    let c6 = snr_quality == SnrQuality::Excellent && same_channel == 0 && overlapping <= 1;
    if c6 {
        push_message(&mut suggestions, String::from_str("Your Wi-Fi environment looks good!"));
    }
    proof {
        expect = expect + when(c6, msg_looks_good());
        assert(views(suggestions@) =~= expect);
    }

    if suggestions.len() == 0 {
        push_message(&mut suggestions, String::from_str("No major issues detected"));
        proof {
            assert(views(suggestions@) =~= seq![msg_no_issues()]);
        }
    }
    suggestions
}


/// The band that a channel number implies when no frequency is given:
/// 2.4 GHz up to channel 14, else 5 GHz.
pub open spec fn default_freq(channel: u32) -> Decimal {
    if channel <= 14 {
        Decimal { mantissa: 24, scale: 1 }
    } else {
        Decimal { mantissa: 5, scale: 0 }
    }
}

/// Channel number ("ch N") and frequency ("G GHz", else implied by the
/// channel) of a channel descriptor; nothing without a channel number that
/// fits `u32`.
pub open spec fn channel_info_of(t: Seq<char>) -> (Option<u32>, Option<Decimal>) {
    match find_match(Pattern::ChannelNumber, t, 0) {
        None => (None, None),
        Some(c) => if digits_val(span(t, c.s0, c.e0)) > u32::MAX {
            (None, None)
        } else {
            let ch = digits_val(span(t, c.s0, c.e0)) as u32;
            let f = match find_match(Pattern::Gigahertz, t, 0) {
                Some(g) => match decimal_of(span(t, g.s0, g.e0)) {
                    Some(d) => d,
                    None => default_freq(ch),
                },
                None => default_freq(ch),
            };
            (Some(ch), Some(f))
        },
    }
}

/// Reads channel number and frequency back from a channel descriptor.
pub fn parse_channel_info(channel_str: &Option<String>) -> (r: (Option<u32>, Option<Decimal>))
    ensures
        r == match channel_str {
            Some(x) => channel_info_of(x@),
            None => (None, None),
        },
{
    let text = match channel_str {
        Some(x) => x,
        None => {
            return (None, None);
        },
    };
    let t = chars_of(text.as_str());
    let t = t.as_slice();
    let c = match find_pattern(Pattern::ChannelNumber, t, 0) {
        Some(c) => c,
        None => {
            return (None, None);
        },
    };
    let channel: u32 = match parse_digits(t, c.s0, c.e0, 4294967295) {
        Some(v) => v as u32,
        None => {
            return (None, None);
        },
    };
    let implied = if channel <= 14 {
        Decimal { mantissa: 24, scale: 1 }
    } else {
        Decimal { mantissa: 5, scale: 0 }
    };
    let frequency = match find_pattern(Pattern::Gigahertz, t, 0) {
        Some(g) => match parse_decimal(t, g.s0, g.e0) {
            Some(d) => d,
            None => implied,
        },
        None => implied,
    };
    (Some(channel), Some(frequency))
}

/// Signal minus noise, when both are known.
pub open spec fn snr_of(signal: Option<i32>, noise: Option<i32>) -> Option<i64> {
    match (signal, noise) {
        (Some(s), Some(n)) => Some((s - n) as i64),
        _ => None,
    }
}

/// Analyses interference from the link state and the neighbouring networks.
pub fn analyze_interference(wifi: &WifiInfo, nearby_networks: Vec<NearbyNetwork>) -> (r: InterferenceAnalysis)
    requires
        nearby_networks@.len() <= u32::MAX,
    ensures
        r.snr_db == snr_of(wifi.signal_dbm, wifi.noise_dbm),
        r.snr_quality == snr_quality_of(r.snr_db),
        (r.current_channel, r.current_frequency_ghz) == match wifi.channel {
            Some(x) => channel_info_of(x@),
            None => (None, None),
        },
        (r.same_channel_count as nat, r.overlapping_count as nat) == congestion_of(
            r.current_channel,
            r.current_frequency_ghz,
            nearby_networks@,
        ),
        r.nearby_networks@ == nearby_networks@,
        r.interference_level == interference_level_of(
            r.snr_db,
            r.same_channel_count as nat,
            r.overlapping_count as nat,
        ),
        views(r.suggestions@) == suggestions_of(
            r.snr_db,
            r.snr_quality,
            r.current_channel,
            r.current_frequency_ghz,
            r.same_channel_count as nat,
            r.overlapping_count as nat,
            nearby_networks@,
        ),
        r.suggestions@.len() >= 1,
{
    let snr_db: Option<i64> = match (wifi.signal_dbm, wifi.noise_dbm) {
        (Some(signal), Some(noise)) => Some(signal as i64 - noise as i64),
        _ => None,
    };
    let snr_quality = classify_snr(snr_db);
    let (current_channel, current_frequency_ghz) = parse_channel_info(&wifi.channel);
    let (same_channel_count, overlapping_count) = calculate_channel_congestion(
        current_channel,
        current_frequency_ghz,
        nearby_networks.as_slice(),
    );
    let interference_level = classify_interference(snr_db, same_channel_count, overlapping_count);
    let suggestions = generate_suggestions(
        snr_db,
        snr_quality,
        current_channel,
        current_frequency_ghz,
        same_channel_count,
        overlapping_count,
        nearby_networks.as_slice(),
    );
    InterferenceAnalysis {
        snr_db,
        snr_quality,
        current_channel,
        current_frequency_ghz,
        same_channel_count,
        overlapping_count,
        nearby_networks,
        interference_level,
        suggestions,
    }
}


proof fn lemma_count_where_remove(s: Seq<NearbyNetwork>, k: int, f: spec_fn(NearbyNetwork) -> bool)
    requires
        0 <= k < s.len(),
    ensures
        count_where(s, f) == count_where(s.remove(k), f) + if f(s[k]) {
            1nat
        } else {
            0nat
        },
    decreases s.len(),
{
    if k == s.len() - 1 {
        assert(s.remove(k) =~= s.drop_last());
    } else {
        lemma_count_where_remove(s.drop_last(), k, f);
        assert(s.remove(k).drop_last() =~= s.drop_last().remove(k));
        assert(s.remove(k).last() == s.last());
    }
}

proof fn lemma_count_where_permutation(s1: Seq<NearbyNetwork>, s2: Seq<NearbyNetwork>, f: spec_fn(NearbyNetwork) -> bool)
    requires
        s1.to_multiset() == s2.to_multiset(),
    ensures
        count_where(s1, f) == count_where(s2, f),
    decreases s1.len(),
{
    broadcast use vstd::seq_lib::group_to_multiset_ensures;

    if s1.len() == 0 {
        assert(s2.to_multiset().len() == 0);
        assert(s2.len() == 0);
    } else {
        let x = s1.last();
        let r1 = s1.drop_last();
        assert(r1.push(x) =~= s1);
        assert(s1.to_multiset() == r1.to_multiset().insert(x));
        assert(s2.to_multiset().count(x) > 0);
        assert(s2.contains(x));
        let k = choose|k: int| 0 <= k < s2.len() && s2[k] == x;
        let r2 = s2.remove(k);
        assert(r2.to_multiset() == s2.to_multiset().remove(x));
        assert(r1.to_multiset() =~= r1.to_multiset().insert(x).remove(x));
        lemma_count_where_permutation(r1, r2, f);
        lemma_count_where_remove(s2, k, f);
    }
}

/// Channel congestion does not depend on the order in which neighbours are
/// listed, and is zero on both counts when our channel is unknown.
pub proof fn lemma_congestion_order_independent(
    channel: Option<u32>,
    freq: Option<Decimal>,
    s1: Seq<NearbyNetwork>,
    s2: Seq<NearbyNetwork>,
)
    requires
        s1.to_multiset() == s2.to_multiset(),
    ensures
        congestion_of(channel, freq, s1) == congestion_of(channel, freq, s2),
        channel is None ==> congestion_of(channel, freq, s1) == (0nat, 0nat),
{
    if let Some(c) = channel {
        lemma_count_where_permutation(s1, s2, |n: NearbyNetwork| is_same_channel(c, n));
        lemma_count_where_permutation(s1, s2, |n: NearbyNetwork| is_overlapping(c, on_24ghz(c, freq), n));
    }
}

/// Whatever is measured, there is at least one suggestion.
pub proof fn lemma_suggestions_never_empty(
    snr: Option<i64>,
    quality: SnrQuality,
    channel: Option<u32>,
    freq: Option<Decimal>,
    same: nat,
    overlap: nat,
    nearby: Seq<NearbyNetwork>,
)
    ensures
        suggestions_of(snr, quality, channel, freq, same, overlap, nearby).len() >= 1,
{
}

} // verus!
