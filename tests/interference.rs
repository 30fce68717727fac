use wifi_diag::interference::{
    analyze_interference, calculate_channel_congestion, channel_to_center_freq_5ghz, classify_interference,
    classify_snr, generate_suggestions, parse_channel_info, InterferenceLevel, NearbyNetwork, SnrQuality,
};
use wifi_diag::neighbors::parse_nearby_networks;
use wifi_diag::num::Decimal;
use wifi_diag::wifi::{merge_wifi_info, parse_current_ssid, parse_wifi_info, WifiInfo};

fn net(ssid: &str, channel: u32, freq: Decimal) -> NearbyNetwork {
    NearbyNetwork { ssid: ssid.to_string(), channel, frequency_ghz: freq }
}

fn ghz24() -> Decimal {
    Decimal::new(24, 1)
}

fn ghz5() -> Decimal {
    Decimal::new(5, 0)
}

#[test]
fn test_classify_snr() {
    assert_eq!(classify_snr(Some(45)), SnrQuality::Excellent);
    assert_eq!(classify_snr(Some(30)), SnrQuality::Good);
    assert_eq!(classify_snr(Some(20)), SnrQuality::Fair);
    assert_eq!(classify_snr(Some(12)), SnrQuality::Poor);
    assert_eq!(classify_snr(Some(5)), SnrQuality::VeryPoor);
    assert_eq!(classify_snr(None), SnrQuality::Unknown);
    assert_eq!(classify_snr(Some(45)).label(), "Excellent");
    assert_eq!(classify_snr(Some(5)).label(), "Very Poor");
    assert_eq!(classify_snr(None).label(), "Unknown");
}

#[test]
fn test_parse_channel_info() {
    let (ch, freq) = parse_channel_info(&Some("ch 6, 2.4 GHz, 20 MHz".to_string()));
    assert_eq!(ch, Some(6));
    assert_eq!(freq, Some(Decimal::new(24, 1)));

    let (ch, freq) = parse_channel_info(&Some("ch 149, 5 GHz, 80 MHz".to_string()));
    assert_eq!(ch, Some(149));
    assert_eq!(freq, Some(Decimal::new(5, 0)));
}

#[test]
fn test_classify_interference() {
    assert_eq!(classify_interference(Some(45), 0, 0), InterferenceLevel::Low);
    assert_eq!(classify_interference(Some(30), 1, 2), InterferenceLevel::Moderate);
    assert_eq!(classify_interference(Some(12), 3, 4), InterferenceLevel::Severe);
    assert_eq!(classify_interference(Some(12), 3, 4).label(), "Severe");
}

#[test]
fn test_parse_nearby_networks() {
    let sample = r#"
        Other Local Wi-Fi Networks:
                    Neighbor1:
                          PHY Mode: 802.11ax
                          Channel: 6 (2.4GHz, 20MHz)
                          Security: WPA2 Personal
                    Neighbor2:
                          PHY Mode: 802.11ac
                          Channel: 149 (5GHz, 80MHz)
                          Security: WPA2 Personal
        "#;

    let networks = parse_nearby_networks(sample);
    assert_eq!(networks.len(), 2);
    assert_eq!(networks[0].ssid, "Neighbor1");
    assert_eq!(networks[0].channel, 6);
    assert_eq!(networks[1].ssid, "Neighbor2");
    assert_eq!(networks[1].channel, 149);
    assert_eq!(networks[0].frequency_ghz, Decimal::new(24, 1));
    assert_eq!(networks[1].frequency_ghz, Decimal::new(5, 0));
}

#[test]
fn snr_quality_boundaries() {
    assert_eq!(classify_snr(Some(40)), SnrQuality::Excellent);
    assert_eq!(classify_snr(Some(39)), SnrQuality::Good);
    assert_eq!(classify_snr(Some(25)), SnrQuality::Good);
    assert_eq!(classify_snr(Some(24)), SnrQuality::Fair);
    assert_eq!(classify_snr(Some(15)), SnrQuality::Fair);
    assert_eq!(classify_snr(Some(14)), SnrQuality::Poor);
    assert_eq!(classify_snr(Some(10)), SnrQuality::Poor);
    assert_eq!(classify_snr(Some(9)), SnrQuality::VeryPoor);
}

#[test]
fn interference_levels_by_score() {
    assert_eq!(classify_interference(None, 0, 0), InterferenceLevel::Low);
    assert_eq!(classify_interference(Some(20), 0, 1), InterferenceLevel::Moderate);
    assert_eq!(classify_interference(Some(20), 2, 3), InterferenceLevel::High);
    assert_eq!(classify_interference(Some(20), 1, 9), InterferenceLevel::Moderate);
    assert_eq!(classify_interference(Some(0), 2, 4), InterferenceLevel::Severe);
}

#[test]
fn congestion_same_and_overlap_on_24ghz() {
    let neighbors = vec![net("a", 6, ghz24()), net("b", 3, ghz24()), net("c", 40, ghz5())];
    assert_eq!(calculate_channel_congestion(Some(6), Some(ghz24()), &neighbors), (1, 1));
}

#[test]
fn congestion_independent_of_order_and_zero_without_channel() {
    let mut neighbors = vec![net("a", 6, ghz24()), net("b", 3, ghz24()), net("c", 9, ghz24()), net("d", 6, ghz24())];
    let forward = calculate_channel_congestion(Some(6), None, &neighbors);
    neighbors.reverse();
    assert_eq!(calculate_channel_congestion(Some(6), None, &neighbors), forward);
    assert_eq!(forward, (2, 2));
    assert_eq!(calculate_channel_congestion(None, Some(ghz24()), &neighbors), (0, 0));
}

#[test]
fn congestion_on_5ghz_uses_center_frequency() {
    assert_eq!(channel_to_center_freq_5ghz(36), 5180);
    let neighbors = vec![net("a", 40, ghz5()), net("b", 44, ghz5()), net("c", 6, ghz24())];
    assert_eq!(calculate_channel_congestion(Some(36), Some(ghz5()), &neighbors), (0, 1));
}

#[test]
fn suggestions_affirm_a_clean_environment() {
    let s = generate_suggestions(Some(45), SnrQuality::Excellent, Some(149), Some(ghz5()), 0, 0, &[]);
    assert_eq!(s, vec!["Your Wi-Fi environment looks good!".to_string()]);
    assert_eq!(classify_interference(Some(45), 0, 0), InterferenceLevel::Low);
}

#[test]
fn suggestions_default_when_nothing_fires() {
    let s = generate_suggestions(None, SnrQuality::Unknown, None, None, 0, 0, &[]);
    assert_eq!(s, vec!["No major issues detected".to_string()]);
}

#[test]
fn suggestions_in_fixed_order() {
    let s = generate_suggestions(Some(12), SnrQuality::Poor, Some(3), Some(ghz24()), 3, 4, &[]);
    assert_eq!(
        s,
        vec![
            "Move closer to your router or remove physical obstructions".to_string(),
            "3 networks on the same channel. Consider changing to a less congested channel".to_string(),
            "Many overlapping networks. Try using 5 GHz if available".to_string(),
            "Consider switching to 5 GHz band for less interference".to_string(),
            "Channel 3 overlaps with neighbors. Use channel 1, 6, or 11 on 2.4 GHz".to_string(),
        ]
    );
}

#[test]
fn suggestions_skip_band_switch_with_enough_5ghz_neighbors() {
    let neighbors = vec![net("a", 36, ghz5()), net("b", 40, ghz5()), net("c", 44, ghz5())];
    let s = generate_suggestions(Some(30), SnrQuality::Good, Some(11), Some(ghz24()), 0, 0, &neighbors);
    assert_eq!(s, vec!["No major issues detected".to_string()]);
}

#[test]
fn analysis_of_a_link_on_5ghz() {
    let listing = "Current Network Information:\n        MyNetwork:\n          PHY Mode: 802.11ax\n          Channel: 149 (5GHz, 80MHz)\n          Signal / Noise: -61 dBm / -90 dBm\n";
    let ssid = parse_current_ssid("Current Wi-Fi Network: MyNetwork\n");
    let wifi = merge_wifi_info(ssid, parse_wifi_info(listing));
    let a = analyze_interference(&wifi, vec![net("n", 153, ghz5())]);
    assert_eq!(a.snr_db, Some(29));
    assert_eq!(a.snr_quality, SnrQuality::Good);
    assert_eq!(a.current_channel, Some(149));
    assert_eq!(a.current_frequency_ghz, Some(ghz5()));
    assert_eq!((a.same_channel_count, a.overlapping_count), (0, 1));
    assert_eq!(a.interference_level, InterferenceLevel::Moderate);
    assert_eq!(a.suggestions, vec!["No major issues detected".to_string()]);
}

#[test]
fn analysis_without_link_state() {
    let a = analyze_interference(&WifiInfo::default(), Vec::new());
    assert_eq!(a.snr_db, None);
    assert_eq!(a.snr_quality, SnrQuality::Unknown);
    assert_eq!(a.current_channel, None);
    assert_eq!((a.same_channel_count, a.overlapping_count), (0, 0));
    assert_eq!(a.interference_level, InterferenceLevel::Low);
    assert_eq!(a.suggestions.len(), 1);
}

#[test]
fn channel_info_infers_band_from_number() {
    assert_eq!(parse_channel_info(&Some("ch 11, 2.4 GHz".to_string())), (Some(11), Some(ghz24())));
    assert_eq!(parse_channel_info(&Some("ch 36".to_string())), (Some(36), Some(ghz5())));
    assert_eq!(parse_channel_info(&Some("ch 3".to_string())), (Some(3), Some(ghz24())));
    assert_eq!(parse_channel_info(&Some("no channel".to_string())), (None, None));
    assert_eq!(parse_channel_info(&None), (None, None));
}

#[test]
fn nearby_entries_without_channel_are_dropped() {
    let sample = "x\nOther Local Wi-Fi Networks:\n                Quiet:\n                      Security: None\n                Loud:\n                      Channel: 11\n                      Channel: 36 (5GHz)\nNext section:\n                Hidden:\n                      Channel: 1\n";
    let networks = parse_nearby_networks(sample);
    assert_eq!(networks.len(), 1);
    assert_eq!(networks[0].ssid, "Loud");
    assert_eq!(networks[0].channel, 11);
    assert_eq!(networks[0].frequency_ghz, ghz24());
    assert!(parse_nearby_networks("no header here").is_empty());
}
