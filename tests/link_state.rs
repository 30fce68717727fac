use wifi_diag::interference::{analyze_interference, SnrQuality};
use wifi_diag::num::Decimal;
use wifi_diag::wifi::{merge_wifi_info, parse_current_ssid, parse_wifi_info, FrequencyBand, WifiInfo};

#[test]
fn test_parse_wifi_info() {
    let sample_output = r#"
Wi-Fi:

      Software Versions:
          CoreWLAN: 16.0 (1657)
          CoreWLANKit: 16.0 (1657)

      Interfaces:
        en0:
          Card Type: Wi-Fi
          Firmware Version: wl0: Oct 23 2023 05:30:03 version 20.10.1062.3.8.7.156 FWID 01-7ddfeb85
          MAC Address: 14:7d:da:c0:ff:ee
          Locale: FCC
          Country Code: US
          Supported PHY Modes: 802.11 a/b/g/n/ac/ax
          Supported Channels: 1, 2, 3, 4, 5, 6, 7, 8, 9, 10, 11, 36, 40, 44, 48, 52, 56, 60, 64, 100, 104, 108, 112, 116, 120, 124, 128, 132, 136, 140, 144, 149, 153, 157, 161, 165
          Wake On Wireless: Supported
          AirDrop: Supported
          AirDrop Channel: 44
          Auto Unlock: Supported
          Status: Connected

      Current Network Information:
        MyNetwork:
          PHY Mode: 802.11ax
          Channel: 149 (5GHz, 80MHz)
          Network Type: Infrastructure
          Security: WPA3 Personal
          Signal / Noise: -61 dBm / -90 dBm
          Transmit Rate: 576
          MCS Index: 9
"#;

    let info = parse_wifi_info(sample_output);
    assert!(info.connected);
    assert_eq!(info.ssid, Some("MyNetwork".to_string()));
    assert_eq!(info.frequency_band, Some(FrequencyBand::WiFi6));
    assert_eq!(info.frequency_band.as_ref().map(|b| b.label()), Some("Wi-Fi 6".to_string()));
    assert_eq!(info.channel, Some("ch 149, 5 GHz, 80 MHz".to_string()));
    assert_eq!(info.signal_dbm, Some(-61));
    assert_eq!(info.noise_dbm, Some(-90));
    assert_eq!(info.link_rate_mbps, Some(Decimal::new(576, 0)));
}

#[test]
fn empty_listing_is_disconnected() {
    assert_eq!(parse_wifi_info(""), WifiInfo::default());
    assert_eq!(parse_wifi_info("Status: Connected\nChannel: 6\n"), WifiInfo::default());
}

#[test]
fn channel_descriptor_is_canonical_whatever_the_spacing() {
    for text in [
        "Channel: 36 (5GHz, 40MHz)",
        "Channel:36(5 GHz,40 MHz)",
        "Channel:   36   (5   GHz,    40   MHz)",
    ] {
        let listing = format!("Current Network Information:\n    Home:\n    {}\n", text);
        assert_eq!(parse_wifi_info(&listing).channel, Some("ch 36, 5 GHz, 40 MHz".to_string()));
    }
    let listing = "Current Network Information:\n  Home:\n  Channel: 11\n";
    assert_eq!(parse_wifi_info(listing).channel, Some("ch 11, 2.4 GHz".to_string()));
    let listing = "Current Network Information:\n  Home:\n  Channel: 100 (5.2GHz)\n";
    assert_eq!(parse_wifi_info(listing).channel, Some("ch 100, 5 GHz".to_string()));
}

#[test]
fn phy_modes_by_generation() {
    let band = |phy: &str| parse_wifi_info(&format!("Current Network Information:\n  N:\n  PHY Mode: {}\n", phy)).frequency_band;
    assert_eq!(band("802.11ac"), Some(FrequencyBand::WiFi5));
    assert_eq!(band("802.11n"), Some(FrequencyBand::WiFi4));
    assert_eq!(band("Wi-Fi 6E"), Some(FrequencyBand::WiFi6));
    assert_eq!(band("802.11g  "), Some(FrequencyBand::Other("802.11g".to_string())));
}

#[test]
fn fields_degrade_one_by_one() {
    let listing = "Current Network Information:\n  Cafe:\n  Signal / Noise: -99999999999 dBm / -95 dBm\n  Transmit Rate: 1.2.3\n";
    let info = parse_wifi_info(listing);
    assert_eq!(info.ssid, Some("Cafe".to_string()));
    assert_eq!(info.signal_dbm, None);
    assert_eq!(info.noise_dbm, Some(-95));
    assert_eq!(info.link_rate_mbps, None);
    assert_eq!(info.channel, None);
    assert_eq!(info.frequency_band, None);
    let info = parse_wifi_info("Current Network Information:\n  Cafe:\n  Channel: 99999999999\n  PHY Mode: 802.11n\n");
    assert_eq!(info.channel, None);
    assert_eq!(info.frequency_band, Some(FrequencyBand::WiFi4));
}

#[test]
fn authoritative_ssid_wins() {
    let listing = parse_wifi_info("Current Network Information:\n  FromListing:\n");
    let merged = merge_wifi_info(Some("Authoritative".to_string()), listing.clone());
    assert_eq!(merged.ssid, Some("Authoritative".to_string()));
    assert!(merged.connected);
    let merged = merge_wifi_info(None, listing);
    assert_eq!(merged.ssid, Some("FromListing".to_string()));
    let merged = merge_wifi_info(None, WifiInfo::default());
    assert!(!merged.connected);
}

#[test]
fn current_ssid_sentinel_and_blank_are_absent() {
    assert_eq!(parse_current_ssid("Current Wi-Fi Network: Home Net  \n"), Some("Home Net".to_string()));
    assert_eq!(parse_current_ssid("Current Wi-Fi Network: You are not associated with an AirPort network.\n"), None);
    assert_eq!(parse_current_ssid("You are not associated with an AirPort network.\n"), None);
    assert_eq!(parse_current_ssid(""), None);
}

#[test]
fn link_state_with_authoritative_ssid() {
    let listing = "      Current Network Information:\n        Upstairs:\n          PHY Mode: 802.11ax\n          Channel: 149 (5GHz, 80MHz)\n          Signal / Noise: -61 dBm / -90 dBm\n";
    let ssid = parse_current_ssid("Current Wi-Fi Network: MyNetwork\n");
    let info = merge_wifi_info(ssid, parse_wifi_info(listing));
    assert!(info.connected);
    assert_eq!(info.ssid, Some("MyNetwork".to_string()));
    assert_eq!(info.frequency_band, Some(FrequencyBand::WiFi6));
    assert_eq!(info.channel, Some("ch 149, 5 GHz, 80 MHz".to_string()));
    assert_eq!(info.signal_dbm, Some(-61));
    assert_eq!(info.noise_dbm, Some(-90));
    let analysis = analyze_interference(&info, Vec::new());
    assert_eq!(analysis.snr_db, Some(29));
    assert_eq!(analysis.snr_quality, SnrQuality::Good);
}
