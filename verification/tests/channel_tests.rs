use wifi_hotspot::channel::{is_5ghz_channel, is_dfs_channel, scan_channels_for_ssid};

#[test]
fn dfs_range() {
    assert!(!is_dfs_channel(48));
    assert!(is_dfs_channel(52));
    assert!(is_dfs_channel(100));
    assert!(is_dfs_channel(144));
    assert!(!is_dfs_channel(149));
    assert!(!is_dfs_channel(6));
}

#[test]
fn five_ghz_range() {
    assert!(!is_5ghz_channel(14));
    assert!(!is_5ghz_channel(31));
    assert!(is_5ghz_channel(32));
    assert!(is_5ghz_channel(165));
}

const SCAN: &str = "AA\\:BB\\:CC\\:DD\\:EE\\:01:HomeNet:100:5500 MHz\nAA\\:BB\\:CC\\:DD\\:EE\\:02:HomeNet:6:2437 MHz\nAA\\:BB\\:CC\\:DD\\:EE\\:03:HomeNet:36:5180 MHz\nAA\\:BB\\:CC\\:DD\\:EE\\:04:Other:149:5745 MHz\nAA\\:BB\\:CC\\:DD\\:EE\\:05:HomeNet:36:5200 MHz\nAA\\:BB\\:CC\\:DD\\:EE\\:06:HomeNet:x:5180 MHz\nAA\\:BB\\:CC\\:DD\\:EE\\:07:HomeNet: 11 :bad\nshort:line\n";

#[test]
fn scan_ranks_and_dedups() {
    let found = scan_channels_for_ssid(Some(SCAN), "HomeNet");
    let chans: Vec<u32> = found.iter().map(|c| c.channel).collect();
    assert_eq!(chans, vec![36, 6, 11, 100]);
    assert_eq!(found[0].bssid, "AA:BB:CC:DD:EE:03");
    assert_eq!(found[0].freq_mhz, 5180);
    assert!(found[0].is_5ghz && !found[0].is_dfs);
    assert_eq!(found[1].freq_mhz, 2437);
    assert!(!found[1].is_5ghz);
    assert_eq!(found[2].freq_mhz, 0);
    assert!(found[3].is_dfs);
    assert!(found.iter().all(|c| c.ssid == "HomeNet"));
}

#[test]
fn scan_other_network_and_failures() {
    let other = scan_channels_for_ssid(Some(SCAN), "Other");
    assert_eq!(other.len(), 1);
    assert_eq!(other[0].channel, 149);
    assert!(scan_channels_for_ssid(Some(SCAN), "Missing").is_empty());
    assert!(scan_channels_for_ssid(None, "HomeNet").is_empty());
}
