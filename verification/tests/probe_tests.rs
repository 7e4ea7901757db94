use wifi_hotspot::channel::HwMode;
use wifi_hotspot::probe::{
    detect_active_wifi_details, detect_driver_name, detect_wireless_interfaces,
    get_active_connection_uuid, get_current_channel_and_mode, is_root, linked_network_ssid,
};

const IW_DEV: &str = "phy#0\n\tInterface ap0\n\t\tifindex 5\n\t\ttype AP\n\tInterface wlp2s0\n\t\tifindex 3\n\t\ttype managed\n\t\tchannel 36 (5180 MHz), width: 80 MHz\n\tInterface p2p-dev-wlp2s0\nphy#1\n\tInterface wlan1\n";

#[test]
fn wireless_interfaces_skip_ap_and_p2p() {
    assert_eq!(detect_wireless_interfaces(Some(IW_DEV)), vec!["wlp2s0".to_string(), "wlan1".to_string()]);
}

#[test]
fn wireless_interfaces_default_to_wlan0() {
    assert_eq!(detect_wireless_interfaces(None), vec!["wlan0".to_string()]);
    assert_eq!(detect_wireless_interfaces(Some("phy#0\n\tInterface ap0\n")), vec!["wlan0".to_string()]);
}

const IW_INFO: &str = "Interface wlp2s0\n\tifindex 3\n\twdev 0x1\n\taddr 11:22:33:44:55:66\n\tssid HomeNet\n\ttype managed\n\twiphy 0\n\tchannel 36 (5180 MHz), width: 80 MHz, center1: 5210 MHz\n\ttxpower 22.00 dBm\n";

#[test]
fn channel_and_mode_from_info() {
    assert_eq!(get_current_channel_and_mode(Some(IW_INFO)), (36, HwMode::A));
    assert_eq!(
        get_current_channel_and_mode(Some("\tchannel 11 (2462 MHz), width: 20 MHz\n")),
        (11, HwMode::G)
    );
    assert_eq!(get_current_channel_and_mode(Some("\tchannel 14 (2484 MHz)\n")), (14, HwMode::G));
    assert_eq!(get_current_channel_and_mode(Some("\tchannel 15\n")), (15, HwMode::A));
}

#[test]
fn channel_and_mode_default() {
    assert_eq!(get_current_channel_and_mode(None), (6, HwMode::G));
    assert_eq!(get_current_channel_and_mode(Some("Interface x\n\tchannel unknown\n")), (6, HwMode::G));
    // the first line that gives a number wins
    assert_eq!(
        get_current_channel_and_mode(Some("channel x\nchannel 100 (5500 MHz)\nchannel 1\n")),
        (100, HwMode::A)
    );
}

const IW_LINK: &str = "Connected to 11:22:33:44:55:66 (on wlp2s0)\n\tSSID: Home Net \n\tfreq: 5180\n\tSSID: Other\n";

#[test]
fn ssid_from_link() {
    assert_eq!(linked_network_ssid(Some(IW_LINK)), "Home Net");
    assert_eq!(linked_network_ssid(Some("Not connected.\n")), "");
    assert_eq!(linked_network_ssid(None), "");
}

#[test]
fn active_details_combine() {
    let d = detect_active_wifi_details(Some("\tchannel 100 (5500 MHz)\n"), Some(IW_LINK));
    assert_eq!(d.ssid, "Home Net");
    assert_eq!(d.channel, 100);
    assert_eq!(d.mode, HwMode::A);
    assert!(d.is_dfs);
    let e = detect_active_wifi_details(None, None);
    assert_eq!((e.ssid.as_str(), e.channel, e.mode, e.is_dfs), ("", 6, HwMode::G, false));
}

#[test]
fn active_connection_uuid_for_interface() {
    let out = "lo:aaaa\nwlp2s0: 1234-abcd \nwlp2s0:second\n";
    assert_eq!(get_active_connection_uuid(Some(out), "wlp2s0"), Some("1234-abcd".to_string()));
    assert_eq!(get_active_connection_uuid(Some(out), "eth0"), None);
    assert_eq!(get_active_connection_uuid(Some("wlp2s0\n"), "wlp2s0"), None);
    assert_eq!(get_active_connection_uuid(None, "wlp2s0"), None);
}

#[test]
fn root_detection() {
    assert!(is_root(Some("0\n")));
    assert!(!is_root(Some("1000\n")));
    assert!(!is_root(Some("00\n")));
    assert!(!is_root(None));
}

#[test]
fn driver_name_default() {
    assert_eq!(detect_driver_name(Some("iwlwifi".to_string())), "iwlwifi");
    assert_eq!(detect_driver_name(None), "Unknown");
}
