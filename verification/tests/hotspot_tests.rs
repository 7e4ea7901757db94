use wifi_hotspot::channel::{BandMode, HwMode};
use wifi_hotspot::hotspot::HotspotApp;

#[test]
fn defaults() {
    let app = HotspotApp::new(vec!["wlp2s0".to_string(), "wlan1".to_string()]);
    assert_eq!(app.settings.interface, "wlp2s0");
    assert_eq!(app.settings.ssid, "RustHotspot");
    assert_eq!(app.settings.password, "password123");
    assert_eq!(app.settings.ap_interface, "ap0");
    assert_eq!(app.settings.band_mode, BandMode::Auto);
    assert_eq!(app.settings.custom_channel, "Auto");
    assert!(app.settings.auto_resolve_dfs);
    assert_eq!(app.settings.max_connections, 10);
    let none = HotspotApp::new(Vec::new());
    assert_eq!(none.settings.interface, "wlan0");
}

#[test]
fn refresh_interfaces_selects_first() {
    let mut app = HotspotApp::new(vec!["wlp2s0".to_string()]);
    app.refresh_interfaces(vec!["wlan7".to_string(), "wlan8".to_string()]);
    assert_eq!(app.settings.interface, "wlan7");
    app.refresh_interfaces(Vec::new());
    assert_eq!(app.settings.interface, "wlan7");
    assert!(app.settings.available_interfaces.is_empty());
}

#[test]
fn refresh_wifi_info_reads_connection() {
    let mut app = HotspotApp::new(vec!["wlp2s0".to_string()]);
    let scan = "AA\\:01:Home:100:5500 MHz\nAA\\:02:Home:36:5180 MHz\n";
    app.refresh_wifi_info(
        Some("iwlwifi".to_string()),
        Some("\tchannel 100 (5500 MHz)\n"),
        Some("\tSSID: Home\n"),
        Some(scan),
    );
    assert_eq!(app.wifi.driver_name, "iwlwifi");
    assert_eq!(app.wifi.active_ssid, "Home");
    assert_eq!(app.wifi.active_channel, 100);
    assert_eq!(app.wifi.active_mode, HwMode::A);
    let chans: Vec<u32> = app.wifi.available_network_channels.iter().map(|c| c.channel).collect();
    assert_eq!(chans, vec![36, 100]);
    assert_eq!(app.settings.ssid, "RustHotspot");
}

#[test]
fn refresh_wifi_info_without_connection() {
    let mut app = HotspotApp::new(vec!["wlp2s0".to_string()]);
    app.refresh_wifi_info(None, None, Some("Not connected.\n"), Some("AA:Home:36:5180\n"));
    assert_eq!(app.wifi.driver_name, "Unknown");
    assert_eq!(app.wifi.active_ssid, "");
    assert_eq!((app.wifi.active_channel, app.wifi.active_mode), (6, HwMode::G));
    assert!(app.wifi.available_network_channels.is_empty());
}
