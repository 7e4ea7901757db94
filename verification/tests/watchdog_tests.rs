use wifi_hotspot::channel::HwMode;
use wifi_hotspot::probe::ActiveWifi;
use wifi_hotspot::watchdog::{Watchdog, WatchdogEvent};

fn reading(ssid: &str, channel: u32, mode: HwMode, is_dfs: bool) -> ActiveWifi {
    ActiveWifi { ssid: ssid.to_string(), channel, mode, is_dfs }
}

#[test]
fn same_reading_is_idle() {
    let mut w = Watchdog::new(36, "Home".to_string());
    assert!(matches!(w.observe(&reading("Home", 36, HwMode::A, false)), WatchdogEvent::Idle));
    assert!(matches!(w.observe(&reading("", 0, HwMode::G, false)), WatchdogEvent::Idle));
}

#[test]
fn channel_change_asks_for_resync() {
    let mut w = Watchdog::new(36, "Home".to_string());
    let r = reading("Office", 6, HwMode::G, false);
    match w.observe(&r) {
        WatchdogEvent::Resync(m) => assert_eq!(m, "Upstream Wi-Fi switched to 'Office' (Ch 6). Re-synchronizing hotspot..."),
        other => panic!("unexpected {:?}", other),
    }
    assert_eq!(w.last_channel, 36);
    let done = w.confirm_resync(&r);
    assert_eq!(done, "Hotspot synchronized with 'Office' (2.4GHz, Ch 6)");
    assert_eq!((w.last_channel, w.last_ssid.as_str()), (6, "Office"));
    assert!(matches!(w.observe(&r), WatchdogEvent::Idle));
}

#[test]
fn dfs_channel_pauses() {
    let mut w = Watchdog::new(36, "Home".to_string());
    match w.observe(&reading("Home", 100, HwMode::A, true)) {
        WatchdogEvent::DfsPaused(m) => assert_eq!(m, "\u{26a0}\u{fe0f} Upstream Wi-Fi switched to 'Home' on DFS Channel 100. Hotspot paused to avoid hardware synthesizer conflict."),
        other => panic!("unexpected {:?}", other),
    }
    assert_eq!(w.last_channel, 36);
}

#[test]
fn new_network_on_same_channel_is_announced_once() {
    let mut w = Watchdog::new(36, "Home".to_string());
    match w.observe(&reading("Cafe", 36, HwMode::A, false)) {
        WatchdogEvent::UpstreamChanged(m) => assert_eq!(m, "Hotspot running (Upstream connected to 'Cafe', Ch 36)"),
        other => panic!("unexpected {:?}", other),
    }
    assert_eq!(w.last_ssid, "Cafe");
    assert!(matches!(w.observe(&reading("Cafe", 36, HwMode::A, false)), WatchdogEvent::Idle));
    let m = w.confirm_resync(&reading("Cafe", 149, HwMode::A, false));
    assert_eq!(m, "Hotspot synchronized with 'Cafe' (5GHz, Ch 149)");
}
