use wifi_hotspot::channel::{AvailableChannel, BandMode, HwMode};
use wifi_hotspot::probe::ActiveWifi;
use wifi_hotspot::start::{StartAction, StartEvent, StartFlow, StartPhase};

fn station(ssid: &str, channel: u32, mode: HwMode) -> StartEvent {
    StartEvent::Detected(ActiveWifi { ssid: ssid.to_string(), channel, mode, is_dfs: (52..=144).contains(&channel) })
}

fn chan(channel: u32, is_5ghz: bool, is_dfs: bool) -> AvailableChannel {
    AvailableChannel { channel, freq_mhz: 0, is_5ghz, is_dfs, bssid: format!("B{}", channel), ssid: "Home".to_string() }
}

#[test]
fn plain_start_follows_station() {
    let mut f = StartFlow::new(BandMode::Auto, "36".to_string(), true);
    assert!(matches!(f.step(station("Home", 6, HwMode::G)), StartAction::CreateInterface));
    assert!(matches!(f.step(StartEvent::InterfaceCreated(true)), StartAction::Launch(6, HwMode::G)));
    match f.step(StartEvent::HostapdChecked(None)) {
        StartAction::Running(m) => assert_eq!(m, "Hotspot running successfully! (Mode: 2.4GHz, Channel: 6)"),
        other => panic!("unexpected {:?}", other),
    }
    assert_eq!(f.phase, StartPhase::Finished);
    assert!(matches!(f.step(StartEvent::RootChecked(true)), StartAction::Unexpected));
}

#[test]
fn dfs_station_is_moved() {
    let mut f = StartFlow::new(BandMode::Auto, "Auto".to_string(), true);
    match f.step(station("Home", 100, HwMode::A)) {
        StartAction::Scan(s) => assert_eq!(s, "Home"),
        other => panic!("unexpected {:?}", other),
    }
    match f.step(StartEvent::Scanned(vec![chan(100, true, true), chan(36, true, false)])) {
        StartAction::FindConnection(m) => assert_eq!(m, "Channel 100 is DFS restricted. Switching Wi-Fi to 5 GHz (Ch 36) for 'Home'..."),
        other => panic!("unexpected {:?}", other),
    }
    match f.step(StartEvent::ConnectionFound(Some("u1".to_string()))) {
        StartAction::Switch { uuid, bssid, band } => {
            assert_eq!((uuid.as_str(), bssid.as_str(), band.as_str()), ("u1", "B36", "a"));
        }
        other => panic!("unexpected {:?}", other),
    }
    assert!(matches!(f.step(StartEvent::Switched(true)), StartAction::Poll));
    assert!(matches!(f.step(StartEvent::Polled(100, HwMode::A)), StartAction::Poll));
    assert!(matches!(f.step(StartEvent::Polled(36, HwMode::A)), StartAction::CreateInterface));
    assert!(matches!(f.step(StartEvent::InterfaceCreated(true)), StartAction::Launch(36, HwMode::A)));
}

#[test]
fn settling_gives_up_after_sixteen_polls() {
    let mut f = StartFlow::new(BandMode::Auto, "Auto".to_string(), true);
    f.step(station("Home", 100, HwMode::A));
    f.step(StartEvent::Scanned(vec![chan(36, true, false)]));
    f.step(StartEvent::ConnectionFound(Some("u1".to_string())));
    f.step(StartEvent::Switched(true));
    for _ in 0..15 {
        assert!(matches!(f.step(StartEvent::Polled(100, HwMode::A)), StartAction::Poll));
    }
    assert!(matches!(f.step(StartEvent::Polled(100, HwMode::A)), StartAction::CreateInterface));
    assert_eq!(f.polls, 16);
    match f.step(StartEvent::InterfaceCreated(true)) {
        StartAction::Fail(m) => assert!(m.starts_with("Error: Channel 100 is a DFS radar channel.")),
        other => panic!("unexpected {:?}", other),
    }
}

#[test]
fn failures_carry_errors() {
    let mut f = StartFlow::new(BandMode::Auto, "Auto".to_string(), false);
    match f.step(station("Home", 52, HwMode::A)) {
        StartAction::Fail(m) => assert!(m.starts_with("Error")),
        other => panic!("unexpected {:?}", other),
    }
    let mut g = StartFlow::new(BandMode::Auto, "Auto".to_string(), true);
    g.step(station("Home", 100, HwMode::A));
    match g.step(StartEvent::Scanned(vec![chan(100, true, true)])) {
        StartAction::Fail(m) => assert_eq!(m, "Error: Channel 100 is a DFS radar channel. No working non-DFS channels were found for 'Home'."),
        other => panic!("unexpected {:?}", other),
    }
    let mut h = StartFlow::new(BandMode::Force2_4GHz, "Auto".to_string(), true);
    h.step(station("Home", 100, HwMode::A));
    assert!(matches!(h.step(StartEvent::InterfaceCreated(false)), StartAction::CheckRoot));
    match h.step(StartEvent::RootChecked(false)) {
        StartAction::Fail(m) => assert!(m.starts_with("Error: Administrator")),
        other => panic!("unexpected {:?}", other),
    }
    let mut k = StartFlow::new(BandMode::Force5GHz, "Auto".to_string(), true);
    k.step(station("Home", 6, HwMode::G));
    assert!(matches!(k.step(StartEvent::InterfaceCreated(true)), StartAction::Launch(149, HwMode::A)));
    match k.step(StartEvent::HostapdChecked(Some("a\nRADAR detected\n".to_string()))) {
        StartAction::Fail(m) => assert!(m.starts_with("Error: Channel 149 is restricted")),
        other => panic!("unexpected {:?}", other),
    }
    let mut s = StartFlow::new(BandMode::Auto, "Auto".to_string(), true);
    s.step(station("Home", 100, HwMode::A));
    s.step(StartEvent::Scanned(vec![chan(6, false, false)]));
    s.step(StartEvent::ConnectionFound(Some("u".to_string())));
    match s.step(StartEvent::Switched(false)) {
        StartAction::Fail(m) => assert_eq!(m, "Error: Channel 100 is DFS restricted. Failed to switch to alternative channel 6."),
        other => panic!("unexpected {:?}", other),
    }
}

#[test]
fn no_connection_keeps_station_channel() {
    let mut f = StartFlow::new(BandMode::Auto, "Auto".to_string(), true);
    f.step(station("Home", 100, HwMode::A));
    f.step(StartEvent::Scanned(vec![chan(6, false, false)]));
    assert!(matches!(f.step(StartEvent::ConnectionFound(None)), StartAction::CreateInterface));
    assert!(matches!(f.step(StartEvent::InterfaceCreated(true)), StartAction::Fail(_)));
}
