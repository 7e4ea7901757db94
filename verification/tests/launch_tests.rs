use wifi_hotspot::channel::{AvailableChannel, BandMode, HwMode};
use wifi_hotspot::launch::{
    channel_settled, connection_modify_args, connection_reset_args, connection_up_args,
    dnsmasq_config, hostapd_config, hostapd_failure_reason, pick_alternative, plan_dfs,
    resync_hostapd_config, running_message, select_channel, setup_failure_message, stop_message,
    switch_band_param, switch_failed_message, DfsPlan,
};

fn chan(channel: u32, is_5ghz: bool, is_dfs: bool) -> AvailableChannel {
    AvailableChannel {
        channel,
        freq_mhz: 0,
        is_5ghz,
        is_dfs,
        bssid: format!("b{}", channel),
        ssid: "Net".to_string(),
    }
}

#[test]
fn dfs_plans() {
    assert!(matches!(plan_dfs(BandMode::Auto, 36, true), DfsPlan::Clear));
    assert!(matches!(plan_dfs(BandMode::Force5GHz, 100, false), DfsPlan::Clear));
    assert!(matches!(plan_dfs(BandMode::Auto, 100, true), DfsPlan::SeekAlternative));
    match plan_dfs(BandMode::Auto, 52, false) {
        DfsPlan::Refuse(m) => assert_eq!(m, "Error: Channel 52 is a DFS radar channel where AP mode is restricted. Enable 'Auto-resolve DFS' or select a non-DFS channel."),
        _ => panic!("expected a refusal"),
    }
}

#[test]
fn alternative_channel_choice() {
    let c = vec![chan(100, true, true), chan(36, true, false), chan(6, false, false)];
    let (i, msg) = pick_alternative(&c, 100, "Net").unwrap();
    assert_eq!(i, 1);
    assert_eq!(msg, "Channel 100 is DFS restricted. Switching Wi-Fi to 5 GHz (Ch 36) for 'Net'...");
    let c2 = vec![chan(6, false, false)];
    assert_eq!(pick_alternative(&c2, 120, "Net").unwrap().1, "Channel 120 is DFS restricted. Switching Wi-Fi to 2.4 GHz (Ch 6) for 'Net'...");
    let none = vec![chan(100, true, true)];
    assert_eq!(
        pick_alternative(&none, 100, "Net").unwrap_err(),
        "Error: Channel 100 is a DFS radar channel. No working non-DFS channels were found for 'Net'."
    );
}

#[test]
fn nmcli_arguments() {
    assert_eq!(switch_band_param(true), "a");
    assert_eq!(switch_band_param(false), "bg");
    assert_eq!(
        connection_modify_args("u1", "AA:BB", "a"),
        vec!["connection", "modify", "u1", "802-11-wireless.bssid", "AA:BB", "802-11-wireless.band", "a"]
    );
    assert_eq!(connection_modify_args("u1", "", "bg"), vec!["connection", "modify", "u1", "802-11-wireless.band", "bg"]);
    assert_eq!(connection_modify_args("u1", "", ""), vec!["connection", "modify", "u1"]);
    assert_eq!(connection_up_args("u1"), vec!["connection", "up", "u1"]);
    assert_eq!(
        connection_reset_args("u1"),
        vec!["connection", "modify", "u1", "802-11-wireless.bssid", "", "802-11-wireless.band", ""]
    );
    assert_eq!(
        switch_failed_message(100, 36),
        "Error: Channel 100 is DFS restricted. Failed to switch to alternative channel 36."
    );
}

#[test]
fn settling() {
    assert!(channel_settled(36, 36));
    assert!(channel_settled(6, 36));
    assert!(!channel_settled(100, 100));
    assert!(!channel_settled(0, 36));
}

#[test]
fn channel_selection() {
    assert_eq!(select_channel(BandMode::Auto, "Auto", 36, HwMode::A), Ok((36, HwMode::A)));
    assert_eq!(select_channel(BandMode::Auto, "11", 36, HwMode::A), Ok((36, HwMode::A)));
    assert_eq!(select_channel(BandMode::Auto, "36", 6, HwMode::G), Ok((6, HwMode::G)));
    assert_eq!(select_channel(BandMode::Auto, "junk", 6, HwMode::G), Ok((6, HwMode::G)));
    assert_eq!(select_channel(BandMode::Force2_4GHz, "Auto", 36, HwMode::A), Ok((6, HwMode::G)));
    assert_eq!(select_channel(BandMode::Force2_4GHz, "1", 36, HwMode::A), Ok((1, HwMode::G)));
    assert_eq!(select_channel(BandMode::Force5GHz, "Auto", 6, HwMode::G), Ok((149, HwMode::A)));
    assert_eq!(select_channel(BandMode::Force5GHz, "44", 6, HwMode::G), Ok((44, HwMode::A)));
    assert_eq!(
        select_channel(BandMode::Auto, "Auto", 100, HwMode::A),
        Err("Error: Channel 100 is a DFS radar channel. Hotspot (AP mode) is prohibited on DFS channels by regulatory rules. Please choose a non-DFS channel (e.g. 5GHz: 36-48, 149-165, or 2.4GHz: 1, 6, 11).".to_string())
    );
    assert!(select_channel(BandMode::Force5GHz, "52", 6, HwMode::G).is_err());
}

#[test]
fn setup_failure_messages() {
    assert_eq!(setup_failure_message(false), "Error: Administrator (root/pkexec) privileges required to configure wireless interfaces.");
    assert_eq!(setup_failure_message(true), "Error: Failed to create virtual AP interface. Your Wi-Fi adapter or driver may not support concurrent AP+Station mode.");
}

#[test]
fn hostapd_configuration() {
    let expected = "interface=ap0\nssid=MyNet\nhw_mode=a\nchannel=36\nmacaddr_acl=0\ndeny_mac_file=/tmp/rust_hostapd.deny\nctrl_interface=/tmp/rust_hostapd_ctrl\nctrl_interface_group=0\nmax_num_sta=10\nauth_algs=1\nignore_broadcast_ssid=0\nwpa=2\nwpa_passphrase=secret123\nwpa_key_mgmt=WPA-PSK\nwpa_pairwise=TKIP\nrsn_pairwise=CCMP\nieee80211n=1\n";
    assert_eq!(hostapd_config("ap0", "MyNet", HwMode::A, 36, 10, "secret123"), expected);
    let g = hostapd_config("ap0", "MyNet", HwMode::G, 6, 32, "pw");
    assert!(g.contains("hw_mode=g\nchannel=6\n"));
    assert!(g.contains("max_num_sta=32\n"));
    assert!(!g.contains("ieee80211n"));
}

#[test]
fn dnsmasq_configuration() {
    assert_eq!(
        dnsmasq_config("ap0"),
        "interface=ap0\nbind-interfaces\nlisten-address=192.168.50.1\nexcept-interface=lo\nport=53\ndhcp-authoritative\ndhcp-leasefile=/tmp/rust_dnsmasq.leases\ndomain-needed\nbogus-priv\ndhcp-range=192.168.50.10,192.168.50.250,12h\ndhcp-option=option:dns-server,8.8.8.8,1.1.1.1\nserver=8.8.8.8\nserver=1.1.1.1\n"
    );
}

fn resync_with_std_strings(content: &str, new_channel: u32, new_mode: &str) -> String {
    let mut new_lines = Vec::new();
    for line in content.lines() {
        if line.starts_with("channel=") {
            new_lines.push(format!("channel={}", new_channel));
        } else if line.starts_with("hw_mode=") {
            new_lines.push(format!("hw_mode={}", new_mode));
        } else {
            new_lines.push(line.to_string());
        }
    }
    if new_mode == "a" && !content.contains("ieee80211n=") {
        new_lines.push("ieee80211n=1".to_string());
    }
    new_lines.join("\n") + "\n"
}

#[test]
fn resync_rewrites_channel_and_mode() {
    let conf = "interface=ap0\nssid=x\nhw_mode=g\nchannel=6\nwpa=2\n";
    assert_eq!(resync_hostapd_config(conf, 36, HwMode::A), "interface=ap0\nssid=x\nhw_mode=a\nchannel=36\nwpa=2\nieee80211n=1\n");
    for (c, ch, m, ms) in [
        (conf, 11u32, HwMode::G, "g"),
        ("", 6, HwMode::G, "g"),
        ("", 36, HwMode::A, "a"),
        ("hw_mode=a\nieee80211n=1\nchannel=36", 149, HwMode::A, "a"),
        ("a\r\n\nchannel=1\r\n", 6, HwMode::G, "g"),
    ] {
        assert_eq!(resync_hostapd_config(c, ch, m), resync_with_std_strings(c, ch, ms));
    }
}

#[test]
fn hostapd_failure_reasons() {
    assert_eq!(
        hostapd_failure_reason("x\nChannel 100 not allowed for AP mode\n", 100, 100),
        "Error: Channel 100 is restricted by radar/DFS regulations. AP mode cannot transmit on DFS channels."
    );
    assert_eq!(
        hostapd_failure_reason("nl80211: Failed to set beacon parameters\n", 149, 36),
        "Error: Channel conflict! Hotspot channel (149) does not match active Wi-Fi channel (36). Hardware only supports 1 channel synthesizer."
    );
    assert_eq!(hostapd_failure_reason("first\nlast problem\n  \n", 6, 6), "Error: hostapd error: last problem");
    assert_eq!(hostapd_failure_reason("", 6, 6), "Error: hostapd error: Unknown error");
}

#[test]
fn status_messages() {
    assert_eq!(running_message(HwMode::A, 36), "Hotspot running successfully! (Mode: 5GHz, Channel: 36)");
    assert_eq!(running_message(HwMode::G, 6), "Hotspot running successfully! (Mode: 2.4GHz, Channel: 6)");
    assert_eq!(stop_message(true), "Hotspot stopped. Wi-Fi restored to Auto.");
    assert_eq!(stop_message(false), "Hotspot stopped.");
}
