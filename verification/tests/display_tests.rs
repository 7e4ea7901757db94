use wifi_hotspot::channel::{AvailableChannel, BandMode, HwMode};
use wifi_hotspot::display::{
    band_label, channel_choices, channel_tag, hardware_description, signal_level, status_badge,
    status_tone, unii_band_name, ChannelTag, SignalLevel, StatusBadge, StatusTone,
};

#[test]
fn badges() {
    assert_eq!(status_badge(true, "Error: x"), StatusBadge::Active);
    assert_eq!(status_badge(false, "Error: x"), StatusBadge::Error);
    assert_eq!(status_badge(false, "Ready"), StatusBadge::Ready);
}

#[test]
fn tones() {
    assert_eq!(status_tone("Error: boom"), StatusTone::Failure);
    assert_eq!(status_tone("Hotspot running successfully!"), StatusTone::Success);
    assert_eq!(status_tone("Hotspot synchronized with 'x'"), StatusTone::Success);
    assert_eq!(status_tone("Starting hotspot"), StatusTone::Pending);
}

#[test]
fn signal_levels() {
    assert_eq!(signal_level(-45), SignalLevel::Strong);
    assert_eq!(signal_level(-60), SignalLevel::Fair);
    assert_eq!(signal_level(-74), SignalLevel::Fair);
    assert_eq!(signal_level(-75), SignalLevel::Weak);
}

#[test]
fn hardware() {
    assert!(hardware_description("iwlwifi").starts_with("Intel"));
    assert!(hardware_description("rtw89_8852be").starts_with("Realtek"));
    assert!(hardware_description("rtl8821ce").starts_with("Realtek"));
    assert!(hardware_description("mt7921e").starts_with("MediaTek"));
    assert!(hardware_description("ath11k_pci").starts_with("Qualcomm"));
    assert!(hardware_description("brcmfmac").starts_with("Broadcom"));
    assert!(hardware_description("wl").starts_with("Broadcom"));
    assert_eq!(hardware_description("Unknown"), "Standard Linux nl80211 wireless device");
}

#[test]
fn offered_channels() {
    assert_eq!(channel_choices(BandMode::Force2_4GHz), vec![1, 6, 11]);
    assert_eq!(channel_choices(BandMode::Force5GHz), vec![36, 40, 44, 48, 149, 153, 157, 161, 165]);
    assert!(channel_choices(BandMode::Auto).is_empty());
    assert_eq!(unii_band_name(48), "U-NII-1");
    assert_eq!(unii_band_name(149), "U-NII-3");
    assert_eq!(band_label(HwMode::A), "5 GHz");
    assert_eq!(band_label(HwMode::G), "2.4 GHz");
}

#[test]
fn channel_tags() {
    let c = |channel: u32, is_5ghz: bool, is_dfs: bool| AvailableChannel {
        channel,
        freq_mhz: 0,
        is_5ghz,
        is_dfs,
        bssid: String::new(),
        ssid: String::new(),
    };
    assert_eq!(channel_tag(&c(100, true, true)), ChannelTag::Dfs);
    assert_eq!(channel_tag(&c(36, true, false)), ChannelTag::FiveGhz);
    assert_eq!(channel_tag(&c(6, false, false)), ChannelTag::TwoGhz);
}
