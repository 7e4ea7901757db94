//! The judgements behind the window's colours and labels.
use vstd::prelude::*;

use crate::channel::{AvailableChannel, BandMode, HwMode};
use crate::text::{chars_of, contains_text, has_prefix, has_substring, starts_with};

verus! {

/// The badge beside the title.
#[derive(Debug, PartialEq, Eq, Clone, Copy, Structural)]
pub enum StatusBadge {
    Active,
    Error,
    Ready,
}

/// The badge: `ACTIVE` while the hotspot runs, `ERROR` when the status is an
/// error, else `READY`.
pub fn status_badge(is_running: bool, status: &str) -> (r: StatusBadge)
    ensures
        r == if is_running {
            StatusBadge::Active
        } else if starts_with(status@, "Error"@) {
            StatusBadge::Error
        } else {
            StatusBadge::Ready
        },
{
    if is_running {
        StatusBadge::Active
    } else if has_prefix(&chars_of(status), "Error") {
        StatusBadge::Error
    } else {
        StatusBadge::Ready
    }
}

/// The colour class of the status line.
#[derive(Debug, PartialEq, Eq, Clone, Copy, Structural)]
pub enum StatusTone {
    Failure,
    Success,
    Pending,
}

/// Errors are failures; a running or re-synchronized hotspot is a success;
/// anything else is pending.
pub fn status_tone(status: &str) -> (r: StatusTone)
    ensures
        r == if starts_with(status@, "Error"@) {
            StatusTone::Failure
        } else if starts_with(status@, "Hotspot running"@) || contains_text(
            status@,
            "synchronized"@,
        ) {
            StatusTone::Success
        } else {
            StatusTone::Pending
        },
{
    let s = chars_of(status);
    if has_prefix(&s, "Error") {
        StatusTone::Failure
    } else if has_prefix(&s, "Hotspot running") || has_substring(&s, "synchronized") {
        StatusTone::Success
    } else {
        StatusTone::Pending
    }
}

/// The strength class of a client's signal.
#[derive(Debug, PartialEq, Eq, Clone, Copy, Structural)]
pub enum SignalLevel {
    Strong,
    Fair,
    Weak,
}

/// Above -60 dBm strong, above -75 dBm fair, else weak.
pub fn signal_level(signal_dbm: i32) -> (r: SignalLevel)
    ensures
        r == if signal_dbm > -60 {
            SignalLevel::Strong
        } else if signal_dbm > -75 {
            SignalLevel::Fair
        } else {
            SignalLevel::Weak
        },
{
    if signal_dbm > -60 {
        SignalLevel::Strong
    } else if signal_dbm > -75 {
        SignalLevel::Fair
    } else {
        SignalLevel::Weak
    }
}

pub open spec fn hardware_text(driver: Seq<char>) -> Seq<char> {
    if driver == "iwlwifi"@ {
        "Intel Wireless (Single Synthesizer: Hotspot must match Wi-Fi channel; DFS AP mode blocked by firmware)"@
    } else if starts_with(driver, "rtw"@) || starts_with(driver, "rtl"@) {
        "Realtek Wireless (AP concurrency varies by chipset/driver model)"@
    } else if starts_with(driver, "mt7"@) {
        "MediaTek Wireless (Concurrent AP/STA mode supported in modern kernels)"@
    } else if starts_with(driver, "ath"@) {
        "Qualcomm Atheros (Virtual interface and AP mode supported)"@
    } else if starts_with(driver, "brcm"@) || driver == "wl"@ {
        "Broadcom Wireless (Proprietary wl driver does not support virtual AP)"@
    } else {
        "Standard Linux nl80211 wireless device"@
    }
}

/// What the kernel driver's name says of the hardware's AP support.
pub fn hardware_description(driver: &str) -> (r: &'static str)
    ensures
        r@ == hardware_text(driver@),
{
    let d = chars_of(driver);
    let iwl = chars_of("iwlwifi");
    let wl = chars_of("wl");
    if crate::text::chars_eq(&d, &iwl) {
        "Intel Wireless (Single Synthesizer: Hotspot must match Wi-Fi channel; DFS AP mode blocked by firmware)"
    } else if has_prefix(&d, "rtw") || has_prefix(&d, "rtl") {
        "Realtek Wireless (AP concurrency varies by chipset/driver model)"
    } else if has_prefix(&d, "mt7") {
        "MediaTek Wireless (Concurrent AP/STA mode supported in modern kernels)"
    } else if has_prefix(&d, "ath") {
        "Qualcomm Atheros (Virtual interface and AP mode supported)"
    } else if has_prefix(&d, "brcm") || crate::text::chars_eq(&d, &wl) {
        "Broadcom Wireless (Proprietary wl driver does not support virtual AP)"
    } else {
        "Standard Linux nl80211 wireless device"
    }
}

/// The channels offered for a forced band: 1, 6 and 11 at 2.4 GHz; the
/// U-NII-1 and U-NII-3 channels at 5 GHz; none in automatic mode.
pub fn channel_choices(band_mode: BandMode) -> (r: Vec<u32>)
    ensures
        r@ == match band_mode {
            BandMode::Force2_4GHz => seq![1u32, 6, 11],
            BandMode::Force5GHz => seq![36u32, 40, 44, 48, 149, 153, 157, 161, 165],
            BandMode::Auto => Seq::<u32>::empty(),
        },
{
    match band_mode {
        BandMode::Force2_4GHz => {
            let v = vec![1u32, 6, 11];
            assert(v@ =~= seq![1u32, 6, 11]);
            v
        },
        BandMode::Force5GHz => {
            let v = vec![36u32, 40, 44, 48, 149, 153, 157, 161, 165];
            assert(v@ =~= seq![36u32, 40, 44, 48, 149, 153, 157, 161, 165]);
            v
        },
        BandMode::Auto => Vec::new(),
    }
}

/// The 5 GHz sub-band of an offered channel: U-NII-1 up to channel 48,
/// else U-NII-3.
pub fn unii_band_name(channel: u32) -> (r: &'static str)
    ensures
        r@ == if channel <= 48 {
            "U-NII-1"@
        } else {
            "U-NII-3"@
        },
{
    if channel <= 48 {
        "U-NII-1"
    } else {
        "U-NII-3"
    }
}

/// The band of the station's connection: 5 GHz in mode `a`, else 2.4 GHz.
pub fn band_label(mode: HwMode) -> (r: &'static str)
    ensures
        r@ == if mode == HwMode::A {
            "5 GHz"@
        } else {
            "2.4 GHz"@
        },
{
    if mode == HwMode::A {
        "5 GHz"
    } else {
        "2.4 GHz"
    }
}

/// How a scanned channel is marked.
#[derive(Debug, PartialEq, Eq, Clone, Copy, Structural)]
pub enum ChannelTag {
    Dfs,
    FiveGhz,
    TwoGhz,
}

/// DFS channels are marked as such; others by band.
pub fn channel_tag(c: &AvailableChannel) -> (r: ChannelTag)
    ensures
        r == if c.is_dfs {
            ChannelTag::Dfs
        } else if c.is_5ghz {
            ChannelTag::FiveGhz
        } else {
            ChannelTag::TwoGhz
        },
{
    if c.is_dfs {
        ChannelTag::Dfs
    } else if c.is_5ghz {
        ChannelTag::FiveGhz
    } else {
        ChannelTag::TwoGhz
    }
}

} // verus!
