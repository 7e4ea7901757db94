//! The hotspot manager's state apart from its windows and threads: what the
//! user has set, and what is known of the station connection.
use vstd::prelude::*;

use crate::channel::{
    channel_views, scan_channels_for_ssid, scanned_channels, AvailableChannel, BandMode, HwMode,
};
use crate::clock::seconds_since_epoch;
use crate::numeric::push_decimal;
use crate::probe::{
    channel_and_mode, detect_active_wifi_details, detect_driver_name, linked_ssid, opt_text,
};
use crate::text::{chars_of, owned, push_str, string_from_chars};
use crate::units::{
    byte_count_text, nearest_f64_exec, push_clock, push_one_decimal, timestamp_text,
};

verus! {

/// What the user sets.
pub struct HotspotSettings {
    pub interface: String,
    pub available_interfaces: Vec<String>,
    pub ssid: String,
    pub password: String,
    pub show_password: bool,
    pub ap_interface: String,
    pub band_mode: BandMode,
    pub custom_channel: String,
    pub auto_resolve_dfs: bool,
    pub max_connections: u32,
    pub manual_block_mac: String,
}

/// What is known of the station interface and its connection.
pub struct WifiState {
    pub driver_name: String,
    pub active_ssid: String,
    pub active_channel: u32,
    pub active_mode: HwMode,
    pub available_network_channels: Vec<AvailableChannel>,
}

pub struct HotspotApp {
    pub settings: HotspotSettings,
    pub wifi: WifiState,
}

impl HotspotApp {
    /// The state at start-up, for the station interfaces `detected` (the
    /// first of them is used, `wlan0` when there is none): the default
    /// network name, password, AP interface `ap0`, automatic band and
    /// channel, DFS resolution on, at most 10 clients; nothing known yet of
    /// the connection (`refresh_wifi_info` fills it in).
    pub fn new(detected: Vec<String>) -> (r: HotspotApp)
        ensures
            r.settings.interface@ == if detected@.len() > 0 {
                detected@[0]@
            } else {
                "wlan0"@
            },
            r.settings.available_interfaces@ == detected@,
            r.settings.ssid@ == "RustHotspot"@,
            r.settings.password@ == "password123"@,
            !r.settings.show_password,
            r.settings.ap_interface@ == "ap0"@,
            r.settings.band_mode == BandMode::Auto,
            r.settings.custom_channel@ == "Auto"@,
            r.settings.auto_resolve_dfs,
            r.settings.max_connections == 10,
            r.settings.manual_block_mac@.len() == 0,
            r.wifi.driver_name@ == "Unknown"@,
            r.wifi.active_ssid@.len() == 0,
            r.wifi.active_channel == 6,
            r.wifi.active_mode == HwMode::G,
            r.wifi.available_network_channels@.len() == 0,
    {
        let interface = if detected.len() > 0 {
            detected[0].clone()
        } else {
            owned("wlan0")
        };
        HotspotApp {
            settings: HotspotSettings {
                interface,
                available_interfaces: detected,
                ssid: owned("RustHotspot"),
                password: owned("password123"),
                show_password: false,
                ap_interface: owned("ap0"),
                band_mode: BandMode::Auto,
                custom_channel: owned("Auto"),
                auto_resolve_dfs: true,
                max_connections: 10,
                manual_block_mac: String::new(),
            },
            wifi: WifiState {
                driver_name: owned("Unknown"),
                active_ssid: String::new(),
                active_channel: 6,
                active_mode: HwMode::G,
                available_network_channels: Vec::new(),
            },
        }
    }

    /// Takes a new list of station interfaces and selects its first one.
    pub fn refresh_interfaces(&mut self, detected: Vec<String>)
        ensures
            final(self).settings.available_interfaces@ == detected@,
            final(self).settings.interface@ == if detected@.len() > 0 {
                detected@[0]@
            } else {
                old(self).settings.interface@
            },
            final(self).settings.ssid == old(self).settings.ssid,
            final(self).settings.password == old(self).settings.password,
            final(self).settings.show_password == old(self).settings.show_password,
            final(self).settings.ap_interface == old(self).settings.ap_interface,
            final(self).settings.band_mode == old(self).settings.band_mode,
            final(self).settings.custom_channel == old(self).settings.custom_channel,
            final(self).settings.auto_resolve_dfs == old(self).settings.auto_resolve_dfs,
            final(self).settings.max_connections == old(self).settings.max_connections,
            final(self).settings.manual_block_mac == old(self).settings.manual_block_mac,
            final(self).wifi == old(self).wifi,
    {
        if detected.len() > 0 {
            self.settings.interface = detected[0].clone();
        }
        self.settings.available_interfaces = detected;
    }

    /// Takes in what the system reports of the station interface: the file
    /// name of its driver link (`None` when it has none), the output of
    /// `iw dev <iface> info` and of `iw dev <iface> link`, and the output of
    /// the network scan (used only when a network is connected).  The
    /// settings stay as they are.
    pub fn refresh_wifi_info(
        &mut self,
        driver_link: Option<String>,
        iw_info: Option<&str>,
        iw_link: Option<&str>,
        scan: Option<&str>,
    )
        ensures
            final(self).settings == old(self).settings,
            final(self).wifi.driver_name@ == match driver_link {
                Some(n) => n@,
                None => "Unknown"@,
            },
            final(self).wifi.active_ssid@ == linked_ssid(opt_text(iw_link)),
            (final(self).wifi.active_channel, final(self).wifi.active_mode) == channel_and_mode(
                opt_text(iw_info),
            ),
            channel_views(final(self).wifi.available_network_channels@) == if linked_ssid(
                opt_text(iw_link),
            ).len() == 0 {
                Seq::empty()
            } else {
                scanned_channels(opt_text(scan), linked_ssid(opt_text(iw_link)))
            },
    {
        self.wifi.driver_name = detect_driver_name(driver_link);
        let details = detect_active_wifi_details(iw_info, iw_link);
        self.wifi.active_channel = details.channel;
        self.wifi.active_mode = details.mode;
        let ssid_chars = chars_of(details.ssid.as_str());
        self.wifi.available_network_channels = if ssid_chars.len() > 0 {
            scan_channels_for_ssid(scan, details.ssid.as_str())
        } else {
            let empty: Vec<AvailableChannel> = Vec::new();
            assert(channel_views(empty@) =~= Seq::empty());
            empty
        };
        self.wifi.active_ssid = details.ssid;
    }

    /// A byte count as the device list shows it: `B` below 1024, else one
    /// decimal in `KB`, `MB` or `GB` (powers of 1024), counts from 2^53 up
    /// first rounded as `u64 as f64` rounds them.
    pub fn format_bytes(bytes: u64) -> (r: String)
        ensures
            r@ == byte_count_text(bytes),
    {
        let mut out: Vec<char> = Vec::new();
        if bytes >= 0x4000_0000 {
            let m = nearest_f64_exec(bytes);
            push_one_decimal(&mut out, m, 0x4000_0000);
            push_str(&mut out, " GB");
        } else if bytes >= 0x10_0000 {
            push_one_decimal(&mut out, bytes as u128, 0x10_0000);
            push_str(&mut out, " MB");
        } else if bytes >= 0x400 {
            push_one_decimal(&mut out, bytes as u128, 0x400);
            push_str(&mut out, " KB");
        } else {
            push_decimal(&mut out, bytes);
            push_str(&mut out, " B");
        }
        string_from_chars(out)
    }

    /// The time stamp for a ban made now: `HH:MM:SS UTC` by the system clock,
    /// or `Banned` when the clock reads before the Unix epoch.
    pub fn simple_timestamp() -> (r: String)
        ensures
            exists|secs: Option<u64>| r@ == timestamp_text(secs),
    {
        let secs = seconds_since_epoch();
        format_timestamp(secs)
    }
}

/// The time stamp for `secs` seconds since the Unix epoch, `None` standing for
/// a clock that reads earlier.
pub fn format_timestamp(secs: Option<u64>) -> (r: String)
    ensures
        r@ == timestamp_text(secs),
{
    let mut out: Vec<char> = Vec::new();
    match secs {
        Some(s) => push_clock(&mut out, s),
        None => push_str(&mut out, "Banned"),
    }
    assert(out@ =~= timestamp_text(secs));
    string_from_chars(out)
}

} // verus!
