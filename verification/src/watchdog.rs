//! The watch kept while the hotspot runs: following the station when it
//! moves to another network or channel.
use vstd::prelude::*;

use crate::channel::HwMode;
use crate::launch::gigahertz_text;
use crate::numeric::{decimal, push_decimal};
use crate::probe::ActiveWifi;
use crate::text::{chars_eq, chars_of, push_str, string_from_chars};

verus! {

/// The station connection that the hotspot last followed.
pub struct Watchdog {
    pub last_channel: u32,
    pub last_ssid: String,
}

/// What a reading of the station connection calls for.
#[derive(Debug)]
pub enum WatchdogEvent {
    /// Nothing changed.
    Idle,
    /// The station moved to a DFS channel, which the access point cannot
    /// follow; the status to show.
    DfsPaused(String),
    /// The station moved to another channel: move the access point there,
    /// then call `confirm_resync`; the status to show meanwhile.
    Resync(String),
    /// The station joined another network on the same channel; the status to
    /// show.
    UpstreamChanged(String),
}

pub ghost enum WatchKind {
    Idle,
    DfsPaused,
    Resync,
    UpstreamChanged,
}

/// What a reading (network `ssid` on channel `ch`, a DFS channel or not)
/// calls for, given the connection last followed.
pub open spec fn watch_kind(
    last_channel: u32,
    last_ssid: Seq<char>,
    ch: u32,
    ssid: Seq<char>,
    is_dfs: bool,
) -> WatchKind {
    if ch > 0 && ch != last_channel {
        if is_dfs {
            WatchKind::DfsPaused
        } else {
            WatchKind::Resync
        }
    } else if ssid.len() > 0 && ssid != last_ssid {
        WatchKind::UpstreamChanged
    } else {
        WatchKind::Idle
    }
}

pub open spec fn dfs_paused_text(ssid: Seq<char>, ch: u32) -> Seq<char> {
    "\u{26a0}\u{fe0f} Upstream Wi-Fi switched to '"@ + ssid + "' on DFS Channel "@ + decimal(
        ch as nat,
    ) + ". Hotspot paused to avoid hardware synthesizer conflict."@
}

pub open spec fn resyncing_text(ssid: Seq<char>, ch: u32) -> Seq<char> {
    "Upstream Wi-Fi switched to '"@ + ssid + "' (Ch "@ + decimal(ch as nat)
        + "). Re-synchronizing hotspot..."@
}

pub open spec fn upstream_text(ssid: Seq<char>, ch: u32) -> Seq<char> {
    "Hotspot running (Upstream connected to '"@ + ssid + "', Ch "@ + decimal(ch as nat) + ")"@
}

pub open spec fn synchronized_text(ssid: Seq<char>, mode: HwMode, ch: u32) -> Seq<char> {
    "Hotspot synchronized with '"@ + ssid + "' ("@ + gigahertz_text(mode) + "GHz, Ch "@ + decimal(
        ch as nat,
    ) + ")"@
}

impl Watchdog {
    /// A watch that starts out following `channel` and network `ssid`.
    pub fn new(channel: u32, ssid: String) -> (r: Watchdog)
        ensures
            r.last_channel == channel,
            r.last_ssid@ == ssid@,
    {
        Watchdog { last_channel: channel, last_ssid: ssid }
    }

    /// Takes a reading of the station connection.  Only a new network on the
    /// same channel is taken as followed here; a new channel is followed
    /// once the access point has moved (`confirm_resync`).
    pub fn observe(&mut self, cur: &ActiveWifi) -> (r: WatchdogEvent)
        ensures
            final(self).last_channel == old(self).last_channel,
            match r {
                WatchdogEvent::Idle => watch_kind(
                    old(self).last_channel,
                    old(self).last_ssid@,
                    cur.channel,
                    cur.ssid@,
                    cur.is_dfs,
                ) == WatchKind::Idle && final(self).last_ssid@ == old(self).last_ssid@,
                WatchdogEvent::DfsPaused(m) => watch_kind(
                    old(self).last_channel,
                    old(self).last_ssid@,
                    cur.channel,
                    cur.ssid@,
                    cur.is_dfs,
                ) == WatchKind::DfsPaused && m@ == dfs_paused_text(cur.ssid@, cur.channel)
                    && final(self).last_ssid@ == old(self).last_ssid@,
                WatchdogEvent::Resync(m) => watch_kind(
                    old(self).last_channel,
                    old(self).last_ssid@,
                    cur.channel,
                    cur.ssid@,
                    cur.is_dfs,
                ) == WatchKind::Resync && m@ == resyncing_text(cur.ssid@, cur.channel)
                    && final(self).last_ssid@ == old(self).last_ssid@,
                WatchdogEvent::UpstreamChanged(m) => watch_kind(
                    old(self).last_channel,
                    old(self).last_ssid@,
                    cur.channel,
                    cur.ssid@,
                    cur.is_dfs,
                ) == WatchKind::UpstreamChanged && m@ == upstream_text(cur.ssid@, cur.channel)
                    && final(self).last_ssid@ == cur.ssid@,
            },
    {
        let ssid = chars_of(cur.ssid.as_str());
        if cur.channel > 0 && cur.channel != self.last_channel {
            if cur.is_dfs {
                let mut m: Vec<char> = Vec::new();
                push_str(&mut m, "\u{26a0}\u{fe0f} Upstream Wi-Fi switched to '");
                push_str(&mut m, cur.ssid.as_str());
                push_str(&mut m, "' on DFS Channel ");
                push_decimal(&mut m, cur.channel as u64);
                push_str(&mut m, ". Hotspot paused to avoid hardware synthesizer conflict.");
                assert(m@ =~= dfs_paused_text(cur.ssid@, cur.channel));
                WatchdogEvent::DfsPaused(string_from_chars(m))
            } else {
                let mut m: Vec<char> = Vec::new();
                push_str(&mut m, "Upstream Wi-Fi switched to '");
                push_str(&mut m, cur.ssid.as_str());
                push_str(&mut m, "' (Ch ");
                push_decimal(&mut m, cur.channel as u64);
                push_str(&mut m, "). Re-synchronizing hotspot...");
                assert(m@ =~= resyncing_text(cur.ssid@, cur.channel));
                WatchdogEvent::Resync(string_from_chars(m))
            }
        } else {
            let last = chars_of(self.last_ssid.as_str());
            if ssid.len() > 0 && !chars_eq(&ssid, &last) {
                self.last_ssid = cur.ssid.clone();
                let mut m: Vec<char> = Vec::new();
                push_str(&mut m, "Hotspot running (Upstream connected to '");
                push_str(&mut m, cur.ssid.as_str());
                push_str(&mut m, "', Ch ");
                push_decimal(&mut m, cur.channel as u64);
                push_str(&mut m, ")");
                assert(m@ =~= upstream_text(cur.ssid@, cur.channel));
                WatchdogEvent::UpstreamChanged(string_from_chars(m))
            } else {
                WatchdogEvent::Idle
            }
        }
    }

    /// The access point has moved to the station's channel: follow the
    /// reading `cur`, and give the status to show.
    pub fn confirm_resync(&mut self, cur: &ActiveWifi) -> (r: String)
        ensures
            final(self).last_channel == cur.channel,
            final(self).last_ssid@ == cur.ssid@,
            r@ == synchronized_text(cur.ssid@, cur.mode, cur.channel),
    {
        self.last_channel = cur.channel;
        self.last_ssid = cur.ssid.clone();
        let mut m: Vec<char> = Vec::new();
        push_str(&mut m, "Hotspot synchronized with '");
        push_str(&mut m, cur.ssid.as_str());
        push_str(&mut m, "' (");
        push_str(
            &mut m,
            if cur.mode == HwMode::A {
                "5"
            } else {
                "2.4"
            },
        );
        push_str(&mut m, "GHz, Ch ");
        push_decimal(&mut m, cur.channel as u64);
        push_str(&mut m, ")");
        assert(m@ =~= synchronized_text(cur.ssid@, cur.mode, cur.channel));
        string_from_chars(m)
    }
}

/// A reading that the watch has just followed calls for nothing more: the
/// hotspot does not move again, nor announce the network again.
pub proof fn law_followed_reading_is_quiet(ch: u32, ssid: Seq<char>, is_dfs: bool)
    ensures
        watch_kind(ch, ssid, ch, ssid, is_dfs) == WatchKind::Idle,
{
}

/// Once the watch has taken in a new network, the same reading again calls
/// for nothing.
pub proof fn law_upstream_change_announced_once(
    last_channel: u32,
    last_ssid: Seq<char>,
    ch: u32,
    ssid: Seq<char>,
    is_dfs: bool,
)
    requires
        watch_kind(last_channel, last_ssid, ch, ssid, is_dfs) == WatchKind::UpstreamChanged,
    ensures
        watch_kind(last_channel, ssid, ch, ssid, is_dfs) == WatchKind::Idle,
{
}

/// A reading on a DFS channel never moves the access point.
pub proof fn law_never_resync_to_dfs(
    last_channel: u32,
    last_ssid: Seq<char>,
    ch: u32,
    ssid: Seq<char>,
)
    ensures
        watch_kind(last_channel, last_ssid, ch, ssid, true) != WatchKind::Resync,
{
}

/// What a reading calls for, over all readings: a move to another channel
/// (any channel but 0) is followed (`Resync`) unless it is a DFS channel
/// (`DfsPaused`), whether or not the network changed too; on the same
/// channel (or with no channel read) only a named network other than the
/// one followed is announced; anything else calls for nothing.
pub proof fn law_reading_outcomes(
    last_channel: u32,
    last_ssid: Seq<char>,
    ch: u32,
    ssid: Seq<char>,
    is_dfs: bool,
)
    ensures
        ch > 0 && ch != last_channel && !is_dfs ==> watch_kind(
            last_channel,
            last_ssid,
            ch,
            ssid,
            is_dfs,
        ) == WatchKind::Resync,
        ch > 0 && ch != last_channel && is_dfs ==> watch_kind(
            last_channel,
            last_ssid,
            ch,
            ssid,
            is_dfs,
        ) == WatchKind::DfsPaused,
        (ch == 0 || ch == last_channel) && ssid.len() > 0 && ssid != last_ssid ==> watch_kind(
            last_channel,
            last_ssid,
            ch,
            ssid,
            is_dfs,
        ) == WatchKind::UpstreamChanged,
        (ch == 0 || ch == last_channel) && (ssid.len() == 0 || ssid == last_ssid) ==> watch_kind(
            last_channel,
            last_ssid,
            ch,
            ssid,
            is_dfs,
        ) == WatchKind::Idle,
{
}

/// A roam of the same network to another channel that is no DFS channel
/// moves the access point: `observe` answers `Resync`.
pub proof fn law_roam_same_network_resyncs(last_channel: u32, ssid: Seq<char>, ch: u32)
    requires
        ch > 0,
        ch != last_channel,
    ensures
        watch_kind(last_channel, ssid, ch, ssid, false) == WatchKind::Resync,
{
}

} // verus!
