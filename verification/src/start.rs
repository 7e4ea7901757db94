//! The start of the hotspot as a sequence of steps: each step takes what
//! the last outside action reported and says what to do next.
use vstd::prelude::*;

use crate::channel::{
    channel_views, spec_is_dfs_channel, AvailableChannel, AvailableChannelView, BandMode, HwMode,
};
use crate::launch::{
    channel_settled, chosen_channel, first_clear_at, dfs_prohibited_text, dfs_refusal_text, first_non_dfs,
    hostapd_failure_reason, hostapd_failure_text, no_alternative_text, pick_alternative,
    law_auto_band_matches_station, plan_dfs, running_message, running_text, select_channel, setup_failure_message,
    setup_failure_text, switch_band_param, switch_failed_message, switch_failed_text,
    switching_text, DfsPlan,
};
use crate::probe::ActiveWifi;
use crate::text::{owned, starts_with};

verus! {

/// Where the start stands.
#[derive(Debug, PartialEq, Eq, Clone, Copy, Structural)]
pub enum StartPhase {
    /// Waiting for the station's connection details.
    Detecting,
    /// Waiting for the scan of the station's network.
    Scanning,
    /// Waiting for the station's active connection.
    FindingConnection,
    /// Waiting for the outcome of pinning the connection to another channel.
    Switching,
    /// Waiting for the station to settle on its new channel.
    Settling,
    /// Waiting for the virtual access point interface.
    CreatingInterface,
    /// Waiting to learn whether the program runs as root.
    CheckingRoot,
    /// Waiting to learn whether hostapd stayed up.
    Launching,
    /// Done: running, or stopped with an error.
    Finished,
}

/// The most polls of the station's channel after a switch.
pub open spec fn max_polls() -> u32 {
    16
}

/// What the start knows and has decided so far.
pub struct StartFlow {
    pub phase: StartPhase,
    pub band_mode: BandMode,
    pub custom_channel: String,
    pub auto_resolve_dfs: bool,
    pub station_ssid: String,
    pub station_channel: u32,
    pub station_mode: HwMode,
    pub target_channel: u32,
    pub target_bssid: String,
    pub target_5ghz: bool,
    pub polls: u32,
    pub channel: u32,
    pub mode: HwMode,
}

#[verifier::ext_equal]
pub ghost struct StartFlowView {
    pub phase: StartPhase,
    pub band_mode: BandMode,
    pub custom_channel: Seq<char>,
    pub auto_resolve_dfs: bool,
    pub station_ssid: Seq<char>,
    pub station_channel: u32,
    pub station_mode: HwMode,
    pub target_channel: u32,
    pub target_bssid: Seq<char>,
    pub target_5ghz: bool,
    pub polls: u32,
    pub channel: u32,
    pub mode: HwMode,
}

impl View for StartFlow {
    type V = StartFlowView;

    open spec fn view(&self) -> StartFlowView {
        StartFlowView {
            phase: self.phase,
            band_mode: self.band_mode,
            custom_channel: self.custom_channel@,
            auto_resolve_dfs: self.auto_resolve_dfs,
            station_ssid: self.station_ssid@,
            station_channel: self.station_channel,
            station_mode: self.station_mode,
            target_channel: self.target_channel,
            target_bssid: self.target_bssid@,
            target_5ghz: self.target_5ghz,
            polls: self.polls,
            channel: self.channel,
            mode: self.mode,
        }
    }
}

/// What the last outside action reported.
pub enum StartEvent {
    /// The station's connection details.
    Detected(ActiveWifi),
    /// The channels that a scan found for the station's network.
    Scanned(Vec<AvailableChannel>),
    /// The UUID of the station's active connection, if any.
    ConnectionFound(Option<String>),
    /// Whether the connection was pinned to the new channel and brought up.
    Switched(bool),
    /// A reading of the station's channel and mode.
    Polled(u32, HwMode),
    /// Whether the virtual access point interface was created (and, if so,
    /// given its address and brought up).
    InterfaceCreated(bool),
    /// Whether the program runs as root.
    RootChecked(bool),
    /// hostapd's log when it exited with a failure, `None` when it stayed up.
    HostapdChecked(Option<String>),
}

pub ghost enum StartEventView {
    Detected(Seq<char>, u32, HwMode),
    Scanned(Seq<AvailableChannelView>),
    ConnectionFound(Option<Seq<char>>),
    Switched(bool),
    Polled(u32, HwMode),
    InterfaceCreated(bool),
    RootChecked(bool),
    HostapdChecked(Option<Seq<char>>),
}

impl View for StartEvent {
    type V = StartEventView;

    open spec fn view(&self) -> StartEventView {
        match self {
            StartEvent::Detected(a) => StartEventView::Detected(a.ssid@, a.channel, a.mode),
            StartEvent::Scanned(c) => StartEventView::Scanned(channel_views(c@)),
            StartEvent::ConnectionFound(u) => StartEventView::ConnectionFound(
                match u {
                    Some(s) => Some(s@),
                    None => None,
                },
            ),
            StartEvent::Switched(b) => StartEventView::Switched(*b),
            StartEvent::Polled(c, m) => StartEventView::Polled(*c, *m),
            StartEvent::InterfaceCreated(b) => StartEventView::InterfaceCreated(*b),
            StartEvent::RootChecked(b) => StartEventView::RootChecked(*b),
            StartEvent::HostapdChecked(l) => StartEventView::HostapdChecked(
                match l {
                    Some(s) => Some(s@),
                    None => None,
                },
            ),
        }
    }
}

/// What to do next.
#[derive(Debug)]
pub enum StartAction {
    /// Scan for the channels of this network.
    Scan(String),
    /// Show this status, then look up the station's active connection.
    FindConnection(String),
    /// Pin connection `uuid` to access point `bssid` and band `band`, and
    /// bring it up.
    Switch { uuid: String, bssid: String, band: String },
    /// Wait half a second and read the station's channel.
    Poll,
    /// Create the virtual access point interface.
    CreateInterface,
    /// Find out whether the program runs as root.
    CheckRoot,
    /// Write the configurations for this channel and mode and start hostapd
    /// and dnsmasq.
    Launch(u32, HwMode),
    /// Stop with this error status.
    Fail(String),
    /// The hotspot runs; show this status.
    Running(String),
    /// The report does not fit the step the start is at; nothing changed.
    Unexpected,
}

pub ghost enum StartActionView {
    Scan(Seq<char>),
    FindConnection(Seq<char>),
    Switch(Seq<char>, Seq<char>, Seq<char>),
    Poll,
    CreateInterface,
    CheckRoot,
    Launch(u32, HwMode),
    Fail(Seq<char>),
    Running(Seq<char>),
    Unexpected,
}

impl View for StartAction {
    type V = StartActionView;

    open spec fn view(&self) -> StartActionView {
        match self {
            StartAction::Scan(s) => StartActionView::Scan(s@),
            StartAction::FindConnection(s) => StartActionView::FindConnection(s@),
            StartAction::Switch { uuid, bssid, band } => StartActionView::Switch(
                uuid@,
                bssid@,
                band@,
            ),
            StartAction::Poll => StartActionView::Poll,
            StartAction::CreateInterface => StartActionView::CreateInterface,
            StartAction::CheckRoot => StartActionView::CheckRoot,
            StartAction::Launch(c, m) => StartActionView::Launch(*c, *m),
            StartAction::Fail(s) => StartActionView::Fail(s@),
            StartAction::Running(s) => StartActionView::Running(s@),
            StartAction::Unexpected => StartActionView::Unexpected,
        }
    }
}

/// The start stopped with the error `msg`.
pub open spec fn failed(v: StartFlowView, msg: Seq<char>) -> (StartFlowView, StartActionView) {
    (StartFlowView { phase: StartPhase::Finished, ..v }, StartActionView::Fail(msg))
}

/// The access point interface exists: choose its channel, refusing a DFS
/// channel.
pub open spec fn after_interface(v: StartFlowView) -> (StartFlowView, StartActionView) {
    let (ch, mode) = chosen_channel(v.band_mode, v.custom_channel, v.station_channel, v.station_mode);
    if spec_is_dfs_channel(ch) {
        failed(v, dfs_prohibited_text(ch))
    } else {
        (
            StartFlowView { phase: StartPhase::Launching, channel: ch, mode: mode, ..v },
            StartActionView::Launch(ch, mode),
        )
    }
}

/// Go on to create the access point interface.
pub open spec fn to_interface(v: StartFlowView) -> (StartFlowView, StartActionView) {
    (StartFlowView { phase: StartPhase::CreatingInterface, ..v }, StartActionView::CreateInterface)
}

/// One step of the start.  In automatic band mode a station on a DFS
/// channel is moved to the first non-DFS channel that a scan finds for its
/// network (when allowed, else the start stops); the station's channel is
/// polled at most `max_polls` times for it to settle; the access point
/// takes the channel that `chosen_channel` gives, never a DFS channel; each
/// stop before the hotspot runs carries an error status.
pub open spec fn start_next(v: StartFlowView, e: StartEventView) -> (StartFlowView, StartActionView) {
    match (v.phase, e) {
        (StartPhase::Detecting, StartEventView::Detected(ssid, ch, mode)) => {
            let w = StartFlowView {
                station_ssid: ssid,
                station_channel: ch,
                station_mode: mode,
                ..v
            };
            if v.band_mode == BandMode::Auto && spec_is_dfs_channel(ch) {
                if v.auto_resolve_dfs {
                    (StartFlowView { phase: StartPhase::Scanning, ..w }, StartActionView::Scan(ssid))
                } else {
                    failed(w, dfs_refusal_text(ch))
                }
            } else {
                to_interface(w)
            }
        },
        (StartPhase::Scanning, StartEventView::Scanned(c)) => {
            let i = first_non_dfs(c);
            if i < 0 {
                failed(v, no_alternative_text(v.station_channel, v.station_ssid))
            } else {
                (
                    StartFlowView {
                        phase: StartPhase::FindingConnection,
                        target_channel: c[i].channel,
                        target_bssid: c[i].bssid,
                        target_5ghz: c[i].is_5ghz,
                        ..v
                    },
                    StartActionView::FindConnection(
                        switching_text(v.station_channel, c[i], v.station_ssid),
                    ),
                )
            }
        },
        (StartPhase::FindingConnection, StartEventView::ConnectionFound(u)) => match u {
            None => to_interface(v),
            Some(uuid) => (
                StartFlowView { phase: StartPhase::Switching, ..v },
                StartActionView::Switch(
                    uuid,
                    v.target_bssid,
                    if v.target_5ghz {
                        "a"@
                    } else {
                        "bg"@
                    },
                ),
            ),
        },
        (StartPhase::Switching, StartEventView::Switched(ok)) => {
            if ok {
                (StartFlowView { phase: StartPhase::Settling, polls: 0, ..v }, StartActionView::Poll)
            } else {
                failed(v, switch_failed_text(v.station_channel, v.target_channel))
            }
        },
        (StartPhase::Settling, StartEventView::Polled(ch, mode)) => {
            let n: u32 = if v.polls < u32::MAX {
                (v.polls + 1) as u32
            } else {
                v.polls
            };
            if !spec_is_dfs_channel(ch) && (ch == v.target_channel || ch > 0) {
                to_interface(
                    StartFlowView { polls: n, station_channel: ch, station_mode: mode, ..v },
                )
            } else if n < max_polls() {
                (StartFlowView { polls: n, ..v }, StartActionView::Poll)
            } else {
                to_interface(StartFlowView { polls: n, ..v })
            }
        },
        (StartPhase::CreatingInterface, StartEventView::InterfaceCreated(ok)) => {
            if ok {
                after_interface(v)
            } else {
                (StartFlowView { phase: StartPhase::CheckingRoot, ..v }, StartActionView::CheckRoot)
            }
        },
        (StartPhase::CheckingRoot, StartEventView::RootChecked(root)) => failed(
            v,
            setup_failure_text(root),
        ),
        (StartPhase::Launching, StartEventView::HostapdChecked(log)) => match log {
            Some(l) => failed(v, hostapd_failure_text(l, v.channel, v.station_channel)),
            None => (
                StartFlowView { phase: StartPhase::Finished, ..v },
                StartActionView::Running(running_text(v.mode, v.channel)),
            ),
        },
        _ => (v, StartActionView::Unexpected),
    }
}

impl StartFlow {
    /// A start with the user's band, typed channel and DFS choice, waiting
    /// for the station's connection details.
    pub fn new(band_mode: BandMode, custom_channel: String, auto_resolve_dfs: bool) -> (r: StartFlow)
        ensures
            r@.phase == StartPhase::Detecting,
            r@.band_mode == band_mode,
            r@.custom_channel == custom_channel@,
            r@.auto_resolve_dfs == auto_resolve_dfs,
            r@.polls == 0,
    {
        StartFlow {
            phase: StartPhase::Detecting,
            band_mode,
            custom_channel,
            auto_resolve_dfs,
            station_ssid: String::new(),
            station_channel: 0,
            station_mode: HwMode::G,
            target_channel: 0,
            target_bssid: String::new(),
            target_5ghz: false,
            polls: 0,
            channel: 0,
            mode: HwMode::G,
        }
    }

    fn fail(&mut self, msg: String) -> (r: StartAction)
        ensures
            final(self)@ == (StartFlowView { phase: StartPhase::Finished, ..old(self)@ }),
            r@ == StartActionView::Fail(msg@),
    {
        self.phase = StartPhase::Finished;
        StartAction::Fail(msg)
    }

    fn create_interface(&mut self) -> (r: StartAction)
        ensures
            final(self)@ == to_interface(old(self)@).0,
            r@ == to_interface(old(self)@).1,
    {
        self.phase = StartPhase::CreatingInterface;
        StartAction::CreateInterface
    }

    /// Takes the report `event` and gives the next action.
    pub fn step(&mut self, event: StartEvent) -> (r: StartAction)
        ensures
            final(self)@ == start_next(old(self)@, event@).0,
            r@ == start_next(old(self)@, event@).1,
    {
        match (self.phase, event) {
            (StartPhase::Detecting, StartEvent::Detected(a)) => {
                self.station_channel = a.channel;
                self.station_mode = a.mode;
                self.station_ssid = a.ssid;
                match plan_dfs(self.band_mode, self.station_channel, self.auto_resolve_dfs) {
                    DfsPlan::Clear => self.create_interface(),
                    DfsPlan::SeekAlternative => {
                        self.phase = StartPhase::Scanning;
                        StartAction::Scan(self.station_ssid.clone())
                    },
                    DfsPlan::Refuse(msg) => self.fail(msg),
                }
            },
            (StartPhase::Scanning, StartEvent::Scanned(c)) => {
                match pick_alternative(&c, self.station_channel, self.station_ssid.as_str()) {
                    Err(msg) => self.fail(msg),
                    Ok((i, msg)) => {
                        assert(channel_views(c@)[i as int] == c@[i as int]@);
                        self.target_channel = c[i].channel;
                        self.target_bssid = c[i].bssid.clone();
                        self.target_5ghz = c[i].is_5ghz;
                        self.phase = StartPhase::FindingConnection;
                        StartAction::FindConnection(msg)
                    },
                }
            },
            (StartPhase::FindingConnection, StartEvent::ConnectionFound(u)) => match u {
                None => self.create_interface(),
                Some(uuid) => {
                    self.phase = StartPhase::Switching;
                    StartAction::Switch {
                        uuid,
                        bssid: self.target_bssid.clone(),
                        band: owned(switch_band_param(self.target_5ghz)),
                    }
                },
            },
            (StartPhase::Switching, StartEvent::Switched(ok)) => {
                if ok {
                    self.phase = StartPhase::Settling;
                    self.polls = 0;
                    StartAction::Poll
                } else {
                    let msg = switch_failed_message(self.station_channel, self.target_channel);
                    self.fail(msg)
                }
            },
            (StartPhase::Settling, StartEvent::Polled(ch, mode)) => {
                let n: u32 = if self.polls < 0xffff_ffff {
                    self.polls + 1
                } else {
                    self.polls
                };
                self.polls = n;
                if channel_settled(ch, self.target_channel) {
                    self.station_channel = ch;
                    self.station_mode = mode;
                    self.create_interface()
                } else if n < 16 {
                    StartAction::Poll
                } else {
                    self.create_interface()
                }
            },
            (StartPhase::CreatingInterface, StartEvent::InterfaceCreated(ok)) => {
                if ok {
                    match select_channel(
                        self.band_mode,
                        self.custom_channel.as_str(),
                        self.station_channel,
                        self.station_mode,
                    ) {
                        Ok((ch, mode)) => {
                            self.channel = ch;
                            self.mode = mode;
                            self.phase = StartPhase::Launching;
                            StartAction::Launch(ch, mode)
                        },
                        Err(msg) => self.fail(msg),
                    }
                } else {
                    self.phase = StartPhase::CheckingRoot;
                    StartAction::CheckRoot
                }
            },
            (StartPhase::CheckingRoot, StartEvent::RootChecked(root)) => {
                let msg = setup_failure_message(root);
                self.fail(msg)
            },
            (StartPhase::Launching, StartEvent::HostapdChecked(log)) => match log {
                Some(l) => {
                    let msg = hostapd_failure_reason(l.as_str(), self.channel, self.station_channel);
                    self.fail(msg)
                },
                None => {
                    self.phase = StartPhase::Finished;
                    StartAction::Running(running_message(self.mode, self.channel))
                },
            },
            _ => StartAction::Unexpected,
        }
    }
}

// ---------------------------------------------------------------------------
// Laws
// ---------------------------------------------------------------------------

/// hostapd is started only on a channel that is no DFS channel: the one that
/// `chosen_channel` gives for the station's final reading.
pub proof fn law_launch_never_on_dfs(v: StartFlowView, e: StartEventView)
    ensures
        start_next(v, e).1 matches StartActionView::Launch(ch, mode) ==> !spec_is_dfs_channel(ch)
            && (ch, mode) == chosen_channel(
            v.band_mode,
            v.custom_channel,
            v.station_channel,
            v.station_mode,
        ) && start_next(v, e).0.channel == ch && start_next(v, e).0.mode == mode,
{
}

/// In automatic band mode hostapd is started on the station's channel and
/// in its mode.
pub proof fn law_auto_launch_follows_station(v: StartFlowView, e: StartEventView)
    requires
        v.band_mode == BandMode::Auto,
    ensures
        start_next(v, e).1 matches StartActionView::Launch(ch, mode) ==> ch == v.station_channel
            && mode == v.station_mode,
{
}

proof fn lemma_error_prefix(p: Seq<char>, x: Seq<char>)
    requires
        p.len() >= 5,
        p.subrange(0, 5) == "Error"@,
    ensures
        starts_with(p + x, "Error"@),
{
    reveal_strlit("Error");
    assert((p + x).subrange(0, 5) =~= p.subrange(0, 5));
}

/// Every error text of the start begins with `Error`.
proof fn lemma_error_texts(c: u32, t: u32, ssid: Seq<char>, root: bool, log: Seq<char>)
    ensures
        starts_with(dfs_refusal_text(c), "Error"@),
        starts_with(no_alternative_text(c, ssid), "Error"@),
        starts_with(switch_failed_text(c, t), "Error"@),
        starts_with(dfs_prohibited_text(c), "Error"@),
        starts_with(setup_failure_text(root), "Error"@),
        starts_with(hostapd_failure_text(log, c, t), "Error"@),
{
    reveal_strlit("Error");
    reveal_strlit("Error: Channel ");
    reveal_strlit("Error: ");
    let a = "Error: Channel "@;
    let b = "Error: "@;
    assert(a.subrange(0, 5) =~= "Error"@);
    assert(b.subrange(0, 5) =~= "Error"@);
    lemma_error_prefix(a, dfs_refusal_text(c).subrange(a.len() as int, dfs_refusal_text(c).len() as int));
    assert(dfs_refusal_text(c) =~= a + dfs_refusal_text(c).subrange(a.len() as int, dfs_refusal_text(c).len() as int));
    assert(no_alternative_text(c, ssid) =~= a + no_alternative_text(c, ssid).subrange(a.len() as int, no_alternative_text(c, ssid).len() as int));
    lemma_error_prefix(a, no_alternative_text(c, ssid).subrange(a.len() as int, no_alternative_text(c, ssid).len() as int));
    assert(switch_failed_text(c, t) =~= a + switch_failed_text(c, t).subrange(a.len() as int, switch_failed_text(c, t).len() as int));
    lemma_error_prefix(a, switch_failed_text(c, t).subrange(a.len() as int, switch_failed_text(c, t).len() as int));
    assert(dfs_prohibited_text(c) =~= a + dfs_prohibited_text(c).subrange(a.len() as int, dfs_prohibited_text(c).len() as int));
    lemma_error_prefix(a, dfs_prohibited_text(c).subrange(a.len() as int, dfs_prohibited_text(c).len() as int));
    assert(setup_failure_text(root) =~= b + setup_failure_text(root).subrange(b.len() as int, setup_failure_text(root).len() as int));
    lemma_error_prefix(b, setup_failure_text(root).subrange(b.len() as int, setup_failure_text(root).len() as int));
    assert(hostapd_failure_text(log, c, t) =~= b + hostapd_failure_text(log, c, t).subrange(b.len() as int, hostapd_failure_text(log, c, t).len() as int));
    lemma_error_prefix(b, hostapd_failure_text(log, c, t).subrange(b.len() as int, hostapd_failure_text(log, c, t).len() as int));
}

/// Every stop before the hotspot runs carries a status that starts with
/// `Error`, and leaves the start finished.
pub proof fn law_stops_are_errors(v: StartFlowView, e: StartEventView)
    ensures
        start_next(v, e).1 matches StartActionView::Fail(msg) ==> starts_with(msg, "Error"@)
            && start_next(v, e).0.phase == StartPhase::Finished,
{
    match e {
        StartEventView::Detected(ssid, ch, mode) => {
            lemma_error_texts(ch, 0, ssid, false, Seq::empty());
        },
        StartEventView::Scanned(c) => {
            lemma_error_texts(v.station_channel, 0, v.station_ssid, false, Seq::empty());
        },
        StartEventView::Switched(ok) => {
            lemma_error_texts(v.station_channel, v.target_channel, v.station_ssid, false, Seq::empty());
        },
        StartEventView::InterfaceCreated(ok) => {
            let ch = chosen_channel(v.band_mode, v.custom_channel, v.station_channel, v.station_mode).0;
            lemma_error_texts(ch, 0, v.station_ssid, false, Seq::empty());
        },
        StartEventView::RootChecked(root) => {
            lemma_error_texts(0, 0, v.station_ssid, root, Seq::empty());
        },
        StartEventView::HostapdChecked(log) => {
            if let Some(l) = log {
                lemma_error_texts(v.channel, v.station_channel, v.station_ssid, false, l);
            }
        },
        _ => {},
    }
}

/// A finished start stays finished.
pub proof fn law_finished_is_final(v: StartFlowView, e: StartEventView)
    requires
        v.phase == StartPhase::Finished,
    ensures
        start_next(v, e) == (v, StartActionView::Unexpected),
{
}

/// The station's channel is polled at most `max_polls` times after a switch.
pub proof fn law_polls_bounded(v: StartFlowView, e: StartEventView)
    requires
        v.polls <= max_polls(),
        v.phase == StartPhase::Settling ==> v.polls < max_polls(),
    ensures
        start_next(v, e).0.polls <= max_polls(),
        start_next(v, e).0.phase == StartPhase::Settling ==> start_next(v, e).0.polls < max_polls(),
{
}

/// hostapd is never started on a channel of the DFS range 52..=144.
pub proof fn law_launch_outside_radar_range(v: StartFlowView, e: StartEventView)
    ensures
        start_next(v, e).1 matches StartActionView::Launch(ch, mode) ==> !(52 <= ch && ch <= 144),
{
}

/// A reading taken while the station settles on its new channel, on a
/// channel that is set and outside the DFS range, is taken over whole: the
/// station's channel and mode become the polled ones, and the start goes on
/// to create the access point interface.
pub proof fn law_settled_reading_is_kept(v: StartFlowView, ch: u32, mode: HwMode)
    requires
        v.phase == StartPhase::Settling,
        ch > 0,
        !(52 <= ch && ch <= 144),
    ensures
        start_next(v, StartEventView::Polled(ch, mode)).0.station_channel == ch,
        start_next(v, StartEventView::Polled(ch, mode)).0.station_mode == mode,
        start_next(v, StartEventView::Polled(ch, mode)).0.phase == StartPhase::CreatingInterface,
        start_next(v, StartEventView::Polled(ch, mode)).1 == StartActionView::CreateInterface,
{
}

/// In automatic band mode, once the station has settled on channel `ch` in
/// mode `mode` after a switch, the access point is launched on exactly that
/// channel in exactly that mode.
pub proof fn law_auto_launch_after_settling(v: StartFlowView, ch: u32, mode: HwMode)
    requires
        v.phase == StartPhase::Settling,
        v.band_mode == BandMode::Auto,
        ch > 0,
        !(52 <= ch && ch <= 144),
    ensures
        ({
            let w = start_next(v, StartEventView::Polled(ch, mode)).0;
            start_next(w, StartEventView::InterfaceCreated(true)).1 == StartActionView::Launch(
                ch,
                mode,
            )
        }),
{
    let w = start_next(v, StartEventView::Polled(ch, mode)).0;
    law_auto_band_matches_station(w.custom_channel, w.station_channel, w.station_mode);
}

/// Out of a scan, the station is moved to the first channel that is not
/// flagged DFS: the target is that entry's channel, BSSID and band, and every
/// entry before it is a DFS channel; when every entry is DFS (or there is
/// none), the start stops.
pub proof fn law_scan_picks_first_clear(v: StartFlowView, c: Seq<AvailableChannelView>)
    requires
        v.phase == StartPhase::Scanning,
    ensures
        ({
            let (w, a) = start_next(v, StartEventView::Scanned(c));
            if exists|i: int| 0 <= i < c.len() && !c[i].is_dfs {
                &&& w.phase == StartPhase::FindingConnection
                &&& exists|i: int|
                    0 <= i < c.len() && !c[i].is_dfs && (forall|k: int| 0 <= k < i ==> c[k].is_dfs)
                        && w.target_channel == c[i].channel && w.target_bssid == c[i].bssid
                        && w.target_5ghz == c[i].is_5ghz
            } else {
                &&& w.phase == StartPhase::Finished
                &&& a is Fail
            }
        }),
{
    if exists|i: int| 0 <= i < c.len() && !c[i].is_dfs {
        let i0 = choose|i: int| 0 <= i < c.len() && !c[i].is_dfs;
        lemma_first_clear_exists(c, i0);
        let i = choose|i: int| first_clear_at(c, i);
        assert(first_clear_at(c, first_non_dfs(c)));
    } else {
        if exists|i: int| first_clear_at(c, i) {
            let i = choose|i: int| first_clear_at(c, i);
            assert(!c[i].is_dfs);
        }
    }
}

proof fn lemma_first_clear_exists(c: Seq<AvailableChannelView>, i: int)
    requires
        0 <= i < c.len(),
        !c[i].is_dfs,
    ensures
        exists|j: int| first_clear_at(c, j),
    decreases i,
{
    if forall|k: int| 0 <= k < i ==> c[k].is_dfs {
        assert(first_clear_at(c, i));
    } else {
        let k = choose|k: int| 0 <= k < i && !c[k].is_dfs;
        lemma_first_clear_exists(c, k);
    }
}

/// With the station's connection found, it is pinned to the chosen target's
/// BSSID and band (`a` for 5 GHz, `bg` otherwise); without one, the start
/// goes straight on to the access point interface.
pub proof fn law_switch_pins_target(v: StartFlowView, u: Option<Seq<char>>)
    requires
        v.phase == StartPhase::FindingConnection,
    ensures
        start_next(v, StartEventView::ConnectionFound(u)).1 == match u {
            Some(uuid) => StartActionView::Switch(
                uuid,
                v.target_bssid,
                if v.target_5ghz {
                    "a"@
                } else {
                    "bg"@
                },
            ),
            None => StartActionView::CreateInterface,
        },
{
}

} // verus!
