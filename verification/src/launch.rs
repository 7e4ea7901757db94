//! Starting the hotspot: resolving a DFS conflict with the station's channel,
//! choosing the access point's channel, and writing the configuration of
//! hostapd and dnsmasq.
use vstd::prelude::*;

use crate::channel::{
    channel_views, is_dfs_channel, spec_is_dfs_channel, AvailableChannel, AvailableChannelView,
    BandMode, HwMode,
};
use crate::numeric::{decimal, parse_u32, parse_u32_chars, push_decimal};
use crate::probe::string_views;
use crate::text::{
    chars_eq, chars_of, contains_text, has_prefix, has_substring, lines, lines_of, owned,
    push_chars, push_str, starts_with, string_from_chars, texts, trim, trim_chars,
};

verus! {

// ---------------------------------------------------------------------------
// DFS conflict with the station's channel
// ---------------------------------------------------------------------------

/// What to do about the station's channel before the access point is set up.
#[derive(Debug)]
pub enum DfsPlan {
    /// No conflict: go on.
    Clear,
    /// The station sits on a DFS channel: scan for another channel of its
    /// network.
    SeekAlternative,
    /// Give up with this status.
    Refuse(String),
}

pub open spec fn dfs_refusal_text(channel: u32) -> Seq<char> {
    "Error: Channel "@ + decimal(channel as nat)
        + " is a DFS radar channel where AP mode is restricted. Enable 'Auto-resolve DFS' or select a non-DFS channel."@
}

/// A DFS conflict arises only in automatic band mode, when the station's
/// channel `auto_ch` is a DFS channel; it is resolved by switching the
/// station when `auto_resolve_dfs`, else the start is refused.
pub fn plan_dfs(band_mode: BandMode, auto_ch: u32, auto_resolve_dfs: bool) -> (r: DfsPlan)
    ensures
        match r {
            DfsPlan::Clear => !(band_mode == BandMode::Auto && spec_is_dfs_channel(auto_ch)),
            DfsPlan::SeekAlternative => band_mode == BandMode::Auto && spec_is_dfs_channel(
                auto_ch,
            ) && auto_resolve_dfs,
            DfsPlan::Refuse(msg) => band_mode == BandMode::Auto && spec_is_dfs_channel(auto_ch)
                && !auto_resolve_dfs && msg@ == dfs_refusal_text(auto_ch),
        },
{
    if band_mode == BandMode::Auto && is_dfs_channel(auto_ch) {
        if auto_resolve_dfs {
            DfsPlan::SeekAlternative
        } else {
            let mut m: Vec<char> = Vec::new();
            push_str(&mut m, "Error: Channel ");
            push_decimal(&mut m, auto_ch as u64);
            push_str(
                &mut m,
                " is a DFS radar channel where AP mode is restricted. Enable 'Auto-resolve DFS' or select a non-DFS channel.",
            );
            assert(m@ =~= dfs_refusal_text(auto_ch));
            DfsPlan::Refuse(string_from_chars(m))
        }
    } else {
        DfsPlan::Clear
    }
}

pub open spec fn first_clear_at(c: Seq<AvailableChannelView>, i: int) -> bool {
    &&& 0 <= i < c.len()
    &&& !c[i].is_dfs
    &&& forall|k: int| 0 <= k < i ==> c[k].is_dfs
}

/// Index of the first channel that is no DFS channel, or -1.
pub open spec fn first_non_dfs(c: Seq<AvailableChannelView>) -> int {
    if exists|i: int| first_clear_at(c, i) {
        choose|i: int| first_clear_at(c, i)
    } else {
        -1
    }
}

pub open spec fn band_text(is_5ghz: bool) -> Seq<char> {
    if is_5ghz {
        "5 GHz"@
    } else {
        "2.4 GHz"@
    }
}

pub open spec fn switching_text(auto_ch: u32, target: AvailableChannelView, ssid: Seq<char>) -> Seq<
    char,
> {
    "Channel "@ + decimal(auto_ch as nat) + " is DFS restricted. Switching Wi-Fi to "@ + band_text(
        target.is_5ghz,
    ) + " (Ch "@ + decimal(target.channel as nat) + ") for '"@ + ssid + "'..."@
}

pub open spec fn no_alternative_text(auto_ch: u32, ssid: Seq<char>) -> Seq<char> {
    "Error: Channel "@ + decimal(auto_ch as nat)
        + " is a DFS radar channel. No working non-DFS channels were found for '"@ + ssid + "'."@
}

/// The channel to move the station to, out of the scan `candidates` for its
/// network `active_ssid`: the first that is no DFS channel, with the status
/// to show while switching; or the error when there is none.
pub fn pick_alternative(candidates: &Vec<AvailableChannel>, auto_ch: u32, active_ssid: &str) -> (r:
    Result<(usize, String), String>)
    ensures
        match r {
            Ok((i, msg)) => i == first_non_dfs(channel_views(candidates@)) && msg@
                == switching_text(auto_ch, candidates@[i as int]@, active_ssid@),
            Err(msg) => first_non_dfs(channel_views(candidates@)) == -1 && msg@
                == no_alternative_text(auto_ch, active_ssid@),
        },
{
    let ghost views = channel_views(candidates@);
    let mut i: usize = 0;
    while i < candidates.len()
        invariant
            i <= candidates.len(),
            views == channel_views(candidates@),
            views.len() == candidates.len(),
            forall|k: int| 0 <= k < i ==> views[k].is_dfs,
        decreases candidates.len() - i,
    {
        if !candidates[i].is_dfs {
            proof {
                assert(first_clear_at(views, i as int));
                let j = choose|j: int| first_clear_at(views, j);
                assert(j == i) by {
                    if j < i {
                        assert(views[j].is_dfs);
                    } else if j > i {
                        assert(views[i as int].is_dfs);
                    }
                }
            }
            let t = &candidates[i];
            let mut m: Vec<char> = Vec::new();
            push_str(&mut m, "Channel ");
            push_decimal(&mut m, auto_ch as u64);
            push_str(&mut m, " is DFS restricted. Switching Wi-Fi to ");
            push_str(
                &mut m,
                if t.is_5ghz {
                    "5 GHz"
                } else {
                    "2.4 GHz"
                },
            );
            push_str(&mut m, " (Ch ");
            push_decimal(&mut m, t.channel as u64);
            push_str(&mut m, ") for '");
            push_str(&mut m, active_ssid);
            push_str(&mut m, "'...");
            assert(m@ =~= switching_text(auto_ch, candidates@[i as int]@, active_ssid@));
            return Ok((i, string_from_chars(m)));
        }
        i = i + 1;
    }
    assert(!exists|j: int| first_clear_at(views, j));
    let mut m: Vec<char> = Vec::new();
    push_str(&mut m, "Error: Channel ");
    push_decimal(&mut m, auto_ch as u64);
    push_str(&mut m, " is a DFS radar channel. No working non-DFS channels were found for '");
    push_str(&mut m, active_ssid);
    push_str(&mut m, "'.");
    assert(m@ =~= no_alternative_text(auto_ch, active_ssid@));
    Err(string_from_chars(m))
}

/// The `802-11-wireless.band` value for a target channel: `a` for 5 GHz,
/// `bg` for 2.4 GHz.
pub fn switch_band_param(is_5ghz: bool) -> (r: &'static str)
    ensures
        r@ == if is_5ghz {
            "a"@
        } else {
            "bg"@
        },
{
    if is_5ghz {
        "a"
    } else {
        "bg"
    }
}

/// The `nmcli` arguments that pin connection `uuid` to the access point
/// `bssid` and the band `band` (each left out when empty).
pub fn connection_modify_args(uuid: &str, bssid: &str, band: &str) -> (r: Vec<String>)
    ensures
        string_views(r@) == seq!["connection"@, "modify"@, uuid@] + (if bssid@.len() > 0 {
            seq!["802-11-wireless.bssid"@, bssid@]
        } else {
            Seq::empty()
        }) + (if band@.len() > 0 {
            seq!["802-11-wireless.band"@, band@]
        } else {
            Seq::empty()
        }),
{
    let mut args: Vec<String> = Vec::new();
    args.push(owned("connection"));
    args.push(owned("modify"));
    args.push(owned(uuid));
    let b = chars_of(bssid);
    if b.len() > 0 {
        args.push(owned("802-11-wireless.bssid"));
        args.push(owned(bssid));
    }
    let n = chars_of(band);
    if n.len() > 0 {
        args.push(owned("802-11-wireless.band"));
        args.push(owned(band));
    }
    assert(string_views(args@) =~= seq!["connection"@, "modify"@, uuid@] + (if bssid@.len() > 0 {
        seq!["802-11-wireless.bssid"@, bssid@]
    } else {
        Seq::empty()
    }) + (if band@.len() > 0 {
        seq!["802-11-wireless.band"@, band@]
    } else {
        Seq::empty()
    }));
    args
}

/// The `nmcli` arguments that bring connection `uuid` up.
pub fn connection_up_args(uuid: &str) -> (r: Vec<String>)
    ensures
        string_views(r@) == seq!["connection"@, "up"@, uuid@],
{
    let mut args: Vec<String> = Vec::new();
    args.push(owned("connection"));
    args.push(owned("up"));
    args.push(owned(uuid));
    assert(string_views(args@) =~= seq!["connection"@, "up"@, uuid@]);
    args
}

/// The `nmcli` arguments that lift the access point and band pinning of
/// connection `uuid`.
pub fn connection_reset_args(uuid: &str) -> (r: Vec<String>)
    ensures
        string_views(r@) == seq![
            "connection"@,
            "modify"@,
            uuid@,
            "802-11-wireless.bssid"@,
            ""@,
            "802-11-wireless.band"@,
            ""@,
        ],
{
    let mut args: Vec<String> = Vec::new();
    args.push(owned("connection"));
    args.push(owned("modify"));
    args.push(owned(uuid));
    args.push(owned("802-11-wireless.bssid"));
    args.push(owned(""));
    args.push(owned("802-11-wireless.band"));
    args.push(owned(""));
    assert(string_views(args@) =~= seq![
        "connection"@,
        "modify"@,
        uuid@,
        "802-11-wireless.bssid"@,
        ""@,
        "802-11-wireless.band"@,
        ""@,
    ]);
    args
}

pub open spec fn switch_failed_text(auto_ch: u32, target_ch: u32) -> Seq<char> {
    "Error: Channel "@ + decimal(auto_ch as nat)
        + " is DFS restricted. Failed to switch to alternative channel "@ + decimal(
        target_ch as nat,
    ) + "."@
}

/// The status when the station could not be moved off its DFS channel.
pub fn switch_failed_message(auto_ch: u32, target_ch: u32) -> (r: String)
    ensures
        r@ == switch_failed_text(auto_ch, target_ch),
{
    let mut m: Vec<char> = Vec::new();
    push_str(&mut m, "Error: Channel ");
    push_decimal(&mut m, auto_ch as u64);
    push_str(&mut m, " is DFS restricted. Failed to switch to alternative channel ");
    push_decimal(&mut m, target_ch as u64);
    push_str(&mut m, ".");
    assert(m@ =~= switch_failed_text(auto_ch, target_ch));
    string_from_chars(m)
}

/// Whether the station, after a switch towards `target_ch`, has settled on a
/// usable channel: `cur_ch` is set and no DFS channel.
pub fn channel_settled(cur_ch: u32, target_ch: u32) -> (r: bool)
    ensures
        r == (!spec_is_dfs_channel(cur_ch) && (cur_ch == target_ch || cur_ch > 0)),
{
    !is_dfs_channel(cur_ch) && (cur_ch == target_ch || cur_ch > 0)
}

// ---------------------------------------------------------------------------
// The access point's channel
// ---------------------------------------------------------------------------

/// The channel that the user typed (anything but `Auto`), when it is a
/// number.
pub open spec fn custom_channel_number(custom: Seq<char>) -> Option<u32> {
    if custom != "Auto"@ {
        parse_u32(custom)
    } else {
        None
    }
}

/// The channel and mode of the access point: in automatic band mode the
/// station's (`auto_ch`, `auto_mode`), so that the hotspot follows the Wi-Fi
/// connection (a channel typed for a forced band does not count there); when
/// a band is forced, a typed channel number, else channel 6 in mode `g` or
/// channel 149 in mode `a`.
pub open spec fn chosen_channel(band_mode: BandMode, custom: Seq<char>, auto_ch: u32, auto_mode: HwMode) -> (
    u32,
    HwMode,
) {
    let typed = custom_channel_number(custom);
    let pick = |dflt: u32|
        match typed {
            Some(c) => c,
            None => dflt,
        };
    match band_mode {
        BandMode::Auto => (auto_ch, auto_mode),
        BandMode::Force2_4GHz => (pick(6), HwMode::G),
        BandMode::Force5GHz => (pick(149), HwMode::A),
    }
}

pub open spec fn dfs_prohibited_text(channel: u32) -> Seq<char> {
    "Error: Channel "@ + decimal(channel as nat)
        + " is a DFS radar channel. Hotspot (AP mode) is prohibited on DFS channels by regulatory rules. Please choose a non-DFS channel (e.g. 5GHz: 36-48, 149-165, or 2.4GHz: 1, 6, 11)."@
}

/// The access point's channel and mode (see `chosen_channel`), or the error
/// status when that channel is a DFS channel, where no access point may
/// beacon.
pub fn select_channel(band_mode: BandMode, custom_channel: &str, auto_ch: u32, auto_mode: HwMode) -> (r:
    Result<(u32, HwMode), String>)
    ensures
        match r {
            Ok((ch, mode)) => (ch, mode) == chosen_channel(
                band_mode,
                custom_channel@,
                auto_ch,
                auto_mode,
            ) && !spec_is_dfs_channel(ch),
            Err(msg) => spec_is_dfs_channel(
                chosen_channel(band_mode, custom_channel@, auto_ch, auto_mode).0,
            ) && msg@ == dfs_prohibited_text(
                chosen_channel(band_mode, custom_channel@, auto_ch, auto_mode).0,
            ),
        },
{
    let custom = chars_of(custom_channel);
    let auto_text = chars_of("Auto");
    let typed = if !chars_eq(&custom, &auto_text) {
        parse_u32_chars(&custom)
    } else {
        None
    };
    assert(typed == custom_channel_number(custom_channel@));
    let (channel, mode) = match band_mode {
        BandMode::Auto => (auto_ch, auto_mode),
        BandMode::Force2_4GHz => (
            match typed {
                Some(c) => c,
                None => 6,
            },
            HwMode::G,
        ),
        BandMode::Force5GHz => (
            match typed {
                Some(c) => c,
                None => 149,
            },
            HwMode::A,
        ),
    };
    assert((channel, mode) == chosen_channel(band_mode, custom_channel@, auto_ch, auto_mode));
    if is_dfs_channel(channel) {
        let mut m: Vec<char> = Vec::new();
        push_str(&mut m, "Error: Channel ");
        push_decimal(&mut m, channel as u64);
        push_str(
            &mut m,
            " is a DFS radar channel. Hotspot (AP mode) is prohibited on DFS channels by regulatory rules. Please choose a non-DFS channel (e.g. 5GHz: 36-48, 149-165, or 2.4GHz: 1, 6, 11).",
        );
        assert(m@ =~= dfs_prohibited_text(channel));
        Err(string_from_chars(m))
    } else {
        Ok((channel, mode))
    }
}

pub open spec fn setup_failure_text(is_root: bool) -> Seq<char> {
    "Error: "@ + if !is_root {
        "Administrator (root/pkexec) privileges required to configure wireless interfaces."@
    } else {
        "Failed to create virtual AP interface. Your Wi-Fi adapter or driver may not support concurrent AP+Station mode."@
    }
}

/// The status when the virtual access point interface could not be
/// created: missing privileges, or a driver without AP+station support.
pub fn setup_failure_message(is_root: bool) -> (r: String)
    ensures
        r@ == setup_failure_text(is_root),
{
    let mut m: Vec<char> = Vec::new();
    push_str(&mut m, "Error: ");
    if !is_root {
        push_str(
            &mut m,
            "Administrator (root/pkexec) privileges required to configure wireless interfaces.",
        );
    } else {
        push_str(
            &mut m,
            "Failed to create virtual AP interface. Your Wi-Fi adapter or driver may not support concurrent AP+Station mode.",
        );
    }
    assert(m@ =~= setup_failure_text(is_root));
    string_from_chars(m)
}

// ---------------------------------------------------------------------------
// Configuration files
// ---------------------------------------------------------------------------

/// hostapd's configuration: WPA2-PSK on `ap_interface`, the deny list and
/// control socket under `/tmp`, at most `max_connections` clients, and 802.11n
/// in mode `a`.
pub open spec fn hostapd_config_text(
    ap_interface: Seq<char>,
    ssid: Seq<char>,
    mode: HwMode,
    channel: u32,
    max_connections: u32,
    password: Seq<char>,
) -> Seq<char> {
    "interface="@ + ap_interface + "\nssid="@ + ssid + "\nhw_mode="@ + mode.letter()
        + "\nchannel="@ + decimal(channel as nat)
        + "\nmacaddr_acl=0\ndeny_mac_file=/tmp/rust_hostapd.deny\nctrl_interface=/tmp/rust_hostapd_ctrl\nctrl_interface_group=0\nmax_num_sta="@
        + decimal(max_connections as nat)
        + "\nauth_algs=1\nignore_broadcast_ssid=0\nwpa=2\nwpa_passphrase="@ + password
        + "\nwpa_key_mgmt=WPA-PSK\nwpa_pairwise=TKIP\nrsn_pairwise=CCMP\n"@ + if mode == HwMode::A {
        "ieee80211n=1\n"@
    } else {
        Seq::empty()
    }
}

pub fn hostapd_config(
    ap_interface: &str,
    ssid: &str,
    mode: HwMode,
    channel: u32,
    max_connections: u32,
    password: &str,
) -> (r: String)
    ensures
        r@ == hostapd_config_text(
            ap_interface@,
            ssid@,
            mode,
            channel,
            max_connections,
            password@,
        ),
{
    let mut m: Vec<char> = Vec::new();
    push_str(&mut m, "interface=");
    push_str(&mut m, ap_interface);
    push_str(&mut m, "\nssid=");
    push_str(&mut m, ssid);
    push_str(&mut m, "\nhw_mode=");
    push_str(&mut m, mode.as_str());
    push_str(&mut m, "\nchannel=");
    push_decimal(&mut m, channel as u64);
    push_str(
        &mut m,
        "\nmacaddr_acl=0\ndeny_mac_file=/tmp/rust_hostapd.deny\nctrl_interface=/tmp/rust_hostapd_ctrl\nctrl_interface_group=0\nmax_num_sta=",
    );
    push_decimal(&mut m, max_connections as u64);
    push_str(&mut m, "\nauth_algs=1\nignore_broadcast_ssid=0\nwpa=2\nwpa_passphrase=");
    push_str(&mut m, password);
    push_str(&mut m, "\nwpa_key_mgmt=WPA-PSK\nwpa_pairwise=TKIP\nrsn_pairwise=CCMP\n");
    if mode == HwMode::A {
        push_str(&mut m, "ieee80211n=1\n");
    }
    assert(m@ =~= hostapd_config_text(
        ap_interface@,
        ssid@,
        mode,
        channel,
        max_connections,
        password@,
    ));
    string_from_chars(m)
}

/// dnsmasq's configuration: DHCP and DNS for `ap_interface` only, bound to
/// 192.168.50.1, leases in `/tmp/rust_dnsmasq.leases`.
pub open spec fn dnsmasq_config_text(ap_interface: Seq<char>) -> Seq<char> {
    "interface="@ + ap_interface
        + "\nbind-interfaces\nlisten-address=192.168.50.1\nexcept-interface=lo\nport=53\ndhcp-authoritative\ndhcp-leasefile=/tmp/rust_dnsmasq.leases\ndomain-needed\nbogus-priv\ndhcp-range=192.168.50.10,192.168.50.250,12h\ndhcp-option=option:dns-server,8.8.8.8,1.1.1.1\nserver=8.8.8.8\nserver=1.1.1.1\n"@
}

pub fn dnsmasq_config(ap_interface: &str) -> (r: String)
    ensures
        r@ == dnsmasq_config_text(ap_interface@),
{
    let mut m: Vec<char> = Vec::new();
    push_str(&mut m, "interface=");
    push_str(&mut m, ap_interface);
    push_str(
        &mut m,
        "\nbind-interfaces\nlisten-address=192.168.50.1\nexcept-interface=lo\nport=53\ndhcp-authoritative\ndhcp-leasefile=/tmp/rust_dnsmasq.leases\ndomain-needed\nbogus-priv\ndhcp-range=192.168.50.10,192.168.50.250,12h\ndhcp-option=option:dns-server,8.8.8.8,1.1.1.1\nserver=8.8.8.8\nserver=1.1.1.1\n",
    );
    assert(m@ =~= dnsmasq_config_text(ap_interface@));
    string_from_chars(m)
}

/// A line of hostapd's configuration after a channel change: `channel=` and
/// `hw_mode=` lines take the new values, others stay.
pub open spec fn resynced_line(line: Seq<char>, channel: u32, mode: HwMode) -> Seq<char> {
    if starts_with(line, "channel="@) {
        "channel="@ + decimal(channel as nat)
    } else if starts_with(line, "hw_mode="@) {
        "hw_mode="@ + mode.letter()
    } else {
        line
    }
}

pub open spec fn resynced_lines(ls: Seq<Seq<char>>, channel: u32, mode: HwMode) -> Seq<Seq<char>>
    decreases ls.len(),
{
    if ls.len() == 0 {
        Seq::empty()
    } else {
        resynced_lines(ls.drop_last(), channel, mode).push(resynced_line(ls.last(), channel, mode))
    }
}

/// Lines joined by newlines, with a final newline (`join("\n") + "\n"`).
pub open spec fn joined_lines(ls: Seq<Seq<char>>) -> Seq<char>
    decreases ls.len(),
{
    if ls.len() == 0 {
        Seq::empty()
    } else if ls.len() == 1 {
        ls[0]
    } else {
        joined_lines(ls.drop_last()) + "\n"@ + ls.last()
    }
}

/// hostapd's configuration `content` moved to `channel` in `mode`, with
/// 802.11n switched on for mode `a` when the file does not set it.
pub open spec fn resynced_config_text(content: Seq<char>, channel: u32, mode: HwMode) -> Seq<char> {
    let base = resynced_lines(lines(content), channel, mode);
    let all = if mode == HwMode::A && !contains_text(content, "ieee80211n="@) {
        base.push("ieee80211n=1"@)
    } else {
        base
    };
    joined_lines(all) + "\n"@
}

fn resynced_line_exec(line: &Vec<char>, channel: u32, mode: HwMode) -> (r: Vec<char>)
    ensures
        r@ == resynced_line(line@, channel, mode),
{
    if has_prefix(line, "channel=") {
        let mut m: Vec<char> = Vec::new();
        push_str(&mut m, "channel=");
        push_decimal(&mut m, channel as u64);
        assert(m@ =~= "channel="@ + decimal(channel as nat));
        m
    } else if has_prefix(line, "hw_mode=") {
        let mut m: Vec<char> = Vec::new();
        push_str(&mut m, "hw_mode=");
        push_str(&mut m, mode.as_str());
        assert(m@ =~= "hw_mode="@ + mode.letter());
        m
    } else {
        crate::text::copy_chars(line)
    }
}

/// hostapd's configuration after the station moved to `channel` in `mode`.
pub fn resync_hostapd_config(content: &str, channel: u32, mode: HwMode) -> (r: String)
    ensures
        r@ == resynced_config_text(content@, channel, mode),
{
    let cs = chars_of(content);
    let ls = lines_of(content);
    let ghost all = texts(ls@);
    let mut out: Vec<Vec<char>> = Vec::new();
    let mut i: usize = 0;
    while i < ls.len()
        invariant
            i <= ls.len(),
            all == texts(ls@),
            all.len() == ls.len(),
            texts(out@) == resynced_lines(all.take(i as int), channel, mode),
        decreases ls.len() - i,
    {
        proof {
            assert(all.take(i + 1).drop_last() =~= all.take(i as int));
            assert(all.take(i + 1).last() == ls@[i as int]@);
        }
        let l = resynced_line_exec(&ls[i], channel, mode);
        let ghost before = out@;
        out.push(l);
        assert(texts(out@) =~= texts(before).push(l@));
        i = i + 1;
    }
    assert(all.take(ls.len() as int) =~= all);
    if mode == HwMode::A && !has_substring(&cs, "ieee80211n=") {
        let ghost before = out@;
        let extra = chars_of("ieee80211n=1");
        out.push(extra);
        assert(texts(out@) =~= texts(before).push("ieee80211n=1"@));
    }
    let ghost joined = texts(out@);
    let mut m: Vec<char> = Vec::new();
    let mut j: usize = 0;
    while j < out.len()
        invariant
            j <= out.len(),
            joined == texts(out@),
            joined.len() == out.len(),
            m@ == joined_lines(joined.take(j as int)),
        decreases out.len() - j,
    {
        proof {
            assert(joined.take(j + 1).drop_last() =~= joined.take(j as int));
            assert(joined.take(j + 1).last() == out@[j as int]@);
        }
        if j > 0 {
            push_str(&mut m, "\n");
        } else {
            assert(joined.take(1)[0] == out@[0]@);
            assert(m@ =~= Seq::<char>::empty());
        }
        push_chars(&mut m, &out[j]);
        j = j + 1;
    }
    assert(joined.take(out.len() as int) =~= joined);
    push_str(&mut m, "\n");
    string_from_chars(m)
}

// ---------------------------------------------------------------------------
// hostapd's start-up
// ---------------------------------------------------------------------------

/// Whether a line has non-whitespace text.
pub open spec fn nonblank(l: Seq<char>) -> bool {
    trim(l).len() > 0
}

/// Index of the last non-blank line, or -1.
pub open spec fn last_nonblank(ls: Seq<Seq<char>>) -> int
    decreases ls.len(),
{
    if ls.len() == 0 {
        -1
    } else if nonblank(ls.last()) {
        ls.len() - 1
    } else {
        last_nonblank(ls.drop_last())
    }
}

/// Why hostapd stopped, from its log: a radar/DFS refusal, a channel the
/// single synthesizer cannot share with the station, or else the last
/// non-blank line of the log (`Unknown error` when there is none).
pub open spec fn hostapd_failure_text(log: Seq<char>, channel: u32, auto_ch: u32) -> Seq<char> {
    let reason = if contains_text(log, "not allowed for AP mode"@) || contains_text(log, "NO-IR"@)
        || contains_text(log, "RADAR"@) {
        "Channel "@ + decimal(channel as nat)
            + " is restricted by radar/DFS regulations. AP mode cannot transmit on DFS channels."@
    } else if contains_text(log, "Failed to set beacon parameters"@) {
        "Channel conflict! Hotspot channel ("@ + decimal(channel as nat)
            + ") does not match active Wi-Fi channel ("@ + decimal(auto_ch as nat)
            + "). Hardware only supports 1 channel synthesizer."@
    } else {
        let ls = lines(log);
        let k = last_nonblank(ls);
        "hostapd error: "@ + if k >= 0 {
            ls[k]
        } else {
            "Unknown error"@
        }
    };
    "Error: "@ + reason
}

fn last_nonblank_exec(ls: &Vec<Vec<char>>) -> (r: Option<usize>)
    ensures
        match r {
            Some(k) => k == last_nonblank(texts(ls@)) && k < ls.len(),
            None => last_nonblank(texts(ls@)) == -1,
        },
{
    let ghost all = texts(ls@);
    let mut j = ls.len();
    assert(all.take(j as int) =~= all);
    while j > 0
        invariant
            j <= ls.len(),
            all == texts(ls@),
            all.len() == ls.len(),
            last_nonblank(all) == last_nonblank(all.take(j as int)),
        decreases j,
    {
        assert(all.take(j as int).drop_last() =~= all.take(j - 1));
        assert(all.take(j as int).last() == ls@[j - 1]@);
        let t = trim_chars(&ls[j - 1]);
        if t.len() > 0 {
            return Some(j - 1);
        }
        j = j - 1;
    }
    None
}

/// The status when hostapd exited during start-up with log `log`.
pub fn hostapd_failure_reason(log: &str, channel: u32, auto_ch: u32) -> (r: String)
    ensures
        r@ == hostapd_failure_text(log@, channel, auto_ch),
{
    let cs = chars_of(log);
    let mut m: Vec<char> = Vec::new();
    push_str(&mut m, "Error: ");
    if has_substring(&cs, "not allowed for AP mode") || has_substring(&cs, "NO-IR")
        || has_substring(&cs, "RADAR") {
        push_str(&mut m, "Channel ");
        push_decimal(&mut m, channel as u64);
        push_str(
            &mut m,
            " is restricted by radar/DFS regulations. AP mode cannot transmit on DFS channels.",
        );
    } else if has_substring(&cs, "Failed to set beacon parameters") {
        push_str(&mut m, "Channel conflict! Hotspot channel (");
        push_decimal(&mut m, channel as u64);
        push_str(&mut m, ") does not match active Wi-Fi channel (");
        push_decimal(&mut m, auto_ch as u64);
        push_str(&mut m, "). Hardware only supports 1 channel synthesizer.");
    } else {
        let ls = lines_of(log);
        push_str(&mut m, "hostapd error: ");
        match last_nonblank_exec(&ls) {
            Some(k) => {
                assert(texts(ls@)[k as int] == ls@[k as int]@);
                push_chars(&mut m, &ls[k]);
            },
            None => push_str(&mut m, "Unknown error"),
        }
    }
    assert(m@ =~= hostapd_failure_text(log@, channel, auto_ch));
    string_from_chars(m)
}

pub open spec fn gigahertz_text(mode: HwMode) -> Seq<char> {
    if mode == HwMode::A {
        "5"@
    } else {
        "2.4"@
    }
}

pub open spec fn running_text(mode: HwMode, channel: u32) -> Seq<char> {
    "Hotspot running successfully! (Mode: "@ + gigahertz_text(mode) + "GHz, Channel: "@ + decimal(
        channel as nat,
    ) + ")"@
}

/// The status once the hotspot runs.
pub fn running_message(mode: HwMode, channel: u32) -> (r: String)
    ensures
        r@ == running_text(mode, channel),
{
    let mut m: Vec<char> = Vec::new();
    push_str(&mut m, "Hotspot running successfully! (Mode: ");
    push_str(
        &mut m,
        if mode == HwMode::A {
            "5"
        } else {
            "2.4"
        },
    );
    push_str(&mut m, "GHz, Channel: ");
    push_decimal(&mut m, channel as u64);
    push_str(&mut m, ")");
    assert(m@ =~= running_text(mode, channel));
    string_from_chars(m)
}

/// The status once the hotspot has stopped: the station's connection was
/// restored to automatic band selection, or not.
pub fn stop_message(restored: bool) -> (r: String)
    ensures
        r@ == if restored {
            "Hotspot stopped. Wi-Fi restored to Auto."@
        } else {
            "Hotspot stopped."@
        },
{
    if restored {
        owned("Hotspot stopped. Wi-Fi restored to Auto.")
    } else {
        owned("Hotspot stopped.")
    }
}

// ---------------------------------------------------------------------------
// Laws
// ---------------------------------------------------------------------------

/// In automatic band mode the access point takes the station's channel and
/// mode, whatever channel is typed.
pub proof fn law_auto_band_matches_station(custom: Seq<char>, auto_ch: u32, auto_mode: HwMode)
    ensures
        chosen_channel(BandMode::Auto, custom, auto_ch, auto_mode) == (auto_ch, auto_mode),
{
}

/// A forced band fixes the mode, whatever channel is typed.
pub proof fn law_forced_band_fixes_mode(custom: Seq<char>, auto_ch: u32, auto_mode: HwMode)
    ensures
        chosen_channel(BandMode::Force2_4GHz, custom, auto_ch, auto_mode).1 == HwMode::G,
        chosen_channel(BandMode::Force5GHz, custom, auto_ch, auto_mode).1 == HwMode::A,
{
}

/// The channel that a DFS conflict is resolved to, out of a scan, is no DFS
/// channel.
pub proof fn law_alternative_is_not_dfs(output: Option<Seq<char>>, ssid: Seq<char>)
    ensures
        ({
            let c = crate::channel::scanned_channels(output, ssid);
            let i = first_non_dfs(c);
            i >= 0 ==> !spec_is_dfs_channel(c[i].channel)
        }),
{
    let c = crate::channel::scanned_channels(output, ssid);
    crate::channel::law_scan_result(output, ssid);
    if exists|i: int| first_clear_at(c, i) {
        let i = choose|i: int| first_clear_at(c, i);
        assert(crate::channel::faithful_entry(c[i], ssid));
    }
}

/// The `hw_mode=` letter of each mode, as hostapd reads it.
pub open spec fn mode_letter_text(mode: HwMode) -> Seq<char> {
    if mode == HwMode::A {
        "a"@
    } else {
        "g"@
    }
}

proof fn lemma_resynced_lines_at(ls: Seq<Seq<char>>, channel: u32, mode: HwMode, k: int)
    requires
        0 <= k < ls.len(),
    ensures
        resynced_lines(ls, channel, mode).len() == ls.len(),
        resynced_lines(ls, channel, mode)[k] == resynced_line(ls[k], channel, mode),
    decreases ls.len(),
{
    lemma_resynced_lines_len(ls, channel, mode);
    let d = ls.drop_last();
    lemma_resynced_lines_len(d, channel, mode);
    if k < ls.len() - 1 {
        lemma_resynced_lines_at(d, channel, mode, k);
        assert(d[k] == ls[k]);
    }
}

proof fn lemma_resynced_lines_len(ls: Seq<Seq<char>>, channel: u32, mode: HwMode)
    ensures
        resynced_lines(ls, channel, mode).len() == ls.len(),
    decreases ls.len(),
{
    if ls.len() > 0 {
        lemma_resynced_lines_len(ls.drop_last(), channel, mode);
    }
}

/// A resync rewrites the configuration line by line, keeping the number of
/// lines: each `hw_mode=` line names the new mode (`a` or `g`, whichever it
/// is), each `channel=` line the new channel, and every other line stays as
/// it was.
pub proof fn law_resync_rewrites_lines(content: Seq<char>, channel: u32, mode: HwMode)
    ensures
        resynced_lines(lines(content), channel, mode).len() == lines(content).len(),
        forall|k: int|
            0 <= k < lines(content).len() && starts_with(#[trigger] lines(content)[k], "hw_mode="@)
                ==> resynced_lines(lines(content), channel, mode)[k] == "hw_mode="@
                + mode_letter_text(mode),
        forall|k: int|
            0 <= k < lines(content).len() && starts_with(#[trigger] lines(content)[k], "channel="@)
                ==> resynced_lines(lines(content), channel, mode)[k] == "channel="@ + decimal(
                channel as nat,
            ),
        forall|k: int|
            0 <= k < lines(content).len() && !starts_with(
                #[trigger] lines(content)[k],
                "hw_mode="@,
            ) && !starts_with(lines(content)[k], "channel="@) ==> resynced_lines(
                lines(content),
                channel,
                mode,
            )[k] == lines(content)[k],
{
    let ls = lines(content);
    reveal_strlit("hw_mode=");
    reveal_strlit("channel=");
    reveal_strlit("a");
    reveal_strlit("g");
    lemma_resynced_lines_len(ls, channel, mode);
    assert forall|k: int| 0 <= k < ls.len() implies resynced_lines(ls, channel, mode)[k]
        == resynced_line(#[trigger] ls[k], channel, mode) by {
        lemma_resynced_lines_at(ls, channel, mode, k);
    }
    assert forall|k: int| 0 <= k < ls.len() && starts_with(#[trigger] ls[k], "hw_mode="@) implies
        !starts_with(ls[k], "channel="@) by {
        assert(ls[k].subrange(0, 8)[0] == ls[k][0]);
        assert("hw_mode="@[0] != "channel="@[0]);
    }
}

/// A resync to mode `a` of a configuration that does not set 802.11n ends
/// with the line `ieee80211n=1`; any other resync adds no line: the text is
/// the rewritten lines, joined, with a final newline.
pub proof fn law_resync_adds_80211n(content: Seq<char>, channel: u32, mode: HwMode)
    ensures
        ({
            let t = resynced_config_text(content, channel, mode);
            let tail = "ieee80211n=1\n"@;
            mode == HwMode::A && !contains_text(content, "ieee80211n="@) ==> t.len() >= tail.len()
                && t.subrange(t.len() - tail.len(), t.len() as int) == tail
        }),
        mode == HwMode::G || contains_text(content, "ieee80211n="@) ==> resynced_config_text(
            content,
            channel,
            mode,
        ) == joined_lines(resynced_lines(lines(content), channel, mode)) + "\n"@,
{
    reveal_strlit("ieee80211n=1\n");
    reveal_strlit("ieee80211n=1");
    reveal_strlit("\n");
    let base = resynced_lines(lines(content), channel, mode);
    if mode == HwMode::A && !contains_text(content, "ieee80211n="@) {
        let all = base.push("ieee80211n=1"@);
        let t = resynced_config_text(content, channel, mode);
        assert(all.drop_last() =~= base);
        assert(all.last() == "ieee80211n=1"@);
        let pre = if all.len() == 1 {
            Seq::<char>::empty()
        } else {
            joined_lines(base) + "\n"@
        };
        if all.len() == 1 {
            assert(all[0] == all.last());
        }
        assert(joined_lines(all) =~= pre + "ieee80211n=1"@);
        assert(t =~= pre + "ieee80211n=1\n"@);
        assert(t.subrange(t.len() - 13, t.len() as int) =~= "ieee80211n=1\n"@);
    }
}

} // verus!
