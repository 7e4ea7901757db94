//! What the output of `iw`, `nmcli` and `id` says about the machine's
//! wireless state.  Each function takes the command's standard output as text,
//! or `None` when the command could not be run.
use vstd::prelude::*;

use crate::channel::{is_dfs_channel, spec_is_dfs_channel, HwMode};
use crate::numeric::{parse_u32, parse_u32_chars};
use crate::text::{
    chars_eq, chars_of, contains_text, has_prefix, has_substring, lines, lines_of, split_on,
    split_on_char, split_words, starts_with, string_from_chars, sub_chars, texts, trim,
    trim_chars, words,
};

verus! {

/// The first `Some` that `f` gives for a line of `ls`, in order.
pub open spec fn first_match<T>(ls: Seq<Seq<char>>, f: spec_fn(Seq<char>) -> Option<T>) -> Option<
    T,
>
    decreases ls.len(),
{
    if ls.len() == 0 {
        None
    } else {
        match f(ls[0]) {
            Some(v) => Some(v),
            None => first_match(ls.drop_first(), f),
        }
    }
}

/// The text of an optional `str`.
pub open spec fn opt_text(s: Option<&str>) -> Option<Seq<char>> {
    match s {
        Some(t) => Some(t@),
        None => None,
    }
}

// ---------------------------------------------------------------------------
// `iw dev`: wireless interfaces
// ---------------------------------------------------------------------------

/// The interface that a line of `iw dev` names: a trimmed line
/// `Interface <name>`, unless the name starts with `ap` or `p2p` (access
/// point and peer-to-peer interfaces are no station interfaces).
pub open spec fn interface_in_line(line: Seq<char>) -> Option<Seq<char>> {
    let t = trim(line);
    let p = "Interface "@;
    if starts_with(t, p) {
        let name = trim(t.subrange(p.len() as int, t.len() as int));
        if !starts_with(name, "ap"@) && !starts_with(name, "p2p"@) {
            Some(name)
        } else {
            None
        }
    } else {
        None
    }
}

/// The interfaces named by the lines `ls`, in order.
pub open spec fn interfaces_in(ls: Seq<Seq<char>>) -> Seq<Seq<char>>
    decreases ls.len(),
{
    if ls.len() == 0 {
        Seq::empty()
    } else {
        let prev = interfaces_in(ls.drop_last());
        match interface_in_line(ls.last()) {
            Some(n) => prev.push(n),
            None => prev,
        }
    }
}

/// The station interfaces listed by `iw dev`, or `wlan0` alone when none is.
pub open spec fn wireless_interfaces(output: Option<Seq<char>>) -> Seq<Seq<char>> {
    let found = match output {
        Some(t) => interfaces_in(lines(t)),
        None => Seq::empty(),
    };
    if found.len() == 0 {
        seq!["wlan0"@]
    } else {
        found
    }
}

/// The views of a sequence of `String`s.
pub open spec fn string_views(v: Seq<String>) -> Seq<Seq<char>> {
    v.map_values(|s: String| s@)
}

proof fn lemma_string_views_push(v: Seq<String>, s: String)
    ensures
        string_views(v.push(s)) == string_views(v).push(s@),
{
    assert(string_views(v.push(s)) =~= string_views(v).push(s@));
}

fn interface_in_line_exec(line: &Vec<char>) -> (r: Option<Vec<char>>)
    ensures
        match r {
            Some(n) => interface_in_line(line@) == Some(n@),
            None => interface_in_line(line@) is None,
        },
{
    let t = trim_chars(line);
    let p = chars_of("Interface ");
    if !has_prefix(&t, "Interface ") {
        return None;
    }
    let rest = sub_chars(&t, p.len(), t.len());
    let name = trim_chars(&rest);
    if !has_prefix(&name, "ap") && !has_prefix(&name, "p2p") {
        Some(name)
    } else {
        None
    }
}

/// The station interfaces that `iw dev` lists (its output `output`), in
/// order, or `wlan0` alone when it lists none.
pub fn detect_wireless_interfaces(output: Option<&str>) -> (r: Vec<String>)
    ensures
        string_views(r@) == wireless_interfaces(opt_text(output)),
{
    let mut found: Vec<String> = Vec::new();
    assert(string_views(found@) =~= Seq::empty());
    match output {
        Some(text) => {
            let ls = lines_of(text);
            let ghost all = texts(ls@);
            let mut i: usize = 0;
            while i < ls.len()
                invariant
                    i <= ls.len(),
                    all == texts(ls@),
                    all.len() == ls.len(),
                    string_views(found@) == interfaces_in(all.take(i as int)),
                decreases ls.len() - i,
            {
                proof {
                    assert(all.take(i + 1).drop_last() =~= all.take(i as int));
                    assert(all.take(i + 1).last() == ls@[i as int]@);
                }
                match interface_in_line_exec(&ls[i]) {
                    Some(name) => {
                        let s = string_from_chars(name);
                        let ghost old_found = found@;
                        found.push(s);
                        proof {
                            lemma_string_views_push(old_found, s);
                        }
                    },
                    None => {},
                }
                i = i + 1;
            }
            assert(all.take(ls.len() as int) =~= all);
        },
        None => {},
    }
    if found.len() == 0 {
        let ghost old_found = found@;
        let w = string_from_chars(chars_of("wlan0"));
        found.push(w);
        proof {
            lemma_string_views_push(old_found, w);
            assert(string_views(found@) =~= seq!["wlan0"@]);
        }
    }
    found
}

// ---------------------------------------------------------------------------
// `iw dev <iface> info`: current channel
// ---------------------------------------------------------------------------

/// The channel that a line of `iw dev <iface> info` gives: a line that
/// contains `channel`, whose second word is a number.
pub open spec fn channel_in_line(line: Seq<char>) -> Option<u32> {
    if contains_text(line, "channel"@) {
        let p = words(trim(line));
        if p.len() >= 2 {
            parse_u32(p[1])
        } else {
            None
        }
    } else {
        None
    }
}

pub open spec fn channel_in_line_fn() -> spec_fn(Seq<char>) -> Option<u32> {
    |l: Seq<char>| channel_in_line(l)
}

/// The mode of a channel: `a` above channel 14, else `g`.
pub open spec fn mode_for_channel(ch: u32) -> HwMode {
    if ch > 14 {
        HwMode::A
    } else {
        HwMode::G
    }
}

/// The channel and mode that `iw dev <iface> info` reports: the first line
/// that gives a channel, or channel 6 in mode `g` when none does.
pub open spec fn channel_and_mode(output: Option<Seq<char>>) -> (u32, HwMode) {
    let found = match output {
        Some(t) => first_match(lines(t), channel_in_line_fn()),
        None => None,
    };
    match found {
        Some(ch) => (ch, mode_for_channel(ch)),
        None => (6, HwMode::G),
    }
}

fn channel_in_line_exec(line: &Vec<char>) -> (r: Option<u32>)
    ensures
        r == channel_in_line(line@),
{
    if !has_substring(line, "channel") {
        return None;
    }
    let t = trim_chars(line);
    let p = split_words(&t);
    if p.len() >= 2 {
        assert(texts(p@)[1] == p@[1]@);
        parse_u32_chars(&p[1])
    } else {
        None
    }
}

/// The channel and mode of an interface, from the output of
/// `iw dev <iface> info`.
pub fn get_current_channel_and_mode(output: Option<&str>) -> (r: (u32, HwMode))
    ensures
        r == channel_and_mode(opt_text(output)),
{
    if let Some(text) = output {
        let ls = lines_of(text);
        let ghost all = texts(ls@);
        let mut i: usize = 0;
        assert(all.skip(0) =~= all);
        while i < ls.len()
            invariant
                i <= ls.len(),
                all == texts(ls@),
                all == lines(text@),
                opt_text(output) == Some(text@),
                all.len() == ls.len(),
                first_match(all, channel_in_line_fn()) == first_match(
                    all.skip(i as int),
                    channel_in_line_fn(),
                ),
            decreases ls.len() - i,
        {
            assert(all.skip(i as int).drop_first() =~= all.skip(i + 1));
            assert(all.skip(i as int)[0] == ls@[i as int]@);
            if let Some(ch) = channel_in_line_exec(&ls[i]) {
                assert(first_match(all.skip(i as int), channel_in_line_fn()) == Some(ch));
                let mode = if ch > 14 {
                    HwMode::A
                } else {
                    HwMode::G
                };
                return (ch, mode);
            }
            i = i + 1;
        }
    }
    (6, HwMode::G)
}

// ---------------------------------------------------------------------------
// `iw dev <iface> link`: connected network
// ---------------------------------------------------------------------------

/// The network that a line of `iw dev <iface> link` names: a trimmed line
/// `SSID: <name>`.
pub open spec fn ssid_in_line(line: Seq<char>) -> Option<Seq<char>> {
    let t = trim(line);
    let p = "SSID: "@;
    if starts_with(t, p) {
        Some(trim(t.subrange(p.len() as int, t.len() as int)))
    } else {
        None
    }
}

pub open spec fn ssid_in_line_fn() -> spec_fn(Seq<char>) -> Option<Seq<char>> {
    |l: Seq<char>| ssid_in_line(l)
}

/// The network that `iw dev <iface> link` reports (the first `SSID:` line),
/// or the empty text when there is none.
pub open spec fn linked_ssid(output: Option<Seq<char>>) -> Seq<char> {
    let found = match output {
        Some(t) => first_match(lines(t), ssid_in_line_fn()),
        None => None,
    };
    match found {
        Some(s) => s,
        None => Seq::empty(),
    }
}

fn ssid_in_line_exec(line: &Vec<char>) -> (r: Option<Vec<char>>)
    ensures
        match r {
            Some(s) => ssid_in_line(line@) == Some(s@),
            None => ssid_in_line(line@) is None,
        },
{
    let t = trim_chars(line);
    let p = chars_of("SSID: ");
    if has_prefix(&t, "SSID: ") {
        let rest = sub_chars(&t, p.len(), t.len());
        Some(trim_chars(&rest))
    } else {
        None
    }
}

/// The network that an interface is connected to, from the output of
/// `iw dev <iface> link` (empty when it names none).
pub fn linked_network_ssid(output: Option<&str>) -> (r: String)
    ensures
        r@ == linked_ssid(opt_text(output)),
{
    if let Some(text) = output {
        let ls = lines_of(text);
        let ghost all = texts(ls@);
        let mut i: usize = 0;
        assert(all.skip(0) =~= all);
        while i < ls.len()
            invariant
                i <= ls.len(),
                all == texts(ls@),
                all == lines(text@),
                opt_text(output) == Some(text@),
                all.len() == ls.len(),
                first_match(all, ssid_in_line_fn()) == first_match(
                    all.skip(i as int),
                    ssid_in_line_fn(),
                ),
            decreases ls.len() - i,
        {
            assert(all.skip(i as int).drop_first() =~= all.skip(i + 1));
            assert(all.skip(i as int)[0] == ls@[i as int]@);
            if let Some(s) = ssid_in_line_exec(&ls[i]) {
                assert(first_match(all.skip(i as int), ssid_in_line_fn()) == Some(s@));
                return string_from_chars(s);
            }
            i = i + 1;
        }
    }
    string_from_chars(Vec::new())
}

/// The connection of a station interface: its network (empty when not
/// connected), channel, mode, and whether that channel is a DFS channel.
pub struct ActiveWifi {
    pub ssid: String,
    pub channel: u32,
    pub mode: HwMode,
    pub is_dfs: bool,
}

/// The connection details that `iw dev <iface> info` (`info`) and
/// `iw dev <iface> link` (`link`) report.
pub fn detect_active_wifi_details(info: Option<&str>, link: Option<&str>) -> (r: ActiveWifi)
    ensures
        r.ssid@ == linked_ssid(opt_text(link)),
        (r.channel, r.mode) == channel_and_mode(opt_text(info)),
        r.is_dfs == spec_is_dfs_channel(r.channel),
{
    let (channel, mode) = get_current_channel_and_mode(info);
    let ssid = linked_network_ssid(link);
    ActiveWifi { ssid, channel, mode, is_dfs: is_dfs_channel(channel) }
}

// ---------------------------------------------------------------------------
// `nmcli -t -f DEVICE,UUID con show --active`: active connection
// ---------------------------------------------------------------------------

/// The connection that a line `DEVICE:UUID` gives for `iface`: its second
/// colon-separated field, trimmed, when the first field is `iface`.
pub open spec fn uuid_in_line(line: Seq<char>, iface: Seq<char>) -> Option<Seq<char>> {
    let parts = split_on(line, ':');
    if parts.len() >= 2 && parts[0] == iface {
        Some(trim(parts[1]))
    } else {
        None
    }
}

pub open spec fn uuid_in_line_fn(iface: Seq<char>) -> spec_fn(Seq<char>) -> Option<Seq<char>> {
    |l: Seq<char>| uuid_in_line(l, iface)
}

/// The active connection of `iface` that the command's output lists.
pub open spec fn active_connection_uuid(output: Option<Seq<char>>, iface: Seq<char>) -> Option<
    Seq<char>,
> {
    match output {
        Some(t) => first_match(lines(t), uuid_in_line_fn(iface)),
        None => None,
    }
}

/// The UUID of the active connection on `interface`, from the output of
/// `nmcli -t -f DEVICE,UUID con show --active`.
pub fn get_active_connection_uuid(output: Option<&str>, interface: &str) -> (r: Option<String>)
    ensures
        match r {
            Some(u) => active_connection_uuid(opt_text(output), interface@) == Some(u@),
            None => active_connection_uuid(opt_text(output), interface@) is None,
        },
{
    let text = match output {
        Some(t) => t,
        None => {
            return None;
        },
    };
    let iface = chars_of(interface);
    let ls = lines_of(text);
    let ghost all = texts(ls@);
    let mut i: usize = 0;
    assert(all.skip(0) =~= all);
    while i < ls.len()
        invariant
            i <= ls.len(),
            all == texts(ls@),
            all == lines(text@),
            opt_text(output) == Some(text@),
            all.len() == ls.len(),
            iface@ == interface@,
            first_match(all, uuid_in_line_fn(interface@)) == first_match(
                all.skip(i as int),
                uuid_in_line_fn(interface@),
            ),
        decreases ls.len() - i,
    {
        assert(all.skip(i as int).drop_first() =~= all.skip(i + 1));
        assert(all.skip(i as int)[0] == ls@[i as int]@);
        let parts = split_on_char(&ls[i], ':');
        assert(texts(parts@).len() == parts.len());
        if parts.len() >= 2 {
            assert(texts(parts@)[0] == parts@[0]@);
            assert(texts(parts@)[1] == parts@[1]@);
            if chars_eq(&parts[0], &iface) {
                let u = trim_chars(&parts[1]);
                assert(uuid_in_line(ls@[i as int]@, interface@) == Some(u@));
                assert(first_match(all.skip(i as int), uuid_in_line_fn(interface@)) == Some(u@));
                return Some(string_from_chars(u));
            }
        }
        i = i + 1;
    }
    None
}

// ---------------------------------------------------------------------------
// `id -u` and the driver link
// ---------------------------------------------------------------------------

/// Whether the output of `id -u` names the root user: its trimmed text is
/// `0`.  A command that could not run names no one.
pub fn is_root(output: Option<&str>) -> (r: bool)
    ensures
        r == match output {
            Some(t) => trim(t@) == "0"@,
            None => false,
        },
{
    match output {
        Some(t) => {
            let cs = chars_of(t);
            let tr = trim_chars(&cs);
            let zero = chars_of("0");
            chars_eq(&tr, &zero)
        },
        None => false,
    }
}

/// The name of the kernel driver: the file name of the interface's
/// `device/driver` link, or `Unknown` when there is none.
pub fn detect_driver_name(link_file_name: Option<String>) -> (r: String)
    ensures
        r@ == match link_file_name {
            Some(n) => n@,
            None => "Unknown"@,
        },
{
    match link_file_name {
        Some(n) => n,
        None => string_from_chars(chars_of("Unknown")),
    }
}

} // verus!
