//! Wi-Fi channels: band and DFS classification, and the channels that a scan
//! finds for a network.
use vstd::prelude::*;

use crate::numeric::{parse_u32, parse_u32_chars};
use crate::text::{
    chars_eq, chars_of, lines, lines_of, remove_char, rsplitn, rsplitn_chars, split_words,
    string_from_chars, sub_chars, texts, trim, trim_chars, without_char, words,
};

verus! {

/// The frequency band that the hotspot is asked to use.
#[derive(Debug, PartialEq, Eq, Clone, Copy, Structural)]
pub enum BandMode {
    Auto,
    Force2_4GHz,
    Force5GHz,
}

/// The `hw_mode` of an access point: `a` (5 GHz) or `g` (2.4 GHz).
#[derive(Debug, PartialEq, Eq, Clone, Copy, Structural)]
pub enum HwMode {
    A,
    G,
}

impl HwMode {
    /// The `hw_mode` letter.
    pub open spec fn letter(self) -> Seq<char> {
        match self {
            HwMode::A => "a"@,
            HwMode::G => "g"@,
        }
    }

    /// The `hw_mode` letter, as hostapd writes it.
    pub fn as_str(self) -> (r: &'static str)
        ensures
            r@ == self.letter(),
    {
        match self {
            HwMode::A => "a",
            HwMode::G => "g",
        }
    }
}

pub open spec fn spec_is_dfs_channel(channel: u32) -> bool {
    52 <= channel <= 144
}

pub open spec fn spec_is_5ghz_channel(channel: u32) -> bool {
    channel >= 32
}

/// Whether `channel` lies in the DFS (radar) range 52..=144, where an access
/// point may not beacon.
pub fn is_dfs_channel(channel: u32) -> (r: bool)
    ensures
        r == spec_is_dfs_channel(channel),
{
    52 <= channel && channel <= 144
}

/// Whether `channel` is a 5 GHz channel (32 and up).
pub fn is_5ghz_channel(channel: u32) -> (r: bool)
    ensures
        r == spec_is_5ghz_channel(channel),
{
    channel >= 32
}

/// The DFS channels are exactly the channels 52 through 144: every channel
/// of that range, and no other, is one.
pub proof fn law_dfs_range(channel: u32)
    ensures
        spec_is_dfs_channel(channel) <==> (52 <= channel && channel <= 144),
{
}

/// The 5 GHz channels are exactly the channels from 32 up.
pub proof fn law_5ghz_range(channel: u32)
    ensures
        spec_is_5ghz_channel(channel) <==> channel >= 32,
{
}

/// Every DFS channel is a 5 GHz channel.
pub proof fn lemma_dfs_channels_are_5ghz(channel: u32)
    requires
        spec_is_dfs_channel(channel),
    ensures
        spec_is_5ghz_channel(channel),
{
}

/// One channel on which a scan saw the wanted network.
#[derive(Clone, Debug)]
pub struct AvailableChannel {
    pub channel: u32,
    pub freq_mhz: u32,
    pub is_5ghz: bool,
    pub is_dfs: bool,
    pub bssid: String,
    pub ssid: String,
}

pub ghost struct AvailableChannelView {
    pub channel: u32,
    pub freq_mhz: u32,
    pub is_5ghz: bool,
    pub is_dfs: bool,
    pub bssid: Seq<char>,
    pub ssid: Seq<char>,
}

impl View for AvailableChannel {
    type V = AvailableChannelView;

    open spec fn view(&self) -> AvailableChannelView {
        AvailableChannelView {
            channel: self.channel,
            freq_mhz: self.freq_mhz,
            is_5ghz: self.is_5ghz,
            is_dfs: self.is_dfs,
            bssid: self.bssid@,
            ssid: self.ssid@,
        }
    }
}

/// The views of a sequence of channels.
pub open spec fn channel_views(v: Seq<AvailableChannel>) -> Seq<AvailableChannelView> {
    v.map_values(|c: AvailableChannel| c@)
}

/// The frequency field of a scan line: the first word of it, as a number,
/// or 0.
pub open spec fn scan_frequency(field: Seq<char>) -> u32 {
    let w = words(trim(field));
    if w.len() > 0 {
        match parse_u32(w[0]) {
            Some(f) => f,
            None => 0,
        }
    } else {
        0
    }
}

/// What one line of `nmcli -t -f BSSID,SSID,CHAN,FREQ dev wifi list` says of
/// the network `target`: the line is cut at its last three colons into
/// BSSID, SSID, channel and frequency; it counts when the SSID is `target`
/// and the channel field (trimmed) is a number.
pub open spec fn scan_line_entry(line: Seq<char>, target: Seq<char>) -> Option<
    AvailableChannelView,
> {
    let parts = rsplitn(line, 4, ':');
    if parts.len() == 4 && parts[2] == target {
        match parse_u32(trim(parts[1])) {
            Some(ch) => Some(
                AvailableChannelView {
                    channel: ch,
                    freq_mhz: scan_frequency(parts[0]),
                    is_5ghz: spec_is_5ghz_channel(ch),
                    is_dfs: spec_is_dfs_channel(ch),
                    bssid: without_char(parts[3], '\\'),
                    ssid: parts[2],
                },
            ),
            None => None,
        }
    } else {
        None
    }
}

pub open spec fn lists_channel(found: Seq<AvailableChannelView>, ch: u32) -> bool {
    exists|i: int| 0 <= i < found.len() && found[i].channel == ch
}

/// The entries of the scan lines, in order, keeping the first entry seen for
/// each channel.
pub open spec fn collect_channels(ls: Seq<Seq<char>>, target: Seq<char>) -> Seq<
    AvailableChannelView,
>
    decreases ls.len(),
{
    if ls.len() == 0 {
        Seq::empty()
    } else {
        let prev = collect_channels(ls.drop_last(), target);
        match scan_line_entry(ls.last(), target) {
            Some(e) => if lists_channel(prev, e.channel) {
                prev
            } else {
                prev.push(e)
            },
            None => prev,
        }
    }
}

/// Rank of a channel for the hotspot: 5 GHz without DFS first, then
/// 2.4 GHz, then DFS channels.
pub open spec fn channel_priority(c: AvailableChannelView) -> int {
    if c.is_dfs {
        2
    } else if c.is_5ghz {
        0
    } else {
        1
    }
}

pub open spec fn has_priority(p: int) -> spec_fn(AvailableChannelView) -> bool {
    |c: AvailableChannelView| channel_priority(c) == p
}

/// A stable sort by `channel_priority`.
pub open spec fn by_priority(s: Seq<AvailableChannelView>) -> Seq<AvailableChannelView> {
    s.filter(has_priority(0)) + s.filter(has_priority(1)) + s.filter(has_priority(2))
}

/// The channels found for `target` in the scan output `output` (`None`
/// when the scan could not run), best first.
pub open spec fn scanned_channels(output: Option<Seq<char>>, target: Seq<char>) -> Seq<
    AvailableChannelView,
> {
    match output {
        Some(t) => by_priority(collect_channels(lines(t), target)),
        None => Seq::empty(),
    }
}

fn scan_line(line: &Vec<char>, target: &Vec<char>) -> (r: Option<AvailableChannel>)
    ensures
        match r {
            Some(c) => scan_line_entry(line@, target@) == Some(c@),
            None => scan_line_entry(line@, target@) is None,
        },
{
    let parts = rsplitn_chars(line, 4, ':');
    proof {
        assert(texts(parts@).len() == parts@.len());
    }
    if parts.len() != 4 {
        return None;
    }
    assert(texts(parts@)[2] == parts@[2]@);
    assert(texts(parts@)[1] == parts@[1]@);
    assert(texts(parts@)[0] == parts@[0]@);
    assert(texts(parts@)[3] == parts@[3]@);
    if !chars_eq(&parts[2], target) {
        return None;
    }
    let chan = trim_chars(&parts[1]);
    let ch = match parse_u32_chars(&chan) {
        Some(ch) => ch,
        None => {
            return None;
        },
    };
    let freq_field = trim_chars(&parts[0]);
    let fw = split_words(&freq_field);
    let freq = if fw.len() > 0 {
        assert(texts(fw@)[0] == fw@[0]@);
        match parse_u32_chars(&fw[0]) {
            Some(f) => f,
            None => 0,
        }
    } else {
        0
    };
    let bssid = remove_char(&parts[3], '\\');
    let ssid = sub_chars(&parts[2], 0, parts[2].len());
    assert(ssid@ =~= parts@[2]@);
    Some(
        AvailableChannel {
            channel: ch,
            freq_mhz: freq,
            is_5ghz: is_5ghz_channel(ch),
            is_dfs: is_dfs_channel(ch),
            bssid: string_from_chars(bssid),
            ssid: string_from_chars(ssid),
        },
    )
}

fn lists_channel_exec(found: &Vec<AvailableChannel>, ch: u32) -> (r: bool)
    ensures
        r == lists_channel(channel_views(found@), ch),
{
    let mut i: usize = 0;
    while i < found.len()
        invariant
            i <= found.len(),
            forall|k: int| 0 <= k < i ==> found@[k].channel != ch,
        decreases found.len() - i,
    {
        if found[i].channel == ch {
            assert(channel_views(found@)[i as int].channel == ch);
            return true;
        }
        i = i + 1;
    }
    assert(!lists_channel(channel_views(found@), ch)) by {
        if lists_channel(channel_views(found@), ch) {
            let k = choose|k: int|
                0 <= k < channel_views(found@).len() && channel_views(found@)[k].channel == ch;
            assert(found@[k].channel == ch);
        }
    }
    false
}

proof fn lemma_channel_views_push(v: Seq<AvailableChannel>, c: AvailableChannel)
    ensures
        channel_views(v.push(c)) == channel_views(v).push(c@),
{
    assert(channel_views(v.push(c)) =~= channel_views(v).push(c@));
}

/// Moves out the channels of one priority, in order.
fn take_priority(found: &Vec<AvailableChannel>, out: &mut Vec<AvailableChannel>, p: u8)
    requires
        p <= 2,
    ensures
        channel_views(final(out)@) == channel_views(old(out)@) + channel_views(found@).filter(
            has_priority(p as int),
        ),
{
    let ghost start = channel_views(out@);
    let ghost all = channel_views(found@);
    let mut i: usize = 0;
    while i < found.len()
        invariant
            i <= found.len(),
            all == channel_views(found@),
            all.len() == found.len(),
            channel_views(out@) == start + all.take(i as int).filter(has_priority(p as int)),
        decreases found.len() - i,
    {
        proof {
            assert(all.take(i + 1) =~= all.take(i as int).push(all[i as int]));
            all.take(i as int).lemma_filter_push(all[i as int], has_priority(p as int));
        }
        let c = &found[i];
        let rank: u8 = if c.is_dfs {
            2
        } else if c.is_5ghz {
            0
        } else {
            1
        };
        assert(rank == channel_priority(all[i as int]));
        if rank == p {
            let ghost old_out = out@;
            out.push(c.duplicate());
            proof {
                lemma_channel_views_push(old_out, out@.last());
            }
            assert(channel_views(out@) =~= start + all.take(i + 1).filter(has_priority(p as int)));
        }
        i = i + 1;
    }
    assert(all.take(found.len() as int) =~= all);
}

impl AvailableChannel {
    /// A field-by-field copy.
    pub fn duplicate(&self) -> (r: AvailableChannel)
        ensures
            r@ == self@,
    {
        AvailableChannel {
            channel: self.channel,
            freq_mhz: self.freq_mhz,
            is_5ghz: self.is_5ghz,
            is_dfs: self.is_dfs,
            bssid: self.bssid.clone(),
            ssid: self.ssid.clone(),
        }
    }
}

/// The channels on which the scan output (of `nmcli -t -f
/// BSSID,SSID,CHAN,FREQ dev wifi list`, `None` when it could not run) sees the
/// network `target_ssid`: one entry per channel (the first line wins), best
/// channels first (5 GHz without DFS, then 2.4 GHz, then DFS), lines of equal
/// rank in scan order.
pub fn scan_channels_for_ssid(output: Option<&str>, target_ssid: &str) -> (r: Vec<
    AvailableChannel,
>)
    ensures
        channel_views(r@) == scanned_channels(
            match output {
                Some(t) => Some(t@),
                None => None,
            },
            target_ssid@,
        ),
{
    let text = match output {
        Some(t) => t,
        None => {
            let empty: Vec<AvailableChannel> = Vec::new();
            assert(channel_views(empty@) =~= Seq::empty());
            return empty;
        },
    };
    let target = chars_of(target_ssid);
    let ls = lines_of(text);
    let ghost all = texts(ls@);
    let mut found: Vec<AvailableChannel> = Vec::new();
    let mut i: usize = 0;
    assert(channel_views(found@) =~= Seq::empty());
    while i < ls.len()
        invariant
            i <= ls.len(),
            all == texts(ls@),
            all.len() == ls.len(),
            target@ == target_ssid@,
            channel_views(found@) == collect_channels(all.take(i as int), target@),
        decreases ls.len() - i,
    {
        proof {
            assert(all.take(i + 1).drop_last() =~= all.take(i as int));
            assert(all.take(i + 1).last() == ls@[i as int]@);
        }
        match scan_line(&ls[i], &target) {
            Some(c) => {
                if !lists_channel_exec(&found, c.channel) {
                    let ghost old_found = found@;
                    found.push(c);
                    proof {
                        lemma_channel_views_push(old_found, c);
                    }
                }
            },
            None => {},
        }
        i = i + 1;
    }
    assert(all.take(ls.len() as int) =~= all);
    let mut sorted: Vec<AvailableChannel> = Vec::new();
    assert(channel_views(sorted@) =~= Seq::empty());
    take_priority(&found, &mut sorted, 0);
    take_priority(&found, &mut sorted, 1);
    take_priority(&found, &mut sorted, 2);
    assert(channel_views(sorted@) =~= by_priority(channel_views(found@)));
    sorted
}

// ---------------------------------------------------------------------------
// Laws of the scan
// ---------------------------------------------------------------------------

/// An entry for `target` whose band and DFS flags are those of its channel.
pub open spec fn faithful_entry(e: AvailableChannelView, target: Seq<char>) -> bool {
    &&& e.ssid == target
    &&& e.is_dfs == spec_is_dfs_channel(e.channel)
    &&& e.is_5ghz == spec_is_5ghz_channel(e.channel)
}

pub open spec fn distinct_channels(s: Seq<AvailableChannelView>) -> bool {
    forall|i: int, j: int| 0 <= i < j < s.len() ==> s[i].channel != s[j].channel
}

proof fn lemma_collect_channels_faithful(ls: Seq<Seq<char>>, target: Seq<char>)
    ensures
        distinct_channels(collect_channels(ls, target)),
        forall|i: int|
            0 <= i < collect_channels(ls, target).len() ==> faithful_entry(
                #[trigger] collect_channels(ls, target)[i],
                target,
            ),
    decreases ls.len(),
{
    if ls.len() > 0 {
        lemma_collect_channels_faithful(ls.drop_last(), target);
        let prev = collect_channels(ls.drop_last(), target);
        match scan_line_entry(ls.last(), target) {
            Some(e) => {
                if !lists_channel(prev, e.channel) {
                    let now = prev.push(e);
                    assert forall|i: int, j: int| 0 <= i < j < now.len() implies now[i].channel
                        != now[j].channel by {
                        if j == prev.len() {
                            assert(now[i] == prev[i]);
                        }
                    }
                }
            },
            None => {},
        }
    }
}

proof fn lemma_filter_faithful(
    s: Seq<AvailableChannelView>,
    p: spec_fn(AvailableChannelView) -> bool,
    target: Seq<char>,
)
    requires
        distinct_channels(s),
        forall|i: int| 0 <= i < s.len() ==> faithful_entry(#[trigger] s[i], target),
    ensures
        distinct_channels(s.filter(p)),
        forall|i: int| 0 <= i < s.filter(p).len() ==> faithful_entry(#[trigger] s.filter(p)[i], target),
        forall|i: int| 0 <= i < s.filter(p).len() ==> p(#[trigger] s.filter(p)[i]),
    decreases s.len(),
{
    broadcast use vstd::seq_lib::group_filter_ensures;

    reveal(Seq::filter);
    if s.len() > 0 {
        let d = s.drop_last();
        assert forall|i: int, j: int| 0 <= i < j < d.len() implies d[i].channel != d[j].channel by {
            assert(d[i] == s[i] && d[j] == s[j]);
        }
        assert forall|i: int| 0 <= i < d.len() implies faithful_entry(#[trigger] d[i], target) by {
            assert(d[i] == s[i]);
        }
        lemma_filter_faithful(d, p, target);
        let f = d.filter(p);
        if p(s.last()) {
            let now = f.push(s.last());
            assert forall|i: int, j: int| 0 <= i < j < now.len() implies now[i].channel
                != now[j].channel by {
                if j == f.len() {
                    assert(now[i] == f[i]);
                    assert(f.contains(f[i]));
                    d.lemma_filter_contains_rev(p, f[i]);
                    let k = choose|k: int| 0 <= k < d.len() && d[k] == f[i];
                    assert(s[k] == d[k]);
                    assert(s[s.len() - 1] == s.last());
                }
            }
        }
    }
}

/// The scan gives one entry per channel, each for the wanted network and
/// flagged as its channel is, best channels first: 5 GHz without DFS, then
/// 2.4 GHz, then DFS channels.
pub proof fn law_scan_result(output: Option<Seq<char>>, target: Seq<char>)
    ensures
        distinct_channels(scanned_channels(output, target)),
        forall|i: int|
            0 <= i < scanned_channels(output, target).len() ==> faithful_entry(
                #[trigger] scanned_channels(output, target)[i],
                target,
            ),
        forall|i: int, j: int|
            0 <= i < j < scanned_channels(output, target).len() ==> channel_priority(
                scanned_channels(output, target)[i],
            ) <= channel_priority(scanned_channels(output, target)[j]),
{
    match output {
        None => {},
        Some(t) => {
            let c = collect_channels(lines(t), target);
            lemma_collect_channels_faithful(lines(t), target);
            let a = c.filter(has_priority(0));
            let b = c.filter(has_priority(1));
            let d = c.filter(has_priority(2));
            lemma_filter_faithful(c, has_priority(0), target);
            lemma_filter_faithful(c, has_priority(1), target);
            lemma_filter_faithful(c, has_priority(2), target);
            let r = a + b + d;
            assert(r == scanned_channels(output, target));
            assert forall|i: int|
                0 <= i < r.len() implies faithful_entry(#[trigger] r[i], target)
                    && channel_priority(r[i]) == if i < a.len() {
                    0int
                } else if i < a.len() + b.len() {
                    1int
                } else {
                    2int
                } by {
                if i < a.len() {
                    assert(r[i] == a[i]);
                } else if i < a.len() + b.len() {
                    assert(r[i] == b[i - a.len()]);
                } else {
                    assert(r[i] == d[i - a.len() - b.len()]);
                }
            }
            assert forall|i: int, j: int| 0 <= i < j < r.len() implies r[i].channel
                != r[j].channel by {
                if j < a.len() {
                    assert(r[i] == a[i] && r[j] == a[j]);
                } else if i >= a.len() && j < a.len() + b.len() {
                    assert(r[i] == b[i - a.len()] && r[j] == b[j - a.len()]);
                } else if i >= a.len() + b.len() {
                    assert(r[i] == d[i - a.len() - b.len()] && r[j] == d[j - a.len() - b.len()]);
                } else {
                    assert(faithful_entry(r[i], target) && faithful_entry(r[j], target));
                }
            }
        },
    }
}

proof fn lemma_filter_all_or_none(
    s: Seq<AvailableChannelView>,
    q: spec_fn(AvailableChannelView) -> bool,
    all: bool,
)
    requires
        forall|i: int| 0 <= i < s.len() ==> q(#[trigger] s[i]) == all,
    ensures
        s.filter(q) == if all {
            s
        } else {
            Seq::<AvailableChannelView>::empty()
        },
    decreases s.len(),
{
    reveal(Seq::filter);
    if s.len() > 0 {
        let d = s.drop_last();
        assert forall|i: int| 0 <= i < d.len() implies q(#[trigger] d[i]) == all by {
            assert(d[i] == s[i]);
        }
        lemma_filter_all_or_none(d, q, all);
        assert(q(s[s.len() - 1]) == all);
        if all {
            assert(d.push(s.last()) =~= s);
        }
    }
}

/// Within one rank, the scan keeps the order in which the scan lines first
/// show each channel: the entries of rank `p` in the result are exactly the
/// entries of rank `p` among the first sightings, in the same order.
pub proof fn law_scan_keeps_line_order(t: Seq<char>, target: Seq<char>, p: int)
    requires
        0 <= p <= 2,
    ensures
        scanned_channels(Some(t), target).filter(has_priority(p)) == collect_channels(
            lines(t),
            target,
        ).filter(has_priority(p)),
{
    broadcast use vstd::seq_lib::group_filter_ensures;

    let c = collect_channels(lines(t), target);
    let q = has_priority(p);
    let a = c.filter(has_priority(0));
    let b = c.filter(has_priority(1));
    let d = c.filter(has_priority(2));
    assert forall|i: int| 0 <= i < a.len() implies q(#[trigger] a[i]) == (p == 0) by {
        assert(has_priority(0)(a[i]));
    }
    assert forall|i: int| 0 <= i < b.len() implies q(#[trigger] b[i]) == (p == 1) by {
        assert(has_priority(1)(b[i]));
    }
    assert forall|i: int| 0 <= i < d.len() implies q(#[trigger] d[i]) == (p == 2) by {
        assert(has_priority(2)(d[i]));
    }
    lemma_filter_all_or_none(a, q, p == 0);
    lemma_filter_all_or_none(b, q, p == 1);
    lemma_filter_all_or_none(d, q, p == 2);
    Seq::filter_distributes_over_add(a + b, d, q);
    Seq::filter_distributes_over_add(a, b, q);
    assert(scanned_channels(Some(t), target) == a + b + d);
    if p == 0 {
        assert(a + Seq::<AvailableChannelView>::empty() + Seq::<AvailableChannelView>::empty() =~= a);
    } else if p == 1 {
        assert(Seq::<AvailableChannelView>::empty() + b + Seq::<AvailableChannelView>::empty() =~= b);
    } else {
        assert(Seq::<AvailableChannelView>::empty() + Seq::<AvailableChannelView>::empty() + d =~= d);
    }
}


/// Scan line `line` shows entry `e` for network `target`: cut at its last
/// three colons, its SSID field is exactly `target` and is the entry's SSID,
/// its channel field (trimmed) reads as the entry's channel, and its BSSID
/// field without escapes is the entry's BSSID.
pub open spec fn shown_on_line(e: AvailableChannelView, line: Seq<char>, target: Seq<char>) -> bool {
    let parts = rsplitn(line, 4, ':');
    &&& parts.len() == 4
    &&& parts[2] == target
    &&& e.ssid == parts[2]
    &&& parse_u32(trim(parts[1])) == Some(e.channel)
    &&& e.bssid == without_char(parts[3], '\\')
}

proof fn lemma_collect_channels_shown(ls: Seq<Seq<char>>, target: Seq<char>)
    ensures
        forall|i: int|
            0 <= i < collect_channels(ls, target).len() ==> exists|k: int|
                0 <= k < ls.len() && shown_on_line(
                    #[trigger] collect_channels(ls, target)[i],
                    ls[k],
                    target,
                ),
    decreases ls.len(),
{
    if ls.len() > 0 {
        let d = ls.drop_last();
        lemma_collect_channels_shown(d, target);
        let prev = collect_channels(d, target);
        let now = collect_channels(ls, target);
        assert forall|i: int| 0 <= i < now.len() implies exists|k: int|
            0 <= k < ls.len() && shown_on_line(#[trigger] now[i], ls[k], target) by {
            if i < prev.len() {
                assert(now[i] == prev[i]);
                let k = choose|k: int| 0 <= k < d.len() && shown_on_line(prev[i], d[k], target);
                assert(d[k] == ls[k]);
            } else {
                let k = ls.len() - 1;
                assert(ls[k] == ls.last());
                let e = scan_line_entry(ls.last(), target)->0;
                assert(now[i] == e);
                assert(shown_on_line(now[i], ls[k], target));
            }
        }
    }
}

/// Every entry of the scan comes from a line of the scan output for exactly
/// the wanted network: that line's SSID field is `target` (another network
/// whose name merely begins with it does not count), and the entry carries
/// that line's SSID, channel and BSSID.
pub proof fn law_scan_entries_come_from_lines(t: Seq<char>, target: Seq<char>)
    ensures
        forall|i: int|
            0 <= i < scanned_channels(Some(t), target).len() ==> exists|k: int|
                0 <= k < lines(t).len() && shown_on_line(
                    #[trigger] scanned_channels(Some(t), target)[i],
                    lines(t)[k],
                    target,
                ),
{
    let ls = lines(t);
    let c = collect_channels(ls, target);
    lemma_collect_channels_shown(ls, target);
    let a = c.filter(has_priority(0));
    let b = c.filter(has_priority(1));
    let d = c.filter(has_priority(2));
    let r = a + b + d;
    assert(r == scanned_channels(Some(t), target));
    assert forall|i: int| 0 <= i < r.len() implies exists|k: int|
        0 <= k < ls.len() && shown_on_line(#[trigger] r[i], ls[k], target) by {
        let (f, j, p) = if i < a.len() {
            (a, i, has_priority(0))
        } else if i < a.len() + b.len() {
            (b, i - a.len(), has_priority(1))
        } else {
            (d, i - a.len() - b.len(), has_priority(2))
        };
        assert(r[i] == f[j]);
        assert(f == c.filter(p));
        assert(f.contains(f[j]));
        c.lemma_filter_contains_rev(p, f[j]);
        let m = choose|m: int| 0 <= m < c.len() && c[m] == f[j];
        assert(c[m] == r[i]);
    }
}

/// The channel that scan line `line` shows for network `target`, if it
/// shows one: its SSID field is exactly `target` and its channel field
/// (trimmed) reads as a number.
pub open spec fn line_channel(line: Seq<char>, target: Seq<char>) -> Option<u32> {
    let parts = rsplitn(line, 4, ':');
    if parts.len() == 4 && parts[2] == target {
        parse_u32(trim(parts[1]))
    } else {
        None
    }
}

proof fn lemma_collect_lists_lines(ls: Seq<Seq<char>>, target: Seq<char>, k: int)
    requires
        0 <= k < ls.len(),
        line_channel(ls[k], target) is Some,
    ensures
        lists_channel(collect_channels(ls, target), line_channel(ls[k], target)->0),
    decreases ls.len(),
{
    let d = ls.drop_last();
    let prev = collect_channels(d, target);
    let now = collect_channels(ls, target);
    let ch = line_channel(ls[k], target)->0;
    if k < ls.len() - 1 {
        assert(d[k] == ls[k]);
        lemma_collect_lists_lines(d, target, k);
        let j = choose|j: int| 0 <= j < prev.len() && prev[j].channel == ch;
        assert(now[j] == prev[j]);
    } else {
        assert(ls[k] == ls.last());
        let e = scan_line_entry(ls.last(), target)->0;
        if !lists_channel(prev, e.channel) {
            assert(now[prev.len() as int] == e);
        } else {
            let j = choose|j: int| 0 <= j < prev.len() && prev[j].channel == ch;
            assert(now[j] == prev[j]);
        }
    }
}

/// No channel of the wanted network is lost: every scan line whose SSID
/// field is exactly `target` and whose channel field reads as a number has
/// its channel in the result.
pub proof fn law_scan_lists_every_matching_line(t: Seq<char>, target: Seq<char>, k: int)
    requires
        0 <= k < lines(t).len(),
        line_channel(lines(t)[k], target) is Some,
    ensures
        lists_channel(scanned_channels(Some(t), target), line_channel(lines(t)[k], target)->0),
{
    let ls = lines(t);
    let c = collect_channels(ls, target);
    let ch = line_channel(ls[k], target)->0;
    lemma_collect_lists_lines(ls, target, k);
    let m = choose|m: int| 0 <= m < c.len() && c[m].channel == ch;
    let pr = channel_priority(c[m]);
    let a = c.filter(has_priority(0));
    let b = c.filter(has_priority(1));
    let d = c.filter(has_priority(2));
    let r = a + b + d;
    assert(r == scanned_channels(Some(t), target));
    c.lemma_filter_contains(has_priority(pr), m);
    let f = c.filter(has_priority(pr));
    let j = choose|j: int| 0 <= j < f.len() && f[j] == c[m];
    if pr == 0 {
        assert(r[j] == a[j]);
    } else if pr == 1 {
        assert(r[a.len() + j] == b[j]);
    } else {
        assert(r[a.len() + b.len() + j] == d[j]);
    }
}

} // verus!
