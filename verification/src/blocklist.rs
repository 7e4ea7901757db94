//! The list of banned MAC addresses, the deny file that hostapd reads, and
//! the firewall rules that drop a banned device's traffic.
use vstd::prelude::*;

use crate::hotspot::HotspotApp;
use crate::probe::string_views;
use crate::text::{
    chars_eq, chars_of, copy_chars, lowercase_chars, lowercase_of, owned, push_chars, push_str,
    string_from_chars, trim, trim_chars,
};
use crate::units::timestamp_text;

verus! {

/// A banned device.
#[derive(Clone, Debug)]
pub struct BlockedMacEntry {
    pub mac: String,
    pub hostname: String,
    pub blocked_at: String,
}

#[verifier::ext_equal]
pub ghost struct BlockedView {
    pub mac: Seq<char>,
    pub hostname: Seq<char>,
    pub blocked_at: Seq<char>,
}

impl View for BlockedMacEntry {
    type V = BlockedView;

    open spec fn view(&self) -> BlockedView {
        BlockedView { mac: self.mac@, hostname: self.hostname@, blocked_at: self.blocked_at@ }
    }
}

pub open spec fn blocked_views(v: Seq<BlockedMacEntry>) -> Seq<BlockedView> {
    v.map_values(|e: BlockedMacEntry| e@)
}

/// A MAC address as the list keeps it: trimmed and in lower case.
pub open spec fn clean_mac(mac: Seq<char>) -> Seq<char> {
    lowercase_of(trim(mac))
}

/// An address that is blank once trimmed (or, once cleaned, empty) bans
/// nothing.
pub open spec fn blank_mac(mac: Seq<char>) -> bool {
    trim(mac).len() == 0 || clean_mac(mac).len() == 0
}

/// Whether entry `e` bans the (clean) address `mac`: its address in lower
/// case is `mac`.
pub open spec fn bans(e: BlockedView, mac: Seq<char>) -> bool {
    lowercase_of(e.mac) == mac
}

pub open spec fn is_banned(list: Seq<BlockedView>, mac: Seq<char>) -> bool {
    exists|i: int| 0 <= i < list.len() && bans(list[i], mac)
}

/// The list after banning the device `mac` (as typed) named `hostname` at
/// time `stamp`: an address that is empty once cleaned, or that the list
/// already bans, changes nothing; another is added at the end.
pub open spec fn list_after_block(
    list: Seq<BlockedView>,
    mac: Seq<char>,
    hostname: Seq<char>,
    stamp: Seq<char>,
) -> Seq<BlockedView> {
    let m = clean_mac(mac);
    if blank_mac(mac) || is_banned(list, m) {
        list
    } else {
        list.push(BlockedView { mac: m, hostname: hostname, blocked_at: stamp })
    }
}

pub open spec fn not_banning(mac: Seq<char>) -> spec_fn(BlockedView) -> bool {
    |e: BlockedView| !bans(e, mac)
}

/// The list after lifting the ban on `mac` (as typed): every entry that bans
/// its clean form goes, the others stay in order.
pub open spec fn list_after_unblock(list: Seq<BlockedView>, mac: Seq<char>) -> Seq<BlockedView> {
    list.filter(not_banning(clean_mac(mac)))
}

/// The deny file: each banned address on a line of its own.
pub open spec fn deny_text(list: Seq<BlockedView>) -> Seq<char>
    decreases list.len(),
{
    if list.len() == 0 {
        Seq::empty()
    } else {
        deny_text(list.drop_last()) + list.last().mac + "\n"@
    }
}

proof fn lemma_blocked_views_push(v: Seq<BlockedMacEntry>, e: BlockedMacEntry)
    ensures
        blocked_views(v.push(e)) == blocked_views(v).push(e@),
{
    assert(blocked_views(v.push(e)) =~= blocked_views(v).push(e@));
}

fn clean_mac_exec(mac: &str) -> (r: Vec<char>)
    ensures
        r@ == clean_mac(mac@),
{
    let cs = chars_of(mac);
    let t = trim_chars(&cs);
    lowercase_chars(&t)
}

fn is_banned_exec(list: &Vec<BlockedMacEntry>, mac: &Vec<char>) -> (r: bool)
    ensures
        r == is_banned(blocked_views(list@), mac@),
{
    let ghost views = blocked_views(list@);
    let mut i: usize = 0;
    while i < list.len()
        invariant
            i <= list.len(),
            views == blocked_views(list@),
            views.len() == list.len(),
            forall|k: int| 0 <= k < i ==> !bans(views[k], mac@),
        decreases list.len() - i,
    {
        let entry = chars_of(list[i].mac.as_str());
        let low = lowercase_chars(&entry);
        if chars_eq(&low, mac) {
            assert(bans(views[i as int], mac@));
            return true;
        }
        i = i + 1;
    }
    false
}

/// Bans the device `mac` (as typed) named `hostname`, stamped `stamp`; gives
/// the clean address for the deauthentication and firewall commands, or
/// `None` when the address is blank (and nothing is to be done).
pub fn block_device_stamped(
    list: &mut Vec<BlockedMacEntry>,
    mac: &str,
    hostname: &str,
    stamp: String,
) -> (r: Option<String>)
    ensures
        blocked_views(final(list)@) == list_after_block(
            blocked_views(old(list)@),
            mac@,
            hostname@,
            stamp@,
        ),
        match r {
            Some(m) => m@ == clean_mac(mac@) && !blank_mac(mac@),
            None => blank_mac(mac@),
        },
{
    let cs = chars_of(mac);
    let trimmed = trim_chars(&cs);
    if trimmed.len() == 0 {
        return None;
    }
    let clean = lowercase_chars(&trimmed);
    if clean.len() == 0 {
        return None;
    }
    if !is_banned_exec(list, &clean) {
        let entry = BlockedMacEntry {
            mac: string_from_chars(copy_chars(&clean)),
            hostname: string_from_chars(chars_of(hostname)),
            blocked_at: stamp,
        };
        let ghost before = list@;
        list.push(entry);
        proof {
            lemma_blocked_views_push(before, entry);
        }
    }
    Some(string_from_chars(clean))
}

/// Bans the device `mac` (as typed) named `hostname`, stamped with the
/// current time of day; gives the clean address, or `None` when the address
/// is blank.
pub fn block_device(list: &mut Vec<BlockedMacEntry>, mac: &str, hostname: &str) -> (r: Option<
    String,
>)
    ensures
        exists|secs: Option<u64>|
            blocked_views(final(list)@) == list_after_block(
                blocked_views(old(list)@),
                mac@,
                hostname@,
                #[trigger] timestamp_text(secs),
            ),
        match r {
            Some(m) => m@ == clean_mac(mac@) && !blank_mac(mac@),
            None => blank_mac(mac@),
        },
{
    let stamp = HotspotApp::simple_timestamp();
    let ghost s = stamp@;
    let r = block_device_stamped(list, mac, hostname, stamp);
    proof {
        let secs = choose|secs: Option<u64>| s == timestamp_text(secs);
        assert(blocked_views(list@) == list_after_block(
            blocked_views(old(list)@),
            mac@,
            hostname@,
            timestamp_text(secs),
        ));
    }
    r
}

/// Lifts the ban on `mac` (as typed); gives its clean address for removing
/// the firewall rules.
pub fn unblock_device(list: &mut Vec<BlockedMacEntry>, mac: &str) -> (r: String)
    ensures
        blocked_views(final(list)@) == list_after_unblock(blocked_views(old(list)@), mac@),
        r@ == clean_mac(mac@),
{
    let clean = clean_mac_exec(mac);
    let ghost old_views = blocked_views(list@);
    let mut kept: Vec<BlockedMacEntry> = Vec::new();
    let mut i: usize = 0;
    while i < list.len()
        invariant
            i <= list.len(),
            old_views == blocked_views(list@),
            old_views.len() == list.len(),
            blocked_views(kept@) == old_views.take(i as int).filter(not_banning(clean@)),
        decreases list.len() - i,
    {
        proof {
            assert(old_views.take(i + 1) =~= old_views.take(i as int).push(old_views[i as int]));
            old_views.take(i as int).lemma_filter_push(old_views[i as int], not_banning(clean@));
        }
        let entry = chars_of(list[i].mac.as_str());
        let low = lowercase_chars(&entry);
        if !chars_eq(&low, &clean) {
            let e = BlockedMacEntry {
                mac: list[i].mac.clone(),
                hostname: list[i].hostname.clone(),
                blocked_at: list[i].blocked_at.clone(),
            };
            let ghost before = kept@;
            kept.push(e);
            proof {
                lemma_blocked_views_push(before, e);
            }
        }
        i = i + 1;
    }
    assert(old_views.take(list.len() as int) =~= old_views);
    *list = kept;
    string_from_chars(clean)
}

/// The contents of hostapd's deny file for the list.
pub fn deny_file_contents(list: &Vec<BlockedMacEntry>) -> (r: String)
    ensures
        r@ == deny_text(blocked_views(list@)),
{
    let ghost views = blocked_views(list@);
    let mut out: Vec<char> = Vec::new();
    let mut i: usize = 0;
    while i < list.len()
        invariant
            i <= list.len(),
            views == blocked_views(list@),
            views.len() == list.len(),
            out@ == deny_text(views.take(i as int)),
        decreases list.len() - i,
    {
        proof {
            assert(views.take(i + 1).drop_last() =~= views.take(i as int));
        }
        let m = chars_of(list[i].mac.as_str());
        push_chars(&mut out, &m);
        push_str(&mut out, "\n");
        i = i + 1;
    }
    assert(views.take(list.len() as int) =~= views);
    string_from_chars(out)
}

/// The firewall chains that a ban covers.
#[derive(Debug, PartialEq, Eq, Clone, Copy, Structural)]
pub enum FilterChain {
    Forward,
    Input,
}

pub open spec fn chain_name(chain: FilterChain) -> Seq<char> {
    match chain {
        FilterChain::Forward => "FORWARD"@,
        FilterChain::Input => "INPUT"@,
    }
}

/// The `iptables` arguments that insert (`insert`) or delete the rule
/// dropping the traffic that `mac` sends in on `ap_interface`.
pub fn mac_drop_rule_args(insert: bool, chain: FilterChain, ap_interface: &str, mac: &str) -> (r: Vec<
    String,
>)
    ensures
        string_views(r@) == seq![
            if insert {
                "-I"@
            } else {
                "-D"@
            },
            chain_name(chain),
            "-i"@,
            ap_interface@,
            "-m"@,
            "mac"@,
            "--mac-source"@,
            mac@,
            "-j"@,
            "DROP"@,
        ],
{
    let mut args: Vec<String> = Vec::new();
    args.push(owned(if insert {
        "-I"
    } else {
        "-D"
    }));
    args.push(
        owned(
            match chain {
                FilterChain::Forward => "FORWARD",
                FilterChain::Input => "INPUT",
            },
        ),
    );
    args.push(owned("-i"));
    args.push(owned(ap_interface));
    args.push(owned("-m"));
    args.push(owned("mac"));
    args.push(owned("--mac-source"));
    args.push(owned(mac));
    args.push(owned("-j"));
    args.push(owned("DROP"));
    assert(string_views(args@) =~= seq![
        if insert {
            "-I"@
        } else {
            "-D"@
        },
        chain_name(chain),
        "-i"@,
        ap_interface@,
        "-m"@,
        "mac"@,
        "--mac-source"@,
        mac@,
        "-j"@,
        "DROP"@,
    ]);
    args
}

/// The `hostapd_cli` arguments that disconnect `mac` from `ap_interface` at
/// once.
pub fn deauthenticate_args(ap_interface: &str, mac: &str) -> (r: Vec<String>)
    ensures
        string_views(r@) == seq![
            "-p"@,
            "/tmp/rust_hostapd_ctrl"@,
            "-i"@,
            ap_interface@,
            "deauthenticate"@,
            mac@,
        ],
{
    let mut args: Vec<String> = Vec::new();
    args.push(owned("-p"));
    args.push(owned("/tmp/rust_hostapd_ctrl"));
    args.push(owned("-i"));
    args.push(owned(ap_interface));
    args.push(owned("deauthenticate"));
    args.push(owned(mac));
    assert(string_views(args@) =~= seq![
        "-p"@,
        "/tmp/rust_hostapd_ctrl"@,
        "-i"@,
        ap_interface@,
        "deauthenticate"@,
        mac@,
    ]);
    args
}

// ---------------------------------------------------------------------------
// Laws
// ---------------------------------------------------------------------------

/// Banning a device whose clean address is non-empty and already in lower
/// case leaves the list banning it.
pub proof fn law_block_bans(
    list: Seq<BlockedView>,
    mac: Seq<char>,
    hostname: Seq<char>,
    stamp: Seq<char>,
)
    requires
        !blank_mac(mac),
        lowercase_of(clean_mac(mac)) == clean_mac(mac),
    ensures
        is_banned(list_after_block(list, mac, hostname, stamp), clean_mac(mac)),
{
    let after = list_after_block(list, mac, hostname, stamp);
    if !is_banned(list, clean_mac(mac)) {
        assert(bans(after[list.len() as int], clean_mac(mac)));
    }
}

/// Banning an address that is blank once trimmed changes nothing.
pub proof fn law_blank_ban_changes_nothing(
    list: Seq<BlockedView>,
    mac: Seq<char>,
    hostname: Seq<char>,
    stamp: Seq<char>,
)
    requires
        trim(mac).len() == 0,
    ensures
        list_after_block(list, mac, hostname, stamp) == list,
{
}

/// Banning keeps every earlier entry, in place.
pub proof fn law_block_keeps_entries(
    list: Seq<BlockedView>,
    mac: Seq<char>,
    hostname: Seq<char>,
    stamp: Seq<char>,
)
    ensures
        list_after_block(list, mac, hostname, stamp).len() >= list.len(),
        list_after_block(list, mac, hostname, stamp).take(list.len() as int) == list,
{
    assert(list.take(list.len() as int) =~= list);
    let m = clean_mac(mac);
    if !(blank_mac(mac) || is_banned(list, m)) {
        assert(list.push(BlockedView { mac: m, hostname: hostname, blocked_at: stamp }).take(
            list.len() as int,
        ) =~= list);
    }
}

/// Banning the same device a second time changes nothing (for addresses
/// whose clean form is already in lower case).
pub proof fn law_block_idempotent(
    list: Seq<BlockedView>,
    mac: Seq<char>,
    hostname: Seq<char>,
    stamp: Seq<char>,
    hostname2: Seq<char>,
    stamp2: Seq<char>,
)
    requires
        lowercase_of(clean_mac(mac)) == clean_mac(mac),
    ensures
        ({
            let once = list_after_block(list, mac, hostname, stamp);
            list_after_block(once, mac, hostname2, stamp2) == once
        }),
{
    if !blank_mac(mac) {
        law_block_bans(list, mac, hostname, stamp);
    }
}

/// After lifting a ban, no entry bans that address.
pub proof fn law_unblock_clears(list: Seq<BlockedView>, mac: Seq<char>)
    ensures
        !is_banned(list_after_unblock(list, mac), clean_mac(mac)),
{
    broadcast use vstd::seq_lib::group_filter_ensures;

    let after = list_after_unblock(list, mac);
    if is_banned(after, clean_mac(mac)) {
        let i = choose|i: int| 0 <= i < after.len() && bans(after[i], clean_mac(mac));
        assert(not_banning(clean_mac(mac))(after[i]));
    }
}

/// Banning and then lifting the ban on a device leaves the list as lifting
/// the ban alone would have.
pub proof fn law_block_then_unblock(
    list: Seq<BlockedView>,
    mac: Seq<char>,
    hostname: Seq<char>,
    stamp: Seq<char>,
)
    requires
        lowercase_of(clean_mac(mac)) == clean_mac(mac),
    ensures
        list_after_unblock(list_after_block(list, mac, hostname, stamp), mac)
            == list_after_unblock(list, mac),
{
    let m = clean_mac(mac);
    if !(blank_mac(mac) || is_banned(list, m)) {
        let e = BlockedView { mac: m, hostname: hostname, blocked_at: stamp };
        list.lemma_filter_push(e, not_banning(m));
    }
}

} // verus!
