//! The clients of the hotspot: what the DHCP lease file and the access
//! point's station dump say about them.
use vstd::prelude::*;

use crate::numeric::{parse_i32, parse_i32_chars, parse_u64, parse_u64_chars};
use crate::text::{
    chars_eq, chars_of, copy_chars, has_prefix, lines, lines_of, lowercase_chars, lowercase_of,
    push_chars, push_str, split_words, starts_with, string_from_chars, texts, trim,
    trim_chars, words,
};

verus! {

/// A client of the hotspot, as the device list shows it.
#[derive(Clone, Debug)]
pub struct ConnectedDevice {
    pub mac: String,
    pub ip: String,
    pub hostname: String,
    pub signal_dbm: i32,
    pub rx_bytes: u64,
    pub tx_bytes: u64,
    pub connected_time_sec: u64,
}

#[verifier::ext_equal]
pub ghost struct DeviceView {
    pub mac: Seq<char>,
    pub ip: Seq<char>,
    pub hostname: Seq<char>,
    pub signal_dbm: i32,
    pub rx_bytes: u64,
    pub tx_bytes: u64,
    pub connected_time_sec: u64,
}

impl View for ConnectedDevice {
    type V = DeviceView;

    open spec fn view(&self) -> DeviceView {
        DeviceView {
            mac: self.mac@,
            ip: self.ip@,
            hostname: self.hostname@,
            signal_dbm: self.signal_dbm,
            rx_bytes: self.rx_bytes,
            tx_bytes: self.tx_bytes,
            connected_time_sec: self.connected_time_sec,
        }
    }
}

pub open spec fn device_views(v: Seq<ConnectedDevice>) -> Seq<DeviceView> {
    v.map_values(|d: ConnectedDevice| d@)
}

// ---------------------------------------------------------------------------
// The model: a table of devices keyed by MAC address
// ---------------------------------------------------------------------------

pub open spec fn first_with_mac(devs: Seq<DeviceView>, mac: Seq<char>, i: int) -> bool {
    &&& 0 <= i < devs.len()
    &&& devs[i].mac == mac
    &&& forall|k: int| 0 <= k < i ==> devs[k].mac != mac
}

/// Where the table holds `mac`, or -1.
pub open spec fn device_index(devs: Seq<DeviceView>, mac: Seq<char>) -> int {
    if exists|i: int| first_with_mac(devs, mac, i) {
        choose|i: int| first_with_mac(devs, mac, i)
    } else {
        -1
    }
}

/// Puts `d` into the table under its MAC address, replacing what was there.
pub open spec fn insert_device(devs: Seq<DeviceView>, d: DeviceView) -> Seq<DeviceView> {
    let i = device_index(devs, d.mac);
    if i >= 0 {
        devs.update(i, d)
    } else {
        devs.push(d)
    }
}

/// The device that a line of the DHCP lease file (`<expiry> <mac> <ip>
/// <hostname> ...`) describes: its MAC in lower case, its address, and its
/// host name (`Device (<ip>)` when the file has `*`), with no radio data yet.
pub open spec fn lease_device(line: Seq<char>) -> Option<DeviceView> {
    let parts = words(line);
    if parts.len() >= 4 {
        let ip = parts[2];
        Some(
            DeviceView {
                mac: lowercase_of(parts[1]),
                ip: ip,
                hostname: if parts[3] == "*"@ || parts[3].len() == 0 {
                    "Device ("@ + ip + ")"@
                } else {
                    parts[3]
                },
                signal_dbm: -99i32,
                rx_bytes: 0,
                tx_bytes: 0,
                connected_time_sec: 0,
            },
        )
    } else {
        None
    }
}

/// The table that the lease lines `ls` give, later lines replacing earlier ones.
pub open spec fn lease_devices(ls: Seq<Seq<char>>) -> Seq<DeviceView>
    decreases ls.len(),
{
    if ls.len() == 0 {
        Seq::empty()
    } else {
        let prev = lease_devices(ls.drop_last());
        match lease_device(ls.last()) {
            Some(d) => insert_device(prev, d),
            None => prev,
        }
    }
}

/// Records the radio data of station `mac`: an entry that the table holds
/// keeps its address and name; a new one is `Connecting...` and
/// `Client (<mac>)`.
pub open spec fn record_station(
    devs: Seq<DeviceView>,
    mac: Seq<char>,
    signal: i32,
    rx: u64,
    tx: u64,
    time: u64,
) -> Seq<DeviceView> {
    let i = device_index(devs, mac);
    if i >= 0 {
        devs.update(
            i,
            DeviceView {
                mac: devs[i].mac,
                ip: devs[i].ip,
                hostname: devs[i].hostname,
                signal_dbm: signal,
                rx_bytes: rx,
                tx_bytes: tx,
                connected_time_sec: time,
            },
        )
    } else {
        devs.push(
            DeviceView {
                mac: mac,
                ip: "Connecting..."@,
                hostname: "Client ("@ + mac + ")"@,
                signal_dbm: signal,
                rx_bytes: rx,
                tx_bytes: tx,
                connected_time_sec: time,
            },
        )
    }
}

/// The state of a read through `iw dev <ap> station dump`: the table so far,
/// and the station being read (no MAC before the first `Station` line).
#[verifier::ext_equal]
pub ghost struct StationScan {
    pub devices: Seq<DeviceView>,
    pub mac: Seq<char>,
    pub signal: i32,
    pub rx: u64,
    pub tx: u64,
    pub time: u64,
}

/// The table with the station being read recorded.
pub open spec fn flush_station(st: StationScan) -> Seq<DeviceView> {
    if st.mac.len() == 0 {
        st.devices
    } else {
        record_station(st.devices, st.mac, st.signal, st.rx, st.tx, st.time)
    }
}

/// One line of the station dump: `Station <mac> ...` records the previous
/// station and starts a new one (MAC in lower case, signal -99, counters 0);
/// `signal:`, `rx bytes:`, `tx bytes:` and `connected time:` lines set a value
/// when their number field (second, third, third, third word) parses.
pub open spec fn station_step(st: StationScan, line: Seq<char>) -> StationScan {
    let t = trim(line);
    let parts = words(t);
    if starts_with(t, "Station "@) {
        StationScan {
            devices: flush_station(st),
            mac: if parts.len() >= 2 {
                lowercase_of(parts[1])
            } else {
                Seq::empty()
            },
            signal: -99i32,
            rx: 0,
            tx: 0,
            time: 0,
        }
    } else if starts_with(t, "signal:"@) {
        if parts.len() >= 2 && parse_i32(parts[1]) is Some {
            StationScan { signal: parse_i32(parts[1])->0, ..st }
        } else {
            st
        }
    } else if starts_with(t, "rx bytes:"@) {
        if parts.len() >= 3 && parse_u64(parts[2]) is Some {
            StationScan { rx: parse_u64(parts[2])->0, ..st }
        } else {
            st
        }
    } else if starts_with(t, "tx bytes:"@) {
        if parts.len() >= 3 && parse_u64(parts[2]) is Some {
            StationScan { tx: parse_u64(parts[2])->0, ..st }
        } else {
            st
        }
    } else if starts_with(t, "connected time:"@) {
        if parts.len() >= 3 && parse_u64(parts[2]) is Some {
            StationScan { time: parse_u64(parts[2])->0, ..st }
        } else {
            st
        }
    } else {
        st
    }
}

pub open spec fn station_scan(ls: Seq<Seq<char>>, start: StationScan) -> StationScan
    decreases ls.len(),
{
    if ls.len() == 0 {
        start
    } else {
        station_step(station_scan(ls.drop_last(), start), ls.last())
    }
}

/// The table of known devices: the lease file's (`leases`, `None` when it
/// could not be read), then the radio data of `station_dump` (`None` when the
/// command could not run).
pub open spec fn known_devices(leases: Option<Seq<char>>, station_dump: Option<Seq<char>>) -> Seq<
    DeviceView,
> {
    let base = match leases {
        Some(t) => lease_devices(lines(t)),
        None => Seq::empty(),
    };
    match station_dump {
        Some(t) => flush_station(
            station_scan(
                lines(t),
                StationScan { devices: base, mac: Seq::empty(), signal: -99i32, rx: 0, tx: 0, time: 0 },
            ),
        ),
        None => base,
    }
}

/// A device counts as connected when the radio reports a signal or a
/// connection time for it.
pub open spec fn is_present(d: DeviceView) -> bool {
    d.signal_dbm > -99 || d.connected_time_sec > 0
}

pub open spec fn present_fn() -> spec_fn(DeviceView) -> bool {
    |d: DeviceView| is_present(d)
}

// ---------------------------------------------------------------------------
// Order of host names (`String`'s order: by characters, a prefix first)
// ---------------------------------------------------------------------------

pub open spec fn text_le(a: Seq<char>, b: Seq<char>) -> bool
    decreases a.len(),
{
    if a.len() == 0 {
        true
    } else if b.len() == 0 {
        false
    } else if a[0] != b[0] {
        a[0] < b[0]
    } else {
        text_le(a.drop_first(), b.drop_first())
    }
}

pub proof fn lemma_text_le_total(a: Seq<char>, b: Seq<char>)
    ensures
        text_le(a, b) || text_le(b, a),
    decreases a.len(),
{
    if a.len() > 0 && b.len() > 0 && a[0] == b[0] {
        lemma_text_le_total(a.drop_first(), b.drop_first());
    }
}

pub proof fn lemma_text_le_transitive(a: Seq<char>, b: Seq<char>, c: Seq<char>)
    requires
        text_le(a, b),
        text_le(b, c),
    ensures
        text_le(a, c),
    decreases a.len(),
{
    if a.len() > 0 && b.len() > 0 && c.len() > 0 && a[0] == b[0] && b[0] == c[0] {
        lemma_text_le_transitive(a.drop_first(), b.drop_first(), c.drop_first());
    }
}

/// Listed by host name.
pub open spec fn sorted_by_hostname(s: Seq<DeviceView>) -> bool {
    forall|i: int, j: int| 0 <= i < j < s.len() ==> text_le(s[i].hostname, s[j].hostname)
}

fn text_le_exec(a: &Vec<char>, b: &Vec<char>) -> (r: bool)
    ensures
        r == text_le(a@, b@),
{
    let mut i: usize = 0;
    assert(a@.skip(0) =~= a@);
    assert(b@.skip(0) =~= b@);
    while i < a.len() && i < b.len() && a[i] == b[i]
        invariant
            i <= a.len(),
            i <= b.len(),
            text_le(a@, b@) == text_le(a@.skip(i as int), b@.skip(i as int)),
        decreases a.len() - i,
    {
        assert(a@.skip(i as int).drop_first() =~= a@.skip(i + 1));
        assert(b@.skip(i as int).drop_first() =~= b@.skip(i + 1));
        i = i + 1;
    }
    if i == a.len() {
        true
    } else if i == b.len() {
        false
    } else {
        assert(a@.skip(i as int)[0] == a@[i as int]);
        assert(b@.skip(i as int)[0] == b@[i as int]);
        a[i] < b[i]
    }
}

// ---------------------------------------------------------------------------
// The working table
// ---------------------------------------------------------------------------

struct DeviceRecord {
    mac: Vec<char>,
    ip: Vec<char>,
    hostname: Vec<char>,
    signal_dbm: i32,
    rx_bytes: u64,
    tx_bytes: u64,
    connected_time_sec: u64,
}

impl View for DeviceRecord {
    type V = DeviceView;

    closed spec fn view(&self) -> DeviceView {
        DeviceView {
            mac: self.mac@,
            ip: self.ip@,
            hostname: self.hostname@,
            signal_dbm: self.signal_dbm,
            rx_bytes: self.rx_bytes,
            tx_bytes: self.tx_bytes,
            connected_time_sec: self.connected_time_sec,
        }
    }
}

spec fn record_views(v: Seq<DeviceRecord>) -> Seq<DeviceView> {
    v.map_values(|d: DeviceRecord| d@)
}

proof fn lemma_record_views_push(v: Seq<DeviceRecord>, d: DeviceRecord)
    ensures
        record_views(v.push(d)) == record_views(v).push(d@),
{
    assert(record_views(v.push(d)) =~= record_views(v).push(d@));
}

proof fn lemma_record_views_update(v: Seq<DeviceRecord>, i: int, d: DeviceRecord)
    requires
        0 <= i < v.len(),
    ensures
        record_views(v.update(i, d)) == record_views(v).update(i, d@),
{
    assert(record_views(v.update(i, d)) =~= record_views(v).update(i, d@));
}

fn copy_record(d: &DeviceRecord) -> (r: DeviceRecord)
    ensures
        r@ == d@,
{
    DeviceRecord {
        mac: copy_chars(&d.mac),
        ip: copy_chars(&d.ip),
        hostname: copy_chars(&d.hostname),
        signal_dbm: d.signal_dbm,
        rx_bytes: d.rx_bytes,
        tx_bytes: d.tx_bytes,
        connected_time_sec: d.connected_time_sec,
    }
}

/// Where the table holds `mac`.
fn find_device(devs: &Vec<DeviceRecord>, mac: &Vec<char>) -> (r: Option<usize>)
    ensures
        match r {
            Some(i) => i == device_index(record_views(devs@), mac@) && i < devs.len(),
            None => device_index(record_views(devs@), mac@) == -1,
        },
{
    let ghost views = record_views(devs@);
    let mut i: usize = 0;
    while i < devs.len()
        invariant
            i <= devs.len(),
            views == record_views(devs@),
            views.len() == devs.len(),
            forall|k: int| 0 <= k < i ==> views[k].mac != mac@,
        decreases devs.len() - i,
    {
        if chars_eq(&devs[i].mac, mac) {
            proof {
                assert(first_with_mac(views, mac@, i as int));
                let j = choose|j: int| first_with_mac(views, mac@, j);
                assert(j == i) by {
                    if j < i {
                        assert(views[j].mac != mac@);
                    } else if j > i {
                        assert(views[i as int].mac == mac@);
                    }
                }
            }
            return Some(i);
        }
        i = i + 1;
    }
    assert(!exists|j: int| first_with_mac(views, mac@, j));
    None
}

fn insert_device_exec(devs: &mut Vec<DeviceRecord>, d: DeviceRecord)
    ensures
        record_views(final(devs)@) == insert_device(record_views(old(devs)@), d@),
{
    match find_device(devs, &d.mac) {
        Some(i) => {
            let ghost before = devs@;
            devs.set(i, d);
            proof {
                lemma_record_views_update(before, i as int, d);
            }
        },
        None => {
            let ghost before = devs@;
            devs.push(d);
            proof {
                lemma_record_views_push(before, d);
            }
        },
    }
}

/// The station being read.
struct StationCursor {
    mac: Vec<char>,
    signal: i32,
    rx: u64,
    tx: u64,
    time: u64,
}

spec fn scan_view(devs: Seq<DeviceRecord>, cur: StationCursor) -> StationScan {
    StationScan {
        devices: record_views(devs),
        mac: cur.mac@,
        signal: cur.signal,
        rx: cur.rx,
        tx: cur.tx,
        time: cur.time,
    }
}

fn record_station_exec(devs: &mut Vec<DeviceRecord>, cur: &StationCursor)
    ensures
        record_views(final(devs)@) == record_station(
            record_views(old(devs)@),
            cur.mac@,
            cur.signal,
            cur.rx,
            cur.tx,
            cur.time,
        ),
{
    match find_device(devs, &cur.mac) {
        Some(i) => {
            let old_rec = copy_record(&devs[i]);
            let rec = DeviceRecord {
                mac: old_rec.mac,
                ip: old_rec.ip,
                hostname: old_rec.hostname,
                signal_dbm: cur.signal,
                rx_bytes: cur.rx,
                tx_bytes: cur.tx,
                connected_time_sec: cur.time,
            };
            let ghost before = devs@;
            devs.set(i, rec);
            proof {
                lemma_record_views_update(before, i as int, rec);
            }
        },
        None => {
            let mut hostname: Vec<char> = Vec::new();
            push_str(&mut hostname, "Client (");
            push_chars(&mut hostname, &cur.mac);
            push_str(&mut hostname, ")");
            let rec = DeviceRecord {
                mac: copy_chars(&cur.mac),
                ip: chars_of("Connecting..."),
                hostname,
                signal_dbm: cur.signal,
                rx_bytes: cur.rx,
                tx_bytes: cur.tx,
                connected_time_sec: cur.time,
            };
            assert(hostname@ =~= "Client ("@ + cur.mac@ + ")"@);
            let ghost before = devs@;
            devs.push(rec);
            proof {
                lemma_record_views_push(before, rec);
            }
        },
    }
}

fn flush_station_exec(devs: &mut Vec<DeviceRecord>, cur: &StationCursor)
    ensures
        record_views(final(devs)@) == flush_station(scan_view(old(devs)@, *cur)),
{
    if cur.mac.len() > 0 {
        record_station_exec(devs, cur);
    }
}

fn lease_line(line: &Vec<char>) -> (r: Option<DeviceRecord>)
    ensures
        match r {
            Some(d) => lease_device(line@) == Some(d@),
            None => lease_device(line@) is None,
        },
{
    let parts = split_words(line);
    assert(texts(parts@).len() == parts.len());
    if parts.len() < 4 {
        return None;
    }
    assert(texts(parts@)[1] == parts@[1]@);
    assert(texts(parts@)[2] == parts@[2]@);
    assert(texts(parts@)[3] == parts@[3]@);
    let star = chars_of("*");
    let hostname = if chars_eq(&parts[3], &star) || parts[3].len() == 0 {
        let mut h: Vec<char> = Vec::new();
        push_str(&mut h, "Device (");
        push_chars(&mut h, &parts[2]);
        push_str(&mut h, ")");
        h
    } else {
        copy_chars(&parts[3])
    };
    let d = DeviceRecord {
        mac: lowercase_chars(&parts[1]),
        ip: copy_chars(&parts[2]),
        hostname,
        signal_dbm: -99i32,
        rx_bytes: 0,
        tx_bytes: 0,
        connected_time_sec: 0,
    };
    assert(d@ =~= lease_device(line@)->0);
    Some(d)
}

fn station_line(devs: &mut Vec<DeviceRecord>, cur: &mut StationCursor, line: &Vec<char>)
    ensures
        scan_view(final(devs)@, *final(cur)) == station_step(
            scan_view(old(devs)@, *old(cur)),
            line@,
        ),
{
    let t = trim_chars(line);
    let parts = split_words(&t);
    assert(texts(parts@).len() == parts.len());
    if has_prefix(&t, "Station ") {
        flush_station_exec(devs, cur);
        let mac = if parts.len() >= 2 {
            assert(texts(parts@)[1] == parts@[1]@);
            lowercase_chars(&parts[1])
        } else {
            Vec::new()
        };
        *cur = StationCursor { mac, signal: -99, rx: 0, tx: 0, time: 0 };
    } else if has_prefix(&t, "signal:") {
        if parts.len() >= 2 {
            assert(texts(parts@)[1] == parts@[1]@);
            if let Some(s) = parse_i32_chars(&parts[1]) {
                cur.signal = s;
            }
        }
    } else if has_prefix(&t, "rx bytes:") {
        if parts.len() >= 3 {
            assert(texts(parts@)[2] == parts@[2]@);
            if let Some(b) = parse_u64_chars(&parts[2]) {
                cur.rx = b;
            }
        }
    } else if has_prefix(&t, "tx bytes:") {
        if parts.len() >= 3 {
            assert(texts(parts@)[2] == parts@[2]@);
            if let Some(b) = parse_u64_chars(&parts[2]) {
                cur.tx = b;
            }
        }
    } else if has_prefix(&t, "connected time:") {
        if parts.len() >= 3 {
            assert(texts(parts@)[2] == parts@[2]@);
            if let Some(b) = parse_u64_chars(&parts[2]) {
                cur.time = b;
            }
        }
    }
    assert(scan_view(devs@, *cur) =~= station_step(scan_view(old(devs)@, *old(cur)), line@));
}

/// The devices that the lease file and the station dump describe.
fn known_device_records(leases: Option<&str>, station_dump: Option<&str>) -> (r: Vec<
    DeviceRecord,
>)
    ensures
        record_views(r@) == known_devices(
            match leases {
                Some(t) => Some(t@),
                None => None,
            },
            match station_dump {
                Some(t) => Some(t@),
                None => None,
            },
        ),
{
    let mut devs: Vec<DeviceRecord> = Vec::new();
    assert(record_views(devs@) =~= Seq::empty());
    if let Some(text) = leases {
        let ls = lines_of(text);
        let ghost all = texts(ls@);
        let mut i: usize = 0;
        while i < ls.len()
            invariant
                i <= ls.len(),
                all == texts(ls@),
                all.len() == ls.len(),
                record_views(devs@) == lease_devices(all.take(i as int)),
            decreases ls.len() - i,
        {
            proof {
                assert(all.take(i + 1).drop_last() =~= all.take(i as int));
                assert(all.take(i + 1).last() == ls@[i as int]@);
            }
            if let Some(d) = lease_line(&ls[i]) {
                insert_device_exec(&mut devs, d);
            }
            i = i + 1;
        }
        assert(all.take(ls.len() as int) =~= all);
    }
    let ghost base = record_views(devs@);
    if let Some(text) = station_dump {
        let ls = lines_of(text);
        let ghost all = texts(ls@);
        let mut cur = StationCursor { mac: Vec::new(), signal: -99, rx: 0, tx: 0, time: 0 };
        let ghost start = StationScan {
            devices: base,
            mac: Seq::empty(),
            signal: -99i32,
            rx: 0,
            tx: 0,
            time: 0,
        };
        assert(scan_view(devs@, cur) =~= start);
        let mut i: usize = 0;
        while i < ls.len()
            invariant
                i <= ls.len(),
                all == texts(ls@),
                all.len() == ls.len(),
                scan_view(devs@, cur) == station_scan(all.take(i as int), start),
            decreases ls.len() - i,
        {
            proof {
                assert(all.take(i + 1).drop_last() =~= all.take(i as int));
                assert(all.take(i + 1).last() == ls@[i as int]@);
            }
            station_line(&mut devs, &mut cur, &ls[i]);
            i = i + 1;
        }
        assert(all.take(ls.len() as int) =~= all);
        flush_station_exec(&mut devs, &cur);
    }
    devs
}

fn device_from_record(d: DeviceRecord) -> (r: ConnectedDevice)
    ensures
        r@ == d@,
{
    ConnectedDevice {
        mac: string_from_chars(d.mac),
        ip: string_from_chars(d.ip),
        hostname: string_from_chars(d.hostname),
        signal_dbm: d.signal_dbm,
        rx_bytes: d.rx_bytes,
        tx_bytes: d.tx_bytes,
        connected_time_sec: d.connected_time_sec,
    }
}

proof fn lemma_insert_to_multiset(s: Seq<DeviceView>, p: int, x: DeviceView)
    requires
        0 <= p <= s.len(),
    ensures
        s.insert(p, x).to_multiset() =~= s.to_multiset().insert(x),
{
    broadcast use vstd::seq_lib::group_to_multiset_ensures;

    let t = s.insert(p, x);
    assert(t.remove(p) =~= s);
    assert(t[p] == x);
    assert(t.to_multiset().count(x) > 0) by {
        assert(t.contains(x));
    }
}

/// The connected devices that the DHCP lease file (`leases`, `None` when it
/// could not be read) and the output of `iw dev <ap> station dump`
/// (`station_dump`, `None` when the command could not run) describe: every
/// known device that the radio reports a signal or a connection time for,
/// listed by host name.
pub fn parse_connected_devices(leases: Option<&str>, station_dump: Option<&str>) -> (r: Vec<
    ConnectedDevice,
>)
    ensures
        sorted_by_hostname(device_views(r@)),
        device_views(r@).to_multiset() == known_devices(
            match leases {
                Some(t) => Some(t@),
                None => None,
            },
            match station_dump {
                Some(t) => Some(t@),
                None => None,
            },
        ).filter(present_fn()).to_multiset(),
{
    let ghost known = known_devices(
        match leases {
            Some(t) => Some(t@),
            None => None,
        },
        match station_dump {
            Some(t) => Some(t@),
            None => None,
        },
    );
    let all = known_device_records(leases, station_dump);
    let ghost kept = known.filter(present_fn());
    // Keep the present devices, inserting each after those whose names sort
    // no later than its own.
    let mut out: Vec<DeviceRecord> = Vec::new();
    let mut i: usize = 0;
    assert(record_views(out@).to_multiset() =~= known.take(0).filter(present_fn()).to_multiset())
        by {
        assert(known.take(0) =~= Seq::<DeviceView>::empty());
        reveal(Seq::filter);
        broadcast use vstd::seq_lib::group_to_multiset_ensures;

    }
    while i < all.len()
        invariant
            i <= all.len(),
            record_views(all@) == known,
            known.len() == all.len(),
            sorted_by_hostname(record_views(out@)),
            record_views(out@).to_multiset() == known.take(i as int).filter(
                present_fn(),
            ).to_multiset(),
        decreases all.len() - i,
    {
        proof {
            assert(known.take(i + 1) =~= known.take(i as int).push(known[i as int]));
            known.take(i as int).lemma_filter_push(known[i as int], present_fn());
            broadcast use vstd::seq_lib::group_to_multiset_ensures;

        }
        let d = &all[i];
        assert(d@ == known[i as int]);
        if d.signal_dbm > -99 || d.connected_time_sec > 0 {
            let ghost before = record_views(out@);
            let mut p: usize = 0;
            while p < out.len() && text_le_exec(&out[p].hostname, &d.hostname)
                invariant
                    p <= out.len(),
                    before == record_views(out@),
                    before.len() == out.len(),
                    forall|k: int| 0 <= k < p ==> text_le(before[k].hostname, d.hostname@),
                decreases out.len() - p,
            {
                p = p + 1;
            }
            let rec = copy_record(d);
            out.insert(p, rec);
            proof {
                assert(record_views(out@) =~= before.insert(p as int, rec@));
                lemma_insert_to_multiset(before, p as int, rec@);
                let after = record_views(out@);
                assert forall|a: int, b: int| 0 <= a < b < after.len() implies text_le(
                    after[a].hostname,
                    after[b].hostname,
                ) by {
                    if b < p {
                        assert(after[a] == before[a] && after[b] == before[b]);
                    } else if b == p {
                        assert(after[a] == before[a]);
                    } else if a < p {
                        assert(after[a] == before[a] && after[b] == before[b - 1]);
                        if p < before.len() {
                            lemma_text_le_total(before[p as int].hostname, d.hostname@);
                        }
                        assert(text_le(before[a].hostname, d.hostname@));
                        assert(text_le(before[a].hostname, before[b - 1].hostname));
                    } else if a == p {
                        assert(after[b] == before[b - 1]);
                        lemma_text_le_total(before[p as int].hostname, d.hostname@);
                        if p < b - 1 {
                            lemma_text_le_transitive(
                                d.hostname@,
                                before[p as int].hostname,
                                before[b - 1].hostname,
                            );
                        }
                    } else {
                        assert(after[a] == before[a - 1] && after[b] == before[b - 1]);
                    }
                }
            }
        }
        i = i + 1;
    }
    assert(known.take(all.len() as int) =~= known);
    // Hand out the devices with their text as `String`s.
    let mut res: Vec<ConnectedDevice> = Vec::new();
    let ghost sorted = record_views(out@);
    let mut j: usize = 0;
    while j < out.len()
        invariant
            j <= out.len(),
            sorted == record_views(out@),
            sorted.len() == out.len(),
            device_views(res@) == sorted.take(j as int),
        decreases out.len() - j,
    {
        let d = device_from_record(copy_record(&out[j]));
        assert(d@ == sorted[j as int]);
        let ghost before = res@;
        res.push(d);
        assert(device_views(res@) =~= device_views(before).push(d@));
        assert(sorted.take(j + 1) =~= sorted.take(j as int).push(sorted[j as int]));
        j = j + 1;
    }
    assert(sorted.take(out.len() as int) =~= sorted);
    res
}

// ---------------------------------------------------------------------------
// Laws of the device list
// ---------------------------------------------------------------------------

pub open spec fn distinct_macs(s: Seq<DeviceView>) -> bool {
    forall|i: int, j: int| 0 <= i < j < s.len() ==> s[i].mac != s[j].mac
}

/// In a table without repeated MACs, the entry holding `mac` is where it is.
proof fn lemma_device_index_distinct(devs: Seq<DeviceView>, mac: Seq<char>)
    requires
        distinct_macs(devs),
    ensures
        device_index(devs, mac) >= 0 ==> device_index(devs, mac) < devs.len() && devs[device_index(
            devs,
            mac,
        )].mac == mac,
        device_index(devs, mac) < 0 ==> forall|k: int| 0 <= k < devs.len() ==> devs[k].mac != mac,
{
    if exists|k: int| 0 <= k < devs.len() && devs[k].mac == mac {
        let k = choose|k: int| 0 <= k < devs.len() && devs[k].mac == mac;
        assert forall|m: int| 0 <= m < k implies devs[m].mac != mac by {
            assert(devs[m].mac != devs[k].mac);
        }
        assert(first_with_mac(devs, mac, k));
    }
}

proof fn lemma_insert_device_distinct(devs: Seq<DeviceView>, d: DeviceView)
    requires
        distinct_macs(devs),
    ensures
        distinct_macs(insert_device(devs, d)),
{
    lemma_device_index_distinct(devs, d.mac);
    let r = insert_device(devs, d);
    assert forall|i: int, j: int| 0 <= i < j < r.len() implies r[i].mac != r[j].mac by {
        if device_index(devs, d.mac) < 0 && j == devs.len() {
            assert(r[i] == devs[i]);
        } else if device_index(devs, d.mac) >= 0 {
            let x = device_index(devs, d.mac);
            if i != x && j != x {
                assert(r[i] == devs[i] && r[j] == devs[j]);
            } else if i == x {
                assert(r[j] == devs[j]);
            } else {
                assert(r[i] == devs[i]);
            }
        } else {
            assert(r[i] == devs[i] && r[j] == devs[j]);
        }
    }
}

proof fn lemma_record_station_distinct(
    devs: Seq<DeviceView>,
    mac: Seq<char>,
    signal: i32,
    rx: u64,
    tx: u64,
    time: u64,
)
    requires
        distinct_macs(devs),
    ensures
        distinct_macs(record_station(devs, mac, signal, rx, tx, time)),
{
    lemma_device_index_distinct(devs, mac);
    let r = record_station(devs, mac, signal, rx, tx, time);
    assert forall|i: int, j: int| 0 <= i < j < r.len() implies r[i].mac != r[j].mac by {
        if device_index(devs, mac) < 0 && j == devs.len() {
            assert(r[i] == devs[i]);
        } else if device_index(devs, mac) >= 0 {
            let x = device_index(devs, mac);
            if i != x && j != x {
                assert(r[i] == devs[i] && r[j] == devs[j]);
            } else if i == x {
                assert(r[j] == devs[j]);
            } else {
                assert(r[i] == devs[i]);
            }
        } else {
            assert(r[i] == devs[i] && r[j] == devs[j]);
        }
    }
}

proof fn lemma_lease_devices_distinct(ls: Seq<Seq<char>>)
    ensures
        distinct_macs(lease_devices(ls)),
    decreases ls.len(),
{
    if ls.len() > 0 {
        lemma_lease_devices_distinct(ls.drop_last());
        match lease_device(ls.last()) {
            Some(d) => lemma_insert_device_distinct(lease_devices(ls.drop_last()), d),
            None => {},
        }
    }
}

proof fn lemma_flush_distinct(st: StationScan)
    requires
        distinct_macs(st.devices),
    ensures
        distinct_macs(flush_station(st)),
{
    if st.mac.len() > 0 {
        lemma_record_station_distinct(st.devices, st.mac, st.signal, st.rx, st.tx, st.time);
    }
}

proof fn lemma_station_scan_distinct(ls: Seq<Seq<char>>, start: StationScan)
    requires
        distinct_macs(start.devices),
    ensures
        distinct_macs(station_scan(ls, start).devices),
    decreases ls.len(),
{
    if ls.len() > 0 {
        lemma_station_scan_distinct(ls.drop_last(), start);
        lemma_flush_distinct(station_scan(ls.drop_last(), start));
    }
}

/// The table of known devices holds each MAC address once.
pub proof fn law_known_devices_distinct(leases: Option<Seq<char>>, station_dump: Option<Seq<char>>)
    ensures
        distinct_macs(known_devices(leases, station_dump)),
{
    let base = match leases {
        Some(t) => lease_devices(lines(t)),
        None => Seq::empty(),
    };
    match leases {
        Some(t) => lemma_lease_devices_distinct(lines(t)),
        None => {},
    }
    match station_dump {
        Some(t) => {
            let start = StationScan {
                devices: base,
                mac: Seq::empty(),
                signal: -99i32,
                rx: 0,
                tx: 0,
                time: 0,
            };
            lemma_station_scan_distinct(lines(t), start);
            lemma_flush_distinct(station_scan(lines(t), start));
        },
        None => {},
    }
}

proof fn lemma_filter_no_duplicates(s: Seq<DeviceView>, p: spec_fn(DeviceView) -> bool)
    requires
        s.no_duplicates(),
    ensures
        s.filter(p).no_duplicates(),
    decreases s.len(),
{
    reveal(Seq::filter);
    if s.len() > 0 {
        let d = s.drop_last();
        assert(d.no_duplicates()) by {
            assert forall|x: int, y: int| 0 <= x < d.len() && 0 <= y < d.len() && x != y implies d[x]
                != d[y] by {
                assert(d[x] == s[x] && d[y] == s[y]);
            }
        }
        lemma_filter_no_duplicates(d, p);
        let f = d.filter(p);
        if p(s.last()) {
            let now = f.push(s.last());
            assert forall|x: int, y: int|
                0 <= x < now.len() && 0 <= y < now.len() && x != y implies now[x] != now[y] by {
                if x == f.len() || y == f.len() {
                    let k = if x == f.len() {
                        y
                    } else {
                        x
                    };
                    assert(now[k] == f[k]);
                    assert(f.contains(f[k]));
                    d.lemma_filter_contains_rev(p, f[k]);
                    let m = choose|m: int| 0 <= m < d.len() && d[m] == f[k];
                    assert(s[m] == d[m]);
                    assert(s[s.len() - 1] == s.last());
                }
            }
        }
    }
}

/// A device list as `parse_connected_devices` gives it (any ordering of the
/// present known devices) shows each device once, and only devices that the
/// radio reports as connected.
pub proof fn law_device_list(
    leases: Option<Seq<char>>,
    station_dump: Option<Seq<char>>,
    listed: Seq<DeviceView>,
)
    requires
        listed.to_multiset() == known_devices(leases, station_dump).filter(
            present_fn(),
        ).to_multiset(),
    ensures
        forall|i: int| 0 <= i < listed.len() ==> is_present(#[trigger] listed[i]),
        distinct_macs(listed),
{
    broadcast use vstd::seq_lib::group_to_multiset_ensures, vstd::seq_lib::group_filter_ensures;

    let known = known_devices(leases, station_dump);
    let f = known.filter(present_fn());
    law_known_devices_distinct(leases, station_dump);
    assert forall|i: int| 0 <= i < listed.len() implies f.contains(#[trigger] listed[i]) by {
        assert(listed.contains(listed[i]));
        assert(listed.to_multiset().count(listed[i]) > 0);
    }
    assert forall|i: int| 0 <= i < listed.len() implies is_present(#[trigger] listed[i]) by {
        assert(f.contains(listed[i]));
        known.lemma_filter_contains_rev(present_fn(), listed[i]);
        let k = choose|k: int| 0 <= k < f.len() && f[k] == listed[i];
        assert(present_fn()(f[k]));
    }
    assert forall|i: int, j: int| 0 <= i < j < listed.len() implies listed[i].mac
        != listed[j].mac by {
        if listed[i].mac == listed[j].mac {
            assert(f.contains(listed[i]));
            assert(f.contains(listed[j]));
            known.lemma_filter_contains_rev(present_fn(), listed[i]);
            known.lemma_filter_contains_rev(present_fn(), listed[j]);
            let a = choose|a: int| 0 <= a < known.len() && known[a] == listed[i];
            let b = choose|b: int| 0 <= b < known.len() && known[b] == listed[j];
            assert(a == b) by {
                if a < b {
                    assert(known[a].mac != known[b].mac);
                } else if b < a {
                    assert(known[b].mac != known[a].mac);
                }
            }
            // the same device twice would be counted twice in `listed`, once in `f`
            assert(known.no_duplicates()) by {
                assert forall|x: int, y: int| 0 <= x < known.len() && 0 <= y < known.len() && x
                    != y implies known[x] != known[y] by {
                    if x < y {
                        assert(known[x].mac != known[y].mac);
                    } else {
                        assert(known[y].mac != known[x].mac);
                    }
                }
            }
            lemma_filter_no_duplicates(known, present_fn());
            f.lemma_multiset_has_no_duplicates();
            let d = listed[i];
            assert(listed.remove(i)[j - 1] == d);
            assert(listed.remove(i).contains(d));
            assert(listed.remove(i).to_multiset().count(d) > 0);
            assert(listed.to_multiset().remove(d).count(d) > 0);
            assert(listed.to_multiset().count(d) >= 2);
            assert(f.to_multiset().count(d) == 1);
        }
    }
}

} // verus!
