use wifi_hotspot::hotspot::{format_timestamp, HotspotApp};

fn float_formatted_bytes(bytes: u64) -> String {
    if bytes >= 1024 * 1024 * 1024 {
        format!("{:.1} GB", bytes as f64 / (1024.0 * 1024.0 * 1024.0))
    } else if bytes >= 1024 * 1024 {
        format!("{:.1} MB", bytes as f64 / (1024.0 * 1024.0))
    } else if bytes >= 1024 {
        format!("{:.1} KB", bytes as f64 / 1024.0)
    } else {
        format!("{} B", bytes)
    }
}

#[test]
fn format_bytes_examples() {
    assert_eq!(HotspotApp::format_bytes(0), "0 B");
    assert_eq!(HotspotApp::format_bytes(1023), "1023 B");
    assert_eq!(HotspotApp::format_bytes(1024), "1.0 KB");
    assert_eq!(HotspotApp::format_bytes(1536), "1.5 KB");
    assert_eq!(HotspotApp::format_bytes(1048576), "1.0 MB");
    assert_eq!(HotspotApp::format_bytes(5 * 1024 * 1024 * 1024), "5.0 GB");
}

#[test]
fn format_bytes_ties_round_to_even() {
    // 1.25 KB and 1.75 KB are exact ties between tenths.
    assert_eq!(HotspotApp::format_bytes(1280), float_formatted_bytes(1280));
    assert_eq!(HotspotApp::format_bytes(1792), float_formatted_bytes(1792));
    assert_eq!(HotspotApp::format_bytes(1280), "1.2 KB");
    assert_eq!(HotspotApp::format_bytes(1792), "1.8 KB");
}

#[test]
fn format_bytes_matches_float_formatting() {
    let mut values: Vec<u64> = Vec::new();
    for k in 0..64u32 {
        let p = 1u64 << k;
        for d in [0i64, -1, 1, -3, 3, 511, -511, 1023] {
            let v = p as i128 + d as i128;
            if v >= 0 && v <= u64::MAX as i128 {
                values.push(v as u64);
            }
        }
    }
    let mut x: u64 = 0x9E37_79B9_7F4A_7C15;
    for _ in 0..20000 {
        x ^= x << 13;
        x ^= x >> 7;
        x ^= x << 17;
        values.push(x >> (x % 64));
        values.push(x);
    }
    for t in 0..10u64 {
        for base in [1024u64, 1024 * 1024, 1024 * 1024 * 1024] {
            values.push(base * (t * 10 + 5) / 10 + base / 20);
            values.push(base * 3 + base / 4);
            values.push(base * 9 + base * 95 / 100);
        }
    }
    values.push(u64::MAX);
    values.push((1u64 << 53) + 1);
    values.push((1u64 << 53) + 3);
    values.push((1u64 << 54) + 2);
    values.push((1u64 << 54) + 6);
    for v in values {
        assert_eq!(HotspotApp::format_bytes(v), float_formatted_bytes(v), "bytes {}", v);
    }
}

#[test]
fn timestamp_formats() {
    assert_eq!(format_timestamp(Some(0)), "00:00:00 UTC");
    assert_eq!(format_timestamp(Some(3661)), "01:01:01 UTC");
    assert_eq!(format_timestamp(Some(86399)), "23:59:59 UTC");
    assert_eq!(format_timestamp(Some(86400 + 45296)), "12:34:56 UTC");
    assert_eq!(format_timestamp(None), "Banned");
}

#[test]
fn simple_timestamp_has_clock_shape() {
    let t = HotspotApp::simple_timestamp();
    let b = t.as_bytes();
    assert_eq!(t.len(), 12, "{}", t);
    assert!(t.ends_with(" UTC"));
    assert_eq!(b[2], b':');
    assert_eq!(b[5], b':');
    let hours: u32 = t[0..2].parse().unwrap();
    assert!(hours < 24);
}
