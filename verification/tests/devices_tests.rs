use wifi_hotspot::devices::parse_connected_devices;

const LEASES: &str = "1700000000 AA:BB:CC:DD:EE:01 192.168.50.20 phone 01:aa:bb:cc:dd:ee:01\n1700000001 aa:bb:cc:dd:ee:02 192.168.50.21 * *\nbroken line\n1700000002 aa:bb:cc:dd:ee:04 192.168.50.22 * *\n";

const DUMP: &str = "Station aa:bb:cc:dd:ee:01 (on ap0)\n\tinactive time:\t10 ms\n\trx bytes:\t1234\n\ttx bytes:\t5678\n\tsignal:  \t-45 [-45, -47] dBm\n\tconnected time:\t120 seconds\nStation AA:BB:CC:DD:EE:03 (on ap0)\n\trx bytes:\t10\n\tsignal:  \t-80 dBm\nStation aa:bb:cc:dd:ee:04 (on ap0)\n\tsignal:\tjunk\n\tconnected time:\t5 seconds\n";

#[test]
fn devices_from_leases_and_stations() {
    let devs = parse_connected_devices(Some(LEASES), Some(DUMP));
    let names: Vec<&str> = devs.iter().map(|d| d.hostname.as_str()).collect();
    assert_eq!(names, vec!["Client (aa:bb:cc:dd:ee:03)", "Device (192.168.50.22)", "phone"]);
    let phone = &devs[2];
    assert_eq!(phone.mac, "aa:bb:cc:dd:ee:01");
    assert_eq!(phone.ip, "192.168.50.20");
    assert_eq!((phone.signal_dbm, phone.rx_bytes, phone.tx_bytes, phone.connected_time_sec), (-45, 1234, 5678, 120));
    let client = &devs[0];
    assert_eq!(client.ip, "Connecting...");
    assert_eq!((client.signal_dbm, client.rx_bytes, client.tx_bytes, client.connected_time_sec), (-80, 10, 0, 0));
    let quiet = &devs[1];
    assert_eq!((quiet.signal_dbm, quiet.connected_time_sec), (-99, 5));
}

#[test]
fn leases_alone_are_not_connected() {
    assert!(parse_connected_devices(Some(LEASES), None).is_empty());
    assert!(parse_connected_devices(None, None).is_empty());
}

#[test]
fn stations_alone_are_listed() {
    let devs = parse_connected_devices(None, Some(DUMP));
    assert_eq!(devs.len(), 3);
    assert_eq!(devs[0].hostname, "Client (aa:bb:cc:dd:ee:01)");
}

#[test]
fn later_lease_replaces_earlier() {
    let leases = "1 aa:aa:aa:aa:aa:aa 10.0.0.1 first\n2 AA:AA:AA:AA:AA:AA 10.0.0.2 second\n";
    let dump = "Station aa:aa:aa:aa:aa:aa\n signal: -50 dBm\n";
    let devs = parse_connected_devices(Some(leases), Some(dump));
    assert_eq!(devs.len(), 1);
    assert_eq!(devs[0].hostname, "second");
    assert_eq!(devs[0].ip, "10.0.0.2");
}
