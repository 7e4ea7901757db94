use wifi_hotspot::blocklist::{
    block_device, block_device_stamped, deauthenticate_args, deny_file_contents,
    mac_drop_rule_args, unblock_device, BlockedMacEntry, FilterChain,
};

fn entry(mac: &str) -> BlockedMacEntry {
    BlockedMacEntry { mac: mac.to_string(), hostname: String::new(), blocked_at: String::new() }
}

#[test]
fn block_adds_clean_address_once() {
    let mut list = Vec::new();
    let r = block_device_stamped(&mut list, "  AA:BB:CC:DD:EE:FF ", "phone", "01:02:03 UTC".to_string());
    assert_eq!(r, Some("aa:bb:cc:dd:ee:ff".to_string()));
    assert_eq!(list.len(), 1);
    assert_eq!(list[0].mac, "aa:bb:cc:dd:ee:ff");
    assert_eq!(list[0].hostname, "phone");
    assert_eq!(list[0].blocked_at, "01:02:03 UTC");
    let again = block_device_stamped(&mut list, "aa:bb:cc:dd:ee:ff", "other", "x".to_string());
    assert_eq!(again, Some("aa:bb:cc:dd:ee:ff".to_string()));
    assert_eq!(list.len(), 1);
    assert_eq!(list[0].hostname, "phone");
}

#[test]
fn block_matches_entries_case_insensitively() {
    let mut list = vec![entry("AA:BB:CC:DD:EE:FF")];
    block_device_stamped(&mut list, "aa:bb:cc:dd:ee:ff", "x", "t".to_string());
    assert_eq!(list.len(), 1);
}

#[test]
fn block_ignores_blank_address() {
    let mut list = vec![entry("11:22:33:44:55:66")];
    assert_eq!(block_device(&mut list, "   ", "Manual Entry"), None);
    assert_eq!(list.len(), 1);
}

#[test]
fn block_stamps_with_clock() {
    let mut list = Vec::new();
    assert_eq!(block_device(&mut list, "11:22:33:44:55:66", "Manual Entry"), Some("11:22:33:44:55:66".to_string()));
    assert_eq!(list.len(), 1);
    assert!(list[0].blocked_at.ends_with(" UTC") || list[0].blocked_at == "Banned");
    assert_eq!(list[0].hostname, "Manual Entry");
}

#[test]
fn unblock_removes_every_matching_entry() {
    let mut list = vec![entry("AA:BB:CC:DD:EE:FF"), entry("11:22:33:44:55:66"), entry("aa:bb:cc:dd:ee:ff")];
    let clean = unblock_device(&mut list, " Aa:Bb:Cc:Dd:Ee:Ff");
    assert_eq!(clean, "aa:bb:cc:dd:ee:ff");
    assert_eq!(list.len(), 1);
    assert_eq!(list[0].mac, "11:22:33:44:55:66");
}

#[test]
fn block_then_unblock_restores() {
    let mut list = vec![entry("11:22:33:44:55:66")];
    block_device_stamped(&mut list, "AA:BB:CC:DD:EE:FF", "x", "t".to_string());
    assert_eq!(list.len(), 2);
    unblock_device(&mut list, "AA:BB:CC:DD:EE:FF");
    assert_eq!(list.len(), 1);
    assert_eq!(list[0].mac, "11:22:33:44:55:66");
}

#[test]
fn deny_file_lists_addresses() {
    let list = vec![entry("aa:bb:cc:dd:ee:ff"), entry("11:22:33:44:55:66")];
    assert_eq!(deny_file_contents(&list), "aa:bb:cc:dd:ee:ff\n11:22:33:44:55:66\n");
    assert_eq!(deny_file_contents(&Vec::new()), "");
}

#[test]
fn firewall_and_deauth_arguments() {
    assert_eq!(
        mac_drop_rule_args(true, FilterChain::Forward, "ap0", "aa:bb"),
        vec!["-I", "FORWARD", "-i", "ap0", "-m", "mac", "--mac-source", "aa:bb", "-j", "DROP"]
    );
    assert_eq!(
        mac_drop_rule_args(false, FilterChain::Input, "ap0", "aa:bb"),
        vec!["-D", "INPUT", "-i", "ap0", "-m", "mac", "--mac-source", "aa:bb", "-j", "DROP"]
    );
    assert_eq!(
        deauthenticate_args("ap0", "aa:bb"),
        vec!["-p", "/tmp/rust_hostapd_ctrl", "-i", "ap0", "deauthenticate", "aa:bb"]
    );
}
