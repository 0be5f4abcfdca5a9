use netscanner::shell::{
    after_dig, after_nslookup, arp_args, dig_args, get_mac, hostname_from_dig, hostname_from_nslookup,
    mac_from_arp, nslookup_args, ping_args, ping_host, Lookup,
};

fn bytes(s: &str) -> Option<Vec<u8>> {
    Some(s.as_bytes().to_vec())
}

#[test]
fn arguments() {
    assert_eq!(ping_args(false, "10.0.0.1"), vec!["-c", "1", "-W", "1", "10.0.0.1"]);
    assert_eq!(ping_args(true, "10.0.0.1"), vec!["-c", "1", "-t", "1", "10.0.0.1"]);
    assert_eq!(dig_args("10.0.0.1"), vec!["-x", "10.0.0.1", "+short", "+time=2", "+tries=1"]);
    assert_eq!(nslookup_args("10.0.0.1"), vec!["10.0.0.1"]);
    assert_eq!(arp_args("10.0.0.1"), vec!["-n", "10.0.0.1"]);
}

#[test]
fn ping_succeeds_only_with_success() {
    assert!(ping_host(Some(true)));
    assert!(!ping_host(Some(false)));
    assert!(!ping_host(None));
}

#[test]
fn names_from_dig() {
    assert_eq!(hostname_from_dig("router.local.\n"), Some("router.local".to_string()));
    assert_eq!(hostname_from_dig(";; timed out\n\n  a.b..\r\n"), Some("a.b".to_string()));
    assert_eq!(hostname_from_dig(";; timed out\n.\n"), None);
    assert_eq!(hostname_from_dig(""), None);
    assert_eq!(hostname_from_dig("; one\n"), Some("; one".to_string()));
}

#[test]
fn names_from_nslookup() {
    let output = "Server: 1.1.1.1\n\n1.0.0.10.in-addr.arpa\tname = nas.home.\n";
    assert_eq!(hostname_from_nslookup(output), Some("nas.home".to_string()));
    assert_eq!(hostname_from_nslookup("name = .\nname = x"), Some("".to_string()));
    assert_eq!(hostname_from_nslookup("** can't find it: NXDOMAIN\n"), None);
}

#[test]
fn dig_comes_before_nslookup() {
    assert_eq!(after_dig(bytes("a.b.\n")), Lookup::Found("a.b".to_string()));
    assert_eq!(after_dig(bytes("\n")), Lookup::AskNslookup);
    assert_eq!(after_dig(None), Lookup::AskNslookup);
    assert_eq!(after_nslookup(bytes("x name = a.\n")), "a");
    assert_eq!(after_nslookup(bytes("nothing")), "");
    assert_eq!(after_nslookup(None), "");
}

#[test]
fn invalid_bytes_are_replaced() {
    assert_eq!(after_dig(Some(vec![b'a', 0xff, b'.', b'\n'])), Lookup::Found("a\u{fffd}".to_string()));
    assert_eq!(after_dig(Some(vec![0xc3, 0xa9])), Lookup::Found("é".to_string()));
}

#[test]
fn hardware_addresses_from_arp() {
    let output = "Address HWtype HWaddress\n10.0.0.1 ether 00-1a-2B-3c-4d-5e C eth0\n";
    assert_eq!(mac_from_arp(output), "00:1a:2B:3c:4d:5e");
    assert_eq!(mac_from_arp("? (10.0.0.1) at 0:1a:2b:3:4d:5 on en0"), "0:1a:2b:3:4d:5");
    assert_eq!(mac_from_arp("0:1:2:3:4:"), "");
    assert_eq!(mac_from_arp("0123456789abcdef"), "");
    assert_eq!(mac_from_arp("00:1a:2b:3c:4d:5g"), "");
    assert_eq!(mac_from_arp(""), "");
    assert_eq!(get_mac(bytes("x 00:1a:2b:3c:4d:5e")), "00:1a:2b:3c:4d:5e");
    assert_eq!(get_mac(None), "");
}
