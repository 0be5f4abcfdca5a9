use netscanner::ipv4::{
    count_ipv4_net_length, format_ipv4, get_ips4_from_cidr, is_private, parse_ipv4, subnet_text, Cidr,
};

#[test]
fn notations() {
    let addresses: [(u32, &str); 6] = [
        (0, "0.0.0.0"),
        (1, "0.0.0.1"),
        (0xc0a8_0101, "192.168.1.1"),
        (0x0a00_00ff, "10.0.0.255"),
        (0x7f00_0a64, "127.0.10.100"),
        (u32::MAX, "255.255.255.255"),
    ];
    for (a, text) in addresses {
        assert_eq!(format_ipv4(a), text);
        assert_eq!(parse_ipv4(text), Some(a));
    }
}

#[test]
fn what_is_no_address() {
    let texts = [
        "", ".", "...", "1.2.3", "1.2.3.4.5", "1.2.3.256", "1.2.3.", ".1.2.3", "01.2.3.4", "1.2.3.4 ",
        "+1.2.3.4", "1.2.3.00", "a.b.c.d", "1.2.3.1000", "1..2.3", "::1", "1.2.3.4294967297",
    ];
    for text in texts {
        assert_eq!(parse_ipv4(text), None, "{text}");
    }
}

#[test]
fn private_addresses() {
    let private: [u32; 6] =
        [0x0a00_0000, 0x0aff_ffff, 0xac10_0000, 0xac1f_ffff, 0xc0a8_0000, 0xc0a8_ffff];
    let public: [u32; 6] =
        [0x09ff_ffff, 0x0b00_0000, 0xac0f_ffff, 0xac20_0000, 0xc0a7_ffff, 0xc0a9_0000];
    for a in private {
        assert!(is_private(a));
    }
    for a in public {
        assert!(!is_private(a));
    }
}

#[test]
fn sizes_of_networks() {
    assert_eq!(count_ipv4_net_length(32), 1);
    assert_eq!(count_ipv4_net_length(24), 256);
    assert_eq!(count_ipv4_net_length(1), 0x8000_0000);
    assert_eq!(count_ipv4_net_length(0), 0x1_0000_0000);
}

#[test]
fn addresses_of_networks() {
    let ips = get_ips4_from_cidr(Cidr { first: 0xc0a8_0104, length: 30 });
    assert_eq!(ips, vec![0xc0a8_0104, 0xc0a8_0105, 0xc0a8_0106, 0xc0a8_0107]);
    assert_eq!(get_ips4_from_cidr(Cidr { first: u32::MAX, length: 32 }), vec![u32::MAX]);
    assert_eq!(get_ips4_from_cidr(Cidr { first: 0xc0a8_0100, length: 24 }).len(), 256);
}

#[test]
fn network_around_an_address() {
    assert_eq!(subnet_text(0xc0a8_2a11), "192.168.42.0/24");
    assert_eq!(subnet_text(0x0a00_0000), "10.0.0.0/24");
}
