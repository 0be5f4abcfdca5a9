use netscanner::action::{
    Action, ArpPacketData, Effect, Interface, InterfaceIp, MacAddr, Mode, SortColumn, TabsEnum,
};
use netscanner::discovery::screen::{Drawing, Screen};
use netscanner::discovery::Discovery;
use netscanner::input::{Key, KeyStroke};
use netscanner::ipv4::Cidr;
use netscanner::rows::ScannedIp;
use netscanner::ui::{Rect, Span};

fn press(key: Key) -> KeyStroke {
    KeyStroke { key, modifiers: 0, pressed: true }
}

fn connected() -> Discovery {
    let mut d = Discovery::new();
    d.register_action_handler();
    d
}

fn private() -> Action {
    Action::ActiveInterface(Interface {
        ips: vec![InterfaceIp::V6, InterfaceIp::V4(0x0808_0808), InterfaceIp::V4(0xc0a8_2a11)],
    })
}

fn host(ip: &str, mac: &str, hostname: &str, vendor: &str) -> ScannedIp {
    ScannedIp {
        ip: ip.to_string(),
        mac: mac.to_string(),
        hostname: hostname.to_string(),
        vendor: vendor.to_string(),
    }
}

fn ips(d: &Discovery) -> Vec<String> {
    d.get_scanned_ips().iter().map(|h| h.ip.clone()).collect()
}

fn resolved(ip: &str, hostname: &str, mac: &str) -> Action {
    Action::IpResolved { ip: ip.to_string(), hostname: hostname.to_string(), mac: mac.to_string() }
}

fn answered(ip: &str) -> Action {
    Action::PingIpResponded(ip.to_string())
}

fn screen(d: &Discovery) -> Screen {
    match d.draw(Rect { x: 0, y: 4, width: 100, height: 30 }) {
        Drawing::Shown(s) => s,
        other => panic!("{other:?}"),
    }
}

fn text(line: &Vec<Span>) -> String {
    line.iter().map(|s| s.text.as_str()).collect()
}

fn scanning() -> Discovery {
    let mut d = connected();
    d.update(private());
    d.update(Action::ScanCidr);
    d
}

fn network() -> Cidr {
    Cidr { first: 0xc0a8_2a00, length: 24 }
}

#[test]
fn at_the_start() {
    let d = Discovery::default();
    let s = screen(&d);
    assert!(d.get_scanned_ips().is_empty());
    assert_eq!(s.input.text.text, "192.168.1.0/24");
    assert_eq!(s.selected, Some(0));
    assert_eq!(s.cursor, None);
    assert!(s.spinner.is_none() && s.menu.is_none() && s.error.is_none());
}

#[test]
fn the_default_network_is_chosen_at_first() {
    let mut d = connected();
    d.init();
    d.update(Action::ActiveInterface(Interface { ips: vec![] }));
    assert_eq!(
        d.update(Action::ScanCidr),
        vec![Effect::StartScan { network: Cidr { first: 0xc0a8_0100, length: 24 }, pool_size: 32 }]
    );
    let mut e = connected();
    e.update(private());
    e.init();
    assert_eq!(
        e.update(Action::ScanCidr),
        vec![Effect::StartScan { network: network(), pool_size: 32 }]
    );
}

#[test]
fn the_first_interface_chooses_the_network() {
    let mut d = connected();
    assert!(d.update(private()).is_empty());
    assert_eq!(screen(&d).input.text.text, "192.168.42.0/24");
    d.update(Action::ActiveInterface(Interface { ips: vec![InterfaceIp::V4(0x0a00_0001)] }));
    assert_eq!(screen(&d).input.text.text, "192.168.42.0/24");
    assert_eq!(
        d.update(Action::ScanCidr),
        vec![Effect::StartScan { network: network(), pool_size: 32 }]
    );
}

#[test]
fn a_public_interface_chooses_nothing() {
    let mut d = connected();
    d.update(Action::ActiveInterface(Interface { ips: vec![InterfaceIp::V4(0x0808_0808)] }));
    assert_eq!(screen(&d).input.text.text, "192.168.1.0/24");
    assert!(d.update(Action::ScanCidr).is_empty());
}

#[test]
fn no_scan_without_interface_nor_twice_nor_in_another_tab() {
    let mut d = connected();
    d.init();
    assert!(d.update(Action::ScanCidr).is_empty());
    d.update(private());
    d.update(Action::TabChange(TabsEnum::Ports));
    assert!(d.update(Action::ScanCidr).is_empty());
    d.update(Action::TabChange(TabsEnum::Discovery));
    assert_eq!(d.update(Action::ScanCidr).len(), 1);
    assert!(d.update(Action::ScanCidr).is_empty());
}

#[test]
fn a_host_is_listed_once() {
    let mut d = scanning();
    d.update(answered("10.0.0.10"));
    d.update(answered("10.0.0.9"));
    d.update(answered("10.0.0.10"));
    assert_eq!(ips(&d), vec!["10.0.0.9", "10.0.0.10"]);
    assert_eq!(screen(&d).scroll_length, 1);
}

#[test]
fn names_reach_their_host() {
    let mut d = scanning();
    d.update(answered("10.0.0.1"));
    d.update(answered("10.0.0.2"));
    d.update(resolved("10.0.0.2", "nas", "m"));
    d.update(resolved("10.0.0.3", "ghost", "n"));
    assert_eq!(
        *d.get_scanned_ips(),
        vec![host("10.0.0.1", "", "", ""), host("10.0.0.2", "m", "nas", "")]
    );
    d.update(resolved("10.0.0.2", "", "other"));
    assert_eq!(d.get_scanned_ips()[1], host("10.0.0.2", "m", "nas", ""));
}

#[test]
fn vendors_are_looked_up() {
    let mut d = scanning();
    d.init();
    d.update(answered("10.0.0.1"));
    d.update(answered("10.0.0.2"));
    d.update(resolved("10.0.0.1", "", "00:00:0c:01:02:03"));
    assert_eq!(
        d.get_scanned_ips()[0],
        host("10.0.0.1", "00:00:0c:01:02:03", "", "Cisco Systems, Inc")
    );
    d.update(Action::ArpRecieve(ArpPacketData {
        sender_mac: MacAddr(0, 0, 0x0c, 0xab, 0xcd, 0xef),
        sender_ip: 0x0a00_0002,
    }));
    assert_eq!(
        d.get_scanned_ips()[1],
        host("10.0.0.2", "00:00:0c:ab:cd:ef", "", "Cisco Systems, Inc")
    );
}

#[test]
fn a_captured_address_replaces_the_known_one() {
    let mut d = scanning();
    d.update(answered("10.0.0.1"));
    d.update(resolved("10.0.0.1", "nas", "m"));
    d.update(Action::ArpRecieve(ArpPacketData {
        sender_mac: MacAddr(1, 2, 3, 4, 5, 0xff),
        sender_ip: 0x0a00_0001,
    }));
    assert_eq!(d.get_scanned_ips()[0], host("10.0.0.1", "01:02:03:04:05:ff", "nas", ""));
}

#[test]
fn a_scan_ends_with_the_last_address() {
    let mut d = scanning();
    for _ in 0..255 {
        d.update(Action::CountIp);
    }
    let title = text(&screen(&d).table.titles[2].spans);
    assert_eq!(title, "|◉ 0| ⣿(255/256)");
    d.update(Action::CountIp);
    assert_eq!(text(&screen(&d).table.titles[2].spans), "|◉ 0|");
}

#[test]
fn a_scan_clears_the_list() {
    let mut d = scanning();
    d.update(answered("10.0.0.1"));
    d.update(Action::CountIp);
    assert!(d.update(Action::ScanComplete).is_empty());
    assert_eq!(d.update(Action::ScanCidr).len(), 1);
    assert!(d.get_scanned_ips().is_empty());
    assert_eq!(text(&screen(&d).table.titles[2].spans), "|◉ 0| ⣿(0/256)");
}

#[test]
fn a_scan_of_half_the_addresses_ends_at_once() {
    let mut d = connected();
    assert_eq!(d.apply_cidr(Some(Cidr { first: 0, length: 1 }), true).len(), 1);
    assert!(screen(&d).spinner.is_some());
    d.update(Action::CountIp);
    assert!(screen(&d).spinner.is_none());
}

#[test]
fn a_scan_can_be_stopped() {
    let mut d = scanning();
    assert_eq!(d.handle_key_events(press(Key::Char('k'))), (Some(Action::StopScan), vec![]));
    assert_eq!(d.update(Action::StopScan), vec![Effect::StopScan]);
    assert!(screen(&d).spinner.is_none());
    assert_eq!(d.handle_key_events(press(Key::Char('k'))), (None, vec![]));
}

#[test]
fn no_input_during_a_scan() {
    let mut d = scanning();
    assert_eq!(
        d.update(Action::ModeChange(Mode::Input)),
        vec![Effect::Send(Action::ModeChange(Mode::Normal))]
    );
    assert_eq!(screen(&d).cursor, None);
    assert_eq!(
        d.update(Action::ModeChange(Mode::Normal)),
        vec![Effect::Send(Action::AppModeChange(Mode::Normal))]
    );
}

#[test]
fn a_network_is_typed_and_scanned() {
    let mut d = connected();
    assert_eq!(
        d.update(Action::ModeChange(Mode::Input)),
        vec![Effect::Send(Action::AppModeChange(Mode::Input))]
    );
    for _ in 0..14 {
        assert_eq!(
            d.handle_key_events(press(Key::Backspace)),
            (Some(Action::Refresh), vec![])
        );
    }
    for c in "10.1.0.0/16".chars() {
        d.handle_key_events(press(Key::Char(c)));
    }
    assert_eq!(screen(&d).input.text.text, "10.1.0.0/16");
    assert_eq!(d.handle_key_events(press(Key::Esc)), (None, vec![]));
    assert_eq!(
        d.handle_key_events(press(Key::Enter)),
        (
            Some(Action::ModeChange(Mode::Normal)),
            vec![Effect::StartScan {
                network: Cidr { first: 0x0a01_0000, length: 16 },
                pool_size: 32
            }]
        )
    );
}

#[test]
fn what_is_no_network_is_an_error() {
    for tail in ["x", "/", "9", ".", " "] {
        let mut d = connected();
        d.update(Action::ModeChange(Mode::Input));
        for c in tail.chars() {
            d.handle_key_events(press(Key::Char(c)));
        }
        assert_eq!(
            d.handle_key_events(press(Key::Enter)),
            (Some(Action::ModeChange(Mode::Normal)), vec![Effect::Send(Action::CidrError)])
        );
        assert!(screen(&d).spinner.is_none());
        d.update(Action::CidrError);
        assert!(screen(&d).error.is_some());
        d.update(Action::Tick);
        assert!(screen(&d).error.is_some());
        d.update(Action::ModeChange(Mode::Input));
        assert!(screen(&d).error.is_none());
    }
}

#[test]
fn a_network_with_host_bits_is_an_error() {
    let mut d = connected();
    d.update(Action::ModeChange(Mode::Input));
    for _ in 0..4 {
        d.handle_key_events(press(Key::Backspace));
    }
    for c in "1/24".chars() {
        d.handle_key_events(press(Key::Char(c)));
    }
    assert_eq!(screen(&d).input.text.text, "192.168.1.1/24");
    let (_, effects) = d.handle_key_events(press(Key::Enter));
    assert_eq!(effects, vec![Effect::Send(Action::CidrError)]);
}

fn submitted(text: &str) -> Vec<Effect> {
    let mut d = connected();
    d.update(Action::ModeChange(Mode::Input));
    d.handle_key_events(KeyStroke { key: Key::Char('u'), modifiers: 2, pressed: true });
    for c in text.chars() {
        d.handle_key_events(press(Key::Char(c)));
    }
    assert_eq!(screen(&d).input.text.text, text);
    d.handle_key_events(press(Key::Enter)).1
}

#[test]
fn notations_of_networks() {
    let networks = [
        ("10.1.2.3", Some((0x0a01_0203, 32))),
        ("0.0.0.0/0", Some((0, 0))),
        ("128.0.0.0/1", Some((0x8000_0000, 1))),
        ("255.255.255.255/32", Some((u32::MAX, 32))),
        ("10.1.2.3/31", None),
        ("10.0.0.0/33", None),
        ("10.0.0.0/256", None),
        ("", None),
        ("any", None),
        ("::/0", None),
    ];
    for (text, network) in networks {
        let expected = match network {
            Some((first, length)) => {
                Effect::StartScan { network: Cidr { first, length }, pool_size: 32 }
            }
            None => Effect::Send(Action::CidrError),
        };
        assert_eq!(submitted(text), vec![expected], "{text}");
    }
}

#[test]
fn nothing_is_submitted_to_nobody() {
    let mut d = Discovery::new();
    assert!(d.apply_cidr(None, true).is_empty());
    assert!(d.apply_cidr(Some(network()), false).is_empty());
    assert!(screen(&d).spinner.is_none());
}

#[test]
fn going_up_and_down() {
    let mut d = scanning();
    for ip in ["10.0.0.1", "10.0.0.2", "10.0.0.3"] {
        d.update(answered(ip));
    }
    let mut seen: Vec<Option<usize>> = Vec::new();
    for action in [Action::Down, Action::Down, Action::Down, Action::Up, Action::Up] {
        d.update(action);
        seen.push(screen(&d).selected);
    }
    assert_eq!(seen, vec![Some(1), Some(2), Some(0), Some(2), Some(1)]);
    assert_eq!(screen(&d).scroll_position, 1);
    d.update(Action::TabChange(TabsEnum::Packets));
    d.update(Action::Down);
    d.update(Action::TabChange(TabsEnum::Discovery));
    assert_eq!(screen(&d).selected, Some(1));
    d.set_selected(None);
    assert_eq!(screen(&d).selected, None);
    d.update(Action::Down);
    assert_eq!(screen(&d).selected, Some(0));
}

#[test]
fn going_up_in_an_empty_table() {
    let mut d = Discovery::new();
    d.update(Action::Up);
    assert_eq!(screen(&d).selected, Some(0));
    d.update(Action::Down);
    assert_eq!(screen(&d).selected, Some(0));
}

#[test]
fn the_sort_menu() {
    let mut d = connected();
    d.update(answered("10.0.0.1"));
    d.update(answered("10.0.0.2"));
    d.update(resolved("10.0.0.1", "b", ""));
    d.update(resolved("10.0.0.2", "A", ""));
    assert_eq!(ips(&d), vec!["10.0.0.1", "10.0.0.2"]);
    assert_eq!(d.handle_key_events(press(Key::Char('o'))), (Some(Action::Refresh), vec![]));
    assert!(screen(&d).menu.is_some());
    for key in [Key::Down, Key::Char('j'), Key::Char('j'), Key::Char('j'), Key::Char('k'), Key::Other] {
        assert_eq!(d.handle_key_events(press(key)), (Some(Action::Refresh), vec![]));
    }
    assert_eq!(
        d.handle_key_events(press(Key::Enter)),
        (Some(Action::SortBy(SortColumn::Hostname)), vec![])
    );
    assert!(screen(&d).menu.is_none());
    d.update(Action::SortBy(SortColumn::Hostname));
    assert_eq!(ips(&d), vec!["10.0.0.2", "10.0.0.1"]);
    d.handle_key_events(press(Key::Char('o')));
    assert_eq!(screen(&d).menu.unwrap().items[2].text, "▶ Hostname");
    assert_eq!(d.handle_key_events(press(Key::Esc)), (Some(Action::Refresh), vec![]));
    assert!(screen(&d).menu.is_none());
}

#[test]
fn the_menu_key_opens_and_closes_the_menu() {
    let mut d = Discovery::new();
    for open in [true, false, true] {
        assert_eq!(d.handle_key_events(press(Key::Char('o'))), (Some(Action::Refresh), vec![]));
        assert_eq!(screen(&d).menu.is_some(), open);
    }
}

#[test]
fn the_menu_key_closes_no_menu_during_a_scan_or_in_the_input_mode() {
    let mut d = scanning();
    d.update(Action::Help);
    assert_eq!(d.handle_key_events(press(Key::Char('o'))), (Some(Action::Refresh), vec![]));
    assert!(screen(&d).menu.is_some());
    let mut e = connected();
    e.update(Action::ModeChange(Mode::Input));
    e.update(Action::Help);
    assert_eq!(e.handle_key_events(press(Key::Char('o'))), (Some(Action::Refresh), vec![]));
    assert!(screen(&e).menu.is_some());
}

#[test]
fn a_new_host_keeps_the_others() {
    let mut d = scanning();
    d.update(answered("10.0.0.2"));
    d.update(resolved("10.0.0.2", "nas", "m"));
    d.update(answered("10.0.0.1"));
    d.update(answered("10.0.0.2"));
    assert_eq!(
        *d.get_scanned_ips(),
        vec![host("10.0.0.1", "", "", ""), host("10.0.0.2", "m", "nas", "")]
    );
}

#[test]
fn another_tab_leaves_the_scan_alone() {
    let mut d = scanning();
    d.update(answered("10.0.0.1"));
    d.update(answered("10.0.0.2"));
    d.update(Action::TabChange(TabsEnum::Packets));
    for action in [Action::Down, Action::Up, Action::ModeChange(Mode::Input), Action::ScanCidr] {
        assert!(d.update(action).is_empty());
    }
    d.update(answered("10.0.0.3"));
    d.update(Action::CountIp);
    assert_eq!(d.update(Action::StopScan), vec![Effect::StopScan]);
    d.update(Action::TabChange(TabsEnum::Discovery));
    assert_eq!(ips(&d), vec!["10.0.0.1", "10.0.0.2", "10.0.0.3"]);
    assert_eq!(screen(&d).selected, Some(0));
    assert!(screen(&d).spinner.is_none());
}

#[test]
fn help_opens_and_closes_the_menu() {
    let mut d = Discovery::new();
    d.update(Action::Help);
    assert!(screen(&d).menu.is_some());
    d.update(Action::Help);
    assert!(screen(&d).menu.is_none());
}

#[test]
fn the_menu_stays_closed_during_a_scan() {
    let mut d = scanning();
    assert_eq!(d.handle_key_events(press(Key::Char('o'))), (None, vec![]));
    assert!(screen(&d).menu.is_none());
}

#[test]
fn other_tabs_keep_their_keys() {
    let mut d = connected();
    d.tab_changed(TabsEnum::Traffic);
    assert_eq!(d.handle_key_events(press(Key::Char('o'))), (None, vec![]));
    assert_eq!(d.draw(Rect { x: 0, y: 0, width: 0, height: 0 }), Drawing::Hidden);
}

#[test]
fn the_spinner_turns() {
    let mut d = scanning();
    let mut seen: Vec<String> = Vec::new();
    for _ in 0..7 {
        let (area, span) = screen(&d).spinner.unwrap();
        assert_eq!(area, Rect { x: 70, y: 6, width: 12, height: 1 });
        seen.push(span.text);
        d.update(Action::Tick);
    }
    let symbols = ["⠷", "⠯", "⠟", "⠻", "⠽", "⠾", "⠷"];
    for i in 0..7 {
        assert_eq!(seen[i], format!("{}scanning..", symbols[i]));
    }
}

#[test]
fn without_a_register_no_vendor_is_known() {
    let mut d = scanning();
    d.init();
    d.set_oui(None);
    d.update(answered("10.0.0.1"));
    d.update(resolved("10.0.0.1", "", "00:00:0c:01:02:03"));
    assert_eq!(d.get_scanned_ips()[0].vendor, "");
}

#[test]
fn what_is_no_business_of_the_tab() {
    let mut d = Discovery::new();
    for action in [Action::Refresh, Action::Tab, Action::AppModeChange(Mode::Input), Action::Other] {
        assert!(d.update(action).is_empty());
    }
    assert_eq!(screen(&d), screen(&Discovery::new()));
}

#[test]
fn messages_that_need_someone_to_send_to() {
    let mut d = Discovery::new();
    assert!(d.can_update(&Action::ScanCidr));
    assert!(!d.can_update(&Action::ModeChange(Mode::Input)));
    d.update(private());
    assert!(!d.can_update(&Action::ScanCidr));
    assert!(d.can_update(&Action::CountIp));
    d.tab_changed(TabsEnum::Ports);
    assert!(d.can_update(&Action::ModeChange(Mode::Input)));
    assert!(d.can_update(&Action::ScanCidr));
    d.tab_changed(TabsEnum::Discovery);
    d.register_action_handler();
    assert!(d.can_update(&Action::ScanCidr));
    assert!(d.can_update(&Action::ModeChange(Mode::Input)));
}
