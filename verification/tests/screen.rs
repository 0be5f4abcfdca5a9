use netscanner::action::{Action, Mode, SortColumn};
use netscanner::discovery::screen::{Drawing, Padding, Screen, Side, Width};
use netscanner::discovery::Discovery;
use netscanner::input::{Key, KeyStroke};
use netscanner::ipv4::Cidr;
use netscanner::rows::ScannedIp;
use netscanner::ui::{Align, Color, Edge, Rect, Span, Style};

fn text(line: &Vec<Span>) -> String {
    line.iter().map(|s| s.text.as_str()).collect()
}

fn shown(d: &Discovery, bottom: Rect) -> Screen {
    match d.draw(bottom) {
        Drawing::Shown(s) => s,
        other => panic!("{other:?}"),
    }
}

fn area(x: u16, y: u16, width: u16, height: u16) -> Rect {
    Rect { x, y, width, height }
}

fn type_in(d: &mut Discovery, text: &str) {
    for c in text.chars() {
        d.handle_key_events(KeyStroke { key: Key::Char(c), modifiers: 0, pressed: true });
    }
}

#[test]
fn the_table() {
    let hosts = vec![ScannedIp {
        ip: "1".to_string(),
        mac: "m".to_string(),
        hostname: "h".to_string(),
        vendor: "v".to_string(),
    }];
    let network = Some(Cidr { first: 0x0a00_0000, length: 8 });
    let t = Discovery::make_table(&hosts, network, -3, true, SortColumn::Vendor);
    assert_eq!(text(&t.header), "ipmachostnamevendor");
    assert_eq!(t.header_margins, (1, 1));
    assert_eq!(
        t.rows,
        vec![vec![
            Span { text: "1 ".to_string(), style: Style { fg: Some(Color::Blue), bold: false } },
            Span { text: "m".to_string(), style: Style { fg: Some(Color::Green), bold: false } },
            Span { text: "h".to_string(), style: Style { fg: None, bold: false } },
            Span { text: "v".to_string(), style: Style { fg: Some(Color::Yellow), bold: false } },
        ]]
    );
    let titles: Vec<(String, Align, Edge)> =
        t.titles.iter().map(|x| (text(&x.spans), x.align, x.edge)).collect();
    assert_eq!(
        titles,
        vec![
            ("|Discovery|".to_string(), Align::Right, Edge::Top),
            ("|export data|".to_string(), Align::Left, Edge::Bottom),
            ("|◉ 1| ⣿(-3/16777216)".to_string(), Align::Left, Edge::Top),
            (" order vendor ".to_string(), Align::Right, Edge::Bottom),
            ("|stop k|".to_string(), Align::Right, Edge::Bottom),
        ]
    );
    assert_eq!(
        t.widths,
        vec![Width::Length(16), Width::Length(19), Width::Fill(1), Width::Fill(1)]
    );
    assert_eq!(t.marker.text, "▶");
    assert_eq!(t.column_spacing, 1);
}

#[test]
fn the_table_without_a_scan() {
    let columns = [
        (SortColumn::Ip, " order ip "),
        (SortColumn::Mac, " order mac "),
        (SortColumn::Hostname, " order hostname "),
        (SortColumn::Vendor, " order vendor "),
    ];
    for (column, label) in columns {
        let t = Discovery::make_table(&Vec::new(), None, 5, false, column);
        assert!(t.rows.is_empty());
        assert_eq!(t.titles.len(), 4);
        assert_eq!(text(&t.titles[2].spans), "|◉ 0|");
        assert_eq!(text(&t.titles[3].spans), label);
    }
    let t = Discovery::make_table(&Vec::new(), None, 5, true, SortColumn::Ip);
    assert_eq!(text(&t.titles[2].spans), "|◉ 0| ⣿(5/0)");
}

#[test]
fn the_scrollbar() {
    let bar = Discovery::make_scrollbar();
    assert_eq!(bar.side, Side::Right);
    assert_eq!(bar.color, Color::Rgb(100, 100, 100));
    assert_eq!((bar.begin_symbol, bar.end_symbol), (None, None));
}

#[test]
fn the_input_line() {
    let mut d = Discovery::new();
    let b = d.make_input(0x1_0003);
    assert_eq!(b.text.text, "192.168.1.0/24");
    assert_eq!(b.text.style.fg, Some(Color::Green));
    assert_eq!(b.scroll, 3);
    assert_eq!(b.border, Color::Rgb(100, 100, 100));
    assert!(!b.double_border && !b.dim);
    assert_eq!(b.titles.len(), 1);
    assert_eq!(text(&b.titles[0].spans), "|scan kill input/ESC|");
    assert_eq!((b.titles[0].align, b.titles[0].edge), (Align::Center, Edge::Bottom));
    d.register_action_handler();
    d.update(Action::ModeChange(Mode::Input));
    assert_eq!(d.make_input(0).border, Color::Green);
}

#[test]
fn the_error() {
    let b = Discovery::new().make_error();
    assert_eq!(b.text.text, "CIDR parse error");
    assert_eq!(b.border, Color::Red);
    assert!(b.double_border && b.titles.is_empty());
}

#[test]
fn the_menu() {
    let m = Discovery::new().render_sort_menu(area(0, 5, 100, 29));
    assert_eq!(m.area, area(30, 6, 40, 8));
    assert_eq!(m.list_area, area(30, 7, 40, 6));
    assert_eq!(m.list_padding, Padding { left: 0, right: 1, top: 0, bottom: 1 });
    assert_eq!(m.border, Style { fg: Some(Color::Cyan), bold: true });
    assert_eq!(m.title.text, " Sort by: ");
    assert_eq!(m.hint.text, " Enter/↓ to select, Esc to close ");
    let items: Vec<&str> = m.items.iter().map(|i| i.text.as_str()).collect();
    assert_eq!(items, vec!["▶ IP", "  MAC", "  Hostname", "  Vendor"]);
    assert_eq!(Discovery::new().render_sort_menu(area(5, 0, 10, 3)).area, area(0, 1, 40, 8));
}

#[test]
fn the_areas() {
    let mut d = Discovery::new();
    d.update(Action::CidrError);
    let s = shown(&d, area(2, 4, 100, 30));
    assert_eq!(s.table_area, area(2, 5, 100, 29));
    assert_eq!(s.scroll_area, area(3, 9, 98, 24));
    assert_eq!(s.input_area, area(69, 6, 30, 3));
    assert_eq!(s.error.unwrap().0, area(40, 6, 18, 3));
    let small = shown(&d, area(0, 0, 20, 4));
    assert_eq!(small.scroll_area, area(0, 0, 0, 0));
    assert_eq!(small.input_area, area(0, 2, 30, 3));
    assert_eq!(small.error.unwrap().0, area(0, 2, 18, 3));
}

#[test]
fn the_cursor() {
    let mut d = Discovery::new();
    d.register_action_handler();
    d.update(Action::ModeChange(Mode::Input));
    let bottom = area(0, 4, 100, 30);
    assert_eq!(shown(&d, bottom).cursor, Some((69 + 14 + 1, 7)));
    type_in(&mut d, "日");
    assert_eq!(shown(&d, bottom).cursor, Some((69 + 16 + 1, 7)));
    assert_eq!(shown(&d, bottom).input.scroll, 0);
    type_in(&mut d, "0123456789abcd");
    assert_eq!(shown(&d, bottom).input.scroll, 3);
    assert_eq!(shown(&d, bottom).cursor, Some((69 + 27 + 1, 7)));
}

#[test]
fn a_cursor_out_of_range() {
    let mut d = Discovery::new();
    d.register_action_handler();
    d.update(Action::ModeChange(Mode::Input));
    let wide = area(0, 0, u16::MAX, 10);
    assert_eq!(shown(&d, wide).cursor, Some((65504 + 14 + 1, 3)));
    for _ in 0..40 {
        type_in(&mut d, "☺\u{fe0f}");
    }
    assert_eq!(d.draw(wide), Drawing::OutOfRange);
}

#[test]
fn no_room_for_the_table() {
    let d = Discovery::new();
    assert_eq!(d.draw(area(0, 0, 80, 3)), Drawing::OutOfRange);
    assert_eq!(d.draw(area(0, u16::MAX - 3, 80, 24)), Drawing::OutOfRange);
    assert_eq!(shown(&d, area(0, u16::MAX - 4, 80, 24)).table_area.y, u16::MAX - 3);
}

#[test]
fn a_screen_for_given_columns() {
    let d = Discovery::new();
    let bottom = area(0, 4, 100, 30);
    assert_eq!(Drawing::Shown(d.screen(bottom, 14, 0)), d.draw(bottom));
    assert_eq!(d.screen(bottom, 14, 5).input.scroll, 5);
}

#[test]
fn a_scan_dims_the_input_line() {
    let mut d = Discovery::new();
    d.register_action_handler();
    assert!(!shown(&d, area(0, 0, 80, 24)).input.dim);
    d.apply_cidr(Some(Cidr { first: 0, length: 24 }), true);
    assert!(shown(&d, area(0, 0, 80, 24)).input.dim);
}

#[test]
fn insets() {
    assert_eq!(area(1, 2, 10, 5).inner(1, 1), area(2, 3, 8, 3));
    assert_eq!(area(1, 2, 10, 5).inner(0, 1), area(1, 3, 10, 3));
    assert_eq!(area(1, 2, 1, 5).inner(1, 1), area(0, 0, 0, 0));
    assert_eq!(area(u16::MAX, 2, 2, 2).inner(1, 1), area(u16::MAX, 3, 0, 0));
    assert_eq!(area(1, 2, 10, 9).inner(5, 3), area(6, 5, 0, 3));
    assert_eq!(area(1, 2, 10, 9).inner(0x8000, u16::MAX), area(0, 0, 0, 0));
    let whole = area(0, 0, u16::MAX, u16::MAX);
    assert_eq!(whole.inner(0x8000, 0), area(0x8000, 0, 0, u16::MAX));
}
