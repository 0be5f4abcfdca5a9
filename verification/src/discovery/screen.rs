//! How the discovery tab is drawn.
use crate::action::{Mode, SortColumn, TabsEnum};
use crate::discovery::{Discovery, State};
use crate::ipv4::{count_ipv4_net_length, Cidr};
use crate::rows::{Row, ScannedIp};
use crate::text::{decimal_text, padded_text, signed_decimal_text};
use crate::ui::{Align, Color, Edge, Heading, Rect, Shown, Span, Style, Title};
use vstd::prelude::*;

verus! {

/// The width of the input line's box.
pub const INPUT_SIZE: u16 = 30;

/// The width of the window that the input line is seen through.
pub const INPUT_WINDOW: usize = 27;

/// The width of a column.
#[derive(Clone, Copy, Debug, PartialEq, Eq, Structural)]
pub enum Width {
    /// A number of characters.
    Length(u16),
    /// A share of what is left.
    Fill(u16),
}

/// The table of hosts.
#[derive(Debug, PartialEq, Eq)]
pub struct HostTable {
    pub header: Vec<Span>,
    /// The empty rows above and below the header.
    pub header_margins: (u16, u16),
    pub rows: Vec<Vec<Span>>,
    pub titles: Vec<Title>,
    pub widths: Vec<Width>,
    pub column_spacing: u16,
    /// What stands before the selected row.
    pub marker: Span,
}

/// A text in a box.
#[derive(Debug, PartialEq, Eq)]
pub struct TextBox {
    pub text: Span,
    /// The columns of the text that are scrolled out of sight.
    pub scroll: u16,
    pub border: Color,
    pub double_border: bool,
    pub titles: Vec<Title>,
    pub dim: bool,
}

/// The side that a scrollbar stands on.
#[derive(Clone, Copy, Debug, PartialEq, Eq, Structural)]
pub enum Side {
    Left,
    Right,
}

/// The look of a scrollbar.
#[derive(Clone, Copy, Debug, PartialEq, Eq, Structural)]
pub struct Scrollbar {
    pub side: Side,
    pub color: Color,
    pub begin_symbol: Option<char>,
    pub end_symbol: Option<char>,
}

/// Empty columns and rows inside a block.
#[derive(Clone, Copy, Debug, PartialEq, Eq, Structural)]
pub struct Padding {
    pub left: u16,
    pub right: u16,
    pub top: u16,
    pub bottom: u16,
}

/// The menu of the columns to sort by.
#[derive(Debug, PartialEq, Eq)]
pub struct SortMenu {
    pub area: Rect,
    pub border: Style,
    pub title: Span,
    pub hint: Span,
    pub list_area: Rect,
    pub list_padding: Padding,
    pub items: Vec<Span>,
}

/// The discovery tab as it is drawn.
#[derive(Debug, PartialEq, Eq)]
pub struct Screen {
    pub table_area: Rect,
    pub table: HostTable,
    pub selected: Option<usize>,
    pub scroll_area: Rect,
    pub scrollbar: Scrollbar,
    pub scroll_length: usize,
    pub scroll_position: usize,
    pub menu: Option<SortMenu>,
    pub error: Option<(Rect, TextBox)>,
    pub input_area: Rect,
    pub input: TextBox,
    pub cursor: Option<(u16, u16)>,
    pub spinner: Option<(Rect, Span)>,
}

/// What drawing the tab gives.
#[derive(Debug, PartialEq, Eq)]
pub enum Drawing {
    /// Another tab is shown.
    Hidden,
    /// There is no room for the table, or the cursor's column is past the largest coordinate.
    OutOfRange,
    Shown(Screen),
}

/// The cells of a host.
pub open spec fn host_cells(r: Row) -> Seq<Shown> {
    seq![
        crate::ui::colored(crate::text::padded(r.ip, 2), Color::Blue),
        crate::ui::colored(r.mac, Color::Green),
        crate::ui::plain(r.hostname),
        crate::ui::colored(r.vendor, Color::Yellow),
    ]
}

/// The names of the columns.
pub open spec fn column_names() -> Seq<Shown> {
    seq![
        crate::ui::colored("ip"@, Color::Yellow),
        crate::ui::colored("mac"@, Color::Yellow),
        crate::ui::colored("hostname"@, Color::Yellow),
        crate::ui::colored("vendor"@, Color::Yellow),
    ]
}

/// The number of addresses in a network; 0 where there is none.
pub open spec fn network_size(cidr: Option<Cidr>) -> nat {
    match cidr {
        Some(network) => network.size(),
        None => 0,
    }
}

/// The number of hosts, and while a scan runs how many of the addresses it is done with.
pub open spec fn scan_title(hosts: nat, size: nat, ip_num: int, is_scanning: bool) -> Seq<Shown> {
    let number = seq![
        crate::ui::colored("|"@, Color::Yellow),
        crate::ui::colored("◉ "@, Color::Green),
        crate::ui::colored(crate::text::decimal(hosts), Color::Red),
        crate::ui::colored("|"@, Color::Yellow),
    ];
    if is_scanning {
        number + seq![
            crate::ui::colored(" ⣿("@, Color::Yellow),
            crate::ui::colored(crate::text::signed_decimal(ip_num), Color::Red),
            crate::ui::colored("/"@ + crate::text::decimal(size), Color::Green),
            crate::ui::colored(")"@, Color::Yellow),
        ]
    } else {
        number
    }
}

/// The name of a column in the table's titles.
pub open spec fn column_label(column: SortColumn) -> Seq<char> {
    match column {
        SortColumn::Hostname => "hostname"@,
        SortColumn::Mac => "mac"@,
        SortColumn::Vendor => "vendor"@,
        SortColumn::Ip => "ip"@,
    }
}

/// The key that exports the hosts.
pub open spec fn export_title() -> Seq<Shown> {
    seq![
        crate::ui::colored("|"@, Color::Yellow),
        crate::ui::bold("e"@, Color::Red),
        crate::ui::colored("xport data"@, Color::Yellow),
        crate::ui::colored("|"@, Color::Yellow),
    ]
}

/// The key of the sort menu, and the column that the hosts are sorted by.
pub open spec fn order_title(column: SortColumn) -> Seq<Shown> {
    seq![
        crate::ui::plain(" "@),
        crate::ui::bold("o"@, Color::Red),
        crate::ui::colored("rder "@, Color::Yellow),
        crate::ui::bold(column_label(column), Color::Green),
        crate::ui::plain(" "@),
    ]
}

/// The key that stops a scan.
pub open spec fn stop_title() -> Seq<Shown> {
    seq![
        crate::ui::colored("|"@, Color::Yellow),
        crate::ui::bold("s"@, Color::Red),
        crate::ui::colored("top"@, Color::Yellow),
        crate::ui::colored(" k"@, Color::Yellow),
        crate::ui::colored("|"@, Color::Yellow),
    ]
}

/// The titles of the table.
pub open spec fn table_titles(
    hosts: nat,
    size: nat,
    ip_num: int,
    is_scanning: bool,
    column: SortColumn,
) -> Seq<Heading> {
    let always = seq![
        Heading {
            spans: seq![crate::ui::colored("|Discovery|"@, Color::Yellow)],
            align: Align::Right,
            edge: Edge::Top,
        },
        Heading { spans: export_title(), align: Align::Left, edge: Edge::Bottom },
        Heading {
            spans: scan_title(hosts, size, ip_num, is_scanning),
            align: Align::Left,
            edge: Edge::Top,
        },
        Heading { spans: order_title(column), align: Align::Right, edge: Edge::Bottom },
    ];
    if is_scanning {
        always.push(Heading { spans: stop_title(), align: Align::Right, edge: Edge::Bottom })
    } else {
        always
    }
}

/// Whether `t` is the table of `rows`: one row of cells for each host, in the order of `rows`.
pub open spec fn is_table(
    t: HostTable,
    rows: Seq<Row>,
    cidr: Option<Cidr>,
    ip_num: int,
    is_scanning: bool,
    column: SortColumn,
) -> bool {
    &&& crate::ui::shown(t.header@) == column_names()
    &&& t.header_margins == (1u16, 1u16)
    &&& crate::ui::lines_shown(t.rows@) == rows.map_values(|r: Row| host_cells(r))
    &&& crate::ui::headings(t.titles@) == table_titles(
        rows.len(),
        network_size(cidr),
        ip_num,
        is_scanning,
        column,
    )
    &&& t.widths@ == seq![Width::Length(16), Width::Length(19), Width::Fill(1), Width::Fill(1)]
    &&& t.column_spacing == 1
    &&& t.marker@ == crate::ui::colored("▶"@, Color::Red)
}

/// The keys of the input line.
pub open spec fn input_title() -> Seq<Shown> {
    seq![
        crate::ui::plain("|"@),
        crate::ui::bold("s"@, Color::Red),
        crate::ui::colored("can"@, Color::Yellow),
        crate::ui::plain(" "@),
        crate::ui::bold("k"@, Color::Red),
        crate::ui::colored("ill"@, Color::Yellow),
        crate::ui::plain(" "@),
        crate::ui::bold("i"@, Color::Red),
        crate::ui::colored("nput/ESC"@, Color::Yellow),
        crate::ui::plain("|"@),
    ]
}

/// Whether `b` is the box of an input line: the text in green, with `scroll` columns out of sight as
/// far as 16 bits can say, and a green border while the line is edited.
pub open spec fn is_input(b: TextBox, text: Seq<char>, scroll: nat, mode: Mode, dim: bool) -> bool {
    &&& b.text@ == crate::ui::colored(text, Color::Green)
    &&& b.scroll == scroll % 0x1_0000
    &&& b.border == match mode {
        Mode::Input => Color::Green,
        Mode::Normal => crate::ui::gray(),
    }
    &&& !b.double_border
    &&& crate::ui::headings(b.titles@) == seq![
        Heading { spans: input_title(), align: Align::Center, edge: Edge::Bottom },
    ]
    &&& b.dim == dim
}

/// Whether `b` is the box that says that an input line is no network.
pub open spec fn is_error(b: TextBox) -> bool {
    &&& b.text@ == crate::ui::colored("CIDR parse error"@, Color::Red)
    &&& b.scroll == 0
    &&& b.border == Color::Red
    &&& b.double_border
    &&& b.titles@.len() == 0
    &&& !b.dim
}

/// The pictures of the spinner.
pub open spec fn spinner_symbol(i: nat) -> Seq<char> {
    if i == 0 {
        "⠷"@
    } else if i == 1 {
        "⠯"@
    } else if i == 2 {
        "⠟"@
    } else if i == 3 {
        "⠻"@
    } else if i == 4 {
        "⠽"@
    } else {
        "⠾"@
    }
}

/// What is shown while a scan runs.
pub open spec fn spinner_shown(i: nat) -> Shown {
    crate::ui::colored(spinner_symbol(i) + "scanning.."@, Color::Yellow)
}

/// The name of an entry of the sort menu.
pub open spec fn menu_label(entry: nat) -> Seq<char> {
    if entry == 0 {
        "IP"@
    } else if entry == 1 {
        "MAC"@
    } else if entry == 2 {
        "Hostname"@
    } else {
        "Vendor"@
    }
}

/// An entry of the sort menu, with a mark before it where it is the selected one.
pub open spec fn menu_item(entry: nat, selected: nat) -> Shown {
    crate::ui::plain(
        (if entry == selected {
            "▶ "@
        } else {
            "  "@
        }) + menu_label(entry),
    )
}

/// The area of the sort menu over a table: centred, one row below the table's top.
pub open spec fn menu_area(table: Rect) -> Rect {
    Rect {
        x: crate::ui::less(crate::ui::at_most_max(table.x + table.width / 2), 20),
        y: (table.y + 1) as u16,
        width: 40,
        height: 8,
    }
}

/// Whether `m` is the sort menu over a table.
pub open spec fn is_menu(m: SortMenu, table: Rect, selected: nat) -> bool {
    &&& m.area == menu_area(table)
    &&& m.border == (Style { fg: Some(Color::Cyan), bold: true })
    &&& m.title@ == crate::ui::bold(" Sort by: "@, Color::Blue)
    &&& m.hint@ == crate::ui::colored(" Enter/↓ to select, Esc to close "@, Color::DarkGray)
    &&& m.list_area == crate::ui::inside(menu_area(table), 0, 1)
    &&& m.list_padding == (Padding { left: 0, right: 1, top: 0, bottom: 1 })
    &&& crate::ui::shown(m.items@) == Seq::new(4, |i: int| menu_item(i as nat, selected))
}

/// The area of the table, in the lower part of the window.
pub open spec fn table_area(bottom: Rect) -> Rect {
    Rect { y: (bottom.y + 1) as u16, height: (bottom.height - 1) as u16, ..bottom }
}

/// The area of the scrollbar of a table.
pub open spec fn scroll_area(table: Rect) -> Rect {
    crate::ui::inside(
        Rect { y: (table.y + 3) as u16, height: (table.height - 3) as u16, ..table },
        1,
        1,
    )
}

/// The area of the message over a table that an input line is no network.
pub open spec fn error_area(table: Rect) -> Rect {
    Rect { x: crate::ui::less(table.width, 60), y: (table.y + 1) as u16, width: 18, height: 3 }
}

/// The area of the input line over a table.
pub open spec fn input_area(table: Rect) -> Rect {
    Rect { x: crate::ui::less(table.width, 31), y: (table.y + 1) as u16, width: 30, height: 3 }
}

/// The area of the spinner, on the upper edge of the input line's box.
pub open spec fn spinner_area(input: Rect) -> Rect {
    Rect { x: (input.x + 1) as u16, y: input.y, width: 12, height: 1 }
}

/// The columns from the left edge of the window to the cursor, as far as 16 bits can say.
pub open spec fn window_column(visual_cursor: nat, scroll: nat) -> nat {
    if visual_cursor >= scroll {
        ((visual_cursor - scroll) % 0x1_0000) as nat
    } else {
        0
    }
}

/// The column of the cursor on the screen.
pub open spec fn cursor_column(input: Rect, visual_cursor: nat, scroll: nat) -> nat {
    input.x as nat + window_column(visual_cursor, scroll) + 1
}

/// There is room for the table in the lower part of the window.
pub open spec fn has_room(bottom: Rect) -> bool {
    bottom.height >= 4 && bottom.y + 4 <= u16::MAX
}

/// The cursor, if it is shown, is in the range of the coordinates.
pub open spec fn cursor_in_range(s: State, bottom: Rect, visual_cursor: nat, scroll: nat) -> bool {
    s.mode == Mode::Input ==> cursor_column(
        input_area(table_area(bottom)),
        visual_cursor,
        scroll,
    ) <= u16::MAX
}

/// Whether `d` is the tab as it is drawn in the lower part of the window, with the cursor in the
/// given column of the input line and a number of the line's columns scrolled out of sight.
pub open spec fn is_screen(d: Screen, s: State, bottom: Rect, visual_cursor: nat, scroll: nat) -> bool {
    let table = table_area(bottom);
    let input = input_area(table);
    &&& d.table_area == table
    &&& is_table(d.table, s.rows, s.cidr, s.ip_num, s.is_scanning, s.sort_column)
    &&& match d.selected {
        Some(i) => s.selected == Some(i as nat),
        None => s.selected is None,
    }
    &&& d.scroll_area == scroll_area(table)
    &&& d.scrollbar == bar()
    &&& d.scroll_length == s.scroll_length
    &&& d.scroll_position == s.scroll_position
    &&& match d.menu {
        Some(m) => s.showing_sort_menu && is_menu(m, table, s.sort_selected_idx),
        None => !s.showing_sort_menu,
    }
    &&& match d.error {
        Some((area, b)) => s.cidr_error && area == error_area(table) && is_error(b),
        None => !s.cidr_error,
    }
    &&& d.input_area == input
    &&& is_input(d.input, s.input.value, scroll, s.mode, s.is_scanning)
    &&& match d.cursor {
        Some((x, y)) => s.mode == Mode::Input && x == cursor_column(input, visual_cursor, scroll)
            && y == input.y + 1,
        None => s.mode == Mode::Normal,
    }
    &&& match d.spinner {
        Some((area, span)) => s.is_scanning && area == spinner_area(input) && span@
            == spinner_shown(s.spinner_index),
        None => !s.is_scanning,
    }
}

/// The look of the table's scrollbar.
pub open spec fn bar() -> Scrollbar {
    Scrollbar {
        side: Side::Right,
        color: crate::ui::gray(),
        begin_symbol: None,
        end_symbol: None,
    }
}

fn label_of(column: SortColumn) -> (label: &'static str)
    ensures
        label@ == column_label(column),
{
    match column {
        SortColumn::Hostname => "hostname",
        SortColumn::Mac => "mac",
        SortColumn::Vendor => "vendor",
        SortColumn::Ip => "ip",
    }
}

/// Two texts, one behind the other.
fn joined(a: &str, b: &str) -> (s: String)
    ensures
        s@ == a@ + b@,
{
    let mut s = a.to_owned();
    s.append(b);
    s
}

fn make_cells(hosts: &Vec<ScannedIp>) -> (rows: Vec<Vec<Span>>)
    ensures
        crate::ui::lines_shown(rows@) == crate::rows::rows_of(hosts@).map_values(
            |r: Row| host_cells(r),
        ),
{
    let mut rows: Vec<Vec<Span>> = Vec::new();
    for i in 0..hosts.len()
        invariant
            rows@.len() == i,
            forall|j: int|
                0 <= j < i ==> crate::ui::shown(#[trigger] rows@[j]@) == host_cells(hosts@[j]@),
    {
        let host = &hosts[i];
        let cells = vec![
            Span::colored(padded_text(host.ip.as_str(), 2).as_str(), Color::Blue),
            Span::colored(host.mac.as_str(), Color::Green),
            Span::plain(host.hostname.as_str()),
            Span::colored(host.vendor.as_str(), Color::Yellow),
        ];
        proof {
            assert(crate::ui::shown(cells@) =~= host_cells(hosts@[i as int]@));
        }
        rows.push(cells);
    }
    proof {
        assert(crate::ui::lines_shown(rows@) =~= crate::rows::rows_of(hosts@).map_values(
            |r: Row| host_cells(r),
        ));
    }
    rows
}

fn make_scan_title(hosts: usize, size: u64, ip_num: i32, is_scanning: bool) -> (line: Vec<Span>)
    ensures
        crate::ui::shown(line@) == scan_title(
            hosts as nat,
            size as nat,
            ip_num as int,
            is_scanning,
        ),
{
    let mut line = vec![
        Span::colored("|", Color::Yellow),
        Span::colored("◉ ", Color::Green),
        Span::colored(decimal_text(hosts as u64).as_str(), Color::Red),
        Span::colored("|", Color::Yellow),
    ];
    if is_scanning {
        line.push(Span::colored(" ⣿(", Color::Yellow));
        line.push(Span::colored(signed_decimal_text(ip_num).as_str(), Color::Red));
        line.push(Span::colored(joined("/", decimal_text(size).as_str()).as_str(), Color::Green));
        line.push(Span::colored(")", Color::Yellow));
    }
    proof {
        assert(crate::ui::shown(line@) =~= scan_title(
            hosts as nat,
            size as nat,
            ip_num as int,
            is_scanning,
        ));
    }
    line
}

fn make_export_title() -> (line: Vec<Span>)
    ensures
        crate::ui::shown(line@) == export_title(),
{
    let line = vec![
        Span::colored("|", Color::Yellow),
        Span::bold("e", Color::Red),
        Span::colored("xport data", Color::Yellow),
        Span::colored("|", Color::Yellow),
    ];
    proof {
        assert(crate::ui::shown(line@) =~= export_title());
    }
    line
}

fn make_order_title(column: SortColumn) -> (line: Vec<Span>)
    ensures
        crate::ui::shown(line@) == order_title(column),
{
    let line = vec![
        Span::plain(" "),
        Span::bold("o", Color::Red),
        Span::colored("rder ", Color::Yellow),
        Span::bold(label_of(column), Color::Green),
        Span::plain(" "),
    ];
    proof {
        assert(crate::ui::shown(line@) =~= order_title(column));
    }
    line
}

fn make_stop_title() -> (line: Vec<Span>)
    ensures
        crate::ui::shown(line@) == stop_title(),
{
    let line = vec![
        Span::colored("|", Color::Yellow),
        Span::bold("s", Color::Red),
        Span::colored("top", Color::Yellow),
        Span::colored(" k", Color::Yellow),
        Span::colored("|", Color::Yellow),
    ];
    proof {
        assert(crate::ui::shown(line@) =~= stop_title());
    }
    line
}

fn make_titles(hosts: usize, size: u64, ip_num: i32, is_scanning: bool, column: SortColumn) -> (titles:
    Vec<Title>)
    ensures
        crate::ui::headings(titles@) == table_titles(
            hosts as nat,
            size as nat,
            ip_num as int,
            is_scanning,
            column,
        ),
{
    let name = vec![Span::colored("|Discovery|", Color::Yellow)];
    proof {
        assert(crate::ui::shown(name@) =~= seq![crate::ui::colored("|Discovery|"@, Color::Yellow)]);
    }
    let mut titles = vec![
        Title::new(name, Align::Right, Edge::Top),
        Title::new(make_export_title(), Align::Left, Edge::Bottom),
        Title::new(
            make_scan_title(hosts, size, ip_num, is_scanning),
            Align::Left,
            Edge::Top,
        ),
        Title::new(make_order_title(column), Align::Right, Edge::Bottom),
    ];
    if is_scanning {
        titles.push(Title::new(make_stop_title(), Align::Right, Edge::Bottom));
    }
    proof {
        assert(crate::ui::headings(titles@) =~= table_titles(
            hosts as nat,
            size as nat,
            ip_num as int,
            is_scanning,
            column,
        ));
    }
    titles
}

fn make_column_names() -> (line: Vec<Span>)
    ensures
        crate::ui::shown(line@) == column_names(),
{
    let line = vec![
        Span::colored("ip", Color::Yellow),
        Span::colored("mac", Color::Yellow),
        Span::colored("hostname", Color::Yellow),
        Span::colored("vendor", Color::Yellow),
    ];
    proof {
        assert(crate::ui::shown(line@) =~= column_names());
    }
    line
}

fn make_input_title() -> (line: Vec<Span>)
    ensures
        crate::ui::shown(line@) == input_title(),
{
    let line = vec![
        Span::plain("|"),
        Span::bold("s", Color::Red),
        Span::colored("can", Color::Yellow),
        Span::plain(" "),
        Span::bold("k", Color::Red),
        Span::colored("ill", Color::Yellow),
        Span::plain(" "),
        Span::bold("i", Color::Red),
        Span::colored("nput/ESC", Color::Yellow),
        Span::plain("|"),
    ];
    proof {
        assert(crate::ui::shown(line@) =~= input_title());
    }
    line
}

fn menu_name(entry: usize) -> (name: &'static str)
    ensures
        name@ == menu_label(entry as nat),
{
    match entry {
        0 => "IP",
        1 => "MAC",
        2 => "Hostname",
        _ => "Vendor",
    }
}

fn make_menu_items(selected: usize) -> (items: Vec<Span>)
    ensures
        crate::ui::shown(items@) == Seq::new(4, |i: int| menu_item(i as nat, selected as nat)),
{
    let mut items: Vec<Span> = Vec::new();
    for entry in 0..4usize
        invariant
            items@.len() == entry,
            forall|j: int|
                0 <= j < entry ==> (#[trigger] items@[j])@ == menu_item(j as nat, selected as nat),
    {
        let mark = if entry == selected {
            "▶ "
        } else {
            "  "
        };
        items.push(Span::plain(joined(mark, menu_name(entry)).as_str()));
    }
    proof {
        assert(crate::ui::shown(items@) =~= Seq::new(
            4,
            |i: int| menu_item(i as nat, selected as nat),
        ));
    }
    items
}

impl Discovery {
    /// The table of `hosts`. Its titles show the number of hosts, the column that they are sorted by,
    /// and while a scan runs how far it has come.
    pub fn make_table(
        hosts: &Vec<ScannedIp>,
        cidr: Option<Cidr>,
        ip_num: i32,
        is_scanning: bool,
        sort_column: SortColumn,
    ) -> (t: HostTable)
        requires
            cidr matches Some(network) ==> network.wf(),
        ensures
            is_table(
                t,
                crate::rows::rows_of(hosts@),
                cidr,
                ip_num as int,
                is_scanning,
                sort_column,
            ),
    {
        let size: u64 = match cidr {
            Some(network) => count_ipv4_net_length(network.length as u32),
            None => 0,
        };
        HostTable {
            header: make_column_names(),
            header_margins: (1, 1),
            rows: make_cells(hosts),
            titles: make_titles(hosts.len(), size, ip_num, is_scanning, sort_column),
            widths: vec![Width::Length(16), Width::Length(19), Width::Fill(1), Width::Fill(1)],
            column_spacing: 1,
            marker: Span::colored("▶", Color::Red),
        }
    }

    /// The look of the table's scrollbar.
    pub fn make_scrollbar() -> (look: Scrollbar)
        ensures
            look == bar(),
    {
        Scrollbar {
            side: Side::Right,
            color: Color::Rgb(100, 100, 100),
            begin_symbol: None,
            end_symbol: None,
        }
    }

    /// The box of the input line, with `scroll` columns of it out of sight.
    pub fn make_input(&self, scroll: usize) -> (b: TextBox)
        ensures
            is_input(b, self@.input.value, scroll as nat, self@.mode, false),
    {
        let titles = vec![Title::new(make_input_title(), Align::Center, Edge::Bottom)];
        proof {
            assert(crate::ui::headings(titles@) =~= seq![
                Heading { spans: input_title(), align: Align::Center, edge: Edge::Bottom },
            ]);
        }
        TextBox {
            text: Span::colored(self.input.value.as_str(), Color::Green),
            scroll: (scroll % 0x1_0000) as u16,
            border: match self.mode {
                Mode::Input => Color::Green,
                Mode::Normal => Color::Rgb(100, 100, 100),
            },
            double_border: false,
            titles,
            dim: false,
        }
    }

    /// The menu of the columns to sort by, over a table.
    pub fn render_sort_menu(&self, table: Rect) -> (m: SortMenu)
        requires
            table.y < u16::MAX,
        ensures
            is_menu(m, table, self@.sort_selected_idx),
    {
        let center: u16 = table.x.saturating_add(table.width / 2);
        let area = Rect {
            x: center.saturating_sub(20),
            y: table.y + 1,
            width: 40,
            height: 8,
        };
        SortMenu {
            area,
            border: Style { fg: Some(Color::Cyan), bold: true },
            title: Span::bold(" Sort by: ", Color::Blue),
            hint: Span::colored(" Enter/↓ to select, Esc to close ", Color::DarkGray),
            list_area: area.inner(0, 1),
            list_padding: Padding { left: 0, right: 1, top: 0, bottom: 1 },
            items: make_menu_items(self.sort_selected_idx),
        }
    }

    /// The box that says that the input line is no network.
    pub fn make_error(&self) -> (b: TextBox)
        ensures
            is_error(b),
    {
        TextBox {
            text: Span::colored("CIDR parse error", Color::Red),
            scroll: 0,
            border: Color::Red,
            double_border: true,
            titles: Vec::new(),
            dim: false,
        }
    }

    /// What is shown while a scan runs.
    pub fn make_spinner(&self) -> (span: Span)
        requires
            self@.wf(),
        ensures
            span@ == spinner_shown(self@.spinner_index),
    {
        let symbol = match self.spinner_index {
            0 => "⠷",
            1 => "⠯",
            2 => "⠟",
            3 => "⠻",
            4 => "⠽",
            _ => "⠾",
        };
        Span::colored(joined(symbol, "scanning..").as_str(), Color::Yellow)
    }

    /// The tab as it is drawn in the lower part of the window, given the cursor's column in the input
    /// line and the number of the line's columns that are scrolled out of sight.
    pub fn screen(&self, bottom: Rect, visual_cursor: usize, scroll: usize) -> (d: Screen)
        requires
            self@.wf(),
            has_room(bottom),
            cursor_in_range(self@, bottom, visual_cursor as nat, scroll as nat),
        ensures
            is_screen(d, self@, bottom, visual_cursor as nat, scroll as nat),
    {
        let table_rect = Rect { y: bottom.y + 1, height: bottom.height - 1, ..bottom };
        let scroll_rect = Rect { y: table_rect.y + 3, height: table_rect.height - 3, ..table_rect };
        let error_rect = Rect {
            x: table_rect.width.saturating_sub(60),
            y: table_rect.y + 1,
            width: 18,
            height: 3,
        };
        let input_rect = Rect {
            x: table_rect.width.saturating_sub(INPUT_SIZE + 1),
            y: table_rect.y + 1,
            width: INPUT_SIZE,
            height: 3,
        };
        let mut input = self.make_input(scroll);
        input.dim = self.is_scanning;
        let cursor = match self.mode {
            Mode::Input => {
                let column = Discovery::column_in_window(visual_cursor, scroll);
                Some((input_rect.x + column + 1, input_rect.y + 1))
            },
            Mode::Normal => None,
        };
        Screen {
            table_area: table_rect,
            table: Discovery::make_table(
                &self.scanned_ips,
                self.cidr,
                self.ip_num,
                self.is_scanning,
                self.sort_column,
            ),
            selected: self.selected,
            scroll_area: scroll_rect.inner(1, 1),
            scrollbar: Discovery::make_scrollbar(),
            scroll_length: self.scroll_length,
            scroll_position: self.scroll_position,
            menu: if self.showing_sort_menu {
                Some(self.render_sort_menu(table_rect))
            } else {
                None
            },
            error: if self.cidr_error {
                Some((error_rect, self.make_error()))
            } else {
                None
            },
            input_area: input_rect,
            input,
            cursor,
            spinner: if self.is_scanning {
                Some(
                    (
                        Rect { x: input_rect.x + 1, y: input_rect.y, width: 12, height: 1 },
                        self.make_spinner(),
                    ),
                )
            } else {
                None
            },
        }
    }

    fn column_in_window(visual_cursor: usize, scroll: usize) -> (column: u16)
        ensures
            column == window_column(visual_cursor as nat, scroll as nat),
    {
        if visual_cursor >= scroll {
            ((visual_cursor - scroll) % 0x1_0000) as u16
        } else {
            0
        }
    }

    /// The tab as it is drawn in the lower part of the window.
    pub fn draw(&self, bottom: Rect) -> (d: Drawing)
        requires
            self@.wf(),
        ensures
            ({
                let visual_cursor = crate::input::tui_visual_cursor(
                    self@.input.value,
                    self@.input.cursor,
                );
                let scroll = crate::input::tui_visual_scroll(
                    self@.input.value,
                    self@.input.cursor,
                    INPUT_WINDOW as nat,
                );
                let shown = self@.active_tab == TabsEnum::Discovery;
                let fits = has_room(bottom) && cursor_in_range(
                    self@,
                    bottom,
                    visual_cursor,
                    scroll,
                );
                match d {
                    Drawing::Hidden => !shown,
                    Drawing::OutOfRange => shown && !fits,
                    Drawing::Shown(screen) => shown && fits && is_screen(
                        screen,
                        self@,
                        bottom,
                        visual_cursor,
                        scroll,
                    ),
                }
            }),
            (self@.mode == Mode::Normal || crate::input::printable(self@.input.value)) && has_room(
                bottom,
            ) ==> d !is OutOfRange,
            d matches Drawing::Shown(screen) ==> crate::input::printable(self@.input.value)
                ==> is_screen(
                screen,
                self@,
                bottom,
                self@.input.cursor,
                crate::input::excess(self@.input.cursor, INPUT_WINDOW as nat),
            ),
    {
        if self.active_tab != TabsEnum::Discovery {
            return Drawing::Hidden;
        }
        if bottom.height < 4 || bottom.y > 0xffff - 4 {
            return Drawing::OutOfRange;
        }
        let visual_cursor: usize = self.input.visual_cursor();
        let scroll: usize = self.input.visual_scroll(INPUT_WINDOW);
        let column: u32 = Discovery::column_in_window(visual_cursor, scroll) as u32;
        let left: u32 = bottom.width.saturating_sub(INPUT_SIZE + 1) as u32;
        if self.mode == Mode::Input && left + column + 1 > 0xffff {
            return Drawing::OutOfRange;
        }
        Drawing::Shown(self.screen(bottom, visual_cursor, scroll))
    }

    /// Takes note of the row that the drawn table has selected.
    pub fn set_selected(&mut self, selected: Option<usize>)
        requires
            old(self)@.wf(),
        ensures
            final(self)@ == (State {
                selected: match selected {
                    Some(i) => Some(i as nat),
                    None => None,
                },
                ..old(self)@
            }),
            final(self)@.wf(),
    {
        self.selected = selected;
    }
}

/// The table has one row of four cells for each host, in the order of the hosts: the address, filled with
/// spaces to two characters, in blue, the hardware address in green, the name in the terminal's colour and
/// the vendor in yellow.
pub proof fn law_table_shows_the_hosts(
    t: HostTable,
    rows: Seq<Row>,
    cidr: Option<Cidr>,
    ip_num: int,
    is_scanning: bool,
    column: SortColumn,
    i: int,
)
    requires
        is_table(t, rows, cidr, ip_num, is_scanning, column),
        0 <= i < rows.len(),
    ensures
        t.rows@.len() == rows.len(),
        t.rows@[i]@.len() == 4,
        t.rows@[i]@[0].text@ == crate::text::padded(rows[i].ip, 2),
        rows[i].ip.len() >= 2 ==> t.rows@[i]@[0].text@ == rows[i].ip,
        t.rows@[i]@[0].style == (Style { fg: Some(Color::Blue), bold: false }),
        t.rows@[i]@[1].text@ == rows[i].mac,
        t.rows@[i]@[1].style == (Style { fg: Some(Color::Green), bold: false }),
        t.rows@[i]@[2].text@ == rows[i].hostname,
        t.rows@[i]@[2].style == (Style { fg: None, bold: false }),
        t.rows@[i]@[3].text@ == rows[i].vendor,
        t.rows@[i]@[3].style == (Style { fg: Some(Color::Yellow), bold: false }),
{
    let lines = crate::ui::lines_shown(t.rows@);
    assert(lines.len() == t.rows@.len());
    assert(lines[i] == crate::ui::shown(t.rows@[i]@));
    assert(lines[i] == host_cells(rows[i]));
    let s = crate::ui::shown(t.rows@[i]@);
    assert(s.len() == t.rows@[i]@.len());
    assert(s[0] == t.rows@[i]@[0]@);
    assert(s[1] == t.rows@[i]@[1]@);
    assert(s[2] == t.rows@[i]@[2]@);
    assert(s[3] == t.rows@[i]@[3]@);
    crate::text::law_padding(rows[i].ip, 2);
    if rows[i].ip.len() >= 2 {
        assert(crate::text::padded(rows[i].ip, 2) =~= rows[i].ip);
    }
}

/// The table's header names the four columns in yellow, with an empty row above and below; the first two
/// columns are 16 and 19 characters wide and the others share the rest, with one column between them; a
/// red mark stands before the selected row.
pub proof fn law_table_header(
    t: HostTable,
    rows: Seq<Row>,
    cidr: Option<Cidr>,
    ip_num: int,
    is_scanning: bool,
    column: SortColumn,
)
    requires
        is_table(t, rows, cidr, ip_num, is_scanning, column),
    ensures
        ({
            let yellow = Style { fg: Some(Color::Yellow), bold: false };
            &&& t.header@.len() == 4
            &&& t.header@[0].text@ == "ip"@ && t.header@[0].style == yellow
            &&& t.header@[1].text@ == "mac"@ && t.header@[1].style == yellow
            &&& t.header@[2].text@ == "hostname"@ && t.header@[2].style == yellow
            &&& t.header@[3].text@ == "vendor"@ && t.header@[3].style == yellow
            &&& t.header_margins.0 == 1 && t.header_margins.1 == 1
            &&& t.widths@ == seq![
                Width::Length(16),
                Width::Length(19),
                Width::Fill(1),
                Width::Fill(1),
            ]
            &&& t.column_spacing == 1
            &&& t.marker.text@ == "▶"@
            &&& t.marker.style == (Style { fg: Some(Color::Red), bold: false })
        }),
{
    let s = crate::ui::shown(t.header@);
    assert(s.len() == t.header@.len());
    assert(s[0] == t.header@[0]@);
    assert(s[1] == t.header@[1]@);
    assert(s[2] == t.header@[2]@);
    assert(s[3] == t.header@[3]@);
}

/// The titles of the table: the tab's name, the export key, the number of hosts and, while a scan runs,
/// how many of the network's addresses it is done with, the column that the hosts are sorted by, and while
/// a scan runs the key that stops it.
pub proof fn law_table_titles(
    t: HostTable,
    rows: Seq<Row>,
    cidr: Option<Cidr>,
    ip_num: int,
    is_scanning: bool,
    column: SortColumn,
)
    requires
        is_table(t, rows, cidr, ip_num, is_scanning, column),
    ensures
        ({
            let plain = |text: Seq<char>| Shown { text, style: Style { fg: None, bold: false } };
            let dyed = |text: Seq<char>, c: Color|
                Shown { text, style: Style { fg: Some(c), bold: false } };
            let strong = |text: Seq<char>, c: Color|
                Shown { text, style: Style { fg: Some(c), bold: true } };
            let size: nat = match cidr {
                Some(network) => vstd::arithmetic::power2::pow2((32 - network.length) as nat),
                None => 0,
            };
            let number = seq![
                dyed("|"@, Color::Yellow),
                dyed("◉ "@, Color::Green),
                dyed(crate::text::decimal(rows.len()), Color::Red),
                dyed("|"@, Color::Yellow),
            ];
            let progress = seq![
                dyed(" ⣿("@, Color::Yellow),
                dyed(crate::text::signed_decimal(ip_num), Color::Red),
                dyed("/"@ + crate::text::decimal(size), Color::Green),
                dyed(")"@, Color::Yellow),
            ];
            let sorted_by = match column {
                SortColumn::Ip => "ip"@,
                SortColumn::Mac => "mac"@,
                SortColumn::Hostname => "hostname"@,
                SortColumn::Vendor => "vendor"@,
            };
            let h = crate::ui::headings(t.titles@);
            &&& h.len() == (if is_scanning {
                5nat
            } else {
                4
            })
            &&& h[0].spans == seq![dyed("|Discovery|"@, Color::Yellow)]
            &&& h[0].align == Align::Right && h[0].edge == Edge::Top
            &&& h[1].spans == seq![
                dyed("|"@, Color::Yellow),
                strong("e"@, Color::Red),
                dyed("xport data"@, Color::Yellow),
                dyed("|"@, Color::Yellow),
            ]
            &&& h[1].align == Align::Left && h[1].edge == Edge::Bottom
            &&& h[2].spans == (if is_scanning {
                number + progress
            } else {
                number
            })
            &&& h[2].align == Align::Left && h[2].edge == Edge::Top
            &&& h[3].spans == seq![
                plain(" "@),
                strong("o"@, Color::Red),
                dyed("rder "@, Color::Yellow),
                strong(sorted_by, Color::Green),
                plain(" "@),
            ]
            &&& h[3].align == Align::Right && h[3].edge == Edge::Bottom
            &&& is_scanning ==> h[4].spans == seq![
                dyed("|"@, Color::Yellow),
                strong("s"@, Color::Red),
                dyed("top"@, Color::Yellow),
                dyed(" k"@, Color::Yellow),
                dyed("|"@, Color::Yellow),
            ] && h[4].align == Align::Right && h[4].edge == Edge::Bottom
        }),
{
}

/// The input line is shown in green in a box, with its keys on the lower edge; the border is green while
/// it is edited and gray otherwise. The error is shown in red in a box with a double border.
pub proof fn law_boxes(
    b: TextBox,
    text: Seq<char>,
    scroll: nat,
    mode: Mode,
    dim: bool,
    error: TextBox,
)
    requires
        is_input(b, text, scroll, mode, dim),
        is_error(error),
    ensures
        ({
            let plain = |text: Seq<char>| Shown { text, style: Style { fg: None, bold: false } };
            let yellow = |text: Seq<char>|
                Shown { text, style: Style { fg: Some(Color::Yellow), bold: false } };
            let red = |text: Seq<char>|
                Shown { text, style: Style { fg: Some(Color::Red), bold: true } };
            let h = crate::ui::headings(b.titles@);
            &&& b.text.text@ == text
            &&& b.text.style == (Style { fg: Some(Color::Green), bold: false })
            &&& scroll <= 0xffff ==> b.scroll == scroll
            &&& scroll > 0xffff ==> b.scroll == scroll % 0x1_0000
            &&& b.border == (if mode == Mode::Input {
                Color::Green
            } else {
                Color::Rgb(100, 100, 100)
            })
            &&& !b.double_border && b.dim == dim
            &&& h.len() == 1 && h[0].align == Align::Center && h[0].edge == Edge::Bottom
            &&& h[0].spans == seq![
                plain("|"@),
                red("s"@),
                yellow("can"@),
                plain(" "@),
                red("k"@),
                yellow("ill"@),
                plain(" "@),
                red("i"@),
                yellow("nput/ESC"@),
                plain("|"@),
            ]
            &&& error.text.text@ == "CIDR parse error"@
            &&& error.text.style == (Style { fg: Some(Color::Red), bold: false })
            &&& error.border == Color::Red && error.double_border && !error.dim
            &&& error.scroll == 0 && error.titles@.len() == 0
        }),
{
}

/// The sort menu lies over the middle of the table, one row below its top, 40 columns wide and 8 rows
/// high; it lists the four columns, with a mark before the selected one and two spaces before the others.
pub proof fn law_menu_shows_the_columns(m: SortMenu, table: Rect, selected: nat)
    requires
        is_menu(m, table, selected),
        table.x + table.width <= u16::MAX,
        table.y < u16::MAX,
    ensures
        ({
            let middle = table.x + table.width as int / 2;
            let entry = |i: nat, label: Seq<char>|
                (if i == selected {
                    "▶ "@
                } else {
                    "  "@
                }) + label;
            let unstyled = Style { fg: None, bold: false };
            &&& m.area.x == (if middle >= 20 {
                middle - 20
            } else {
                0
            })
            &&& m.area.y == table.y + 1 && m.area.width == 40 && m.area.height == 8
            &&& m.list_area.x == m.area.x && m.list_area.width == 40
            &&& table.y + 2 <= u16::MAX ==> m.list_area.y == m.area.y + 1
            &&& m.list_area.height == 6
            &&& m.list_padding == (Padding { left: 0, right: 1, top: 0, bottom: 1 })
            &&& m.border == (Style { fg: Some(Color::Cyan), bold: true })
            &&& m.title.text@ == " Sort by: "@
            &&& m.title.style == (Style { fg: Some(Color::Blue), bold: true })
            &&& m.hint.text@ == " Enter/↓ to select, Esc to close "@
            &&& m.hint.style == (Style { fg: Some(Color::DarkGray), bold: false })
            &&& m.items@.len() == 4
            &&& m.items@[0].text@ == entry(0, "IP"@) && m.items@[0].style == unstyled
            &&& m.items@[1].text@ == entry(1, "MAC"@) && m.items@[1].style == unstyled
            &&& m.items@[2].text@ == entry(2, "Hostname"@) && m.items@[2].style == unstyled
            &&& m.items@[3].text@ == entry(3, "Vendor"@) && m.items@[3].style == unstyled
        }),
{
    let s = crate::ui::shown(m.items@);
    assert(s.len() == m.items@.len());
    assert(s[0] == m.items@[0]@);
    assert(s[1] == m.items@[1]@);
    assert(s[2] == m.items@[2]@);
    assert(s[3] == m.items@[3]@);
    assert(s[0] == menu_item(0, selected));
    assert(s[1] == menu_item(1, selected));
    assert(s[2] == menu_item(2, selected));
    assert(s[3] == menu_item(3, selected));
}

/// The spinner shows one of six pictures before its text, in yellow.
pub proof fn law_spinner_pictures(i: nat)
    requires
        i < 6,
    ensures
        ({
            let picture = if i == 0 {
                "⠷"@
            } else if i == 1 {
                "⠯"@
            } else if i == 2 {
                "⠟"@
            } else if i == 3 {
                "⠻"@
            } else if i == 4 {
                "⠽"@
            } else {
                "⠾"@
            };
            spinner_shown(i) == (Shown {
                text: picture + "scanning.."@,
                style: Style { fg: Some(Color::Yellow), bold: false },
            })
        }),
{
}

/// Where everything stands on the screen: the table one row below the top of its part of the window, the
/// scrollbar beside its rows, the input line in the upper right corner, the error to the left of it, the
/// spinner on the input line's upper edge, and the cursor in the input line.
pub proof fn law_places_on_the_screen(
    d: Screen,
    s: State,
    bottom: Rect,
    visual_cursor: nat,
    scroll: nat,
)
    requires
        is_screen(d, s, bottom, visual_cursor, scroll),
        bottom.height >= 4,
        bottom.y + 5 <= u16::MAX,
        bottom.x < u16::MAX,
    ensures
        ({
            let left = if bottom.width >= 31 {
                bottom.width - 31
            } else {
                0
            };
            &&& d.table_area == (Rect {
                x: bottom.x,
                y: (bottom.y + 1) as u16,
                width: bottom.width,
                height: (bottom.height - 1) as u16,
            })
            &&& bottom.height >= 6 && bottom.width >= 2 ==> d.scroll_area == (Rect {
                x: (bottom.x + 1) as u16,
                y: (bottom.y + 5) as u16,
                width: (bottom.width - 2) as u16,
                height: (bottom.height - 6) as u16,
            })
            &&& bottom.height < 6 || bottom.width < 2 ==> d.scroll_area == (Rect {
                x: 0,
                y: 0,
                width: 0,
                height: 0,
            })
            &&& d.scrollbar == (Scrollbar {
                side: Side::Right,
                color: Color::Rgb(100, 100, 100),
                begin_symbol: None,
                end_symbol: None,
            })
            &&& d.scroll_length == s.scroll_length && d.scroll_position == s.scroll_position
            &&& d.input_area.x == left && d.input_area.y == bottom.y + 2
            &&& d.input_area.width == 30 && d.input_area.height == 3
            &&& d.error matches Some((area, _)) ==> {
                &&& area.x == (if bottom.width >= 60 {
                    bottom.width - 60
                } else {
                    0
                })
                &&& area.y == bottom.y + 2 && area.width == 18 && area.height == 3
            }
            &&& d.spinner matches Some((area, _)) ==> area.x == left + 1 && area.y == bottom.y + 2
                && area.width == 12 && area.height == 1
            &&& d.cursor matches Some((x, y)) ==> {
                &&& y == bottom.y + 3
                &&& visual_cursor <= scroll ==> x == left + 1
                &&& scroll <= visual_cursor ==> x == left + (visual_cursor - scroll) % 0x1_0000 + 1
            }
        }),
{
}

/// What is on the screen: the table of the hosts with the selected row, the sort menu while it is open,
/// the error while there is one, the input line, which is dim during a scan, the cursor in the input mode
/// and the spinner during a scan.
pub proof fn law_what_is_on_the_screen(
    d: Screen,
    s: State,
    bottom: Rect,
    visual_cursor: nat,
    scroll: nat,
)
    requires
        is_screen(d, s, bottom, visual_cursor, scroll),
    ensures
        is_table(d.table, s.rows, s.cidr, s.ip_num, s.is_scanning, s.sort_column),
        d.selected is Some <==> s.selected is Some,
        d.selected matches Some(i) ==> s.selected == Some(i as nat),
        d.menu is Some <==> s.showing_sort_menu,
        d.menu matches Some(m) ==> is_menu(m, d.table_area, s.sort_selected_idx),
        d.error is Some <==> s.cidr_error,
        d.error matches Some((_, b)) ==> is_error(b),
        is_input(d.input, s.input.value, scroll, s.mode, s.is_scanning),
        d.cursor is Some <==> s.mode == Mode::Input,
        d.spinner is Some <==> s.is_scanning,
        d.spinner matches Some((_, span)) ==> span@ == spinner_shown(s.spinner_index),
{
}

/// There is room for the drawing where the table's part of the window has at least four rows and ends in
/// the range of the coordinates; the cursor is in range where its column is.
pub proof fn law_room_for_the_drawing(s: State, bottom: Rect, visual_cursor: nat, scroll: nat)
    ensures
        has_room(bottom) <==> bottom.height >= 4 && bottom.y <= 0xffff - 4,
        s.mode == Mode::Normal ==> cursor_in_range(s, bottom, visual_cursor, scroll),
        scroll <= visual_cursor <= scroll + 30 ==> cursor_in_range(s, bottom, visual_cursor, scroll),
        visual_cursor <= scroll ==> cursor_in_range(s, bottom, visual_cursor, scroll),
        s.mode == Mode::Input && bottom.width >= 31 && scroll <= visual_cursor < scroll + 0x1_0000 ==> (
        cursor_in_range(s, bottom, visual_cursor, scroll) <==> bottom.width - 31 + (visual_cursor - scroll)
            + 1 <= 0xffff),
{
}

/// The input line is seen through a window of 27 columns in a box of 30.
pub proof fn law_measures()
    ensures
        INPUT_WINDOW == 27,
        INPUT_SIZE == 30,
{
}

} // verus!
