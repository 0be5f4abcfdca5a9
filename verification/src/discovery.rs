//! The discovery tab: the network to scan, the scan's progress and the hosts that answered.
use crate::action::{
    Action, ArpPacketData, Effect, Interface, InterfaceIp, Message, Mode, Request, SortColumn, TabsEnum,
};
use crate::input::{InputLine, Key, KeyStroke, Line};
use crate::ipv4::{count_ipv4_net_length, format_ipv4, is_private, parse_cidr, subnet_text, Cidr};
use crate::rows::{position, sort_hosts, Row, ScannedIp};
use crate::vendor::{company_of, format_mac, load_oui};
use vstd::prelude::*;

pub mod screen;

verus! {

/// The number of workers of a scan.
pub const POOL_SIZE: usize = 32;

/// The network that is scanned where no other is given.
pub const DEFAULT_IP: &'static str = "192.168.1.0/24";

/// The number of pictures of the spinner.
pub const SPINNER_LEN: usize = 6;

/// The number of the last entry of the sort menu.
pub const LAST_MENU_ENTRY: usize = 3;

/// The discovery tab.
pub struct Discovery {
    active_tab: TabsEnum,
    active_interface: Option<Interface>,
    /// Whether there is someone to send messages to.
    connected: bool,
    scanned_ips: Vec<ScannedIp>,
    ip_num: i32,
    input: InputLine,
    cidr: Option<Cidr>,
    cidr_error: bool,
    is_scanning: bool,
    mode: Mode,
    oui: Option<mac_oui::Oui>,
    selected: Option<usize>,
    scroll_length: usize,
    scroll_position: usize,
    spinner_index: usize,
    sort_column: SortColumn,
    showing_sort_menu: bool,
    sort_selected_idx: usize,
}

/// What the discovery tab holds.
pub struct State {
    pub active_tab: TabsEnum,
    pub active_interface: Option<Seq<InterfaceIp>>,
    /// Whether there is someone to send messages to.
    pub connected: bool,
    pub rows: Seq<Row>,
    /// The number of addresses that the scan is done with.
    pub ip_num: int,
    pub input: Line,
    pub cidr: Option<Cidr>,
    pub cidr_error: bool,
    pub is_scanning: bool,
    pub mode: Mode,
    /// The companies by hardware address, if known.
    pub companies: Option<Map<Seq<char>, Seq<char>>>,
    /// The row of the table that is selected.
    pub selected: Option<nat>,
    pub scroll_length: nat,
    pub scroll_position: nat,
    pub spinner_index: nat,
    pub sort_column: SortColumn,
    pub showing_sort_menu: bool,
    pub sort_selected_idx: nat,
}

impl State {
    /// No address is listed twice, the counters and indices are in their ranges, the cursor is in
    /// the input line, and the network is one.
    pub open spec fn wf(self) -> bool {
        &&& crate::rows::distinct_ips(self.rows)
        &&& 0 <= self.ip_num <= i32::MAX
        &&& self.input.wf()
        &&& self.cidr matches Some(network) ==> network.wf()
        &&& self.spinner_index < SPINNER_LEN
        &&& self.sort_selected_idx <= LAST_MENU_ENTRY
    }
}

impl View for Discovery {
    type V = State;

    closed spec fn view(&self) -> State {
        State {
            active_tab: self.active_tab,
            active_interface: match self.active_interface {
                Some(interface) => Some(interface@),
                None => None,
            },
            connected: self.connected,
            rows: crate::rows::rows_of(self.scanned_ips@),
            ip_num: self.ip_num as int,
            input: self.input@,
            cidr: self.cidr,
            cidr_error: self.cidr_error,
            is_scanning: self.is_scanning,
            mode: self.mode,
            companies: match self.oui {
                Some(db) => Some(crate::vendor::oui_companies(db)),
                None => None,
            },
            selected: match self.selected {
                Some(i) => Some(i as nat),
                None => None,
            },
            scroll_length: self.scroll_length as nat,
            scroll_position: self.scroll_position as nat,
            spinner_index: self.spinner_index as nat,
            sort_column: self.sort_column,
            showing_sort_menu: self.showing_sort_menu,
            sort_selected_idx: self.sort_selected_idx as nat,
        }
    }
}

/// The tab at the start: the default network in the input line, no network chosen, no host listed,
/// the first row selected, and the hosts sorted by their addresses.
pub open spec fn initial() -> State {
    State {
        active_tab: TabsEnum::Discovery,
        active_interface: None,
        connected: false,
        rows: Seq::empty(),
        ip_num: 0,
        input: crate::input::line_of(DEFAULT_IP@),
        cidr: None,
        cidr_error: false,
        is_scanning: false,
        mode: Mode::Normal,
        companies: None,
        selected: Some(0),
        scroll_length: 0,
        scroll_position: 0,
        spinner_index: 0,
        sort_column: SortColumn::Ip,
        showing_sort_menu: false,
        sort_selected_idx: 0,
    }
}

/// The index of the last of `n` rows; 0 where there is none.
pub open spec fn last_row(n: nat) -> nat {
    if n == 0 {
        0
    } else {
        (n - 1) as nat
    }
}

/// `s` with the scrollbar as long as the list of hosts.
pub open spec fn with_scrollbar(s: State) -> State {
    State { scroll_length: last_row(s.rows.len()), ..s }
}

/// `s` with the hosts sorted by the chosen column.
pub open spec fn with_sorted_rows(s: State) -> State {
    with_scrollbar(
        State { rows: crate::rows::sorted_rows(s.rows, s.sort_column), ..s },
    )
}

/// `s` after the scan of its network was asked for: no host is listed, nothing is counted, and the
/// scan runs if a network was chosen.
pub open spec fn scan_started(s: State) -> (State, Seq<Request>) {
    let reset = State { rows: Seq::empty(), ip_num: 0, ..s };
    match s.cidr {
        Some(network) => (
            State { is_scanning: true, ..reset },
            seq![Request::StartScan { network, pool_size: POOL_SIZE }],
        ),
        None => (reset, Seq::empty()),
    }
}

/// `s` after a text was read as `parsed`, with a scan if `scan`.
pub open spec fn cidr_applied(s: State, parsed: Option<Cidr>, scan: bool) -> (
    State,
    Seq<Request>,
) {
    match parsed {
        Some(network) => {
            let chosen = State { cidr: Some(network), ..s };
            if scan {
                scan_started(chosen)
            } else {
                (chosen, Seq::empty())
            }
        },
        None => (
            s,
            if s.connected {
                seq![Request::Send(Message::CidrError)]
            } else {
                Seq::empty()
            },
        ),
    }
}

/// `s` after the host `ip` answered: it is listed, and the hosts are sorted if it was not.
pub open spec fn host_answered(s: State, ip: Seq<char>) -> State {
    if crate::rows::listed(s.rows, ip) {
        s
    } else {
        with_sorted_rows(State { rows: s.rows.push(crate::rows::placeholder(ip)), ..s })
    }
}

/// The host `r` with the hardware address `mac`, and the company that it is registered for if that
/// is known.
pub open spec fn with_mac(
    r: Row,
    mac: Seq<char>,
    companies: Option<Map<Seq<char>, Seq<char>>>,
) -> Row {
    crate::rows::with_address(r, mac, company(companies, mac))
}

/// The company that `mac` is registered for, if that is known.
pub open spec fn company(companies: Option<Map<Seq<char>, Seq<char>>>, mac: Seq<char>) -> Option<
    Seq<char>,
> {
    match companies {
        Some(m) => if m.contains_key(mac) {
            Some(m[mac])
        } else {
            None
        },
        None => None,
    }
}

/// `rows` with `changed` in the place of every row with the address `ip`.
pub open spec fn with_changed(
    rows: Seq<Row>,
    ip: Seq<char>,
    changed: spec_fn(Row) -> Row,
) -> Seq<Row> {
    rows.map_values(
        |r: Row|
            if r.ip == ip {
                changed(r)
            } else {
                r
            },
    )
}

/// `s` after an ARP packet was captured: the sender, if it is listed, has the packet's hardware
/// address.
pub open spec fn arp_received(s: State, data: ArpPacketData) -> State {
    State {
        rows: with_changed(
            s.rows,
            crate::ipv4::ipv4_text(data.sender_ip),
            |r: Row|
                with_mac(r, crate::vendor::mac_text(data.sender_mac), s.companies),
        ),
        ..s
    }
}

/// The host `r` after its names were looked up: a name that was found replaces the old one, and a
/// hardware address that was found is taken where none was known.
pub open spec fn with_names(
    r: Row,
    hostname: Seq<char>,
    mac: Seq<char>,
    companies: Option<Map<Seq<char>, Seq<char>>>,
) -> Row {
    let named = if hostname.len() > 0 {
        Row { hostname, ..r }
    } else {
        r
    };
    if mac.len() > 0 && r.mac.len() == 0 {
        with_mac(named, mac, companies)
    } else {
        named
    }
}

/// `s` after the names of the host `ip` were looked up; the hosts are sorted.
pub open spec fn names_found(
    s: State,
    ip: Seq<char>,
    hostname: Seq<char>,
    mac: Seq<char>,
) -> State {
    with_sorted_rows(
        State {
            rows: with_changed(
                s.rows,
                ip,
                |r: Row| with_names(r, hostname, mac, s.companies),
            ),
            ..s
        },
    )
}

/// The number of counted addresses at which a scan of `cidr` is over: the size of the network, as
/// a signed number of 32 bits.
pub open spec fn goal(cidr: Option<Cidr>) -> int {
    match cidr {
        Some(network) => if network.length >= 2 {
            network.size() as int
        } else if network.length == 1 {
            i32::MIN as int
        } else {
            0
        },
        None => 0,
    }
}

/// `s` with one more address counted; the scan is over when the goal is reached.
pub open spec fn ip_counted(s: State) -> State {
    State {
        ip_num: s.ip_num + 1,
        is_scanning: s.is_scanning && s.ip_num + 1 < goal(s.cidr),
        ..s
    }
}

/// The first IPv4 address for private use among `ips`.
pub open spec fn first_private(ips: Seq<InterfaceIp>) -> Option<u32>
    decreases ips.len(),
{
    if ips.len() == 0 {
        None
    } else {
        match ips[0] {
            InterfaceIp::V4(a) => if crate::ipv4::private_use(a) {
                Some(a)
            } else {
                first_private(ips.drop_first())
            },
            InterfaceIp::V6 => first_private(ips.drop_first()),
        }
    }
}

/// `s` with the network around the first private address among `ips`, if there is one, in the input
/// line and chosen.
pub open spec fn subnet_chosen(s: State, ips: Seq<InterfaceIp>) -> State {
    match first_private(ips) {
        Some(a) => State {
            input: crate::input::line_of(crate::ipv4::subnet_of(a).text()),
            cidr: Some(crate::ipv4::subnet_of(a)),
            ..s
        },
        None => s,
    }
}

/// `s` after an interface was chosen: the first one also chooses the network.
pub open spec fn interface_chosen(s: State, ips: Seq<InterfaceIp>) -> State {
    let t = if s.active_interface is None {
        subnet_chosen(s, ips)
    } else {
        s
    };
    State { active_interface: Some(ips), ..t }
}

/// The spinner's picture after the picture `i`, the first after the last.
pub open spec fn next_picture(i: nat) -> nat {
    if i + 1 < SPINNER_LEN {
        i + 1
    } else {
        0
    }
}

/// The row above the selected one, from the first to the last.
pub open spec fn row_above(s: State) -> nat {
    match s.selected {
        Some(i) => if i == 0 {
            last_row(s.rows.len())
        } else {
            (i - 1) as nat
        },
        None => 0,
    }
}

/// The row below the selected one, from the last to the first.
pub open spec fn row_below(s: State) -> nat {
    match s.selected {
        Some(i) => if i >= last_row(s.rows.len()) {
            0
        } else {
            i + 1
        },
        None => 0,
    }
}

/// `s` with row `i` selected.
pub open spec fn with_selected(s: State, i: nat) -> State {
    State { selected: Some(i), scroll_position: i, ..s }
}

/// `s` after a change of mode was asked for: while a scan runs the input mode is refused.
pub open spec fn mode_requested(s: State, mode: Mode) -> (State, Seq<Request>) {
    if s.is_scanning && mode == Mode::Input {
        (s, seq![Request::Send(Message::ModeChange(Mode::Normal))])
    } else {
        (
            State { cidr_error: s.cidr_error && mode != Mode::Input, mode, ..s },
            seq![Request::Send(Message::AppModeChange(mode))],
        )
    }
}

/// Whether `s` starts a scan when it is asked to.
pub open spec fn may_scan(s: State) -> bool {
    s.active_interface is Some && !s.is_scanning && s.active_tab == TabsEnum::Discovery
}

/// Whether `s` can take the message: it can count one more address, and there is someone to send
/// an answer to where one is due.
pub open spec fn accepts(s: State, m: Message) -> bool {
    match m {
        Message::CountIp => s.ip_num < i32::MAX,
        Message::ScanCidr => may_scan(s) && s.cidr is Some ==> s.connected,
        Message::ModeChange(_) => s.active_tab == TabsEnum::Discovery
            ==> s.connected,
        _ => true,
    }
}

/// Whether the hosts are sorted when the message arrives.
pub open spec fn sorts(s: State, m: Message) -> bool {
    m is SortBy || m is IpResolved || (m matches Message::PingIpResponded(ip)
        && !crate::rows::listed(s.rows, ip))
}

/// `s` after a message arrived, and what is asked for then.
pub open spec fn updated(s: State, m: Message) -> (
    State,
    Seq<Request>,
) {
    let nothing = Seq::<Request>::empty();
    match m {
        Message::Tick => (
            if s.is_scanning {
                State { spinner_index: next_picture(s.spinner_index), ..s }
            } else {
                s
            },
            nothing,
        ),
        Message::PingIpResponded(ip) => (host_answered(s, ip), nothing),
        Message::CountIp => (ip_counted(s), nothing),
        Message::ScanComplete => (State { is_scanning: false, ..s }, nothing),
        Message::CidrError => (State { cidr_error: true, ..s }, nothing),
        Message::ArpRecieve(data) => (arp_received(s, data), nothing),
        Message::IpResolved { ip, hostname, mac } => (
            names_found(s, ip, hostname, mac),
            nothing,
        ),
        Message::ScanCidr => if may_scan(s) {
            scan_started(s)
        } else {
            (s, nothing)
        },
        Message::SortBy(column) => (
            with_sorted_rows(State { sort_column: column, ..s }),
            nothing,
        ),
        Message::Help => (
            State { showing_sort_menu: !s.showing_sort_menu, ..s },
            nothing,
        ),
        Message::StopScan => (
            State { is_scanning: false, ..s },
            seq![Request::StopScan],
        ),
        Message::ActiveInterface(ips) => (interface_chosen(s, ips), nothing),
        Message::Down => (
            if s.active_tab == TabsEnum::Discovery {
                with_selected(s, row_below(s))
            } else {
                s
            },
            nothing,
        ),
        Message::Up => (
            if s.active_tab == TabsEnum::Discovery {
                with_selected(s, row_above(s))
            } else {
                s
            },
            nothing,
        ),
        Message::ModeChange(mode) => if s.active_tab == TabsEnum::Discovery {
            mode_requested(s, mode)
        } else {
            (s, nothing)
        },
        Message::TabChange(tab) => (State { active_tab: tab, ..s }, nothing),
        _ => (s, nothing),
    }
}

/// The column of an entry of the sort menu.
pub open spec fn menu_column(entry: nat) -> SortColumn {
    if entry == 0 {
        SortColumn::Ip
    } else if entry == 1 {
        SortColumn::Mac
    } else if entry == 2 {
        SortColumn::Hostname
    } else {
        SortColumn::Vendor
    }
}

/// The entry of a column in the sort menu.
pub open spec fn menu_entry(column: SortColumn) -> nat {
    match column {
        SortColumn::Ip => 0,
        SortColumn::Mac => 1,
        SortColumn::Hostname => 2,
        SortColumn::Vendor => 3,
    }
}

/// `s` after a key arrived while the sort menu is open, and the message that answers it.
pub open spec fn menu_key(s: State, key: Key) -> (State, Message) {
    let refresh = Message::Refresh;
    if key == Key::Up || key == Key::Char('k') {
        (
            State {
                sort_selected_idx: if s.sort_selected_idx > 0 {
                    (s.sort_selected_idx - 1) as nat
                } else {
                    0
                },
                ..s
            },
            refresh,
        )
    } else if key == Key::Down || key == Key::Char('j') {
        (
            State {
                sort_selected_idx: if s.sort_selected_idx < LAST_MENU_ENTRY {
                    s.sort_selected_idx + 1
                } else {
                    s.sort_selected_idx
                },
                ..s
            },
            refresh,
        )
    } else if key == Key::Enter {
        let column = menu_column(s.sort_selected_idx);
        (
            State { sort_column: column, showing_sort_menu: false, ..s },
            Message::SortBy(column),
        )
    } else if key == Key::Esc {
        (State { showing_sort_menu: false, ..s }, refresh)
    } else if key == Key::Char('o') && s.mode == Mode::Normal && !s.is_scanning {
        (State { showing_sort_menu: false, ..s }, refresh)
    } else {
        (s, refresh)
    }
}

/// `s` after the key that opens the sort menu: it is open, with the entry of the chosen column
/// selected.
pub open spec fn menu_opened(s: State) -> State {
    State { showing_sort_menu: true, sort_selected_idx: menu_entry(s.sort_column), ..s }
}

/// `s` after a key event arrived, the message that answers it, if any, and what is asked for then.
/// `parsed` is what the input line is read as.
pub open spec fn key_handled(s: State, key: KeyStroke, parsed: Option<Cidr>) -> (
    State,
    Option<Message>,
    Seq<Request>,
) {
    let nothing = Seq::<Request>::empty();
    if s.active_tab != TabsEnum::Discovery {
        (s, None, nothing)
    } else if s.showing_sort_menu {
        let (t, answer) = menu_key(s, key.key);
        (t, Some(answer), nothing)
    } else if s.mode == Mode::Normal {
        if s.is_scanning && key.key == Key::Char('k') {
            (s, Some(Message::StopScan), nothing)
        } else if !s.is_scanning && key.key == Key::Char('o') {
            (menu_opened(s), Some(Message::Refresh), nothing)
        } else {
            (s, None, nothing)
        }
    } else if key.key == Key::Enter {
        let (t, asked) = if s.connected {
            cidr_applied(s, parsed, true)
        } else {
            (s, nothing)
        };
        (t, Some(Message::ModeChange(Mode::Normal)), asked)
    } else if key.key == Key::Esc {
        (s, None, nothing)
    } else {
        (
            State { input: crate::input::edited(s.input, key), ..s },
            Some(Message::Refresh),
            nothing,
        )
    }
}

/// Nothing to do.
fn no_effects() -> (effects: Vec<Effect>)
    ensures
        crate::action::requests(effects@) == Seq::<Request>::empty(),
{
    let effects: Vec<Effect> = Vec::new();
    proof {
        assert(crate::action::requests(effects@) =~= Seq::<Request>::empty());
    }
    effects
}

/// One thing to do.
fn one_effect(effect: Effect) -> (effects: Vec<Effect>)
    ensures
        crate::action::requests(effects@) == seq![effect@],
{
    let effects = vec![effect];
    proof {
        assert(crate::action::requests(effects@) =~= seq![effect@]);
    }
    effects
}

/// The first address for private use among an interface's addresses.
fn find_private(ips: &Vec<InterfaceIp>) -> (r: Option<u32>)
    ensures
        r == first_private(ips@),
{
    let mut i: usize = 0;
    proof {
        assert(ips@.skip(0) == ips@);
    }
    while i < ips.len()
        invariant
            i <= ips@.len(),
            first_private(ips@) == first_private(ips@.skip(i as int)),
        decreases ips@.len() - i,
    {
        proof {
            assert(ips@.skip(i as int)[0] == ips@[i as int]);
            assert(ips@.skip(i as int).drop_first() == ips@.skip(i + 1));
        }
        if let InterfaceIp::V4(a) = ips[i] {
            if is_private(a) {
                return Some(a);
            }
        }
        i = i + 1;
    }
    None
}

/// The default network.
pub open spec fn default_network() -> Cidr {
    Cidr { first: 0xC0A8_0100, length: 24 }
}

/// The default network's notation is read as the default network.
proof fn lemma_default_network()
    ensures
        default_network().wf(),
        default_network().text() == DEFAULT_IP@,
{
    let first = default_network().first;
    vstd::arithmetic::power2::lemma2_to64();
    reveal_strlit("192.168.1.0/24");
    reveal_with_fuel(crate::text::decimal, 4);
    assert(crate::ipv4::octet(first, 0) == 192);
    assert(crate::ipv4::octet(first, 1) == 168);
    assert(crate::ipv4::octet(first, 2) == 1);
    assert(crate::ipv4::octet(first, 3) == 0);
    assert(crate::text::decimal(192) =~= seq!['1', '9', '2']);
    assert(crate::text::decimal(168) =~= seq!['1', '6', '8']);
    assert(crate::text::decimal(24) =~= seq!['2', '4']);
    crate::ipv4::lemma_ipv4_text(first);
    assert(default_network().text() =~= DEFAULT_IP@);
}

impl Default for Discovery {
    /// The discovery tab at the start.
    fn default() -> (d: Discovery)
        ensures
            d@ == initial(),
    {
        Discovery::new()
    }
}

impl Discovery {
    /// The discovery tab at the start.
    pub fn new() -> (d: Discovery)
        ensures
            d@ == initial(),
            d@.wf(),
    {
        let d = Discovery {
            active_tab: TabsEnum::Discovery,
            active_interface: None,
            connected: false,
            scanned_ips: Vec::new(),
            ip_num: 0,
            input: InputLine::with_value(DEFAULT_IP.to_owned()),
            cidr: None,
            cidr_error: false,
            is_scanning: false,
            mode: Mode::Normal,
            oui: None,
            selected: Some(0),
            scroll_length: 0,
            scroll_position: 0,
            spinner_index: 0,
            sort_column: SortColumn::Ip,
            showing_sort_menu: false,
            sort_selected_idx: 0,
        };
        proof {
            assert(d@.rows =~= Seq::empty());
        }
        d
    }

    /// The hosts that answered.
    pub fn get_scanned_ips(&self) -> (hosts: &Vec<ScannedIp>)
        ensures
            crate::rows::rows_of(hosts@) == self@.rows,
    {
        &self.scanned_ips
    }

    fn set_scrollbar_height(&mut self)
        requires
            old(self)@.wf(),
        ensures
            final(self)@ == with_scrollbar(old(self)@),
    {
        self.scroll_length = if self.scanned_ips.len() == 0 {
            0
        } else {
            self.scanned_ips.len() - 1
        };
    }

    fn sort_scanned_ips(&mut self)
        requires
            old(self)@.wf(),
        ensures
            final(self)@ == with_sorted_rows(old(self)@),
            final(self)@.wf(),
            crate::rows::keys_lowered(final(self)@.rows, final(self)@.sort_column),
    {
        proof {
            crate::rows::law_sort_keeps_ips(self@.rows, self@.sort_column);
        }
        sort_hosts(&mut self.scanned_ips, self.sort_column);
        self.set_scrollbar_height();
    }

    fn sort_by(&mut self, column: SortColumn)
        requires
            old(self)@.wf(),
        ensures
            final(self)@ == with_sorted_rows(State { sort_column: column, ..old(self)@ }),
            final(self)@.wf(),
            crate::rows::keys_lowered(final(self)@.rows, final(self)@.sort_column),
    {
        self.sort_column = column;
        self.sort_scanned_ips();
    }

    fn reset_scan(&mut self)
        ensures
            final(self)@ == (State { rows: Seq::empty(), ip_num: 0, ..old(self)@ }),
    {
        self.scanned_ips.clear();
        self.ip_num = 0;
        proof {
            assert(self@.rows =~= Seq::empty());
        }
    }

    fn scan(&mut self) -> (effects: Vec<Effect>)
        requires
            old(self)@.wf(),
            old(self)@.cidr is Some ==> old(self)@.connected,
        ensures
            (final(self)@, crate::action::requests(effects@)) == scan_started(old(self)@),
            final(self)@.wf(),
    {
        self.reset_scan();
        match self.cidr {
            Some(network) => {
                self.is_scanning = true;
                one_effect(Effect::StartScan { network, pool_size: POOL_SIZE })
            },
            None => no_effects(),
        }
    }

    /// Takes what a text was read as: a network is chosen, and scanned if `scan`; where the text
    /// was none, that is reported.
    pub fn apply_cidr(&mut self, parsed: Option<Cidr>, scan: bool) -> (effects: Vec<Effect>)
        requires
            old(self)@.wf(),
            parsed matches Some(network) ==> network.wf(),
            scan && parsed is Some ==> old(self)@.connected,
        ensures
            (final(self)@, crate::action::requests(effects@)) == cidr_applied(
                old(self)@,
                parsed,
                scan,
            ),
            final(self)@.wf(),
    {
        match parsed {
            Some(network) => {
                self.cidr = Some(network);
                if scan {
                    self.scan()
                } else {
                    no_effects()
                }
            },
            None => if self.connected {
                one_effect(Effect::Send(Action::CidrError))
            } else {
                no_effects()
            },
        }
    }

    fn set_cidr(&mut self, text: &str, scan: bool) -> (effects: Vec<Effect>)
        requires
            old(self)@.wf(),
            scan ==> old(self)@.connected,
        ensures
            (final(self)@, crate::action::requests(effects@)) == cidr_applied(
                old(self)@,
                crate::ipv4::cidr_parsed(text@),
                scan,
            ),
            final(self)@.wf(),
            reads_as_network(text@),
    {
        let parsed = parse_cidr(text);
        self.apply_cidr(parsed, scan)
    }

    /// Lists the host `ip` if it is not listed yet.
    fn process_ip(&mut self, ip: String)
        requires
            old(self)@.wf(),
        ensures
            final(self)@ == host_answered(old(self)@, ip@),
            final(self)@.wf(),
            !crate::rows::listed(old(self)@.rows, ip@) ==> crate::rows::keys_lowered(
                final(self)@.rows,
                final(self)@.sort_column,
            ),
    {
        if position(&self.scanned_ips, &ip).is_none() {
            let ghost before = self@.rows;
            let ghost text = ip@;
            self.scanned_ips.push(ScannedIp::placeholder(ip));
            proof {
                assert(self@.rows =~= before.push(crate::rows::placeholder(text)));
                assert forall|i: int, j: int| 0 <= i < j < self@.rows.len() implies (
                #[trigger] self@.rows[i]).ip != (#[trigger] self@.rows[j]).ip by {
                    if j == before.len() {
                        assert(before[i].ip != text);
                    }
                }
            }
            self.sort_scanned_ips();
        }
    }

    fn vendor_of(&self, mac: &String) -> (name: Option<String>)
        ensures
            crate::rows::optional_text(name) == company(self@.companies, mac@),
    {
        match &self.oui {
            Some(db) => company_of(db, mac.as_str()),
            None => None,
        }
    }

    /// Takes the hardware address of a captured ARP packet's sender.
    fn process_mac(&mut self, data: ArpPacketData)
        requires
            old(self)@.wf(),
        ensures
            final(self)@ == arp_received(old(self)@, data),
            final(self)@.wf(),
    {
        let ghost before = self@;
        let ip = format_ipv4(data.sender_ip);
        let found = position(&self.scanned_ips, &ip);
        if let Some(i) = found {
            let mac = format_mac(data.sender_mac);
            let vendor = self.vendor_of(&mac);
            self.scanned_ips[i].set_mac(mac, vendor);
        }
        proof {
            let after = arp_received(before, data).rows;
            assert(self@.rows =~= after) by {
                assert forall|k: int| 0 <= k < before.rows.len() implies self@.rows[k] == after[k] by {
                    assert(before.rows[k] == old(self).scanned_ips@[k]@);
                    if found is Some && found->0 != k {
                        let i = found->0 as int;
                        assert(before.rows[i] == old(self).scanned_ips@[i]@);
                        assert(before.rows[i].ip != before.rows[k].ip);
                    }
                }
            }
            lemma_changed_keeps_ips(
                before.rows,
                crate::ipv4::ipv4_text(data.sender_ip),
                |r: Row| with_mac(r, crate::vendor::mac_text(data.sender_mac), before.companies),
            );
        }
    }

    /// Takes the names that were found of the host `ip`.
    fn process_names(&mut self, ip: String, hostname: String, mac: String)
        requires
            old(self)@.wf(),
        ensures
            final(self)@ == names_found(old(self)@, ip@, hostname@, mac@),
            final(self)@.wf(),
            crate::rows::keys_lowered(final(self)@.rows, final(self)@.sort_column),
    {
        let ghost before = self@;
        let ghost name = hostname@;
        let ghost address = mac@;
        let found = position(&self.scanned_ips, &ip);
        if let Some(i) = found {
            let unknown = self.scanned_ips[i].mac.as_str().is_empty();
            if !hostname.as_str().is_empty() {
                self.scanned_ips[i].hostname = hostname;
            }
            if !mac.as_str().is_empty() && unknown {
                let vendor = self.vendor_of(&mac);
                self.scanned_ips[i].set_mac(mac, vendor);
            }
        }
        proof {
            let changed = |r: Row| with_names(r, name, address, before.companies);
            let after = with_changed(before.rows, ip@, changed);
            assert(self@.rows =~= after) by {
                assert forall|k: int| 0 <= k < before.rows.len() implies self@.rows[k] == after[k] by {
                    assert(before.rows[k] == old(self).scanned_ips@[k]@);
                    if found is Some && found->0 != k {
                        let i = found->0 as int;
                        assert(before.rows[i] == old(self).scanned_ips@[i]@);
                        assert(before.rows[i].ip != before.rows[k].ip);
                    }
                }
            }
            lemma_changed_keeps_ips(before.rows, ip@, changed);
        }
        self.sort_scanned_ips();
    }

    /// Chooses the network around the interface's first private address.
    fn set_active_subnet(&mut self, interface: &Interface)
        requires
            old(self)@.wf(),
        ensures
            final(self)@ == subnet_chosen(old(self)@, interface@),
            final(self)@.wf(),
    {
        if let Some(a) = find_private(&interface.ips) {
            let text = subnet_text(a);
            proof {
                crate::ipv4::lemma_subnet_of(a);
            }
            self.input = InputLine::with_value(text.clone());
            self.set_cidr(text.as_str(), false);
        }
    }

    /// Selects the row above, from the first the last.
    pub fn previous_in_table(&mut self)
        requires
            old(self)@.wf(),
        ensures
            final(self)@ == with_selected(old(self)@, row_above(old(self)@)),
            final(self)@.wf(),
    {
        let index: usize = match self.selected {
            Some(index) => if index == 0 {
                if self.scanned_ips.len() == 0 {
                    0
                } else {
                    self.scanned_ips.len() - 1
                }
            } else {
                index - 1
            },
            None => 0,
        };
        self.selected = Some(index);
        self.scroll_position = index;
    }

    /// Selects the row below, from the last the first.
    pub fn next_in_table(&mut self)
        requires
            old(self)@.wf(),
        ensures
            final(self)@ == with_selected(old(self)@, row_below(old(self)@)),
            final(self)@.wf(),
    {
        let index: usize = match self.selected {
            Some(index) => {
                let last: usize = if self.scanned_ips.len() == 0 {
                    0
                } else {
                    self.scanned_ips.len() - 1
                };
                if index >= last {
                    0
                } else {
                    index + 1
                }
            },
            None => 0,
        };
        self.selected = Some(index);
        self.scroll_position = index;
    }

    fn count_ip(&mut self)
        requires
            old(self)@.wf(),
            old(self)@.ip_num < i32::MAX,
        ensures
            final(self)@ == ip_counted(old(self)@),
            final(self)@.wf(),
    {
        self.ip_num = self.ip_num + 1;
        let ip_count: i32 = match self.cidr {
            Some(network) => if network.length >= 2 {
                proof {
                    lemma_goal(network);
                }
                count_ipv4_net_length(network.length as u32) as i32
            } else if network.length == 1 {
                i32::MIN
            } else {
                0
            },
            None => 0,
        };
        if self.ip_num >= ip_count {
            self.is_scanning = false;
        }
    }

    fn tick(&mut self)
        requires
            old(self)@.wf(),
        ensures
            final(self)@ == updated(old(self)@, Message::Tick).0,
            final(self)@.wf(),
    {
        if self.is_scanning {
            self.spinner_index = (self.spinner_index + 1) % SPINNER_LEN;
        }
    }

    fn choose_interface(&mut self, interface: Interface)
        requires
            old(self)@.wf(),
        ensures
            final(self)@ == interface_chosen(old(self)@, interface@),
            final(self)@.wf(),
    {
        if self.active_interface.is_none() {
            self.set_active_subnet(&interface);
        }
        self.active_interface = Some(interface);
    }

    fn request_scan(&mut self) -> (effects: Vec<Effect>)
        requires
            old(self)@.wf(),
            accepts(old(self)@, Message::ScanCidr),
        ensures
            (final(self)@, crate::action::requests(effects@)) == updated(
                old(self)@,
                Message::ScanCidr,
            ),
            final(self)@.wf(),
    {
        if self.active_interface.is_some() && !self.is_scanning && self.active_tab
            == TabsEnum::Discovery {
            self.scan()
        } else {
            no_effects()
        }
    }

    fn request_mode(&mut self, mode: Mode) -> (effects: Vec<Effect>)
        requires
            old(self)@.wf(),
            accepts(old(self)@, Message::ModeChange(mode)),
        ensures
            (final(self)@, crate::action::requests(effects@)) == updated(
                old(self)@,
                Message::ModeChange(mode),
            ),
            final(self)@.wf(),
    {
        if self.active_tab != TabsEnum::Discovery {
            return no_effects();
        }
        if self.is_scanning && mode == Mode::Input {
            return one_effect(Effect::Send(Action::ModeChange(Mode::Normal)));
        }
        if mode == Mode::Input {
            self.cidr_error = false;
        }
        self.mode = mode;
        one_effect(Effect::Send(Action::AppModeChange(mode)))
    }

    /// Whether the tab can take a message.
    pub fn can_update(&self, action: &Action) -> (b: bool)
        ensures
            b == accepts(self@, action@),
    {
        match action {
            Action::CountIp => self.ip_num < i32::MAX,
            Action::ScanCidr => self.connected || self.active_interface.is_none() || self.is_scanning
                || self.active_tab != TabsEnum::Discovery || self.cidr.is_none(),
            Action::ModeChange(_) => self.connected || self.active_tab != TabsEnum::Discovery,
            _ => true,
        }
    }

    /// Takes a message, and says what is to be done on account of it.
    #[verifier::rlimit(30)]
    pub fn update(&mut self, action: Action) -> (effects: Vec<Effect>)
        requires
            old(self)@.wf(),
            accepts(old(self)@, action@),
        ensures
            (final(self)@, crate::action::requests(effects@)) == updated(old(self)@, action@),
            final(self)@.wf(),
            sorts(old(self)@, action@) ==> crate::rows::keys_lowered(
                final(self)@.rows,
                final(self)@.sort_column,
            ),
    {
        match action {
            Action::Tick => {
                self.tick();
                no_effects()
            },
            Action::PingIpResponded(ip) => {
                self.process_ip(ip);
                no_effects()
            },
            Action::CountIp => {
                self.count_ip();
                no_effects()
            },
            Action::ScanComplete => {
                self.is_scanning = false;
                no_effects()
            },
            Action::CidrError => {
                self.cidr_error = true;
                no_effects()
            },
            Action::ArpRecieve(data) => {
                self.process_mac(data);
                no_effects()
            },
            Action::IpResolved { ip, hostname, mac } => {
                self.process_names(ip, hostname, mac);
                no_effects()
            },
            Action::ScanCidr => self.request_scan(),
            Action::SortBy(column) => {
                self.sort_by(column);
                no_effects()
            },
            Action::Help => {
                self.showing_sort_menu = !self.showing_sort_menu;
                no_effects()
            },
            Action::StopScan => {
                self.is_scanning = false;
                one_effect(Effect::StopScan)
            },
            Action::ActiveInterface(interface) => {
                self.choose_interface(interface);
                no_effects()
            },
            Action::Down => {
                if self.active_tab == TabsEnum::Discovery {
                    self.next_in_table();
                }
                no_effects()
            },
            Action::Up => {
                if self.active_tab == TabsEnum::Discovery {
                    self.previous_in_table();
                }
                no_effects()
            },
            Action::ModeChange(mode) => self.request_mode(mode),
            Action::TabChange(tab) => {
                self.tab_changed(tab);
                no_effects()
            },
            _ => no_effects(),
        }
    }

    /// Takes a key while the sort menu is open: every key is answered, so that none reaches the
    /// other components.
    fn handle_menu_key(&mut self, key: Key) -> (answer: Action)
        requires
            old(self)@.wf(),
        ensures
            (final(self)@, answer@) == menu_key(old(self)@, key),
            final(self)@.wf(),
    {
        match key {
            Key::Up | Key::Char('k') => {
                if self.sort_selected_idx > 0 {
                    self.sort_selected_idx = self.sort_selected_idx - 1;
                }
            },
            Key::Down | Key::Char('j') => {
                if self.sort_selected_idx < LAST_MENU_ENTRY {
                    self.sort_selected_idx = self.sort_selected_idx + 1;
                }
            },
            Key::Enter => {
                let column = match self.sort_selected_idx {
                    0 => SortColumn::Ip,
                    1 => SortColumn::Mac,
                    2 => SortColumn::Hostname,
                    _ => SortColumn::Vendor,
                };
                self.sort_column = column;
                self.showing_sort_menu = false;
                return Action::SortBy(column);
            },
            Key::Esc => {
                self.showing_sort_menu = false;
            },
            Key::Char('o') => {
                if self.mode == Mode::Normal && !self.is_scanning {
                    self.showing_sort_menu = false;
                }
            },
            _ => {},
        }
        Action::Refresh
    }

    fn open_menu(&mut self)
        requires
            old(self)@.wf(),
        ensures
            final(self)@ == menu_opened(old(self)@),
            final(self)@.wf(),
    {
        self.showing_sort_menu = true;
        self.sort_selected_idx = match self.sort_column {
            SortColumn::Ip => 0,
            SortColumn::Mac => 1,
            SortColumn::Hostname => 2,
            SortColumn::Vendor => 3,
        };
    }

    /// Takes the input line as the network to scan.
    fn submit(&mut self) -> (effects: Vec<Effect>)
        requires
            old(self)@.wf(),
        ensures
            (final(self)@, crate::action::requests(effects@)) == if old(self)@.connected {
                cidr_applied(
                    old(self)@,
                    crate::ipv4::cidr_parsed(old(self)@.input.value),
                    true,
                )
            } else {
                (old(self)@, Seq::empty())
            },
            final(self)@.wf(),
            old(self)@.connected ==> reads_as_network(old(self)@.input.value),
    {
        if self.connected {
            let text = self.input.value.clone();
            self.set_cidr(text.as_str(), true)
        } else {
            no_effects()
        }
    }

    /// Takes a key event. The result is the message that answers it, if any, and what is to be done
    /// on account of it.
    pub fn handle_key_events(&mut self, key: KeyStroke) -> (r: (Option<Action>, Vec<Effect>))
        requires
            old(self)@.wf(),
        ensures
            (final(self)@, crate::action::message(r.0), crate::action::requests(r.1@))
                == key_handled(
                old(self)@,
                key,
                crate::ipv4::cidr_parsed(old(self)@.input.value),
            ),
            final(self)@.wf(),
            takes_input(old(self)@) && old(self)@.connected && key.key == Key::Enter
                ==> reads_as_network(old(self)@.input.value),
            takes_input(old(self)@) && key.key != Key::Enter && key.key != Key::Esc ==> edits_line(
                old(self)@.input,
                key,
            ),
    {
        if self.active_tab != TabsEnum::Discovery {
            return (None, no_effects());
        }
        if self.showing_sort_menu {
            let answer = self.handle_menu_key(key.key);
            return (Some(answer), no_effects());
        }
        match self.mode {
            Mode::Normal => {
                if self.is_scanning && key.key == Key::Char('k') {
                    return (Some(Action::StopScan), no_effects());
                }
                if !self.is_scanning && key.key == Key::Char('o') {
                    self.open_menu();
                    return (Some(Action::Refresh), no_effects());
                }
                (None, no_effects())
            },
            Mode::Input => match key.key {
                Key::Enter => {
                    let effects = self.submit();
                    (Some(Action::ModeChange(Mode::Normal)), effects)
                },
                Key::Esc => (None, no_effects()),
                _ => {
                    self.input.handle_event(key);
                    (Some(Action::Refresh), no_effects())
                },
            },
        }
    }

    /// Prepares the tab: the default network is chosen where none was, and the register of
    /// companies is loaded.
    pub fn init(&mut self)
        requires
            old(self)@.wf(),
        ensures
            ready(old(self)@, final(self)@),
            final(self)@.wf(),
    {
        if self.cidr.is_none() {
            proof {
                lemma_default_network();
            }
            self.set_cidr(DEFAULT_IP, false);
        }
        self.set_oui(load_oui());
    }

    /// Takes the register of companies, if there is one.
    pub fn set_oui(&mut self, oui: Option<mac_oui::Oui>)
        ensures
            final(self)@ == (State {
                companies: match oui {
                    Some(db) => Some(crate::vendor::oui_companies(db)),
                    None => None,
                },
                ..old(self)@
            }),
    {
        self.oui = oui;
    }

    /// Takes note that there is someone to send messages to.
    pub fn register_action_handler(&mut self)
        ensures
            final(self)@ == (State { connected: true, ..old(self)@ }),
    {
        self.connected = true;
    }

    /// Takes note of the tab that is shown.
    pub fn tab_changed(&mut self, tab: TabsEnum)
        ensures
            final(self)@ == (State { active_tab: tab, ..old(self)@ }),
    {
        self.active_tab = tab;
    }
}

/// Whether `t` is `s` prepared: the default network is chosen where none was, and a register of
/// companies is in its place.
pub open spec fn ready(s: State, t: State) -> bool {
    &&& t == State {
        cidr: if s.cidr is None {
            Some(default_network())
        } else {
            s.cidr
        },
        companies: t.companies,
        ..s
    }
    &&& t.companies is Some
}

/// Whether keys go to the input line.
pub open spec fn takes_input(s: State) -> bool {
    s.active_tab == TabsEnum::Discovery && !s.showing_sort_menu && s.mode == Mode::Input
}

/// What is known of a key event in an input line: characters are typed, the backspace key and the delete
/// key erase, the arrow keys, the home key and the end key move the cursor, and the keys that do not
/// edit leave the line alone.
pub open spec fn edits_line(line: Line, key: KeyStroke) -> bool {
    let after = crate::input::edited(line, key);
    &&& after.wf()
    &&& crate::input::typed(key) matches Some(c) ==> after == crate::input::typed_into(line, c)
    &&& crate::input::erases(key) ==> after == crate::input::erased(line)
    &&& crate::input::moves(key) ==> after == crate::input::moved(line, key.key)
    &&& crate::input::inert(key) ==> after == line
}

/// What is known of `text` as a network: an address and a length are read as the network that they
/// denote, if they denote one, an address alone is read as the network of that address, and neither
/// the empty text nor one with a character that stands in no notation is read as any.
pub open spec fn reads_as_network(text: Seq<char>) -> bool {
    let parsed = crate::ipv4::cidr_parsed(text);
    &&& parsed matches Some(network) ==> network.wf()
    &&& forall|address: u32, length: nat|
        text == #[trigger] crate::ipv4::cidr_text(address, length) ==> parsed
            == crate::ipv4::network_at(address, length)
    &&& forall|address: u32|
        text == #[trigger] crate::ipv4::ipv4_text(address) ==> parsed == Some(
            Cidr { first: address, length: 32 },
        )
    &&& parsed is Some ==> text.len() > 0 && forall|i: int|
        0 <= i < text.len() ==> crate::ipv4::in_cidr_text(#[trigger] text[i])
}

/// Changing a row without changing its address keeps the addresses.
proof fn lemma_changed_keeps_ips(rows: Seq<Row>, ip: Seq<char>, changed: spec_fn(Row) -> Row)
    requires
        forall|r: Row| (#[trigger] changed(r)).ip == r.ip,
    ensures
        with_changed(rows, ip, changed).len() == rows.len(),
        forall|i: int|
            0 <= i < rows.len() ==> (#[trigger] with_changed(rows, ip, changed)[i]).ip
                == rows[i].ip,
        crate::rows::distinct_ips(rows) ==> crate::rows::distinct_ips(
            with_changed(rows, ip, changed),
        ),
{
}

/// The size of a network that shares at least two leading bits fits in 31 bits.
proof fn lemma_goal(network: Cidr)
    requires
        network.wf(),
        network.length >= 2,
    ensures
        network.size() <= i32::MAX,
{
    vstd::arithmetic::power2::lemma2_to64();
    if network.length > 2 {
        vstd::arithmetic::power2::lemma_pow2_strictly_increases((32 - network.length) as nat, 30);
    }
}

/// What is held by the tab at all times: no address is listed twice, the count is a number of 32 bits, the
/// cursor is in the input line, a chosen network has at most 32 bits and zeros behind them, and the
/// spinner and the sort menu are at one of their pictures and entries.
pub proof fn law_invariant(s: State)
    ensures
        s.wf() <==> {
            &&& forall|i: int, j: int|
                0 <= i < j < s.rows.len() ==> (#[trigger] s.rows[i]).ip != (#[trigger] s.rows[j]).ip
            &&& 0 <= s.ip_num <= 0x7fff_ffff
            &&& s.input.cursor <= s.input.value.len()
            &&& s.cidr matches Some(network) ==> network.length <= 32 && network.first as int % (
            vstd::arithmetic::power2::pow2((32 - network.length) as nat) as int) == 0
            &&& s.spinner_index < 6
            &&& s.sort_selected_idx < 4
        },
{
}

/// What an input line is read as: an address and a length as the network that they denote, if they denote
/// one, an address alone as the network of that address, and neither the empty text nor one with another
/// character than digits, full stops, slashes and plus signs as any.
pub proof fn law_input_as_network(text: Seq<char>, address: u32, length: nat, i: int)
    requires
        reads_as_network(text),
    ensures
        text == crate::ipv4::ipv4_text(address) + seq!['/'] + crate::text::decimal(length) ==> (
        crate::ipv4::cidr_parsed(text) == (if length <= 32 && address as int % (
        vstd::arithmetic::power2::pow2((32 - length) as nat) as int) == 0 {
            Some(Cidr { first: address, length: length as u8 })
        } else {
            None
        })),
        text == crate::ipv4::ipv4_text(address) ==> crate::ipv4::cidr_parsed(text) == Some(
            Cidr { first: address, length: 32 },
        ),
        text.len() == 0 ==> crate::ipv4::cidr_parsed(text) is None,
        0 <= i < text.len() && !('0' <= text[i] <= '9') && text[i] != '.' && text[i] != '/' && text[i]
            != '+' ==> crate::ipv4::cidr_parsed(text) is None,
{
    crate::ipv4::law_network_notation(address, length);
}

/// What is known of an edited line is what the keys do to it.
pub proof fn law_edited_line(line: Line, key: KeyStroke)
    requires
        edits_line(line, key),
    ensures
        ({
            let (value, cursor) = crate::input::tui_edited(line.value, line.cursor, key);
            let after = Line { value, cursor };
            &&& cursor <= value.len()
            &&& crate::input::typed(key) matches Some(c) ==> after == crate::input::typed_into(line, c)
            &&& crate::input::erases(key) ==> after == crate::input::erased(line)
            &&& crate::input::moves(key) ==> after == crate::input::moved(line, key.key)
            &&& crate::input::inert(key) ==> after == line
        }),
{
}

/// Keys go to the input line in the input mode, while the tab is shown and the sort menu is closed; the
/// rows are sorted by a request to sort, by names, and by the answer of a host that was not listed.
pub proof fn law_when_keys_and_messages_act(s: State, m: Message, ip: Seq<char>)
    ensures
        takes_input(s) <==> s.active_tab == TabsEnum::Discovery && !s.showing_sort_menu && s.mode
            == Mode::Input,
        m is SortBy || m is IpResolved ==> sorts(s, m),
        !crate::rows::listed(s.rows, ip) ==> sorts(s, Message::PingIpResponded(ip)),
        crate::rows::listed(s.rows, ip) <==> exists|i: int|
            0 <= i < s.rows.len() && (#[trigger] s.rows[i]).ip == ip,
{
}

} // verus!
