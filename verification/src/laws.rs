//! What holds of the discovery tab as a whole.
use crate::action::{
    Action, ArpPacketData, Effect, Interface, InterfaceIp, Message, Mode, Request, SortColumn, TabsEnum,
};
use crate::discovery::State;
use crate::input::{Key, KeyStroke};
use crate::ipv4::Cidr;
use crate::rows::Row;
use vstd::prelude::*;

verus! {

/// A host that answers is listed, once, and no other host is listed on that account. That it answers
/// again changes nothing.
pub proof fn law_host_is_listed_once(s: State, ip: Seq<char>)
    requires
        s.wf(),
    ensures
        ({
            let t = crate::discovery::updated(s, Message::PingIpResponded(ip)).0;
            &&& crate::rows::distinct_ips(t.rows)
            &&& forall|other: Seq<char>|
                #[trigger] crate::rows::listed(t.rows, other) == (crate::rows::listed(s.rows, other)
                    || other == ip)
            &&& crate::discovery::updated(t, Message::PingIpResponded(ip)).0 == t
        }),
{
    let t = crate::discovery::updated(s, Message::PingIpResponded(ip)).0;
    if !crate::rows::listed(s.rows, ip) {
        let pushed = s.rows.push(crate::rows::placeholder(ip));
        assert forall|i: int, j: int| 0 <= i < j < pushed.len() implies (#[trigger] pushed[i]).ip
            != (#[trigger] pushed[j]).ip by {
            if j == s.rows.len() {
                assert(s.rows[i].ip != ip);
            }
        }
        crate::rows::law_sort_keeps_ips(pushed, s.sort_column);
        assert forall|other: Seq<char>|
            #[trigger] crate::rows::listed(t.rows, other) == (crate::rows::listed(s.rows, other)
                || other == ip) by {
            assert(crate::rows::listed(t.rows, other) == crate::rows::listed(pushed, other));
            if crate::rows::listed(s.rows, other) {
                let i = choose|i: int| 0 <= i < s.rows.len() && (#[trigger] s.rows[i]).ip == other;
                assert(pushed[i].ip == other);
            }
            if other == ip {
                assert(pushed[s.rows.len() as int].ip == ip);
            }
            if crate::rows::listed(pushed, other) && other != ip {
                let i = choose|i: int| 0 <= i < pushed.len() && (#[trigger] pushed[i]).ip == other;
                assert(s.rows[i].ip == other);
            }
        }
        assert(crate::rows::listed(t.rows, ip));
    }
}

/// What changing the rows with one address does to the addresses: nothing.
proof fn lemma_changed_lists_the_same(rows: Seq<Row>, ip: Seq<char>, changed: spec_fn(Row) -> Row)
    requires
        forall|r: Row| (#[trigger] changed(r)).ip == r.ip,
    ensures
        forall|other: Seq<char>|
            #[trigger] crate::rows::listed(
                crate::discovery::with_changed(rows, ip, changed),
                other,
            ) == crate::rows::listed(rows, other),
        crate::rows::distinct_ips(rows) ==> crate::rows::distinct_ips(
            crate::discovery::with_changed(rows, ip, changed),
        ),
{
    let after = crate::discovery::with_changed(rows, ip, changed);
    assert forall|i: int| 0 <= i < after.len() implies (#[trigger] after[i]).ip == rows[i].ip by {
    }
    assert forall|other: Seq<char>|
        #[trigger] crate::rows::listed(after, other) == crate::rows::listed(rows, other) by {
        if crate::rows::listed(rows, other) {
            let i = choose|i: int| 0 <= i < rows.len() && (#[trigger] rows[i]).ip == other;
            assert(after[i].ip == other);
        }
        if crate::rows::listed(after, other) {
            let i = choose|i: int| 0 <= i < after.len() && (#[trigger] after[i]).ip == other;
            assert(rows[i].ip == other);
        }
    }
}

/// A host that is listed stays listed until a scan is started.
pub proof fn law_hosts_stay_listed(s: State, m: Message, ip: Seq<char>)
    requires
        s.wf(),
        crate::rows::listed(s.rows, ip),
        !(m is ScanCidr && crate::discovery::may_scan(s)),
    ensures
        crate::rows::listed(crate::discovery::updated(s, m).0.rows, ip),
{
    match m {
        Message::PingIpResponded(other) => {
            law_host_is_listed_once(s, other);
        },
        Message::ArpRecieve(data) => {
            lemma_changed_lists_the_same(
                s.rows,
                crate::ipv4::ipv4_text(data.sender_ip),
                |r: Row|
                    crate::discovery::with_mac(
                        r,
                        crate::vendor::mac_text(data.sender_mac),
                        s.companies,
                    ),
            );
        },
        Message::IpResolved { ip: other, hostname, mac } => {
            let changed = |r: Row| crate::discovery::with_names(r, hostname, mac, s.companies);
            lemma_changed_lists_the_same(s.rows, other, changed);
            crate::rows::law_sort_keeps_ips(
                crate::discovery::with_changed(s.rows, other, changed),
                s.sort_column,
            );
        },
        Message::SortBy(column) => {
            crate::rows::law_sort_keeps_ips(s.rows, column);
        },
        _ => {},
    }
}

/// No host is ever listed twice. Only the answer of a host lists it, and only a scan that is asked for
/// takes a host off the list.
pub proof fn law_only_an_answer_lists_a_host(s: State, m: Message, ip: Seq<char>)
    requires
        s.wf(),
    ensures
        ({
            let t = crate::discovery::updated(s, m).0;
            &&& crate::rows::distinct_ips(t.rows)
            &&& !crate::rows::listed(s.rows, ip) && crate::rows::listed(t.rows, ip) ==> m
                == Message::PingIpResponded(ip)
            &&& crate::rows::listed(s.rows, ip) && !crate::rows::listed(t.rows, ip) ==> m is ScanCidr
        }),
{
    if crate::rows::listed(s.rows, ip) && !(m is ScanCidr) {
        law_hosts_stay_listed(s, m, ip);
    }
    match m {
        Message::PingIpResponded(other) => {
            law_host_is_listed_once(s, other);
        },
        Message::ArpRecieve(data) => {
            lemma_changed_lists_the_same(
                s.rows,
                crate::ipv4::ipv4_text(data.sender_ip),
                |r: Row|
                    crate::discovery::with_mac(
                        r,
                        crate::vendor::mac_text(data.sender_mac),
                        s.companies,
                    ),
            );
        },
        Message::IpResolved { ip: other, hostname, mac } => {
            let changed = |r: Row| crate::discovery::with_names(r, hostname, mac, s.companies);
            lemma_changed_lists_the_same(s.rows, other, changed);
            crate::rows::law_sort_keeps_ips(
                crate::discovery::with_changed(s.rows, other, changed),
                s.sort_column,
            );
        },
        Message::SortBy(column) => {
            crate::rows::law_sort_keeps_ips(s.rows, column);
        },
        _ => {},
    }
}

/// A host that was not listed joins the hosts that were, each of which is kept as it was, and all of
/// them stand in the order of the chosen column. A host that was listed is kept as it was.
pub proof fn law_new_host_keeps_the_others(s: State, ip: Seq<char>)
    requires
        s.wf(),
    ensures
        ({
            let t = crate::discovery::updated(s, Message::PingIpResponded(ip)).0;
            if crate::rows::listed(s.rows, ip) {
                t == s
            } else {
                &&& t.rows.to_multiset() == s.rows.to_multiset().insert(
                    crate::rows::placeholder(ip),
                )
                &&& crate::rows::in_column_order(t.rows, s.sort_column)
                &&& t.rows.len() == s.rows.len() + 1
                &&& t == State { rows: t.rows, scroll_length: s.rows.len(), ..s }
            }
        }),
{
    broadcast use vstd::seq_lib::group_to_multiset_ensures;

    let pushed = s.rows.push(crate::rows::placeholder(ip));
    crate::rows::law_sort_is_stable(pushed, s.sort_column);
    crate::rows::law_sort_keeps_ips(pushed, s.sort_column);
}

/// Names that were looked up reach the host that they belong to and no other. A hardware address
/// that was known, with its vendor, is kept, and a name that was not found erases none.
pub proof fn law_names_keep_what_is_known(
    s: State,
    r: Row,
    ip: Seq<char>,
    hostname: Seq<char>,
    mac: Seq<char>,
)
    requires
        s.wf(),
        s.rows.contains(r),
    ensures
        ({
            let t = crate::discovery::updated(s, Message::IpResolved { ip, hostname, mac }).0;
            let after = if r.ip == ip {
                crate::discovery::with_names(r, hostname, mac, s.companies)
            } else {
                r
            };
            &&& t.rows.contains(after)
            &&& after.ip == r.ip
            &&& r.mac.len() > 0 ==> after.mac == r.mac && after.vendor == r.vendor
            &&& hostname.len() == 0 ==> after.hostname == r.hostname
        }),
{
    broadcast use vstd::seq_lib::group_to_multiset_ensures;

    let changed = |x: Row| crate::discovery::with_names(x, hostname, mac, s.companies);
    let rows = crate::discovery::with_changed(s.rows, ip, changed);
    let t = crate::discovery::updated(s, Message::IpResolved { ip, hostname, mac }).0;
    let i = choose|i: int| 0 <= i < s.rows.len() && s.rows[i] == r;
    crate::rows::law_sort_is_stable(rows, s.sort_column);
    assert(rows.contains(rows[i]));
    assert(rows.to_multiset().count(rows[i]) > 0);
    assert(t.rows.to_multiset().count(rows[i]) > 0);
}

/// After the table was told how to sort, after names were found, and after a new host answered, the
/// hosts stand in the order of the chosen column.
pub proof fn law_table_is_sorted(s: State, m: Message)
    requires
        s.wf(),
        crate::discovery::sorts(s, m),
    ensures
        ({
            let t = crate::discovery::updated(s, m).0;
            crate::rows::in_column_order(t.rows, t.sort_column)
        }),
{
    match m {
        Message::SortBy(column) => {
            crate::rows::law_sort_is_stable(s.rows, column);
        },
        Message::IpResolved { ip, hostname, mac } => {
            let changed = |x: Row| crate::discovery::with_names(x, hostname, mac, s.companies);
            crate::rows::law_sort_is_stable(
                crate::discovery::with_changed(s.rows, ip, changed),
                s.sort_column,
            );
        },
        Message::PingIpResponded(ip) => {
            crate::rows::law_sort_is_stable(
                s.rows.push(crate::rows::placeholder(ip)),
                s.sort_column,
            );
        },
        _ => {},
    }
}

/// `s` after `n` addresses were counted.
pub open spec fn after_counts(s: State, n: nat) -> State
    decreases n,
{
    if n == 0 {
        s
    } else {
        crate::discovery::updated(after_counts(s, (n - 1) as nat), Message::CountIp).0
    }
}

/// A scan of a network of at most 2^30 addresses runs until as many addresses are counted as the
/// network has, and no longer.
pub proof fn law_scan_ends_with_the_last_ip(s: State, network: Cidr, n: nat)
    requires
        s.wf(),
        s.cidr == Some(network),
        network.length >= 2,
        n <= network.size(),
    ensures
        ({
            let (started, asked) = crate::discovery::scan_started(s);
            let t = after_counts(started, n);
            &&& asked == seq![
                Request::StartScan { network, pool_size: crate::discovery::POOL_SIZE },
            ]
            &&& t.ip_num == n
            &&& t.cidr == s.cidr
            &&& t.is_scanning == (n < network.size())
        }),
    decreases n,
{
    let started = crate::discovery::scan_started(s).0;
    crate::ipv4::lemma_addresses_consecutive(network);
    if n > 0 {
        law_scan_ends_with_the_last_ip(s, network, (n - 1) as nat);
    }
}

/// A scan of a network of at most 2^30 addresses has as many addresses to ping as it has to count, and
/// pings none of them twice.
pub proof fn law_scan_covers_the_network(network: Cidr)
    requires
        network.wf(),
        network.length >= 2,
    ensures
        ({
            let queue = crate::scanner::notations(network.addresses());
            &&& queue.len() == crate::discovery::goal(Some(network))
            &&& queue.no_duplicates()
        }),
{
    let queue = crate::scanner::notations(network.addresses());
    crate::ipv4::lemma_addresses_consecutive(network);
    assert forall|i: int, j: int| 0 <= i < queue.len() && 0 <= j < queue.len() && i != j implies queue[i]
        != queue[j] by {
        crate::ipv4::lemma_ipv4_text_injective(network.addresses()[i], network.addresses()[j]);
    }
}

/// A scan is started by the scan message and by nothing else that arrives as a message.
pub proof fn law_only_scan_starts_a_scan(s: State, m: Message)
    requires
        !s.is_scanning,
        crate::discovery::updated(s, m).0.is_scanning,
    ensures
        m is ScanCidr,
        crate::discovery::may_scan(s),
        s.cidr is Some,
{
}

/// A scan that is stopped, or that is complete, no longer runs; a stop is passed on to the scanner.
pub proof fn law_scan_can_be_stopped(s: State)
    ensures
        crate::discovery::updated(s, Message::StopScan) == (
            State { is_scanning: false, ..s },
            seq![Request::StopScan],
        ),
        crate::discovery::updated(s, Message::ScanComplete) == (
            State { is_scanning: false, ..s },
            Seq::<Request>::empty(),
        ),
{
}

/// A scan that runs is ended by a count, by its completion or by a stop and by nothing else that
/// arrives as a message, and a stop alone is passed on to the scanner.
pub proof fn law_what_ends_a_scan(s: State, m: Message)
    ensures
        ({
            let (t, asked) = crate::discovery::updated(s, m);
            &&& s.is_scanning && !t.is_scanning ==> m is CountIp || m is ScanComplete || m is StopScan
            &&& asked.contains(Request::StopScan) <==> m is StopScan
        }),
{
    let asked = crate::discovery::updated(s, m).1;
    if m is StopScan {
        assert(asked[0] == Request::StopScan);
    }
}

/// While another tab is shown, the selection, the mode and a scan cannot be asked for: nothing changes
/// and nothing is sent. What a scan reports, captured packets, a stop and sorting act on the hosts, the
/// count and the scan as they do in this tab.
pub proof fn law_other_tabs_leave_the_scan_alone(s: State, m: Message)
    requires
        s.active_tab != TabsEnum::Discovery,
    ensures
        m is Up || m is Down || m is ModeChange || m is ScanCidr ==> crate::discovery::updated(s, m)
            == (s, Seq::<Request>::empty()),
        m is PingIpResponded || m is IpResolved || m is ArpRecieve || m is CountIp || m is ScanComplete
            || m is StopScan || m is SortBy ==> {
            let (t, asked) = crate::discovery::updated(s, m);
            crate::discovery::updated(State { active_tab: TabsEnum::Discovery, ..s }, m) == (
                State { active_tab: TabsEnum::Discovery, ..t },
                asked,
            )
        },
{
}

/// While a scan runs the input mode is refused: nothing changes, and the normal mode is asked for.
pub proof fn law_no_input_during_a_scan(s: State)
    requires
        s.is_scanning,
        s.active_tab == TabsEnum::Discovery,
    ensures
        crate::discovery::updated(s, Message::ModeChange(Mode::Input)) == (
            s,
            seq![Request::Send(Message::ModeChange(Mode::Normal))],
        ),
{
}

/// The message that an input line is no network is shown once an error was reported, and stays until
/// the input mode is entered.
pub proof fn law_error_stays_until_the_input_mode(s: State, m: Message)
    ensures
        crate::discovery::updated(s, Message::CidrError).0.cidr_error,
        s.cidr_error && m != Message::ModeChange(Mode::Input) ==> crate::discovery::updated(
            s,
            m,
        ).0.cidr_error,
        s.active_tab == TabsEnum::Discovery && !s.is_scanning ==> !crate::discovery::updated(
            s,
            Message::ModeChange(Mode::Input),
        ).0.cidr_error,
{
}

/// The first interface with a private address chooses the network around that address, without an
/// error, and puts its notation in the input line. Later interfaces choose none.
pub proof fn law_first_interface_chooses_the_network(
    s: State,
    ips: Seq<InterfaceIp>,
    later: Seq<InterfaceIp>,
    a: u32,
)
    requires
        s.wf(),
        s.active_interface is None,
        crate::discovery::first_private(ips) == Some(a),
    ensures
        ({
            let (t, asked) = crate::discovery::updated(s, Message::ActiveInterface(ips));
            let u = crate::discovery::updated(t, Message::ActiveInterface(later)).0;
            &&& t.cidr == Some(crate::ipv4::subnet_of(a))
            &&& t.input.value == crate::ipv4::subnet_of(a).text()
            &&& t.cidr->0.addresses().contains(a)
            &&& asked.len() == 0
            &&& u.cidr == t.cidr
            &&& u.input == t.input
        }),
{
    crate::ipv4::lemma_subnet_of(a);
}

/// Going down and then up, or up and then down, leads back to the row that was selected, with the
/// scrollbar at that row and the table as it was.
pub proof fn law_up_undoes_down(s: State, i: nat)
    requires
        s.wf(),
        s.active_tab == TabsEnum::Discovery,
        s.selected == Some(i),
        i < s.rows.len(),
    ensures
        ({
            let down = crate::discovery::updated(s, Message::Down).0;
            let up = crate::discovery::updated(s, Message::Up).0;
            let back = State { scroll_position: i, ..s };
            &&& crate::discovery::updated(down, Message::Up).0 == back
            &&& crate::discovery::updated(up, Message::Down).0 == back
        }),
{
}

/// While a host is listed, going up or down selects the row of a host and moves the scrollbar to it,
/// wherever the selection was before, as long as it was not past the last row. Nothing else changes.
pub proof fn law_selection_stays_in_the_table(s: State, m: Message)
    requires
        s.wf(),
        s.active_tab == TabsEnum::Discovery,
        s.rows.len() > 0,
        s.selected matches Some(i) ==> i < s.rows.len(),
        m is Up || m is Down,
    ensures
        ({
            let t = crate::discovery::updated(s, m).0;
            &&& t.selected matches Some(i) && i < s.rows.len() && t.scroll_position == i
            &&& t == State { selected: t.selected, scroll_position: t.scroll_position, ..s }
        }),
{
}

/// `s` after `n` ticks.
pub open spec fn after_ticks(s: State, n: nat) -> State
    decreases n,
{
    if n == 0 {
        s
    } else {
        crate::discovery::updated(after_ticks(s, (n - 1) as nat), Message::Tick).0
    }
}

/// While a scan runs every tick shows the spinner's next picture, the first after the last, and
/// changes nothing else; without a scan a tick changes nothing.
pub proof fn law_spinner_turns(s: State, n: nat)
    requires
        s.wf(),
    ensures
        after_ticks(s, n) == if s.is_scanning {
            State {
                spinner_index: (s.spinner_index + n) % 6,
                ..s
            }
        } else {
            s
        },
    decreases n,
{
    if n > 0 {
        law_spinner_turns(s, (n - 1) as nat);
        lemma_picture((s.spinner_index + n - 1) as nat);
    }
}

/// The spinner's next picture, by the number of turns.
proof fn lemma_picture(k: nat)
    ensures
        k % 6 < 6,
        crate::discovery::next_picture(k % 6) == (k + 1) % 6,
{
}

/// Keys are ignored while another tab is shown.
pub proof fn law_other_tabs_keep_their_keys(s: State, key: KeyStroke, parsed: Option<Cidr>)
    requires
        s.active_tab != TabsEnum::Discovery,
    ensures
        crate::discovery::key_handled(s, key, parsed) == (s, None::<Message>, Seq::<Request>::empty()),
{
}

/// While the sort menu is open every key is answered, and none has an effect outside the menu.
pub proof fn law_menu_takes_every_key(s: State, key: KeyStroke, parsed: Option<Cidr>)
    requires
        s.wf(),
        s.active_tab == TabsEnum::Discovery,
        s.showing_sort_menu,
    ensures
        ({
            let (t, answer, asked) = crate::discovery::key_handled(s, key, parsed);
            &&& answer is Some
            &&& asked.len() == 0
            &&& t == State {
                sort_column: t.sort_column,
                showing_sort_menu: t.showing_sort_menu,
                sort_selected_idx: t.sort_selected_idx,
                ..s
            }
        }),
{
}

/// The key that opens the sort menu, then the key that chooses an entry: the chosen column stays as
/// it was. The menu opens only while no scan runs.
pub proof fn law_menu_opens_at_the_chosen_column(
    s: State,
    o: KeyStroke,
    enter: KeyStroke,
    parsed: Option<Cidr>,
)
    requires
        s.wf(),
        s.active_tab == TabsEnum::Discovery,
        s.mode == Mode::Normal,
        !s.showing_sort_menu,
        o.key == Key::Char('o'),
        enter.key == Key::Enter,
    ensures
        ({
            let (t, answer, _) = crate::discovery::key_handled(s, o, parsed);
            let (u, chosen, _) = crate::discovery::key_handled(t, enter, parsed);
            if s.is_scanning {
                t == s && answer is None
            } else {
                &&& t.showing_sort_menu
                &&& chosen == Some(Message::SortBy(s.sort_column))
                &&& u.sort_column == s.sort_column
                &&& !u.showing_sort_menu
            }
        }),
{
}

/// While no scan runs, in the normal mode, the key `o` opens the sort menu where it is closed and closes
/// it where it is open, and is answered with a redrawing.
pub proof fn law_o_toggles_the_menu(s: State, o: KeyStroke, parsed: Option<Cidr>)
    requires
        s.active_tab == TabsEnum::Discovery,
        s.mode == Mode::Normal,
        !s.is_scanning,
        o.key == Key::Char('o'),
    ensures
        ({
            let (t, answer, asked) = crate::discovery::key_handled(s, o, parsed);
            &&& t.showing_sort_menu == !s.showing_sort_menu
            &&& t.sort_column == s.sort_column
            &&& answer == Some(Message::Refresh)
            &&& asked.len() == 0
            &&& s.showing_sort_menu ==> t == State { showing_sort_menu: false, ..s }
        }),
{
}

/// Every column has an entry in the sort menu, and every entry a column.
pub proof fn law_menu_entries(column: SortColumn, entry: nat)
    requires
        entry <= crate::discovery::LAST_MENU_ENTRY,
    ensures
        crate::discovery::menu_column(crate::discovery::menu_entry(column)) == column,
        crate::discovery::menu_entry(crate::discovery::menu_column(entry)) == entry,
        crate::discovery::menu_entry(column) <= crate::discovery::LAST_MENU_ENTRY,
{
}

/// In the normal mode the key `k` stops a scan that runs, and is left to the other components
/// otherwise.
pub proof fn law_k_stops_a_scan(s: State, k: KeyStroke, parsed: Option<Cidr>)
    requires
        s.active_tab == TabsEnum::Discovery,
        s.mode == Mode::Normal,
        !s.showing_sort_menu,
        k.key == Key::Char('k'),
    ensures
        crate::discovery::key_handled(s, k, parsed) == (
            s,
            if s.is_scanning {
                Some(Message::StopScan)
            } else {
                None
            },
            Seq::<Request>::empty(),
        ),
{
}

/// In the input mode the enter key leaves the mode whatever the input line holds. A network is
/// scanned, and anything else is reported as an error and leaves everything as it was.
pub proof fn law_enter_submits_the_input(s: State, enter: KeyStroke, parsed: Option<Cidr>)
    requires
        s.wf(),
        crate::discovery::takes_input(s),
        s.connected,
        enter.key == Key::Enter,
    ensures
        ({
            let (t, answer, asked) = crate::discovery::key_handled(s, enter, parsed);
            &&& answer == Some(Message::ModeChange(Mode::Normal))
            &&& match parsed {
                Some(network) => {
                    &&& t.cidr == Some(network)
                    &&& t.is_scanning
                    &&& t.rows.len() == 0
                    &&& t.ip_num == 0
                    &&& asked == seq![
                        Request::StartScan { network, pool_size: crate::discovery::POOL_SIZE },
                    ]
                },
                None => t == s && asked == seq![Request::Send(Message::CidrError)],
            }
        }),
{
}

/// In the input mode the escape key is left to the other components.
pub proof fn law_escape_is_passed_on(s: State, esc: KeyStroke, parsed: Option<Cidr>)
    requires
        crate::discovery::takes_input(s),
        esc.key == Key::Esc,
    ensures
        crate::discovery::key_handled(s, esc, parsed) == (
            s,
            None::<Message>,
            Seq::<Request>::empty(),
        ),
{
}

/// The vendor of a host that has the hardware address `mac`, where its vendor was `known` before: that of
/// the register of companies, if it has one.
pub open spec fn vendor_by(
    companies: Option<Map<Seq<char>, Seq<char>>>,
    mac: Seq<char>,
    known: Seq<char>,
) -> Seq<char> {
    if companies is Some && companies->0.contains_key(mac) {
        companies->0[mac]
    } else {
        known
    }
}

/// When the names of a listed host were looked up, its row has the name that was found, whatever was
/// known of the host before; the hardware address that was found, where none was known; and with it the
/// vendor. A name or a hardware address that was not found changes nothing. All other rows are kept as
/// they are, and so is everything but the order of the rows and the length of the scrollbar.
pub proof fn law_names_are_filled_in(s: State, i: int, hostname: Seq<char>, mac: Seq<char>)
    requires
        s.wf(),
        0 <= i < s.rows.len(),
    ensures
        ({
            let old_row = s.rows[i];
            let ip = old_row.ip;
            let new_row = Row {
                ip,
                hostname: if hostname.len() > 0 {
                    hostname
                } else {
                    old_row.hostname
                },
                mac: if old_row.mac.len() > 0 {
                    old_row.mac
                } else {
                    mac
                },
                vendor: if old_row.mac.len() > 0 || mac.len() == 0 {
                    old_row.vendor
                } else {
                    vendor_by(s.companies, mac, old_row.vendor)
                },
            };
            let (t, asked) = crate::discovery::updated(s, Message::IpResolved { ip, hostname, mac });
            &&& t.rows.contains(new_row)
            &&& t.rows.to_multiset() == s.rows.update(i, new_row).to_multiset()
            &&& t == State { rows: t.rows, scroll_length: (s.rows.len() - 1) as nat, ..s }
            &&& asked.len() == 0
        }),
{
    broadcast use vstd::seq_lib::group_to_multiset_ensures;

    let old_row = s.rows[i];
    let ip = old_row.ip;
    let changed = |r: Row| crate::discovery::with_names(r, hostname, mac, s.companies);
    let new_row = changed(old_row);
    let after = crate::discovery::with_changed(s.rows, ip, changed);
    assert(after =~= s.rows.update(i, new_row)) by {
        assert forall|k: int| 0 <= k < s.rows.len() && k != i implies s.rows[k].ip != ip by {
            if k < i {
                assert(s.rows[k].ip != s.rows[i].ip);
            } else {
                assert(s.rows[i].ip != s.rows[k].ip);
            }
        }
    }
    crate::rows::law_sort_is_stable(after, s.sort_column);
    crate::rows::law_sort_keeps_ips(after, s.sort_column);
    let t = crate::discovery::updated(s, Message::IpResolved { ip, hostname, mac }).0;
    assert(after[i] == new_row);
    assert(after.contains(new_row));
    assert(t.rows.to_multiset().count(new_row) > 0);
    if old_row.mac.len() == 0 && mac.len() == 0 {
        assert(old_row.mac =~= mac);
    }
}

/// When names of a host arrive that is not listed, the rows are kept as they are but for their order.
pub proof fn law_names_of_an_unlisted_host(
    s: State,
    ip: Seq<char>,
    hostname: Seq<char>,
    mac: Seq<char>,
)
    requires
        s.wf(),
        forall|i: int| 0 <= i < s.rows.len() ==> (#[trigger] s.rows[i]).ip != ip,
    ensures
        ({
            let (t, asked) = crate::discovery::updated(s, Message::IpResolved { ip, hostname, mac });
            &&& t.rows.to_multiset() == s.rows.to_multiset()
            &&& t == State {
                rows: t.rows,
                scroll_length: if s.rows.len() == 0 {
                    0
                } else {
                    (s.rows.len() - 1) as nat
                },
                ..s
            }
            &&& asked.len() == 0
        }),
{
    let changed = |r: Row| crate::discovery::with_names(r, hostname, mac, s.companies);
    let after = crate::discovery::with_changed(s.rows, ip, changed);
    assert(after =~= s.rows);
    crate::rows::law_sort_is_stable(after, s.sort_column);
    crate::rows::law_sort_keeps_ips(after, s.sort_column);
}

/// When an ARP packet of a listed host is captured, its row has the packet's hardware address and the
/// vendor of that, in the same place of the table, and nothing else changes. Where the sender is not
/// listed, nothing changes.
pub proof fn law_captured_packets(s: State, data: ArpPacketData, i: int)
    requires
        s.wf(),
        0 <= i < s.rows.len(),
    ensures
        ({
            let mac = crate::vendor::mac_text(data.sender_mac);
            let ip = crate::ipv4::ipv4_text(data.sender_ip);
            let (t, asked) = crate::discovery::updated(s, Message::ArpRecieve(data));
            let new_row = Row {
                ip,
                mac,
                hostname: s.rows[i].hostname,
                vendor: vendor_by(s.companies, mac, s.rows[i].vendor),
            };
            &&& s.rows[i].ip == ip ==> t == State { rows: s.rows.update(i, new_row), ..s }
            &&& s.rows[i].ip != ip ==> t.rows.len() == s.rows.len() && t.rows[i] == s.rows[i]
            &&& t == State { rows: t.rows, ..s }
            &&& asked.len() == 0
        }),
{
    let mac = crate::vendor::mac_text(data.sender_mac);
    let ip = crate::ipv4::ipv4_text(data.sender_ip);
    let t = crate::discovery::updated(s, Message::ArpRecieve(data)).0;
    if s.rows[i].ip == ip {
        let new_row = Row {
            ip,
            mac,
            hostname: s.rows[i].hostname,
            vendor: vendor_by(s.companies, mac, s.rows[i].vendor),
        };
        assert forall|k: int| 0 <= k < s.rows.len() && k != i implies s.rows[k].ip != ip by {
            if k < i {
                assert(s.rows[k].ip != s.rows[i].ip);
            } else {
                assert(s.rows[i].ip != s.rows[k].ip);
            }
        }
        assert(t.rows =~= s.rows.update(i, new_row));
    }
}

/// A captured packet lists no host and takes none away, and changes nothing but the rows.
pub proof fn law_packets_keep_the_table(s: State, data: ArpPacketData)
    ensures
        ({
            let (t, asked) = crate::discovery::updated(s, Message::ArpRecieve(data));
            &&& t.rows.len() == s.rows.len()
            &&& t == State { rows: t.rows, ..s }
            &&& asked.len() == 0
        }),
{
}

/// The answer of a host that is listed changes nothing.
pub proof fn law_answers_of_listed_hosts(s: State, i: int)
    requires
        0 <= i < s.rows.len(),
    ensures
        crate::discovery::updated(s, Message::PingIpResponded(s.rows[i].ip)) == (
            s,
            Seq::<Request>::empty(),
        ),
{
}

/// A host that answers and is not listed joins the table with its address alone; the rows that were there
/// are kept, and so is everything but the order of the rows and the length of the scrollbar.
pub proof fn law_answers_are_listed(s: State, ip: Seq<char>)
    requires
        s.wf(),
        forall|i: int| 0 <= i < s.rows.len() ==> (#[trigger] s.rows[i]).ip != ip,
    ensures
        ({
            let empty = Seq::<char>::empty();
            let new_row = Row { ip, mac: empty, hostname: empty, vendor: empty };
            let (t, asked) = crate::discovery::updated(s, Message::PingIpResponded(ip));
            &&& t.rows.to_multiset() == s.rows.to_multiset().insert(new_row)
            &&& t == State { rows: t.rows, scroll_length: s.rows.len(), ..s }
            &&& asked.len() == 0
        }),
{
    law_new_host_keeps_the_others(s, ip);
}

/// The table is sorted by the column that is asked for: the rows are the same, and nothing else changes.
pub proof fn law_sorting_changes_only_the_order(s: State, column: SortColumn)
    requires
        s.wf(),
    ensures
        ({
            let (t, asked) = crate::discovery::updated(s, Message::SortBy(column));
            &&& t.rows == crate::rows::sorted_rows(s.rows, column)
            &&& t.rows.to_multiset() == s.rows.to_multiset()
            &&& t == State {
                rows: t.rows,
                sort_column: column,
                scroll_length: if s.rows.len() == 0 {
                    0
                } else {
                    (s.rows.len() - 1) as nat
                },
                ..s
            }
            &&& asked.len() == 0
        }),
{
    crate::rows::law_sort_is_stable(s.rows, column);
    crate::rows::law_sort_keeps_ips(s.rows, column);
}

/// Answers and names leave the table sorted by the chosen column.
pub proof fn law_table_stays_sorted(
    s: State,
    ip: Seq<char>,
    hostname: Seq<char>,
    mac: Seq<char>,
)
    requires
        s.wf(),
    ensures
        ({
            let named = crate::discovery::updated(s, Message::IpResolved { ip, hostname, mac }).0;
            let answered = crate::discovery::updated(s, Message::PingIpResponded(ip)).0;
            &&& named.rows == crate::rows::sorted_rows(named.rows, s.sort_column)
            &&& answered == s || answered.rows == crate::rows::sorted_rows(
                answered.rows,
                s.sort_column,
            )
        }),
{
    let changed = |r: Row| crate::discovery::with_names(r, hostname, mac, s.companies);
    crate::rows::law_sort_is_idempotent(
        crate::discovery::with_changed(s.rows, ip, changed),
        s.sort_column,
    );
    crate::rows::law_sort_is_idempotent(
        s.rows.push(crate::rows::placeholder(ip)),
        s.sort_column,
    );
}

/// The tab at the start.
pub proof fn law_at_the_start()
    ensures
        ({
            let s = crate::discovery::initial();
            &&& s.active_tab == TabsEnum::Discovery
            &&& s.active_interface is None && !s.connected
            &&& s.rows.len() == 0 && s.ip_num == 0
            &&& s.input.value == "192.168.1.0/24"@
            &&& s.input.cursor == s.input.value.len()
            &&& s.cidr is None && !s.cidr_error && !s.is_scanning
            &&& s.mode == Mode::Normal
            &&& s.companies is None
            &&& s.selected == Some(0nat)
            &&& s.scroll_length == 0 && s.scroll_position == 0 && s.spinner_index == 0
            &&& s.sort_column == SortColumn::Ip
            &&& !s.showing_sort_menu && s.sort_selected_idx == 0
        }),
{
}

/// What a count, the start, the stop and the end of a scan, an error and a tick do: the count goes up by
/// one, and the scan is over when it reaches the number of the network's addresses as a signed number of
/// 32 bits; a scan that may start lists nothing, counts from 0 and hands the network to 32 workers.
pub proof fn law_scan_messages(s: State)
    ensures
        ({
            let nothing = Seq::<Request>::empty();
            let whole = match s.cidr {
                Some(network) => if network.length >= 2 {
                    vstd::arithmetic::power2::pow2((32 - network.length) as nat) as int
                } else if network.length == 1 {
                    -0x8000_0000
                } else {
                    0
                },
                None => 0,
            };
            &&& crate::discovery::updated(s, Message::CountIp) == (
                State {
                    ip_num: s.ip_num + 1,
                    is_scanning: s.is_scanning && s.ip_num + 1 < whole,
                    ..s
                },
                nothing,
            )
            &&& crate::discovery::updated(s, Message::ScanCidr) == if s.active_interface is None
                || s.is_scanning || s.active_tab != TabsEnum::Discovery {
                (s, nothing)
            } else {
                match s.cidr {
                    Some(network) => (
                        State {
                            rows: Seq::<Row>::empty(),
                            ip_num: 0,
                            is_scanning: true,
                            ..s
                        },
                        seq![Request::StartScan { network, pool_size: 32 }],
                    ),
                    None => (State { rows: Seq::<Row>::empty(), ip_num: 0, ..s }, nothing),
                }
            }
            &&& crate::discovery::updated(s, Message::StopScan) == (
                State { is_scanning: false, ..s },
                seq![Request::StopScan],
            )
            &&& crate::discovery::updated(s, Message::ScanComplete) == (
                State { is_scanning: false, ..s },
                nothing,
            )
            &&& crate::discovery::updated(s, Message::CidrError) == (
                State { cidr_error: true, ..s },
                nothing,
            )
        }),
{
}

/// What the messages about the view do: the arrows move the selection and the scrollbar by one row and go
/// round at the ends, a tick turns the spinner of a scan by one of six pictures, help toggles the sort
/// menu, a tab that is shown is noted, and the messages for others change nothing.
pub proof fn law_view_messages(s: State, tab: TabsEnum, mode: Mode)
    requires
        s.spinner_index < 6,
    ensures
        ({
            let nothing = Seq::<Request>::empty();
            let n = s.rows.len();
            let below = match s.selected {
                Some(i) => if i + 1 < n {
                    i + 1
                } else {
                    0
                },
                None => 0,
            };
            let above = match s.selected {
                Some(i) => if i > 0 {
                    (i - 1) as nat
                } else if n > 0 {
                    (n - 1) as nat
                } else {
                    0
                },
                None => 0,
            };
            let here = s.active_tab == TabsEnum::Discovery;
            &&& crate::discovery::updated(s, Message::Down) == (
                if here {
                    State { selected: Some(below), scroll_position: below, ..s }
                } else {
                    s
                },
                nothing,
            )
            &&& crate::discovery::updated(s, Message::Up) == (
                if here {
                    State { selected: Some(above), scroll_position: above, ..s }
                } else {
                    s
                },
                nothing,
            )
            &&& crate::discovery::updated(s, Message::Tick) == (
                if s.is_scanning {
                    State { spinner_index: (s.spinner_index + 1) % 6, ..s }
                } else {
                    s
                },
                nothing,
            )
            &&& crate::discovery::updated(s, Message::Help) == (
                State { showing_sort_menu: !s.showing_sort_menu, ..s },
                nothing,
            )
            &&& crate::discovery::updated(s, Message::TabChange(tab)) == (
                State { active_tab: tab, ..s },
                nothing,
            )
            &&& crate::discovery::updated(s, Message::Refresh) == (s, nothing)
            &&& crate::discovery::updated(s, Message::Tab) == (s, nothing)
            &&& crate::discovery::updated(s, Message::Other) == (s, nothing)
            &&& crate::discovery::updated(s, Message::AppModeChange(mode)) == (s, nothing)
        }),
{
}

/// A change of mode is carried out and announced; entering the input mode takes the error away. While a
/// scan runs the input mode is refused, and the normal mode asked for. In another tab nothing happens.
pub proof fn law_mode_messages(s: State)
    ensures
        ({
            let here = s.active_tab == TabsEnum::Discovery;
            let normal = crate::discovery::updated(s, Message::ModeChange(Mode::Normal));
            let input = crate::discovery::updated(s, Message::ModeChange(Mode::Input));
            &&& !here ==> normal == (s, Seq::<Request>::empty()) && input == (
                s,
                Seq::<Request>::empty(),
            )
            &&& here ==> normal == (
                State { mode: Mode::Normal, ..s },
                seq![Request::Send(Message::AppModeChange(Mode::Normal))],
            )
            &&& here && !s.is_scanning ==> input == (
                State { mode: Mode::Input, cidr_error: false, ..s },
                seq![Request::Send(Message::AppModeChange(Mode::Input))],
            )
            &&& here && s.is_scanning ==> input == (
                s,
                seq![Request::Send(Message::ModeChange(Mode::Normal))],
            )
        }),
{
}

/// The first interface chooses the network of the 256 addresses around the first of its addresses that is
/// for private use, and puts its notation in the input line with the cursor behind it; without such an
/// address, and for every later interface, only the interface is noted.
pub proof fn law_interface_messages(s: State, ips: Seq<InterfaceIp>, k: int, a: u32)
    requires
        0 <= k < ips.len(),
        ips[k] == InterfaceIp::V4(a),
        private_number(a),
        forall|i: int|
            0 <= i < k ==> (#[trigger] ips[i] matches InterfaceIp::V4(b) ==> !private_number(b)),
    ensures
        ({
            let (t, asked) = crate::discovery::updated(s, Message::ActiveInterface(ips));
            let network = Cidr { first: (a - a % 256) as u32, length: 24 };
            &&& asked.len() == 0
            &&& s.active_interface is None ==> t == State {
                active_interface: Some(ips),
                cidr: Some(network),
                input: crate::input::Line {
                    value: network.text(),
                    cursor: network.text().len(),
                },
                ..s
            }
            &&& s.active_interface is Some ==> t == State { active_interface: Some(ips), ..s }
        }),
{
    lemma_first_private(ips, k, a);
}

/// Without an address for private use an interface is noted, and chooses no network.
pub proof fn law_public_interfaces(s: State, ips: Seq<InterfaceIp>)
    requires
        forall|i: int|
            0 <= i < ips.len() ==> (#[trigger] ips[i] matches InterfaceIp::V4(b) ==> !private_number(b)),
    ensures
        crate::discovery::updated(s, Message::ActiveInterface(ips)) == (
            State { active_interface: Some(ips), ..s },
            Seq::<Request>::empty(),
        ),
{
    lemma_none_private(ips);
}

/// Whether an address is for private use, by its number.
pub open spec fn private_number(a: u32) -> bool {
    0x0a00_0000 <= a <= 0x0aff_ffff || 0xac10_0000 <= a <= 0xac1f_ffff || 0xc0a8_0000 <= a
        <= 0xc0a8_ffff
}

proof fn lemma_first_private(ips: Seq<InterfaceIp>, k: int, a: u32)
    requires
        0 <= k < ips.len(),
        ips[k] == InterfaceIp::V4(a),
        private_number(a),
        forall|i: int|
            0 <= i < k ==> (#[trigger] ips[i] matches InterfaceIp::V4(b) ==> !private_number(b)),
    ensures
        crate::discovery::first_private(ips) == Some(a),
    decreases k,
{
    crate::ipv4::law_private_ranges(a);
    if k > 0 {
        let rest = ips.drop_first();
        if let InterfaceIp::V4(b) = ips[0] {
            crate::ipv4::law_private_ranges(b);
        }
        assert forall|i: int| 0 <= i < k - 1 implies (#[trigger] rest[i] matches InterfaceIp::V4(b)
            ==> !private_number(b)) by {
            assert(ips[i + 1] == rest[i]);
        }
        lemma_first_private(rest, k - 1, a);
    }
}

proof fn lemma_none_private(ips: Seq<InterfaceIp>)
    requires
        forall|i: int|
            0 <= i < ips.len() ==> (#[trigger] ips[i] matches InterfaceIp::V4(b) ==> !private_number(b)),
    ensures
        crate::discovery::first_private(ips) is None,
    decreases ips.len(),
{
    if ips.len() > 0 {
        let rest = ips.drop_first();
        if let InterfaceIp::V4(b) = ips[0] {
            crate::ipv4::law_private_ranges(b);
        }
        assert forall|i: int| 0 <= i < rest.len() implies (#[trigger] rest[i] matches InterfaceIp::V4(b)
            ==> !private_number(b)) by {
            assert(ips[i + 1] == rest[i]);
        }
        lemma_none_private(rest);
    }
}

/// What the keys do in the sort menu: up and `k` go to the entry above, down and `j` to the one below, as
/// far as there is one, enter chooses the column of the entry and closes the menu, escape closes it, and
/// so does `o` in the normal mode while no scan runs. Every other key changes nothing. All are answered.
pub proof fn law_menu_keys(s: State, key: KeyStroke, parsed: Option<Cidr>)
    requires
        s.wf(),
        s.active_tab == TabsEnum::Discovery,
        s.showing_sort_menu,
    ensures
        ({
            let i = s.sort_selected_idx;
            let nothing = Seq::<Request>::empty();
            let refresh = Some(Message::Refresh);
            let column = if i == 0 {
                SortColumn::Ip
            } else if i == 1 {
                SortColumn::Mac
            } else if i == 2 {
                SortColumn::Hostname
            } else {
                SortColumn::Vendor
            };
            let up = key.key == Key::Up || key.key == Key::Char('k');
            let down = key.key == Key::Down || key.key == Key::Char('j');
            let closes = key.key == Key::Esc || (key.key == Key::Char('o') && s.mode == Mode::Normal
                && !s.is_scanning);
            let r = crate::discovery::key_handled(s, key, parsed);
            &&& up && i > 0 ==> r == (
                State { sort_selected_idx: (i - 1) as nat, ..s },
                refresh,
                nothing,
            )
            &&& up && i == 0 ==> r == (s, refresh, nothing)
            &&& down && i < 3 ==> r == (State { sort_selected_idx: i + 1, ..s }, refresh, nothing)
            &&& down && i == 3 ==> r == (s, refresh, nothing)
            &&& key.key == Key::Enter ==> r == (
                State { sort_column: column, showing_sort_menu: false, ..s },
                Some(Message::SortBy(column)),
                nothing,
            )
            &&& closes ==> r == (State { showing_sort_menu: false, ..s }, refresh, nothing)
            &&& !up && !down && !closes && key.key != Key::Enter ==> r == (s, refresh, nothing)
        }),
{
}

/// What the keys do in the normal mode: while a scan runs `k` asks for its end, otherwise `o` opens the
/// sort menu at the entry of the chosen column. Every other key is left to the other components.
pub proof fn law_normal_keys(s: State, key: KeyStroke, parsed: Option<Cidr>)
    requires
        s.active_tab == TabsEnum::Discovery,
        !s.showing_sort_menu,
        s.mode == Mode::Normal,
    ensures
        ({
            let nothing = Seq::<Request>::empty();
            let entry: nat = match s.sort_column {
                SortColumn::Ip => 0,
                SortColumn::Mac => 1,
                SortColumn::Hostname => 2,
                SortColumn::Vendor => 3,
            };
            crate::discovery::key_handled(s, key, parsed) == if s.is_scanning && key.key
                == Key::Char('k') {
                (s, Some(Message::StopScan), nothing)
            } else if !s.is_scanning && key.key == Key::Char('o') {
                (
                    State { showing_sort_menu: true, sort_selected_idx: entry, ..s },
                    Some(Message::Refresh),
                    nothing,
                )
            } else {
                (s, None, nothing)
            }
        }),
{
}

/// What the keys do in the input mode: enter leaves the mode, and hands the network that the line is read
/// as to the scan, or reports an error; escape is left to the other components; every other key edits the
/// line and nothing else.
pub proof fn law_input_keys(s: State, key: KeyStroke, parsed: Option<Cidr>)
    requires
        s.active_tab == TabsEnum::Discovery,
        !s.showing_sort_menu,
        s.mode == Mode::Input,
    ensures
        ({
            let nothing = Seq::<Request>::empty();
            let leave = Some(Message::ModeChange(Mode::Normal));
            let r = crate::discovery::key_handled(s, key, parsed);
            &&& key.key == Key::Enter && !s.connected ==> r == (s, leave, nothing)
            &&& key.key == Key::Enter && s.connected ==> r == match parsed {
                Some(network) => (
                    State {
                        cidr: Some(network),
                        rows: Seq::<Row>::empty(),
                        ip_num: 0,
                        is_scanning: true,
                        ..s
                    },
                    leave,
                    seq![Request::StartScan { network, pool_size: 32 }],
                ),
                None => (s, leave, seq![Request::Send(Message::CidrError)]),
            }
            &&& key.key == Key::Esc ==> r == (s, None::<Message>, nothing)
            &&& key.key != Key::Enter && key.key != Key::Esc ==> r == (
                State {
                    input: crate::input::Line {
                        value: crate::input::tui_edited(s.input.value, s.input.cursor, key).0,
                        cursor: crate::input::tui_edited(s.input.value, s.input.cursor, key).1,
                    },
                    ..s
                },
                Some(Message::Refresh),
                nothing,
            )
        }),
{
}

/// A text that is read as a network chooses it, and starts a scan of it if one is asked for; a text that
/// is read as none changes nothing, and is reported if there is someone to report it to.
pub proof fn law_networks_are_applied(s: State, network: Cidr)
    ensures
        crate::discovery::cidr_applied(s, Some(network), false) == (
            State { cidr: Some(network), ..s },
            Seq::<Request>::empty(),
        ),
        crate::discovery::cidr_applied(s, Some(network), true) == (
            State {
                cidr: Some(network),
                rows: Seq::<Row>::empty(),
                ip_num: 0,
                is_scanning: true,
                ..s
            },
            seq![Request::StartScan { network, pool_size: 32 }],
        ),
        crate::discovery::cidr_applied(s, None, true) == (
            s,
            if s.connected {
                seq![Request::Send(Message::CidrError)]
            } else {
                Seq::<Request>::empty()
            },
        ),
        crate::discovery::cidr_applied(s, None, false) == crate::discovery::cidr_applied(s, None, true),
{
}

/// Preparing the tab chooses 192.168.1.0/24 where no network was chosen, and has a register of companies
/// loaded; nothing else changes.
pub proof fn law_preparation(s: State, t: State)
    requires
        crate::discovery::ready(s, t),
    ensures
        s.cidr is Some ==> t.cidr == s.cidr,
        s.cidr is None ==> t.cidr == Some(Cidr { first: 0xc0a8_0100, length: 24 }),
        t.companies is Some,
        t == (State { cidr: t.cidr, companies: t.companies, ..s }),
{
}

/// The tab can take every message but these: a count past the largest number, and a scan or a change of
/// mode that is to be carried out with no one to send to.
pub proof fn law_messages_that_can_be_taken(s: State, m: Message)
    ensures
        crate::discovery::accepts(s, m) <==> {
            &&& m is CountIp ==> s.ip_num < 0x7fff_ffff
            &&& m is ScanCidr && !s.connected ==> s.active_interface is None || s.is_scanning
                || s.active_tab != TabsEnum::Discovery || s.cidr is None
            &&& m is ModeChange && !s.connected ==> s.active_tab != TabsEnum::Discovery
        },
{
}

/// A message says what it holds.
pub proof fn law_actions_as_messages(
    ip: String,
    hostname: String,
    mac: String,
    data: ArpPacketData,
    interface: Interface,
)
    ensures
        Action::PingIpResponded(ip)@ == Message::PingIpResponded(ip@),
        (Action::IpResolved { ip, hostname, mac })@ == (Message::IpResolved {
            ip: ip@,
            hostname: hostname@,
            mac: mac@,
        }),
        Action::ArpRecieve(data)@ == Message::ArpRecieve(data),
        Action::ActiveInterface(interface)@ == Message::ActiveInterface(interface.ips@),
        Action::CountIp@ == Message::CountIp,
        Action::ScanComplete@ == Message::ScanComplete,
        Action::StopScan@ == Message::StopScan,
        Action::ScanCidr@ == Message::ScanCidr,
        Action::CidrError@ == Message::CidrError,
        Action::Tick@ == Message::Tick,
        Action::Refresh@ == Message::Refresh,
        Action::Tab@ == Message::Tab,
        Action::Up@ == Message::Up,
        Action::Down@ == Message::Down,
        Action::Help@ == Message::Help,
        Action::Other@ == Message::Other,
{
}

/// A message with a choice, and what is asked for, say what they hold.
pub proof fn law_choices_as_messages(
    tab: TabsEnum,
    mode: Mode,
    column: SortColumn,
    action: Action,
    network: Cidr,
    pool_size: usize,
    effects: Seq<Effect>,
    i: int,
)
    requires
        0 <= i < effects.len(),
    ensures
        Action::TabChange(tab)@ == Message::TabChange(tab),
        Action::ModeChange(mode)@ == Message::ModeChange(mode),
        Action::AppModeChange(mode)@ == Message::AppModeChange(mode),
        Action::SortBy(column)@ == Message::SortBy(column),
        Effect::Send(action)@ == Request::Send(action@),
        (Effect::StartScan { network, pool_size })@ == (Request::StartScan { network, pool_size }),
        Effect::StopScan@ == Request::StopScan,
        crate::action::requests(effects).len() == effects.len(),
        crate::action::requests(effects)[i] == effects[i]@,
        crate::action::message(Some(action)) == Some(action@),
        crate::action::message(None) is None,
{
}

} // verus!
