//! The bar of tabs.
use crate::action::{Action, Effect, Message, Request, TabsEnum};
use crate::text::decimal_text;
use crate::ui::{Align, Color, Edge, Heading, Rect, Shown, Span, Style, Title};
use vstd::prelude::*;

verus! {

/// The number of tabs.
pub const TAB_COUNT: usize = 4;

/// The tab at a place.
pub open spec fn tab_at(i: nat) -> TabsEnum {
    if i == 0 {
        TabsEnum::Discovery
    } else if i == 1 {
        TabsEnum::Packets
    } else if i == 2 {
        TabsEnum::Ports
    } else {
        TabsEnum::Traffic
    }
}

/// The place of a tab.
pub open spec fn place_of(tab: TabsEnum) -> nat {
    match tab {
        TabsEnum::Discovery => 0,
        TabsEnum::Packets => 1,
        TabsEnum::Ports => 2,
        TabsEnum::Traffic => 3,
    }
}

/// The name of a tab.
pub open spec fn tab_name(tab: TabsEnum) -> Seq<char> {
    match tab {
        TabsEnum::Discovery => "Discovery"@,
        TabsEnum::Packets => "Packets"@,
        TabsEnum::Ports => "Ports"@,
        TabsEnum::Traffic => "Traffic"@,
    }
}

/// The bar of tabs.
pub struct Tabs {
    /// Whether there is someone to send messages to.
    connected: bool,
    tab_index: usize,
}

/// What the bar of tabs holds.
pub struct TabsState {
    /// Whether there is someone to send messages to.
    pub connected: bool,
    /// The place of the tab that is shown.
    pub tab_index: nat,
}

impl TabsState {
    /// There is a tab at the place.
    pub open spec fn wf(self) -> bool {
        self.tab_index < TAB_COUNT
    }
}

impl View for Tabs {
    type V = TabsState;

    closed spec fn view(&self) -> TabsState {
        TabsState { connected: self.connected, tab_index: self.tab_index as nat }
    }
}

/// The place after `i`, the first after the last.
pub open spec fn next_place(i: nat) -> nat {
    if i + 1 < TAB_COUNT {
        i + 1
    } else {
        0
    }
}

/// `s` after a message arrived, and what is asked for then.
pub open spec fn tabs_updated(s: TabsState, m: Message) -> (TabsState, Seq<Request>) {
    let nothing = Seq::<Request>::empty();
    match m {
        Message::Tab => {
            let i = next_place(s.tab_index);
            (
                TabsState { tab_index: i, ..s },
                if s.connected {
                    seq![Request::Send(Message::TabChange(tab_at(i)))]
                } else {
                    nothing
                },
            )
        },
        Message::TabChange(tab) => (TabsState { tab_index: place_of(tab), ..s }, nothing),
        _ => (s, nothing),
    }
}

/// The bar as it is drawn: the titles on the edges of its block, the line in it, and the colour of
/// its border.
#[derive(Debug, PartialEq, Eq)]
pub struct TabBar {
    pub titles: Vec<Title>,
    pub content: Vec<Span>,
    pub border: Color,
}

/// The spans of the tab at place `i`: its number in brackets, its name, and a gap. The name of the
/// tab that is shown is green.
pub open spec fn tab_label(i: nat, current: nat) -> Seq<Shown> {
    seq![
        crate::ui::colored("("@, Color::Yellow),
        crate::ui::colored(crate::text::decimal(i + 1), Color::Red),
        crate::ui::colored(")"@, Color::Yellow),
        crate::ui::bold(
            tab_name(tab_at(i)),
            if i == current {
                Color::Green
            } else {
                Color::DarkGray
            },
        ),
        crate::ui::plain("  "@),
    ]
}

/// The spans of the first `n` tabs.
pub open spec fn tab_labels(n: nat, current: nat) -> Seq<Shown>
    decreases n,
{
    if n == 0 {
        Seq::empty()
    } else {
        tab_labels((n - 1) as nat, current) + tab_label((n - 1) as nat, current)
    }
}

/// The keys that a tab offers.
pub open spec fn tab_keys(tab: TabsEnum) -> Seq<Shown> {
    let bar = crate::ui::colored("|"@, Color::Yellow);
    match tab {
        TabsEnum::Discovery => seq![
            bar,
            crate::ui::bold("s"@, Color::Red),
            crate::ui::colored("can "@, Color::Yellow),
            crate::ui::colored("stop"@, Color::Yellow),
            crate::ui::colored(" "@, Color::Yellow),
            crate::ui::bold("e"@, Color::Red),
            crate::ui::colored("xport"@, Color::Yellow),
            bar,
        ],
        TabsEnum::Ports => seq![
            bar,
            crate::ui::bold("s"@, Color::Red),
            crate::ui::colored("can "@, Color::Yellow),
            crate::ui::bold("s"@, Color::Red),
            crate::ui::colored("top"@, Color::Yellow),
            bar,
        ],
        _ => seq![
            bar,
            crate::ui::bold("d"@, Color::Red),
            crate::ui::colored("ump "@, Color::Yellow),
            crate::ui::bold("s"@, Color::Red),
            crate::ui::colored("top"@, Color::Yellow),
            bar,
        ],
    }
}

/// Whether `bar` is the bar while the tab at place `current` is shown: the tabs on the upper edge
/// and in the block, the keys of the tab that is shown on the lower edge.
pub open spec fn is_tab_bar(bar: TabBar, current: nat) -> bool {
    &&& crate::ui::headings(bar.titles@) == seq![
        Heading {
            spans: tab_labels(TAB_COUNT as nat, current),
            align: Align::Left,
            edge: Edge::Top,
        },
        Heading { spans: tab_keys(tab_at(current)), align: Align::Right, edge: Edge::Bottom },
    ]
    &&& crate::ui::shown(bar.content@) == tab_labels(TAB_COUNT as nat, current)
    &&& bar.border == crate::ui::gray()
}

fn tab_in_place(i: usize) -> (tab: TabsEnum)
    ensures
        tab == tab_at(i as nat),
{
    match i {
        0 => TabsEnum::Discovery,
        1 => TabsEnum::Packets,
        2 => TabsEnum::Ports,
        _ => TabsEnum::Traffic,
    }
}

fn name_of(tab: TabsEnum) -> (name: &'static str)
    ensures
        name@ == tab_name(tab),
{
    match tab {
        TabsEnum::Discovery => "Discovery",
        TabsEnum::Packets => "Packets",
        TabsEnum::Ports => "Ports",
        TabsEnum::Traffic => "Traffic",
    }
}

/// The spans of the tabs.
fn make_labels(current: usize) -> (line: Vec<Span>)
    ensures
        crate::ui::shown(line@) == tab_labels(TAB_COUNT as nat, current as nat),
{
    let mut line: Vec<Span> = Vec::new();
    let mut i: usize = 0;
    proof {
        assert(crate::ui::shown(line@) =~= tab_labels(0, current as nat));
    }
    while i < TAB_COUNT
        invariant
            i <= TAB_COUNT,
            crate::ui::shown(line@) == tab_labels(i as nat, current as nat),
        decreases TAB_COUNT - i,
    {
        let ghost before = crate::ui::shown(line@);
        let color = if i == current {
            Color::Green
        } else {
            Color::DarkGray
        };
        line.push(Span::colored("(", Color::Yellow));
        line.push(Span::colored(decimal_text((i + 1) as u64).as_str(), Color::Red));
        line.push(Span::colored(")", Color::Yellow));
        line.push(Span::bold(name_of(tab_in_place(i)), color));
        line.push(Span::plain("  "));
        proof {
            assert(crate::ui::shown(line@) =~= before + tab_label(i as nat, current as nat));
        }
        i = i + 1;
    }
    line
}

/// The keys that a tab offers.
fn make_keys(tab: TabsEnum) -> (line: Vec<Span>)
    ensures
        crate::ui::shown(line@) == tab_keys(tab),
{
    let line = match tab {
        TabsEnum::Discovery => vec![
            Span::colored("|", Color::Yellow),
            Span::bold("s", Color::Red),
            Span::colored("can ", Color::Yellow),
            Span::colored("stop", Color::Yellow),
            Span::colored(" ", Color::Yellow),
            Span::bold("e", Color::Red),
            Span::colored("xport", Color::Yellow),
            Span::colored("|", Color::Yellow),
        ],
        TabsEnum::Ports => vec![
            Span::colored("|", Color::Yellow),
            Span::bold("s", Color::Red),
            Span::colored("can ", Color::Yellow),
            Span::bold("s", Color::Red),
            Span::colored("top", Color::Yellow),
            Span::colored("|", Color::Yellow),
        ],
        _ => vec![
            Span::colored("|", Color::Yellow),
            Span::bold("d", Color::Red),
            Span::colored("ump ", Color::Yellow),
            Span::bold("s", Color::Red),
            Span::colored("top", Color::Yellow),
            Span::colored("|", Color::Yellow),
        ],
    };
    proof {
        assert(crate::ui::shown(line@) =~= tab_keys(tab));
    }
    line
}

impl Tabs {
    /// The bar at the start: the first tab is shown.
    pub fn new() -> (t: Tabs)
        ensures
            t@ == (TabsState { connected: false, tab_index: 0 }),
            t@.wf(),
    {
        Tabs { connected: false, tab_index: 0 }
    }

    /// Takes note that there is someone to send messages to.
    pub fn register_action_handler(&mut self)
        ensures
            final(self)@ == (TabsState { connected: true, ..old(self)@ }),
    {
        self.connected = true;
    }

    /// The tab that is shown.
    pub fn current(&self) -> (tab: TabsEnum)
        requires
            self@.wf(),
        ensures
            tab == tab_at(self@.tab_index),
    {
        tab_in_place(self.tab_index)
    }

    /// Shows the next tab, the first after the last, and announces it.
    pub fn next_tab(&mut self) -> (effects: Vec<Effect>)
        requires
            old(self)@.wf(),
        ensures
            (final(self)@, crate::action::requests(effects@)) == tabs_updated(
                old(self)@,
                Message::Tab,
            ),
            final(self)@.wf(),
    {
        self.tab_index = (self.tab_index + 1) % TAB_COUNT;
        let mut effects: Vec<Effect> = Vec::new();
        if self.connected {
            effects.push(Effect::Send(Action::TabChange(tab_in_place(self.tab_index))));
        }
        proof {
            assert(crate::action::requests(effects@) =~= tabs_updated(old(self)@, Message::Tab).1);
        }
        effects
    }

    /// Takes a message, and says what is to be done on account of it.
    pub fn update(&mut self, action: Action) -> (effects: Vec<Effect>)
        requires
            old(self)@.wf(),
        ensures
            (final(self)@, crate::action::requests(effects@)) == tabs_updated(
                old(self)@,
                action@,
            ),
            final(self)@.wf(),
    {
        let effects: Vec<Effect> = Vec::new();
        proof {
            assert(crate::action::requests(effects@) =~= Seq::<Request>::empty());
        }
        match action {
            Action::Tab => {
                return self.next_tab();
            },
            Action::TabChange(tab) => {
                self.tab_index = match tab {
                    TabsEnum::Discovery => 0,
                    TabsEnum::Packets => 1,
                    TabsEnum::Ports => 2,
                    TabsEnum::Traffic => 3,
                };
            },
            _ => {},
        }
        effects
    }

    /// The bar as it is drawn.
    pub fn make_tabs(&self) -> (bar: TabBar)
        requires
            self@.wf(),
        ensures
            is_tab_bar(bar, self@.tab_index),
    {
        let upper = Title::new(make_labels(self.tab_index), Align::Left, Edge::Top);
        let lower = Title::new(make_keys(self.current()), Align::Right, Edge::Bottom);
        let ghost a = upper@;
        let ghost b = lower@;
        let bar = TabBar {
            titles: vec![upper, lower],
            content: make_labels(self.tab_index),
            border: Color::Rgb(100, 100, 100),
        };
        proof {
            assert(crate::ui::headings(bar.titles@) =~= seq![a, b]);
        }
        bar
    }

    /// The bar as it is drawn, and its area: one row below the area of the tabs.
    pub fn draw(&self, tabs: Rect) -> (r: (Rect, TabBar))
        requires
            self@.wf(),
            tabs.y < u16::MAX,
        ensures
            r.0 == (Rect { y: (tabs.y + 1) as u16, ..tabs }),
            is_tab_bar(r.1, self@.tab_index),
    {
        (Rect { y: tabs.y + 1, ..tabs }, self.make_tabs())
    }
}

impl Default for Tabs {
    /// The bar at the start.
    fn default() -> (t: Tabs)
        ensures
            t@ == (TabsState { connected: false, tab_index: 0 }),
    {
        Tabs::new()
    }
}

/// `s` after the next tab was asked for `n` times.
pub open spec fn after_tabs(s: TabsState, n: nat) -> TabsState
    decreases n,
{
    if n == 0 {
        s
    } else {
        tabs_updated(after_tabs(s, (n - 1) as nat), Message::Tab).0
    }
}

/// The next tab, asked for again and again, goes through all tabs in turn, and after as many times
/// as there are tabs the first one is shown again.
pub proof fn law_tabs_go_round(s: TabsState, n: nat)
    requires
        s.wf(),
    ensures
        after_tabs(s, n) == (TabsState { tab_index: (s.tab_index + n) % 4, ..s }),
        after_tabs(s, TAB_COUNT as nat) == s,
    decreases n,
{
    reveal_with_fuel(after_tabs, 5);
    if n > 0 {
        law_tabs_go_round(s, (n - 1) as nat);
        let i = (s.tab_index + n - 1) as nat % 4;
        assert((i + 1) % 4 == (s.tab_index + n) % 4);
    }
}

/// Every tab has one place, and every place one tab.
pub proof fn law_tab_places(tab: TabsEnum, i: nat)
    requires
        i < TAB_COUNT,
    ensures
        place_of(tab) < TAB_COUNT,
        tab_at(place_of(tab)) == tab,
        place_of(tab_at(i)) == i,
{
}

/// The message that the next tab is shown, which is sent when it was asked for, changes nothing more
/// when it comes back.
pub proof fn law_tab_change_comes_back(s: TabsState)
    requires
        s.wf(),
        s.connected,
    ensures
        ({
            let (t, asked) = tabs_updated(s, Message::Tab);
            &&& asked == seq![Request::Send(Message::TabChange(tab_at(t.tab_index)))]
            &&& tabs_updated(t, Message::TabChange(tab_at(t.tab_index))).0 == t
        }),
{
}

/// What is asked for while the next tab is asked for `n` times.
pub open spec fn announced(s: TabsState, n: nat) -> Seq<Request>
    decreases n,
{
    if n == 0 {
        Seq::empty()
    } else {
        announced(s, (n - 1) as nat) + tabs_updated(after_tabs(s, (n - 1) as nat), Message::Tab).1
    }
}

/// When the next tab is asked for as many times as there are tabs, every tab is announced once, and
/// nothing else is sent.
pub proof fn law_every_tab_is_announced_once(s: TabsState, tab: TabsEnum)
    requires
        s.wf(),
        s.connected,
    ensures
        ({
            let sent = announced(s, TAB_COUNT as nat);
            &&& sent.len() == TAB_COUNT
            &&& sent.no_duplicates()
            &&& sent.contains(Request::Send(Message::TabChange(tab)))
        }),
{
    reveal_with_fuel(announced, 5);
    reveal_with_fuel(after_tabs, 5);
    let sent = announced(s, TAB_COUNT as nat);
    let at = |k: nat| Request::Send(Message::TabChange(tab_at((s.tab_index + k) % 4)));
    assert(sent =~= seq![at(1), at(2), at(3), at(4)]);
    let k = (place_of(tab) + 3 - s.tab_index) % 4;
    assert(sent[k] == Request::Send(Message::TabChange(tab)));
}

/// Every tab is named in the bar, behind its number, and the name of the tab that is shown is the only
/// one in green.
pub proof fn law_one_tab_is_highlighted(current: nat, i: nat)
    requires
        current < TAB_COUNT,
        i < TAB_COUNT,
    ensures
        ({
            let labels = tab_labels(TAB_COUNT as nat, current);
            &&& labels.len() == 5 * TAB_COUNT
            &&& labels[5 * (i as int) + 1].text == crate::text::decimal(i + 1)
            &&& labels[5 * (i as int) + 3].text == tab_name(tab_at(i))
            &&& labels[5 * (i as int) + 3].style.fg == Some(Color::Green) <==> i == current
        }),
{
    reveal_with_fuel(tab_labels, 5);
}

/// The tabs stand in the order discovery, packets, ports, traffic, each under its own name.
pub proof fn law_tab_names()
    ensures
        tab_at(0) == TabsEnum::Discovery && tab_name(TabsEnum::Discovery) == "Discovery"@,
        tab_at(1) == TabsEnum::Packets && tab_name(TabsEnum::Packets) == "Packets"@,
        tab_at(2) == TabsEnum::Ports && tab_name(TabsEnum::Ports) == "Ports"@,
        tab_at(3) == TabsEnum::Traffic && tab_name(TabsEnum::Traffic) == "Traffic"@,
{
}

/// The next tab is shown and announced, if there is someone to announce it to; a tab that is asked for is
/// shown; every other message changes nothing.
pub proof fn law_tab_messages(s: TabsState, m: Message, tab: TabsEnum)
    requires
        s.tab_index < 4,
    ensures
        ({
            let next = (s.tab_index + 1) % 4;
            let name = if next == 0 {
                TabsEnum::Discovery
            } else if next == 1 {
                TabsEnum::Packets
            } else if next == 2 {
                TabsEnum::Ports
            } else {
                TabsEnum::Traffic
            };
            let place: nat = match tab {
                TabsEnum::Discovery => 0,
                TabsEnum::Packets => 1,
                TabsEnum::Ports => 2,
                TabsEnum::Traffic => 3,
            };
            let nothing = Seq::<Request>::empty();
            &&& tabs_updated(s, Message::Tab) == (
                TabsState { tab_index: next, ..s },
                if s.connected {
                    seq![Request::Send(Message::TabChange(name))]
                } else {
                    nothing
                },
            )
            &&& tabs_updated(s, Message::TabChange(tab)) == (
                TabsState { tab_index: place, ..s },
                nothing,
            )
            &&& !(m is Tab) && !(m is TabChange) ==> tabs_updated(s, m) == (s, nothing)
        }),
{
}

/// The bar names every tab behind its number in brackets: the brackets are yellow, the number is red, the
/// name is bold, in green for the tab that is shown and in dark gray for the others, and a gap of two
/// spaces follows. The line in the block is the same, and the border is gray.
pub proof fn law_tab_bar_shows_the_tabs(bar: TabBar, current: nat, i: int)
    requires
        is_tab_bar(bar, current),
        current < 4,
        0 <= i < 4,
    ensures
        ({
            let line = bar.content@;
            let yellow = Style { fg: Some(Color::Yellow), bold: false };
            &&& line.len() == 20
            &&& line[5 * i].text@ == "("@ && line[5 * i].style == yellow
            &&& line[5 * i + 1].text@ == crate::text::decimal((i + 1) as nat) && line[5 * i + 1].style
                == (Style { fg: Some(Color::Red), bold: false })
            &&& line[5 * i + 2].text@ == ")"@ && line[5 * i + 2].style == yellow
            &&& line[5 * i + 3].text@ == (if i == 0 {
                "Discovery"@
            } else if i == 1 {
                "Packets"@
            } else if i == 2 {
                "Ports"@
            } else {
                "Traffic"@
            })
            &&& line[5 * i + 3].style == (Style {
                fg: Some(
                    if i == current {
                        Color::Green
                    } else {
                        Color::DarkGray
                    },
                ),
                bold: true,
            })
            &&& line[5 * i + 4].text@ == "  "@ && line[5 * i + 4].style == (Style {
                fg: None,
                bold: false,
            })
            &&& bar.titles@.len() == 2
            &&& crate::ui::shown(bar.titles@[0].spans@) == crate::ui::shown(line)
            &&& bar.titles@[0].align == Align::Left && bar.titles@[0].edge == Edge::Top
            &&& bar.titles@[1].align == Align::Right && bar.titles@[1].edge == Edge::Bottom
            &&& bar.border == Color::Rgb(100, 100, 100)
        }),
{
    reveal_with_fuel(tab_labels, 5);
    let line = bar.content@;
    let s = crate::ui::shown(line);
    assert(s.len() == line.len());
    assert(s[5 * i] == line[5 * i]@);
    assert(s[5 * i + 1] == line[5 * i + 1]@);
    assert(s[5 * i + 2] == line[5 * i + 2]@);
    assert(s[5 * i + 3] == line[5 * i + 3]@);
    assert(s[5 * i + 4] == line[5 * i + 4]@);
    assert(i == 0 || i == 1 || i == 2 || i == 3);
    let h = crate::ui::headings(bar.titles@);
    assert(h.len() == bar.titles@.len());
    assert(h[0] == bar.titles@[0]@);
    assert(h[1] == bar.titles@[1]@);
}

/// On its lower edge the bar offers the keys of the tab that is shown: to scan, stop and export in the
/// discovery tab, to scan and stop in the ports tab, to dump and stop in the other two. The letters to
/// press are bold and red, the others yellow.
pub proof fn law_tab_bar_offers_the_keys(bar: TabBar, current: nat)
    requires
        is_tab_bar(bar, current),
        current < 4,
    ensures
        ({
            let keys = crate::ui::shown(bar.titles@[1].spans@);
            let yellow = |text: Seq<char>|
                Shown { text, style: Style { fg: Some(Color::Yellow), bold: false } };
            let red = |text: Seq<char>|
                Shown { text, style: Style { fg: Some(Color::Red), bold: true } };
            &&& current == 0 ==> keys == seq![
                yellow("|"@),
                red("s"@),
                yellow("can "@),
                yellow("stop"@),
                yellow(" "@),
                red("e"@),
                yellow("xport"@),
                yellow("|"@),
            ]
            &&& current == 2 ==> keys == seq![
                yellow("|"@),
                red("s"@),
                yellow("can "@),
                red("s"@),
                yellow("top"@),
                yellow("|"@),
            ]
            &&& current == 1 || current == 3 ==> keys == seq![
                yellow("|"@),
                red("d"@),
                yellow("ump "@),
                red("s"@),
                yellow("top"@),
                yellow("|"@),
            ]
        }),
{
    let h = crate::ui::headings(bar.titles@);
    assert(h.len() == bar.titles@.len());
    assert(h[1] == bar.titles@[1]@);
}

} // verus!
