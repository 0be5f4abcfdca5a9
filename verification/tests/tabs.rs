use netscanner::action::{Action, Effect, TabsEnum};
use netscanner::tabs::Tabs;
use netscanner::ui::{Align, Color, Edge, Rect, Span};

fn text(line: &Vec<Span>) -> String {
    line.iter().map(|s| s.text.as_str()).collect()
}

const TABS: [TabsEnum; 4] =
    [TabsEnum::Discovery, TabsEnum::Packets, TabsEnum::Ports, TabsEnum::Traffic];

#[test]
fn the_next_tab_goes_round() {
    let mut tabs = Tabs::new();
    tabs.register_action_handler();
    assert_eq!(tabs.current(), TabsEnum::Discovery);
    for i in 1..9 {
        let effects = tabs.update(Action::Tab);
        assert_eq!(tabs.current(), TABS[i % 4]);
        assert_eq!(effects, vec![Effect::Send(Action::TabChange(TABS[i % 4]))]);
        assert!(tabs.update(Action::TabChange(TABS[i % 4])).is_empty());
        assert_eq!(tabs.current(), TABS[i % 4]);
    }
}

#[test]
fn every_tab_is_announced_once() {
    let mut tabs = Tabs::new();
    tabs.register_action_handler();
    tabs.update(Action::TabChange(TabsEnum::Ports));
    let mut sent: Vec<Effect> = Vec::new();
    for _ in 0..4 {
        sent.extend(tabs.update(Action::Tab));
    }
    assert_eq!(sent.len(), 4);
    for tab in TABS {
        assert!(sent.contains(&Effect::Send(Action::TabChange(tab))));
    }
}

#[test]
fn nothing_is_sent_to_nobody() {
    let mut tabs = Tabs::default();
    assert!(tabs.update(Action::Tab).is_empty());
    assert_eq!(tabs.current(), TabsEnum::Packets);
}

#[test]
fn a_tab_can_be_chosen() {
    let mut tabs = Tabs::new();
    tabs.register_action_handler();
    for tab in TABS {
        assert!(tabs.update(Action::TabChange(tab)).is_empty());
        assert_eq!(tabs.current(), tab);
    }
    assert!(tabs.update(Action::Down).is_empty());
    assert_eq!(tabs.current(), TabsEnum::Traffic);
}

#[test]
fn the_bar_of_each_tab() {
    let keys = ["|scan stop export|", "|dump stop|", "|scan stop|", "|dump stop|"];
    let mut tabs = Tabs::new();
    for i in 0..4 {
        tabs.update(Action::TabChange(TABS[i]));
        let bar = tabs.make_tabs();
        assert_eq!(text(&bar.content), "(1)Discovery  (2)Packets  (3)Ports  (4)Traffic  ");
        assert_eq!(bar.titles.len(), 2);
        assert_eq!(bar.titles[0].spans, bar.content);
        assert_eq!(bar.titles[0].align, Align::Left);
        assert_eq!(bar.titles[0].edge, Edge::Top);
        assert_eq!(text(&bar.titles[1].spans), keys[i]);
        assert_eq!(bar.titles[1].align, Align::Right);
        assert_eq!(bar.titles[1].edge, Edge::Bottom);
        assert_eq!(bar.border, Color::Rgb(100, 100, 100));
        for j in 0..4 {
            let name = &bar.content[5 * j + 3];
            let color = if i == j { Color::Green } else { Color::DarkGray };
            assert_eq!(name.style.fg, Some(color));
            assert!(name.style.bold);
        }
    }
}

#[test]
fn the_bar_stands_one_row_lower() {
    let area = Rect { x: 1, y: 2, width: 80, height: 3 };
    let (rect, bar) = Tabs::new().draw(area);
    assert_eq!(rect, Rect { x: 1, y: 3, width: 80, height: 3 });
    assert_eq!(bar, Tabs::new().make_tabs());
}
