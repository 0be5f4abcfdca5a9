use netscanner::input::{InputLine, Key, KeyStroke};

fn press(key: Key) -> KeyStroke {
    KeyStroke { key, modifiers: 0, pressed: true }
}

fn control(c: char) -> KeyStroke {
    KeyStroke { key: Key::Char(c), modifiers: 2, pressed: true }
}

fn line(value: &str) -> InputLine {
    InputLine::with_value(value.to_string())
}

#[test]
fn the_cursor_starts_behind_the_text() {
    let l = line("é1");
    assert_eq!(l.cursor, 2);
    assert_eq!(l.value, "é1");
}

#[test]
fn characters_are_typed_at_the_cursor() {
    let mut l = line("ac");
    l.handle_event(press(Key::Left));
    l.handle_event(press(Key::Char('b')));
    assert_eq!(l, InputLine { value: "abc".to_string(), cursor: 2 });
    l.handle_event(KeyStroke { key: Key::Char('B'), modifiers: 1, pressed: true });
    assert_eq!(l, InputLine { value: "abBc".to_string(), cursor: 3 });
}

#[test]
fn keys_that_move_and_erase() {
    let mut l = line("abc");
    l.handle_event(press(Key::Backspace));
    assert_eq!(l, line("ab"));
    l.handle_event(press(Key::Home));
    l.handle_event(press(Key::Backspace));
    assert_eq!(l, InputLine { value: "ab".to_string(), cursor: 0 });
    l.handle_event(press(Key::Delete));
    assert_eq!(l, InputLine { value: "b".to_string(), cursor: 0 });
    l.handle_event(press(Key::Right));
    l.handle_event(press(Key::Right));
    assert_eq!(l, line("b"));
    l.handle_event(press(Key::Home));
    l.handle_event(press(Key::End));
    assert_eq!(l, line("b"));
}

#[test]
fn keys_with_control() {
    let mut l = line("ab cd");
    l.handle_event(control('w'));
    assert_eq!(l, line("ab "));
    l.handle_event(control('a'));
    l.handle_event(control('k'));
    assert_eq!(l, line(""));
    let mut m = line("ab");
    m.handle_event(control('u'));
    assert_eq!(m, line(""));
}

#[test]
fn keys_that_edit_nothing() {
    for key in [Key::Up, Key::Down, Key::Enter, Key::Esc, Key::Other] {
        let mut l = line("ab");
        l.handle_event(press(key));
        assert_eq!(l, line("ab"));
    }
    let mut l = line("ab");
    l.handle_event(KeyStroke { key: Key::Char('c'), modifiers: 0, pressed: false });
    assert_eq!(l, line("ab"));
}

#[test]
fn columns_and_scrolling() {
    assert_eq!(line("").visual_cursor(), 0);
    assert_eq!(line("abc").visual_cursor(), 3);
    assert_eq!(line("日本").visual_cursor(), 4);
    assert_eq!(line("abc").visual_scroll(3), 0);
    assert_eq!(line("abcde").visual_scroll(3), 2);
    assert_eq!(line("日本語").visual_scroll(3), 4);
}

#[test]
fn erasing_undoes_typing() {
    let mut l = InputLine { value: "10.0".to_string(), cursor: 2 };
    l.handle_event(press(Key::Char('é')));
    assert_eq!(l, InputLine { value: "10é.0".to_string(), cursor: 3 });
    l.handle_event(press(Key::Backspace));
    assert_eq!(l, InputLine { value: "10.0".to_string(), cursor: 2 });
    l.handle_event(press(Key::Right));
    l.handle_event(press(Key::Left));
    assert_eq!(l, InputLine { value: "10.0".to_string(), cursor: 2 });
}
