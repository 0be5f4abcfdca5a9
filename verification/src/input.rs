//! The input line and the keys that edit it.
use crossterm::event::{Event, KeyCode, KeyEvent, KeyEventKind, KeyModifiers};
use tui_input::backend::crossterm::EventHandler;
use tui_input::Input;
use vstd::prelude::*;

verus! {

/// A key, as far as keys are told apart.
#[derive(Clone, Copy, Debug, PartialEq, Eq, Structural)]
pub enum Key {
    Backspace,
    Delete,
    Left,
    Right,
    Home,
    End,
    Up,
    Down,
    Enter,
    Esc,
    Char(char),
    /// Any other key.
    Other,
}

/// No modifier key.
pub const NO_MODIFIERS: u8 = 0;

/// The shift key.
pub const SHIFT: u8 = 1;

/// A key event: the key, the modifier keys held with it as a sum of bits, and whether it was pressed
/// rather than repeated or released.
#[derive(Clone, Copy, Debug, PartialEq, Eq, Structural)]
pub struct KeyStroke {
    pub key: Key,
    pub modifiers: u8,
    pub pressed: bool,
}

/// A line of text with a cursor in it.
#[derive(Debug, PartialEq, Eq)]
pub struct InputLine {
    pub value: String,
    /// The number of characters before the cursor.
    pub cursor: usize,
}

/// What an input line holds.
pub struct Line {
    pub value: Seq<char>,
    pub cursor: nat,
}

impl Line {
    /// The cursor is in the text or behind it.
    pub open spec fn wf(self) -> bool {
        self.cursor <= self.value.len()
    }
}

impl View for InputLine {
    type V = Line;

    open spec fn view(&self) -> Line {
        Line { value: self.value@, cursor: self.cursor as nat }
    }
}

/// A line with the cursor behind its text.
pub open spec fn line_of(value: Seq<char>) -> Line {
    Line { value, cursor: value.len() }
}

impl InputLine {
    /// A line with the cursor behind its text.
    pub fn with_value(value: String) -> (line: InputLine)
        ensures
            line@ == line_of(value@),
            line@.wf(),
    {
        let cursor: usize = value.as_str().unicode_len();
        InputLine { value, cursor }
    }

    /// Lets a key event edit the line.
    pub fn handle_event(&mut self, key: KeyStroke)
        requires
            old(self)@.wf(),
        ensures
            final(self)@ == edited(old(self)@, key),
            final(self)@.wf(),
            typed(key) matches Some(c) ==> final(self)@ == typed_into(old(self)@, c),
            erases(key) ==> final(self)@ == erased(old(self)@),
            moves(key) ==> final(self)@ == moved(old(self)@, key.key),
            inert(key) ==> final(self)@ == old(self)@,
    {
        let (value, cursor) = edit(self.value.as_str(), self.cursor, key);
        self.value = value;
        self.cursor = cursor;
    }

    /// The column of the cursor.
    pub fn visual_cursor(&self) -> (n: usize)
        requires
            self@.wf(),
        ensures
            n == tui_visual_cursor(self@.value, self@.cursor),
            self@.cursor == 0 ==> n == 0,
            printable(self@.value) ==> n == self@.cursor,
    {
        visual_cursor(self.value.as_str(), self.cursor)
    }

    /// The number of columns that are scrolled out of a window of `width` columns.
    pub fn visual_scroll(&self, width: usize) -> (n: usize)
        requires
            self@.wf(),
        ensures
            n == tui_visual_scroll(self@.value, self@.cursor, width as nat),
            tui_visual_cursor(self@.value, self@.cursor) <= width ==> n == 0,
            printable(self@.value) ==> n == excess(self@.cursor, width as nat),
    {
        visual_scroll(self.value.as_str(), self.cursor, width)
    }
}

/// The line that a key event makes of `line`.
pub open spec fn edited(line: Line, key: KeyStroke) -> Line {
    let (value, cursor) = tui_edited(line.value, line.cursor, key);
    Line { value, cursor }
}

/// The character that a key event types: a key with a character, pressed with no modifier key or
/// with shift.
pub open spec fn typed(key: KeyStroke) -> Option<char> {
    match key.key {
        Key::Char(c) => if key.pressed && (key.modifiers == NO_MODIFIERS
            || key.modifiers == SHIFT) {
            Some(c)
        } else {
            None
        },
        _ => None,
    }
}

/// `line` with `c` typed at the cursor.
pub open spec fn typed_into(line: Line, c: char) -> Line {
    Line { value: line.value.insert(line.cursor as int, c), cursor: line.cursor + 1 }
}

/// Whether a key event erases the character before the cursor.
pub open spec fn erases(key: KeyStroke) -> bool {
    key.key == Key::Backspace && key.pressed && key.modifiers == NO_MODIFIERS
}

/// `line` without the character before the cursor.
pub open spec fn erased(line: Line) -> Line {
    if line.cursor == 0 {
        line
    } else {
        Line { value: line.value.remove(line.cursor - 1), cursor: (line.cursor - 1) as nat }
    }
}

/// Whether a key event moves the cursor, or erases the character behind it.
pub open spec fn moves(key: KeyStroke) -> bool {
    &&& key.pressed
    &&& key.modifiers == NO_MODIFIERS
    &&& key.key == Key::Left || key.key == Key::Right || key.key == Key::Home || key.key == Key::End
        || key.key == Key::Delete
}

/// `line` after a key event that moves the cursor or erases the character behind it.
pub open spec fn moved(line: Line, key: Key) -> Line {
    match key {
        Key::Left => if line.cursor == 0 {
            line
        } else {
            Line { cursor: (line.cursor - 1) as nat, ..line }
        },
        Key::Right => if line.cursor == line.value.len() {
            line
        } else {
            Line { cursor: line.cursor + 1, ..line }
        },
        Key::Home => Line { cursor: 0, ..line },
        Key::End => Line { cursor: line.value.len(), ..line },
        Key::Delete => if line.cursor == line.value.len() {
            line
        } else {
            Line { value: line.value.remove(line.cursor as int), ..line }
        },
        _ => line,
    }
}

/// Whether a key event leaves an input line alone: it is no press, or the key is none that edits.
pub open spec fn inert(key: KeyStroke) -> bool {
    ||| !key.pressed
    ||| key.key == Key::Up
    ||| key.key == Key::Down
    ||| key.key == Key::Enter
    ||| key.key == Key::Esc
    ||| key.key == Key::Other
}

/// The backspace key undoes the typing of a character, and the two arrow keys undo each other away
/// from the ends of the line.
pub proof fn law_erasing_undoes_typing(line: Line, c: char)
    requires
        line.wf(),
    ensures
        typed_into(line, c).wf(),
        erased(typed_into(line, c)) == line,
        line.cursor < line.value.len() ==> moved(moved(line, Key::Right), Key::Left) == line,
        line.cursor > 0 ==> moved(moved(line, Key::Left), Key::Right) == line,
{
    assert(typed_into(line, c).value.remove(line.cursor as int) =~= line.value);
}

/// What `tui_input::Input` makes of a text with a cursor in it when a key event arrives.
pub uninterp spec fn tui_edited(value: Seq<char>, cursor: nat, key: KeyStroke) -> (Seq<char>, nat);

/// Calls `handle_event` of `tui_input::Input`, whose result on a given text, cursor and key event
/// is `tui_edited`: the cursor stays in the text, a character is inserted at the cursor, the
/// backspace key removes the character before it and the delete key the one behind it, the arrow
/// keys, the home key and the end key move it, and a key that edits nothing changes nothing. What
/// keys do together with other modifier keys is not said further.
#[verifier::external_body]
fn edit(value: &str, cursor: usize, key: KeyStroke) -> (r: (String, usize))
    requires
        cursor <= value@.len(),
    ensures
        (r.0@, r.1 as nat) == tui_edited(value@, cursor as nat, key),
        r.1 <= r.0@.len(),
        typed(key) matches Some(c) ==> r.0@ == value@.insert(cursor as int, c) && r.1 == cursor
            + 1,
        erases(key) ==> (Line { value: r.0@, cursor: r.1 as nat }) == erased(
            (Line { value: value@, cursor: cursor as nat }),
        ),
        moves(key) ==> (Line { value: r.0@, cursor: r.1 as nat }) == moved(
            (Line { value: value@, cursor: cursor as nat }),
            key.key,
        ),
        inert(key) ==> r.0@ == value@ && r.1 == cursor,
{
    let code = match key.key {
        Key::Backspace => KeyCode::Backspace, Key::Delete => KeyCode::Delete,
        Key::Left => KeyCode::Left, Key::Right => KeyCode::Right,
        Key::Home => KeyCode::Home, Key::End => KeyCode::End,
        Key::Up => KeyCode::Up, Key::Down => KeyCode::Down,
        Key::Enter => KeyCode::Enter, Key::Esc => KeyCode::Esc,
        Key::Char(c) => KeyCode::Char(c), Key::Other => KeyCode::Null,
    };
    let kind = if key.pressed { KeyEventKind::Press } else { KeyEventKind::Release };
    let modifiers = KeyModifiers::from_bits_truncate(key.modifiers);
    let mut input = Input::from(value).with_cursor(cursor);
    input.handle_event(&Event::Key(KeyEvent::new_with_kind(code, modifiers, kind)));
    (input.value().to_string(), input.cursor())
}

/// Whether a text consists of printable ASCII characters, each of which takes one column.
pub open spec fn printable(value: Seq<char>) -> bool {
    forall|i: int| 0 <= i < value.len() ==> ' ' <= #[trigger] value[i] <= '~'
}

/// The columns by which a cursor is past a window.
pub open spec fn excess(cursor: nat, width: nat) -> nat {
    if cursor > width {
        (cursor - width) as nat
    } else {
        0
    }
}

/// The column that `tui_input::Input` gives for the cursor of a text.
pub uninterp spec fn tui_visual_cursor(value: Seq<char>, cursor: nat) -> nat;

/// Calls `visual_cursor` of `tui_input::Input`, whose result on a given text and cursor is
/// `tui_visual_cursor`; it is 0 at the start of the text, and in a text of printable ASCII characters
/// it is the number of characters before the cursor. How wide other characters are is not said
/// further.
#[verifier::external_body]
fn visual_cursor(value: &str, cursor: usize) -> (n: usize)
    requires
        cursor <= value@.len(),
    ensures
        n == tui_visual_cursor(value@, cursor as nat),
        cursor == 0 ==> n == 0,
        printable(value@) ==> n == cursor,
{
    Input::new(value.to_string()).with_cursor(cursor).visual_cursor()
}

/// The scroll position that `tui_input::Input` gives for a window of a given width.
pub uninterp spec fn tui_visual_scroll(value: Seq<char>, cursor: nat, width: nat) -> nat;

/// Calls `visual_scroll` of `tui_input::Input`, whose result on a given text, cursor and width is
/// `tui_visual_scroll`; it is 0 while the cursor's column is at most the width, and in a text of
/// printable ASCII characters it is what the cursor is past the width. How wide other characters are is
/// not said further.
#[verifier::external_body]
fn visual_scroll(value: &str, cursor: usize, width: usize) -> (n: usize)
    requires
        cursor <= value@.len(),
    ensures
        n == tui_visual_scroll(value@, cursor as nat, width as nat),
        tui_visual_cursor(value@, cursor as nat) <= width ==> n == 0,
        printable(value@) ==> n == excess(cursor as nat, width as nat),
{
    Input::new(value.to_string()).with_cursor(cursor).visual_scroll(width)
}

/// A character that is pressed alone or with shift is put in front of the cursor, and the cursor goes
/// behind it; the characters before and behind keep their order.
pub proof fn law_typing(line: Line, c: char, shift: bool)
    requires
        line.wf(),
    ensures
        ({
            let key = KeyStroke {
                key: Key::Char(c),
                modifiers: if shift {
                    1
                } else {
                    0
                },
                pressed: true,
            };
            let after = typed_into(line, c);
            &&& typed(key) == Some(c)
            &&& after.value == line.value.take(line.cursor as int) + seq![c] + line.value.skip(
                line.cursor as int,
            )
            &&& after.cursor == line.cursor + 1
        }),
{
    assert(typed_into(line, c).value =~= line.value.take(line.cursor as int) + seq![c]
        + line.value.skip(line.cursor as int));
}

/// The backspace key takes away the character in front of the cursor, and the delete key the one behind
/// it, where there is one.
pub proof fn law_erasing(line: Line)
    requires
        line.wf(),
    ensures
        ({
            let backspace = KeyStroke { key: Key::Backspace, modifiers: 0, pressed: true };
            let delete = KeyStroke { key: Key::Delete, modifiers: 0, pressed: true };
            let k = line.cursor as int;
            &&& erases(backspace)
            &&& moves(delete)
            &&& k > 0 ==> erased(line).value == line.value.take(k - 1) + line.value.skip(k)
                && erased(line).cursor == k - 1
            &&& k == 0 ==> erased(line) == line
            &&& k < line.value.len() ==> moved(line, Key::Delete).value == line.value.take(k)
                + line.value.skip(k + 1) && moved(line, Key::Delete).cursor == k
            &&& k == line.value.len() ==> moved(line, Key::Delete) == line
        }),
{
    let k = line.cursor as int;
    if k > 0 {
        assert(erased(line).value =~= line.value.take(k - 1) + line.value.skip(k));
    }
    if k < line.value.len() {
        assert(moved(line, Key::Delete).value =~= line.value.take(k) + line.value.skip(k + 1));
    }
}

/// The arrow keys move the cursor by one character as far as there is one, the home key to the start of
/// the line and the end key behind its text; the text stays as it is.
pub proof fn law_moving(line: Line)
    requires
        line.wf(),
    ensures
        forall|key: Key|
            key == Key::Left || key == Key::Right || key == Key::Home || key == Key::End ==> moves(
                KeyStroke { key, modifiers: 0, pressed: true },
            ) && (#[trigger] moved(line, key)).value == line.value,
        moved(line, Key::Left).cursor == if line.cursor > 0 {
            line.cursor - 1
        } else {
            0
        },
        moved(line, Key::Right).cursor == if line.cursor < line.value.len() {
            line.cursor + 1
        } else {
            line.cursor
        },
        moved(line, Key::Home).cursor == 0,
        moved(line, Key::End).cursor == line.value.len(),
{
}

/// What is let go or held down, and the keys that have another meaning, leave a line alone.
pub proof fn law_keys_that_edit_nothing(key: KeyStroke)
    ensures
        !key.pressed ==> inert(key),
        key.key == Key::Up || key.key == Key::Down || key.key == Key::Enter || key.key == Key::Esc
            || key.key == Key::Other ==> inert(key),
        inert(key) ==> typed(key) is None && !erases(key) && !moves(key),
{
}

/// A line that is filled has the cursor behind its text. A text of printable ASCII characters is as wide
/// as it has characters, and is scrolled by what the cursor is past the window.
pub proof fn law_lines(value: Seq<char>, cursor: nat, width: nat, line: InputLine)
    ensures
        line_of(value).value == value,
        line_of(value).cursor == value.len(),
        printable(value) <==> forall|i: int| 0 <= i < value.len() ==> 0x20 <= #[trigger] value[i] as int <= 0x7e,
        cursor > width ==> excess(cursor, width) + width == cursor,
        cursor <= width ==> excess(cursor, width) == 0,
        line@.value == line.value@,
        line@.cursor == line.cursor,
{
}

/// A line after a key event is what `tui_input` makes of its text and its cursor.
pub proof fn law_editing(line: Line, key: KeyStroke)
    ensures
        edited(line, key).value == tui_edited(line.value, line.cursor, key).0,
        edited(line, key).cursor == tui_edited(line.value, line.cursor, key).1,
{
}

} // verus!
