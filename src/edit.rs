use vstd::prelude::*;

verus! {

/// The two sub-modes of editing.
#[derive(Clone, Copy, PartialEq, Eq, Structural, Debug)]
pub enum SubMode {
    Navigate,
    Insert,
}

/// Whether keys drive navigation and commands, or edit a note.
#[derive(Clone, Copy, PartialEq, Eq, Structural, Debug)]
pub enum EditState {
    Browsing,
    Editing(SubMode),
}

/// A key press, as far as the board tells keys apart.
#[derive(Clone, Copy, PartialEq, Eq, Structural, Debug)]
pub enum Key {
    Char(char),
    Left,
    Right,
    Up,
    Down,
    Esc,
    Backspace,
    Other,
}

/// What one key press does to the session.
#[derive(Clone, Copy, PartialEq, Eq, Structural, Debug)]
pub enum Action {
    Quit,
    AddNote,
    NewStack,
    DeleteNote,
    MoveLeft,
    MoveRight,
    MoveUp,
    MoveDown,
    Switch(EditState),
    InsertChar(char),
    DeleteBack,
    Ignore,
}

/// The terminal cursor shape that a state asks for.
#[derive(Clone, Copy, PartialEq, Eq, Structural, Debug)]
pub enum CursorStyle {
    DefaultShape,
    BlinkingBar,
}

/// The key bindings, keyed by state and key.
pub open spec fn action_of(state: EditState, key: Key) -> Action {
    match state {
        EditState::Browsing => match key {
            Key::Char('q') => Action::Quit,
            Key::Char('n') => Action::AddNote,
            Key::Char('s') => Action::NewStack,
            Key::Char('d') => Action::DeleteNote,
            Key::Char('h') | Key::Left => Action::MoveLeft,
            Key::Char('l') | Key::Right => Action::MoveRight,
            Key::Char('j') | Key::Down => Action::MoveDown,
            Key::Char('k') | Key::Up => Action::MoveUp,
            Key::Char('e') => Action::Switch(EditState::Editing(SubMode::Navigate)),
            Key::Char('i') => Action::Switch(EditState::Editing(SubMode::Insert)),
            _ => Action::Ignore,
        },
        EditState::Editing(SubMode::Navigate) => match key {
            Key::Char('i') => Action::Switch(EditState::Editing(SubMode::Insert)),
            Key::Esc => Action::Switch(EditState::Browsing),
            _ => Action::Ignore,
        },
        EditState::Editing(SubMode::Insert) => match key {
            Key::Esc => Action::Switch(EditState::Editing(SubMode::Navigate)),
            Key::Char(c) => Action::InsertChar(c),
            Key::Backspace => Action::DeleteBack,
            _ => Action::Ignore,
        },
    }
}

/// The state after a key press: only a switch changes it.
pub open spec fn next_state(state: EditState, key: Key) -> EditState {
    match action_of(state, key) {
        Action::Switch(s) => s,
        _ => state,
    }
}

/// Looks up the action bound to `key` in `state`.
pub fn action_for(state: EditState, key: Key) -> (r: Action)
    ensures
        r == action_of(state, key),
{
    match state {
        EditState::Browsing => match key {
            Key::Char('q') => Action::Quit,
            Key::Char('n') => Action::AddNote,
            Key::Char('s') => Action::NewStack,
            Key::Char('d') => Action::DeleteNote,
            Key::Char('h') | Key::Left => Action::MoveLeft,
            Key::Char('l') | Key::Right => Action::MoveRight,
            Key::Char('j') | Key::Down => Action::MoveDown,
            Key::Char('k') | Key::Up => Action::MoveUp,
            Key::Char('e') => Action::Switch(EditState::Editing(SubMode::Navigate)),
            Key::Char('i') => Action::Switch(EditState::Editing(SubMode::Insert)),
            _ => Action::Ignore,
        },
        EditState::Editing(SubMode::Navigate) => match key {
            Key::Char('i') => Action::Switch(EditState::Editing(SubMode::Insert)),
            Key::Esc => Action::Switch(EditState::Browsing),
            _ => Action::Ignore,
        },
        EditState::Editing(SubMode::Insert) => match key {
            Key::Esc => Action::Switch(EditState::Editing(SubMode::Navigate)),
            Key::Char(c) => Action::InsertChar(c),
            Key::Backspace => Action::DeleteBack,
            _ => Action::Ignore,
        },
    }
}

/// The state reached from `state` by pressing `key`.
pub fn transition(state: EditState, key: Key) -> (r: EditState)
    ensures
        r == next_state(state, key),
{
    match action_for(state, key) {
        Action::Switch(s) => s,
        _ => state,
    }
}

/// A blinking bar while inserting text, the default shape otherwise.
pub fn cursor_style(state: EditState) -> (r: CursorStyle)
    ensures
        r == (if state == EditState::Editing(SubMode::Insert) {
            CursorStyle::BlinkingBar
        } else {
            CursorStyle::DefaultShape
        }),
{
    match state {
        EditState::Editing(SubMode::Insert) => CursorStyle::BlinkingBar,
        _ => CursorStyle::DefaultShape,
    }
}

/// The label shown in the status bar for each state.
pub open spec fn label_of(state: EditState) -> Seq<char> {
    match state {
        EditState::Browsing => "Normal"@,
        EditState::Editing(SubMode::Navigate) => "Edit"@,
        EditState::Editing(SubMode::Insert) => "Insert"@,
    }
}

/// The status bar text for `state`.
pub fn state_label(state: EditState) -> (r: &'static str)
    ensures
        r@ == label_of(state),
{
    match state {
        EditState::Browsing => "Normal",
        EditState::Editing(SubMode::Navigate) => "Edit",
        EditState::Editing(SubMode::Insert) => "Insert",
    }
}

/// Pressing `e` and then Escape leads from browsing back to browsing, and so
/// does pressing `i` and then Escape twice.
pub proof fn lemma_edit_round_trips()
    ensures
        next_state(next_state(EditState::Browsing, Key::Char('e')), Key::Esc)
            == EditState::Browsing,
        next_state(
            next_state(next_state(EditState::Browsing, Key::Char('i')), Key::Esc),
            Key::Esc,
        ) == EditState::Browsing,
{
}

} // verus!
