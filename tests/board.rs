use stickynote::edit::{Action, EditState, Key, SubMode};
use stickynote::notes::{Stack, Stickynote};
use stickynote::session::{App, Focus};

fn board(sizes: &[usize], stack_index: usize, note_index: usize) -> App {
    let stacks: Vec<Stack> = sizes
        .iter()
        .map(|&n| Stack::new((0..n).map(|_| Stickynote::new(String::new())).collect()))
        .collect();
    App::from_stacks(stacks, Focus { stack_index, note_index }).expect("valid board")
}

fn focus(app: &App) -> (usize, usize) {
    (app.focus.stack_index, app.focus.note_index)
}

#[test]
fn new_board_has_one_blank_note() {
    let app = App::new();
    assert_eq!(app.stack_sizes(), vec![1]);
    assert_eq!(app.total_notes(), 1);
    assert_eq!(app.stacks[0].notes[0].text, "");
    assert_eq!(app.state, EditState::Browsing);
    assert_eq!(focus(&app), (0, 0));
}

#[test]
fn note_and_stack_constructors_keep_their_contents() {
    let n = Stickynote::new("hello".to_string());
    assert_eq!(n.text, "hello");
    let s = Stack::new(vec![n, Stickynote::new(String::new())]);
    assert_eq!(s.notes.len(), 2);
    assert_eq!(s.notes[0].text, "hello");
}

#[test]
fn from_stacks_rejects_invalid_boards() {
    assert!(App::from_stacks(vec![], Focus { stack_index: 0, note_index: 0 }).is_none());
    let with_empty = vec![Stack::new(vec![Stickynote::new(String::new())]), Stack::new(vec![])];
    assert!(App::from_stacks(with_empty, Focus { stack_index: 0, note_index: 0 }).is_none());
    let one = vec![Stack::new(vec![Stickynote::new(String::new())])];
    assert!(App::from_stacks(one, Focus { stack_index: 0, note_index: 1 }).is_none());
    let one = vec![Stack::new(vec![Stickynote::new(String::new())])];
    assert!(App::from_stacks(one, Focus { stack_index: 1, note_index: 0 }).is_none());
}

#[test]
fn total_notes_sums_stacks() {
    let app = board(&[1, 2, 3, 3], 0, 0);
    assert_eq!(app.total_notes(), 9);
    assert_eq!(app.stack_sizes(), vec![1, 2, 3, 3]);
}

#[test]
fn move_right_clamps_note_index() {
    let mut app = board(&[3, 2], 0, 2);
    app.move_right();
    assert_eq!(focus(&app), (1, 1));
}

#[test]
fn move_left_clamps_note_index() {
    let mut app = board(&[1, 3], 1, 2);
    app.move_left();
    assert_eq!(focus(&app), (0, 0));
}

#[test]
fn delete_empties_and_removes_first_stack() {
    let mut app = board(&[1, 2, 3, 3], 0, 0);
    app.delete_focused_note();
    assert_eq!(app.stack_sizes(), vec![2, 3, 3]);
    assert_eq!(app.total_notes(), 8);
    assert_eq!(focus(&app), (0, 0));
}

#[test]
fn delete_last_stack_clamps_stack_index() {
    let mut app = board(&[2, 1], 1, 0);
    app.delete_focused_note();
    assert_eq!(app.stack_sizes(), vec![2]);
    assert_eq!(focus(&app), (0, 0));
}

#[test]
fn delete_last_note_of_stack_clamps_note_index() {
    let mut app = board(&[3], 0, 2);
    app.delete_focused_note();
    assert_eq!(app.stack_sizes(), vec![2]);
    assert_eq!(focus(&app), (0, 1));
}

#[test]
fn delete_middle_note_keeps_the_others_in_order() {
    let stacks = vec![Stack::new(vec![
        Stickynote::new("a".to_string()),
        Stickynote::new("b".to_string()),
        Stickynote::new("c".to_string()),
    ])];
    let mut app = App::from_stacks(stacks, Focus { stack_index: 0, note_index: 1 }).unwrap();
    app.delete_focused_note();
    let texts: Vec<&str> = app.stacks[0].notes.iter().map(|n| n.text.as_str()).collect();
    assert_eq!(texts, vec!["a", "c"]);
    assert_eq!(focus(&app), (0, 1));
}

#[test]
fn deleting_sole_note_only_clears_it() {
    let stacks = vec![Stack::new(vec![Stickynote::new("keep me".to_string())])];
    let mut app = App::from_stacks(stacks, Focus { stack_index: 0, note_index: 0 }).unwrap();
    for _ in 0..3 {
        app.delete_focused_note();
        assert_eq!(app.total_notes(), 1);
        assert_eq!(app.stack_sizes(), vec![1]);
        assert_eq!(app.stacks[0].notes[0].text, "");
        assert_eq!(focus(&app), (0, 0));
    }
}

#[test]
fn new_stack_goes_after_focused_stack() {
    let mut app = board(&[2, 3], 0, 1);
    app.new_stack();
    assert_eq!(app.stack_sizes(), vec![2, 1, 3]);
    assert_eq!(app.stacks[1].notes[0].text, "");
    assert_eq!(focus(&app), (0, 1));
}

#[test]
fn add_to_stack_appends_empty_note() {
    let mut app = board(&[2, 3], 1, 0);
    app.add_to_stack();
    assert_eq!(app.stack_sizes(), vec![2, 4]);
    assert_eq!(app.stacks[1].notes[3].text, "");
    assert_eq!(focus(&app), (1, 0));
}

#[test]
fn vertical_moves_wrap() {
    let mut app = board(&[3], 0, 2);
    app.move_down();
    assert_eq!(focus(&app), (0, 0));
    app.move_up();
    assert_eq!(focus(&app), (0, 2));
    app.move_up();
    assert_eq!(focus(&app), (0, 1));
    app.move_down();
    assert_eq!(focus(&app), (0, 2));
}

#[test]
fn horizontal_moves_stop_at_edges() {
    let mut app = board(&[2, 2], 0, 1);
    app.move_left();
    assert_eq!(focus(&app), (0, 1));
    app.move_right();
    assert_eq!(focus(&app), (1, 1));
    app.move_right();
    assert_eq!(focus(&app), (1, 1));
    assert_eq!(app.stack_sizes(), vec![2, 2]);
}

#[test]
fn get_focused_note_edits_in_place() {
    let mut app = board(&[1, 2], 1, 1);
    app.get_focused_note().text = "hi".to_string();
    assert_eq!(app.stacks[1].notes[1].text, "hi");
    assert_eq!(app.stacks[1].notes[0].text, "");
}

#[test]
fn keys_drive_commands_while_browsing() {
    let mut app = board(&[3, 2], 0, 2);
    assert!(app.handle_key(Key::Right));
    assert_eq!(focus(&app), (1, 1));
    assert!(app.handle_key(Key::Char('h')));
    assert_eq!(focus(&app), (0, 1));
    assert!(app.handle_key(Key::Char('j')));
    assert!(app.handle_key(Key::Down));
    assert_eq!(focus(&app), (0, 0));
    assert!(app.handle_key(Key::Char('k')));
    assert_eq!(focus(&app), (0, 2));
    assert!(app.handle_key(Key::Up));
    assert_eq!(focus(&app), (0, 1));
    assert!(app.handle_key(Key::Char('l')));
    assert_eq!(focus(&app), (1, 1));
    assert!(app.handle_key(Key::Left));
    assert_eq!(focus(&app), (0, 1));
    assert!(app.handle_key(Key::Char('n')));
    assert_eq!(app.stack_sizes(), vec![4, 2]);
    assert!(app.handle_key(Key::Char('s')));
    assert_eq!(app.stack_sizes(), vec![4, 1, 2]);
    assert!(app.handle_key(Key::Char('d')));
    assert_eq!(app.stack_sizes(), vec![3, 1, 2]);
    assert!(app.handle_key(Key::Char('z')));
    assert!(app.handle_key(Key::Esc));
    assert_eq!(app.stack_sizes(), vec![3, 1, 2]);
    assert!(!app.handle_key(Key::Char('q')));
}

#[test]
fn e_then_escape_returns_to_browsing() {
    let mut app = App::new();
    app.handle_key(Key::Char('e'));
    assert_eq!(app.state, EditState::Editing(SubMode::Navigate));
    app.handle_key(Key::Esc);
    assert_eq!(app.state, EditState::Browsing);
}

#[test]
fn i_then_escape_twice_returns_to_browsing() {
    let mut app = App::new();
    app.handle_key(Key::Char('i'));
    assert_eq!(app.state, EditState::Editing(SubMode::Insert));
    app.handle_key(Key::Esc);
    assert_eq!(app.state, EditState::Editing(SubMode::Navigate));
    app.handle_key(Key::Esc);
    assert_eq!(app.state, EditState::Browsing);
}

#[test]
fn navigate_mode_ignores_commands() {
    let mut app = board(&[2, 2], 0, 0);
    app.handle_key(Key::Char('e'));
    assert!(app.handle_key(Key::Char('q')));
    app.handle_key(Key::Char('d'));
    app.handle_key(Key::Right);
    assert_eq!(app.stack_sizes(), vec![2, 2]);
    assert_eq!(focus(&app), (0, 0));
    app.handle_key(Key::Char('i'));
    assert_eq!(app.state, EditState::Editing(SubMode::Insert));
}

#[test]
fn insert_mode_types_at_the_cursor() {
    let stacks = vec![Stack::new(vec![Stickynote::new("ab".to_string())])];
    let mut app = App::from_stacks(stacks, Focus { stack_index: 0, note_index: 0 }).unwrap();
    app.handle_key(Key::Char('i'));
    assert_eq!(app.cursor, 2);
    for c in ['c', 'q', 'é'] {
        app.handle_key(Key::Char(c));
    }
    assert_eq!(app.stacks[0].notes[0].text, "abcqé");
    assert_eq!(app.cursor, 5);
    app.handle_key(Key::Backspace);
    app.handle_key(Key::Backspace);
    assert_eq!(app.stacks[0].notes[0].text, "abc");
    assert_eq!(app.cursor, 3);
    assert_eq!(app.total_notes(), 1);
}

#[test]
fn insert_and_backspace_respect_cursor_position() {
    let stacks = vec![Stack::new(vec![Stickynote::new("abc".to_string())])];
    let mut app = App::from_stacks(stacks, Focus { stack_index: 0, note_index: 0 }).unwrap();
    app.switch_to(EditState::Editing(SubMode::Insert));
    app.cursor = 1;
    app.insert_char('X');
    assert_eq!(app.stacks[0].notes[0].text, "aXbc");
    assert_eq!(app.cursor, 2);
    app.delete_back();
    app.delete_back();
    assert_eq!(app.stacks[0].notes[0].text, "bc");
    assert_eq!(app.cursor, 0);
    app.delete_back();
    assert_eq!(app.stacks[0].notes[0].text, "bc");
    assert_eq!(app.cursor, 0);
}

#[test]
fn cursor_beyond_text_is_held_at_its_end() {
    let stacks = vec![Stack::new(vec![Stickynote::new("ab".to_string())])];
    let mut app = App::from_stacks(stacks, Focus { stack_index: 0, note_index: 0 }).unwrap();
    app.cursor = 10;
    app.insert_char('!');
    assert_eq!(app.stacks[0].notes[0].text, "ab!");
    assert_eq!(app.cursor, 3);
}

#[test]
fn apply_quit_and_ignore_change_nothing() {
    let mut app = board(&[2], 0, 1);
    app.apply(Action::Quit);
    app.apply(Action::Ignore);
    assert_eq!(app.stack_sizes(), vec![2]);
    assert_eq!(focus(&app), (0, 1));
    assert_eq!(app.state, EditState::Browsing);
}
