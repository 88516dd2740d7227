use stickynote::edit::{
    action_for, cursor_style, state_label, transition, Action, CursorStyle, EditState, Key,
    SubMode,
};
use stickynote::layout::{edit_cursor, first_x, first_y, layout, status_bar, Region};
use stickynote::session::Focus;
use stickynote::text::{char_count, insert_char_at, remove_char_before};

const NAV: EditState = EditState::Editing(SubMode::Navigate);
const INS: EditState = EditState::Editing(SubMode::Insert);

#[test]
fn browsing_key_table() {
    let b = EditState::Browsing;
    assert_eq!(action_for(b, Key::Char('q')), Action::Quit);
    assert_eq!(action_for(b, Key::Char('n')), Action::AddNote);
    assert_eq!(action_for(b, Key::Char('s')), Action::NewStack);
    assert_eq!(action_for(b, Key::Char('d')), Action::DeleteNote);
    assert_eq!(action_for(b, Key::Char('h')), Action::MoveLeft);
    assert_eq!(action_for(b, Key::Left), Action::MoveLeft);
    assert_eq!(action_for(b, Key::Char('l')), Action::MoveRight);
    assert_eq!(action_for(b, Key::Right), Action::MoveRight);
    assert_eq!(action_for(b, Key::Char('j')), Action::MoveDown);
    assert_eq!(action_for(b, Key::Down), Action::MoveDown);
    assert_eq!(action_for(b, Key::Char('k')), Action::MoveUp);
    assert_eq!(action_for(b, Key::Up), Action::MoveUp);
    assert_eq!(action_for(b, Key::Char('e')), Action::Switch(NAV));
    assert_eq!(action_for(b, Key::Char('i')), Action::Switch(INS));
    assert_eq!(action_for(b, Key::Esc), Action::Ignore);
    assert_eq!(action_for(b, Key::Backspace), Action::Ignore);
}

#[test]
fn editing_key_table() {
    assert_eq!(action_for(NAV, Key::Char('i')), Action::Switch(INS));
    assert_eq!(action_for(NAV, Key::Esc), Action::Switch(EditState::Browsing));
    assert_eq!(action_for(NAV, Key::Char('q')), Action::Ignore);
    assert_eq!(action_for(INS, Key::Esc), Action::Switch(NAV));
    assert_eq!(action_for(INS, Key::Char('q')), Action::InsertChar('q'));
    assert_eq!(action_for(INS, Key::Backspace), Action::DeleteBack);
    assert_eq!(action_for(INS, Key::Left), Action::Ignore);
}

#[test]
fn transitions_follow_the_state_machine() {
    let b = EditState::Browsing;
    assert_eq!(transition(transition(b, Key::Char('e')), Key::Esc), b);
    let ins = transition(b, Key::Char('i'));
    assert_eq!(ins, INS);
    assert_eq!(transition(transition(ins, Key::Esc), Key::Esc), b);
    assert_eq!(transition(INS, Key::Char('e')), INS);
    assert_eq!(transition(b, Key::Other), b);
}

#[test]
fn cursor_style_and_labels() {
    assert_eq!(cursor_style(INS), CursorStyle::BlinkingBar);
    assert_eq!(cursor_style(NAV), CursorStyle::DefaultShape);
    assert_eq!(cursor_style(EditState::Browsing), CursorStyle::DefaultShape);
    assert_eq!(state_label(EditState::Browsing), "Normal");
    assert_eq!(state_label(NAV), "Edit");
    assert_eq!(state_label(INS), "Insert");
}

#[test]
fn first_x_for_two_stacks_on_80_columns() {
    assert_eq!(first_x(80, 2), 10);
}

#[test]
fn first_x_rounds_down_when_stacks_overflow() {
    // (80 - 4*25) / 2 - 10 + 5 = -10 - 5 = -15
    assert_eq!(first_x(80, 4), -15);
    // (81 - 4*25) / 2 = floor(-19/2) = -10
    assert_eq!(first_x(81, 4), -15);
    assert_eq!(first_x(81, 2), 10);
    assert_eq!(first_x(0, 0), -5);
}

#[test]
fn first_y_centres_or_skips() {
    // (24 - 15) / 2 + 2 + 2 = 8
    assert_eq!(first_y(24, 1), Some(8));
    // 30 - 30 = 0, 0 + 4 + 2 = 6
    assert_eq!(first_y(30, 2), Some(6));
    assert_eq!(first_y(24, 2), None);
    assert_eq!(first_y(0, 0), Some(2));
    assert_eq!(first_y(u16::MAX, usize::MAX), None);
}

#[test]
fn layout_places_every_drawn_note() {
    let cols = layout(80, 24, &vec![1, 2]);
    assert_eq!(cols.len(), 2);
    let first = cols[0].as_ref().unwrap();
    assert_eq!(first, &vec![Region { x: 10, y: 8, width: 20, height: 10 }]);
    assert!(cols[1].is_none());

    let cols = layout(100, 40, &vec![2, 1, 2]);
    // first_x = (100 - 75) / 2 - 10 + 5 = 7; first_y = (40 - 30) / 2 + 4 + 2 = 11
    let a = cols[0].as_ref().unwrap();
    assert_eq!(a[0], Region { x: 7, y: 11, width: 20, height: 10 });
    assert_eq!(a[1], Region { x: 7, y: 21, width: 20, height: 10 });
    let b = cols[1].as_ref().unwrap();
    assert_eq!(b, &vec![Region { x: 32, y: 16, width: 20, height: 10 }]);
    let c = cols[2].as_ref().unwrap();
    assert_eq!(c[1].x, 57);
    assert!(layout(80, 24, &vec![]).is_empty());
}

#[test]
fn status_bar_is_centred_near_top() {
    assert_eq!(status_bar(80), Region { x: 36, y: 1, width: 8, height: 3 });
    assert_eq!(status_bar(5), Region { x: -2, y: 1, width: 8, height: 3 });
}

#[test]
fn edit_cursor_sits_inside_focused_note() {
    let sizes = vec![2, 1, 2];
    let f = Focus { stack_index: 0, note_index: 1 };
    assert_eq!(edit_cursor(100, 40, &sizes, NAV, f), Some((8, 22)));
    assert_eq!(edit_cursor(100, 40, &sizes, INS, f), Some((8, 22)));
    assert_eq!(edit_cursor(100, 40, &sizes, EditState::Browsing, f), None);
    assert_eq!(edit_cursor(100, 20, &sizes, NAV, f), None);
    let missing = Focus { stack_index: 1, note_index: 1 };
    assert_eq!(edit_cursor(100, 40, &sizes, NAV, missing), None);
}

#[test]
fn text_helpers_edit_by_character() {
    let s = "ab".to_string();
    assert_eq!(insert_char_at(&s, 1, 'x'), "axb");
    assert_eq!(insert_char_at(&s, 0, 'x'), "xab");
    assert_eq!(insert_char_at(&s, 2, 'ü'), "abü");
    let u = "hé!".to_string();
    assert_eq!(char_count(&u), 3);
    assert_eq!(remove_char_before(&u, 2), "h!");
    assert_eq!(remove_char_before(&u, 1), "é!");
    assert_eq!(insert_char_at(&String::new(), 0, 'z'), "z");
}
