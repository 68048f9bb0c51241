use lspedit::change::{advance_cursor, DidChangeNotifyBuilder, Position};
use lspedit::editor::{
    fix_top, fix_top_left, normal_command, select_next, select_prev, BrokenCharacter, InsertAction,
    InsertInput, NormalCommand,
};
use lspedit::key::Key;
use lspedit::viewer::ViewerRect;

#[test]
fn normal_mode_keys() {
    assert_eq!(normal_command(Key::char(b'j')), Some(NormalCommand::MoveDown));
    assert_eq!(normal_command(Key::char(b'k')), Some(NormalCommand::MoveUp));
    assert_eq!(normal_command(Key::char(b'h')), Some(NormalCommand::MoveLeft));
    assert_eq!(normal_command(Key::char(b'l')), Some(NormalCommand::MoveRight));
    assert_eq!(normal_command(Key::char(b'i')), Some(NormalCommand::EnterInsert));
    assert_eq!(normal_command(Key::ctrl(b'w')), Some(NormalCommand::NextViewer));
    assert_eq!(normal_command(Key::char(b'K')), Some(NormalCommand::Hover));
    assert_eq!(normal_command(Key::char(b'x')), None);
    assert_eq!(normal_command(Key::ArrowUp), None);
}

#[test]
fn insert_mode_commands() {
    let mut input = InsertInput::new();
    assert!(matches!(input.feed(Key::escape()), Ok(InsertAction::LeaveInsert)));
    assert!(matches!(input.feed(Key::backspace()), Ok(InsertAction::Backspace)));
    assert!(matches!(input.feed(Key::char(b'\r')), Ok(InsertAction::Newline)));
    assert!(matches!(input.feed(Key::ctrl(b'd')), Ok(InsertAction::DoCompletion)));
    assert!(matches!(input.feed(Key::ArrowUp), Ok(InsertAction::CompletionPrev)));
    assert!(matches!(input.feed(Key::ArrowDown), Ok(InsertAction::CompletionNext)));
    assert!(matches!(input.feed(Key::ArrowLeft), Ok(InsertAction::Nothing)));
    assert!(matches!(input.feed(Key::char(1)), Ok(InsertAction::Nothing)));
}

#[test]
fn ascii_is_typed_at_once() {
    let mut input = InsertInput::new();
    match input.feed(Key::char(b'a')) {
        Ok(InsertAction::Insert(s)) => assert_eq!(s, "a"),
        other => panic!("unexpected: {:?}", other),
    }
}

#[test]
fn multibyte_character_is_collected() {
    let mut input = InsertInput::new();
    let bytes = "\u{3042}".as_bytes();
    assert!(matches!(input.feed(Key::char(bytes[0])), Ok(InsertAction::Nothing)));
    assert!(matches!(input.feed(Key::char(bytes[1])), Ok(InsertAction::Nothing)));
    match input.feed(Key::char(bytes[2])) {
        Ok(InsertAction::Insert(s)) => assert_eq!(s, "\u{3042}"),
        other => panic!("unexpected: {:?}", other),
    }
}

#[test]
fn non_byte_key_inside_a_character_is_refused() {
    let mut input = InsertInput::new();
    assert!(matches!(input.feed(Key::char(0xe3)), Ok(InsertAction::Nothing)));
    assert_eq!(input.feed(Key::ArrowUp).err(), Some(BrokenCharacter));
}

#[test]
fn scrolling_brings_the_cursor_into_view() {
    let rect = ViewerRect { h: 10, w: 20, i: 0, j: 0 };
    assert_eq!(fix_top_left(0, 0, (3, 4), &rect), (0, 0));
    assert_eq!(fix_top_left(5, 7, (3, 4), &rect), (3, 4));
    assert_eq!(fix_top_left(0, 0, (15, 25), &rect), (6, 6));
}

#[test]
fn selection_wraps_round() {
    assert_eq!(select_next(0, 3), 1);
    assert_eq!(select_next(2, 3), 0);
    assert_eq!(select_prev(0, 3), 2);
    assert_eq!(select_prev(2, 3), 1);
    assert_eq!(fix_top(0, 5, 3), 3);
    assert_eq!(fix_top(4, 2, 3), 2);
    assert_eq!(fix_top(1, 2, 3), 1);
}

#[test]
fn cursor_moves_over_typed_text() {
    assert_eq!(advance_cursor((2, 3), "ab"), (2, 5));
    assert_eq!(advance_cursor((2, 3), "a\nbc"), (3, 2));
    assert_eq!(advance_cursor((0, 7), "\n"), (1, 0));
    assert_eq!(advance_cursor((4, 4), ""), (4, 4));
    assert_eq!(advance_cursor((0, 0), "\u{3042}\u{3044}"), (0, 2));
}

#[test]
fn change_notification_lists_its_changes() {
    let b = DidChangeNotifyBuilder::new("file:///a.c".to_string(), 3)
        .insert((1, 2), "x".to_string())
        .delete((0, 0), (0, 4))
        .full("all".to_string());
    assert_eq!(b.uri, "file:///a.c");
    assert_eq!(b.version, 3);
    assert_eq!(b.changes.len(), 3);
    let p = |line, character| Position { line, character };
    assert_eq!(b.changes[0].range, Some((p(1, 2), p(1, 2))));
    assert_eq!(b.changes[0].text, "x");
    assert_eq!(b.changes[1].range, Some((p(0, 0), p(0, 4))));
    assert_eq!(b.changes[1].text, "");
    assert_eq!(b.changes[2].range, None);
    assert_eq!(b.changes[2].text, "all");
}

#[test]
fn cursor_moves_within_lines() {
    assert_eq!(lspedit::editor::move_left((3, 0)), (3, 0));
    assert_eq!(lspedit::editor::move_left((3, 2)), (3, 1));
    assert_eq!(lspedit::editor::move_right((0, 2), 4), (0, 3));
    assert_eq!(lspedit::editor::move_right((0, 3), 4), (0, 3));
    assert_eq!(lspedit::editor::move_right((0, 1), 4), (0, 2));
    assert_eq!(lspedit::editor::row_above(0), 0);
    assert_eq!(lspedit::editor::row_above(5), 4);
    assert_eq!(lspedit::editor::row_below(0, 3), 1);
    assert_eq!(lspedit::editor::row_below(1, 3), 1);
    assert_eq!(lspedit::editor::row_below(0, 1), 0);
    assert_eq!(lspedit::editor::clamp_column(9, 4), 3);
    assert_eq!(lspedit::editor::clamp_column(1, 4), 1);
    assert_eq!(lspedit::editor::clamp_column(1, 0), 0);
}

#[test]
fn backspace_removes_the_character_before_the_cursor() {
    assert_eq!(lspedit::editor::backspace_edit((0, 0), 0, 0), None);
    let e = lspedit::editor::backspace_edit((2, 3), 10, 0).unwrap();
    assert_eq!((e.remove_start, e.remove_end), (12, 13));
    assert_eq!(e.cursor, (2, 2));
    assert_eq!((e.change_start, e.change_end), ((2, 2), (2, 3)));
    let e = lspedit::editor::backspace_edit((1, 0), 6, 6).unwrap();
    assert_eq!((e.remove_start, e.remove_end), (5, 6));
    assert_eq!(e.cursor, (0, 5));
    assert_eq!((e.change_start, e.change_end), ((0, 5), (1, 0)));
}
