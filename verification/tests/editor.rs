use modal_editor::Action;
use modal_editor::Buffer;
use modal_editor::Editor;
use modal_editor::Key;
use modal_editor::Mode;

fn make(lines: &[&str], row: usize, col: usize, mode: Mode) -> Editor {
    Editor {
        mode,
        rows: 10,
        cols: 40,
        row_off: 0,
        col_off: 0,
        current_row: row,
        current_col: col,
        buffer: Buffer {
            file: None,
            lines: lines.iter().map(|s| s.chars().collect()).collect(),
        },
    }
}

fn contents(e: &Editor) -> Vec<String> {
    e.buffer.lines.iter().map(|l| l.iter().collect()).collect()
}

#[test]
fn scenario_type_then_save_without_path() {
    let mut e = Editor::new(Buffer::new(), 10, 40);
    assert_eq!(e.handle_event(Key::Char('i'), true), Action::Continue);
    assert_eq!(e.mode, Mode::Insert);
    assert_eq!(e.handle_event(Key::Char('h'), true), Action::Continue);
    assert_eq!(e.handle_event(Key::Char('i'), true), Action::Continue);
    assert_eq!(e.handle_event(Key::Esc, true), Action::Continue);
    assert_eq!(e.mode, Mode::Normal);
    let before = contents(&e);
    assert_eq!(e.handle_event(Key::Char('s'), true), Action::SaveNoPath);
    assert_eq!(contents(&e), before);
    assert_eq!(contents(&e), vec!["hi"]);
    assert_eq!(e.mode, Mode::Normal);
}

#[test]
fn scenario_right_wraps_to_next_line_start() {
    let mut e = make(&["ab", "cd"], 0, 2, Mode::Normal);
    e.handle_event(Key::Right, true);
    assert_eq!((e.current_row, e.current_col), (1, 0));
}

#[test]
fn scenario_backspace_joins_lines() {
    let mut e = make(&["ab", "cd"], 1, 0, Mode::Insert);
    e.handle_event(Key::Backspace, true);
    assert_eq!(contents(&e), vec!["abcd"]);
    assert_eq!((e.current_row, e.current_col), (0, 2));
}

#[test]
fn scenario_enter_splits_at_line_end() {
    let mut e = make(&["abc"], 0, 3, Mode::Insert);
    e.handle_event(Key::Enter, true);
    assert_eq!(contents(&e), vec!["abc", ""]);
    assert_eq!((e.current_row, e.current_col), (1, 0));
}

#[test]
fn scenario_scroll_snaps_cursor_to_last_visible_row() {
    let mut e = make(&["a", "b", "c", "d", "e"], 4, 0, Mode::Normal);
    e.scroll(2, 40);
    assert_eq!(e.row_off, 3);
}

#[test]
fn scroll_is_idempotent() {
    let mut e = make(&["a", "bbbbbbbb", "c", "d", "e"], 3, 7, Mode::Normal);
    e.scroll(2, 4);
    let first = (e.row_off, e.col_off);
    e.scroll(2, 4);
    assert_eq!((e.row_off, e.col_off), first);
}

#[test]
fn scroll_snaps_back_up_and_left() {
    let mut e = make(&["abcdef", "x", "y"], 0, 1, Mode::Normal);
    e.row_off = 2;
    e.col_off = 4;
    e.scroll(2, 3);
    assert_eq!((e.row_off, e.col_off), (0, 1));
}

#[test]
fn scroll_leaves_offsets_alone_when_cursor_visible() {
    let mut e = make(&["a", "b", "c"], 1, 0, Mode::Normal);
    e.row_off = 1;
    e.scroll(2, 3);
    assert_eq!((e.row_off, e.col_off), (1, 0));
}

#[test]
fn screen_position_maps_through_offsets() {
    let mut e = make(&["a", "b", "c", "d", "e"], 4, 0, Mode::Normal);
    e.scroll(2, 40);
    assert_eq!(e.screen_position(), (1, 0));
}

#[test]
fn split_then_backspace_restores_line_and_cursor() {
    let mut e = make(&["abcdef"], 0, 3, Mode::Insert);
    e.handle_event(Key::Enter, true);
    assert_eq!(contents(&e), vec!["abc", "def"]);
    assert_eq!((e.current_row, e.current_col), (1, 0));
    e.handle_event(Key::Backspace, true);
    assert_eq!(contents(&e), vec!["abcdef"]);
    assert_eq!((e.current_row, e.current_col), (0, 3));
}

#[test]
fn vertical_movement_clamps_column() {
    let mut e = make(&["abcdef", "ab"], 0, 5, Mode::Normal);
    e.handle_event(Key::Down, true);
    assert_eq!((e.current_row, e.current_col), (1, 2));
    e.handle_event(Key::Up, true);
    assert_eq!((e.current_row, e.current_col), (0, 2));
}

#[test]
fn up_at_top_and_down_at_bottom_are_no_ops() {
    let mut e = make(&["ab", "cd"], 0, 1, Mode::Normal);
    e.handle_event(Key::Up, true);
    assert_eq!((e.current_row, e.current_col), (0, 1));
    let mut e2 = make(&["ab", "cd"], 1, 1, Mode::Normal);
    e2.handle_event(Key::Down, true);
    assert_eq!((e2.current_row, e2.current_col), (1, 1));
}

#[test]
fn left_wraps_to_previous_line_end() {
    let mut e = make(&["abc", "d"], 1, 0, Mode::Normal);
    e.handle_event(Key::Left, true);
    assert_eq!((e.current_row, e.current_col), (0, 3));
}

#[test]
fn left_at_origin_is_a_no_op() {
    let mut e = make(&["abc"], 0, 0, Mode::Normal);
    e.handle_event(Key::Left, true);
    assert_eq!((e.current_row, e.current_col), (0, 0));
}

#[test]
fn right_at_document_end_is_a_no_op() {
    let mut e = make(&["ab", "cd"], 1, 2, Mode::Normal);
    e.handle_event(Key::Right, true);
    assert_eq!((e.current_row, e.current_col), (1, 2));
}

#[test]
fn backspace_at_origin_is_a_no_op() {
    let mut e = make(&["ab"], 0, 0, Mode::Insert);
    e.handle_event(Key::Backspace, true);
    assert_eq!(contents(&e), vec!["ab"]);
    assert_eq!((e.current_row, e.current_col), (0, 0));
}

#[test]
fn backspace_mid_line_deletes_before_cursor() {
    let mut e = make(&["abc"], 0, 2, Mode::Insert);
    e.handle_event(Key::Backspace, true);
    assert_eq!(contents(&e), vec!["ac"]);
    assert_eq!((e.current_row, e.current_col), (0, 1));
}

#[test]
fn quit_only_from_normal_mode() {
    let mut e = make(&["ab"], 0, 0, Mode::Normal);
    assert_eq!(e.handle_event(Key::Char('q'), true), Action::Quit);
    let mut e2 = make(&["ab"], 0, 0, Mode::Insert);
    assert_eq!(e2.handle_event(Key::Char('q'), true), Action::Continue);
    assert_eq!(contents(&e2), vec!["qab"]);
}

#[test]
fn save_with_bound_path_requests_save() {
    let mut e = make(&["ab"], 0, 0, Mode::Normal);
    e.buffer.file = Some(String::from("f.txt"));
    assert_eq!(e.handle_event(Key::Char('s'), true), Action::Save);
    assert_eq!(e.mode, Mode::Normal);
}

#[test]
fn non_press_events_are_ignored() {
    let mut e = make(&["ab"], 0, 0, Mode::Insert);
    assert_eq!(e.handle_event(Key::Char('x'), false), Action::Continue);
    assert_eq!(contents(&e), vec!["ab"]);
    let mut e2 = make(&["ab"], 0, 0, Mode::Normal);
    assert_eq!(e2.handle_event(Key::Char('q'), false), Action::Continue);
}

#[test]
fn unrecognized_keys_are_no_ops() {
    let mut e = make(&["ab"], 0, 1, Mode::Normal);
    assert_eq!(e.handle_event(Key::Other, true), Action::Continue);
    assert_eq!((e.current_row, e.current_col), (0, 1));
    let mut e2 = make(&["ab"], 0, 1, Mode::Insert);
    assert_eq!(e2.handle_event(Key::Other, true), Action::Continue);
    assert_eq!(contents(&e2), vec!["ab"]);
}

#[test]
fn insert_advances_cursor() {
    let mut e = make(&[""], 0, 0, Mode::Insert);
    e.handle_event(Key::Char('x'), true);
    e.handle_event(Key::Char('y'), true);
    assert_eq!(contents(&e), vec!["xy"]);
    assert_eq!((e.current_row, e.current_col), (0, 2));
}
