use elm_editor::document::{EditingModel, EditingViewport, ScreenSize};
use elm_editor::editor::{Editor, EditorEffect, KeyHistory, Message};
use elm_editor::navigation::{Event, KeyCode, KeyStroke, Modifiers, NavigationModel, Position};
use elm_editor::elm::Cmd;

fn lines(ls: &[&str]) -> Vec<String> {
    ls.iter().map(|s| s.to_string()).collect()
}

fn key(code: KeyCode, modifiers: Modifiers, description: &str) -> KeyStroke {
    KeyStroke { code, modifiers, description: description.to_string() }
}

fn nav(rows: usize, columns: usize, row: usize, column: usize, ro: usize, co: usize) -> NavigationModel {
    NavigationModel {
        cursor: Position { column, row },
        screen_size: ScreenSize { columns, rows },
        viewport: EditingViewport { row_offset: ro, column_offset: co },
    }
}

fn state(n: &NavigationModel) -> (usize, usize, usize, usize) {
    (n.cursor.row, n.cursor.column, n.viewport.row_offset, n.viewport.column_offset)
}

#[test]
fn select_and_clip_cases() {
    let doc = lines(&["hello world", "", "abc"]);
    let v = EditingViewport { row_offset: 0, column_offset: 0 };
    assert_eq!(v.select_and_clip(0, 5, &doc), Some("hello"));
    assert_eq!(v.select_and_clip(0, 80, &doc), Some("hello world"));
    assert_eq!(v.select_and_clip(1, 80, &doc), Some(""));
    assert_eq!(v.select_and_clip(3, 80, &doc), None);
    let v = EditingViewport { row_offset: 2, column_offset: 1 };
    assert_eq!(v.select_and_clip(0, 80, &doc), Some("bc"));
    assert_eq!(v.select_and_clip(1, 80, &doc), None);
    let v = EditingViewport { row_offset: 0, column_offset: 6 };
    assert_eq!(v.select_and_clip(0, 3, &doc), Some("wor"));
    let v = EditingViewport { row_offset: 0, column_offset: 11 };
    assert_eq!(v.select_and_clip(0, 3, &doc), Some("«"));
    assert_eq!(v.select_and_clip(1, 3, &doc), Some(""));
    assert_eq!(v.select_and_clip(0, 0, &lines(&["x"])), Some("«"));
}

#[test]
fn select_and_clip_counts_bytes() {
    let doc = lines(&["é1"]);
    let v = EditingViewport { row_offset: 0, column_offset: 0 };
    assert_eq!(v.select_and_clip(0, 2, &doc), Some("é"));
    let v = EditingViewport { row_offset: 0, column_offset: 2 };
    assert_eq!(v.select_and_clip(0, 9, &doc), Some("1"));
}

#[test]
fn scrolling_saturates_at_zero() {
    let mut v = EditingViewport::default();
    v.scroll_up(3);
    v.scroll_left(1);
    assert_eq!((v.row_offset, v.column_offset), (0, 0));
    v.scroll_down(4);
    v.scroll_right(2);
    assert_eq!((v.row_offset, v.column_offset), (4, 2));
    v.scroll_up(1);
    v.scroll_left(5);
    assert_eq!((v.row_offset, v.column_offset), (3, 0));
}

#[test]
fn position_moves() {
    let mut p = Position::default();
    p.move_up(2);
    p.move_left();
    assert_eq!((p.row, p.column), (0, 0));
    p.move_down(3);
    p.move_right();
    assert_eq!((p.row, p.column), (3, 1));
    p.move_up(2);
    p.move_left();
    assert_eq!((p.row, p.column), (1, 0));
}

#[test]
fn editing_model_basics() {
    let m = EditingModel::new();
    assert_eq!(m.line_count(), 2);
    assert_eq!(m.lines, lines(&["hi, mom", "Hello, world"]));
    assert_eq!(EditingModel::default().lines, m.lines);
    let m = EditingModel::with_lines(&lines(&["a", "bc"]));
    assert_eq!(m.lines, lines(&["a", "bc"]));
    assert_eq!(m.line_slice(1, 0..1), Some("b"));
    assert_eq!(m.line_slice(1, 1..2), Some("c"));
    assert_eq!(m.line_slice(2, 0..1), None);
}

#[test]
fn from_text_splits_lines() {
    assert_eq!(EditingModel::from_text("ab\ncd").lines, lines(&["ab", "cd"]));
    assert_eq!(EditingModel::from_text("ab\ncd\n").lines, lines(&["ab", "cd"]));
    assert_eq!(EditingModel::from_text("ab\r\ncd\r\n").lines, lines(&["ab", "cd"]));
    assert_eq!(EditingModel::from_text("a\n\nb").lines, lines(&["a", "", "b"]));
    assert_eq!(EditingModel::from_text("").lines, lines(&[]));
    assert_eq!(EditingModel::from_text("\n").lines, lines(&[""]));
    assert_eq!(EditingModel::from_text("é\nü").lines, lines(&["é", "ü"]));
    let text = "fn main() {\r\n    x\n}\n\n  y";
    let expected: Vec<String> = text.lines().map(|l| l.to_owned()).collect();
    assert_eq!(EditingModel::from_text(text).lines, expected);
}

#[test]
fn final_line_ending_is_optional() {
    let plain = EditingModel::from_text("x\ny").lines;
    assert_eq!(EditingModel::from_text("x\ny\n").lines, plain);
    assert_eq!(EditingModel::from_text("x\ny\r\n").lines, plain);
    assert_eq!(EditingModel::from_text("x\ny\r").lines, lines(&["x", "y\r"]));
}

#[test]
fn screen_size_text_and_conversions() {
    assert_eq!(ScreenSize::new(80, 24).to_text(), "80x24");
    assert_eq!(ScreenSize::default().to_text(), "0x0");
    assert_eq!(ScreenSize::new(1234567, 10).to_text(), "1234567x10");
    let s = ScreenSize::from((120u16, 40u16));
    assert_eq!((s.columns, s.rows), (120, 40));
    let s = ScreenSize::from_reported(7, 9);
    assert_eq!((s.columns, s.rows), (7, 9));
}

#[test]
fn edge_predicates() {
    let n = nav(10, 20, 0, 19, 0, 0);
    assert!(n.is_topmost());
    assert!(!n.is_bottommost());
    assert!(!n.is_leftmost());
    assert!(n.is_rightmost());
    let n = nav(10, 20, 9, 0, 0, 0);
    assert!(!n.is_topmost());
    assert!(n.is_bottommost());
    assert!(n.is_leftmost());
    assert!(!n.is_rightmost());
}

#[test]
fn is_recognized_keys() {
    for k in [KeyCode::Up, KeyCode::Down, KeyCode::Left, KeyCode::Right, KeyCode::PageUp, KeyCode::PageDown] {
        assert!(NavigationModel::is_recognized(&k));
    }
    for k in [KeyCode::Char('q'), KeyCode::Enter, KeyCode::Home, KeyCode::F(1), KeyCode::Other] {
        assert!(!NavigationModel::is_recognized(&k));
    }
}

#[test]
fn arrow_keys_move_or_scroll() {
    let mut n = nav(10, 20, 5, 5, 3, 2);
    n.move_intended(&KeyCode::Up);
    assert_eq!(state(&n), (4, 5, 3, 2));
    n.move_intended(&KeyCode::Down);
    assert_eq!(state(&n), (5, 5, 3, 2));
    n.move_intended(&KeyCode::Left);
    assert_eq!(state(&n), (5, 4, 3, 2));
    n.move_intended(&KeyCode::Right);
    assert_eq!(state(&n), (5, 5, 3, 2));

    let mut n = nav(10, 20, 0, 0, 3, 2);
    n.move_intended(&KeyCode::Up);
    assert_eq!(state(&n), (0, 0, 2, 2));
    n.move_intended(&KeyCode::Left);
    assert_eq!(state(&n), (0, 0, 2, 1));

    let mut n = nav(10, 20, 9, 19, 3, 2);
    n.move_intended(&KeyCode::Down);
    assert_eq!(state(&n), (9, 19, 4, 2));
    n.move_intended(&KeyCode::Right);
    assert_eq!(state(&n), (9, 19, 4, 3));

    let mut n = nav(10, 20, 0, 0, 0, 0);
    n.move_intended(&KeyCode::Up);
    n.move_intended(&KeyCode::Left);
    assert_eq!(state(&n), (0, 0, 0, 0));
}

#[test]
fn arrow_round_trip_returns_to_the_same_document_place() {
    for start in [nav(10, 20, 9, 19, 3, 2), nav(10, 20, 4, 7, 0, 0), nav(1, 1, 0, 0, 5, 5)] {
        let mut n = start;
        n.move_intended(&KeyCode::Down);
        n.move_intended(&KeyCode::Up);
        n.move_intended(&KeyCode::Right);
        n.move_intended(&KeyCode::Left);
        let doc = |m: &NavigationModel| (m.viewport.row_offset + m.cursor.row, m.viewport.column_offset + m.cursor.column);
        assert_eq!(doc(&n), doc(&start));
    }
}

#[test]
fn page_keys() {
    let mut n = nav(10, 20, 4, 3, 25, 1);
    n.move_intended(&KeyCode::PageUp);
    // cursor up by a page (saturating), viewport up by the page minus the cursor row
    assert_eq!(state(&n), (0, 3, 19, 1));
    let mut n = nav(10, 20, 4, 3, 2, 1);
    n.move_intended(&KeyCode::PageUp);
    assert_eq!(state(&n), (0, 3, 0, 1));
    let mut n = nav(10, 20, 4, 3, 2, 1);
    n.move_intended(&KeyCode::PageDown);
    // viewport down by the cursor row, cursor down by the page minus its row
    assert_eq!(state(&n), (10, 3, 6, 1));
    let mut n = nav(10, 20, 12, 3, 2, 1);
    n.move_intended(&KeyCode::PageDown);
    assert_eq!(state(&n), (12, 3, 14, 1));
}

#[test]
fn screen_size_changed_sets_the_size() {
    let mut n = nav(10, 20, 4, 3, 2, 1);
    let cmd = n.screen_size_changed(ScreenSize::new(100, 50));
    assert!(matches!(cmd, Cmd::Nothing));
    assert_eq!((n.screen_size.columns, n.screen_size.rows), (100, 50));
    assert_eq!(state(&n), (4, 3, 2, 1));
}

#[test]
fn modifiers() {
    assert!(Modifiers::none().is_empty());
    assert!(!Modifiers::none().is_control_only());
    assert!(Modifiers::control_only().is_control_only());
    assert!(!Modifiers::control_only().is_empty());
    let m = Modifiers { shift: true, ..Modifiers::control_only() };
    assert!(!m.is_control_only());
}

#[test]
fn key_history_keeps_the_latest_three() {
    let mut h = KeyHistory::default();
    assert_eq!(h.horizon(), 3);
    for c in ['a', 'b', 'c', 'd'] {
        h.record(&key(KeyCode::Char(c), Modifiers::none(), &c.to_string()));
    }
    let kept: Vec<&str> = h.events().iter().map(|k| k.description.as_str()).collect();
    assert_eq!(kept, vec!["b", "c", "d"]);
    assert_eq!(h.describe(), "[b,c,d,]");
    assert_eq!(KeyHistory::new(2).describe(), "[]");
    let mut h = KeyHistory::new(0);
    h.record(&key(KeyCode::Enter, Modifiers::none(), "Enter"));
    assert!(h.events().is_empty());
}

fn editor() -> Editor {
    let mut e = Editor::new(EditingModel::with_lines(&lines(&["one", "two", "three"])));
    e.update(&Message::SizedChanged(ScreenSize::new(4, 2)));
    e
}

#[test]
fn new_and_init() {
    let (e, cmd) = Editor::init(EditingModel::new());
    assert_eq!(e.buffer_name, "Unnamed");
    assert_eq!(e.contents.lines, EditingModel::new().lines);
    assert_eq!(state(&e.navigation), (0, 0, 0, 0));
    assert_eq!((e.navigation.screen_size.columns, e.navigation.screen_size.rows), (0, 0));
    assert!(e.key_history.events().is_empty());
    assert!(matches!(cmd, Cmd::Suspend(EditorEffect::RequestSize)));
    assert!(matches!(ScreenSize::request(), Cmd::Suspend(EditorEffect::RequestSize)));
}

#[test]
fn control_q_quits_without_change() {
    let mut e = editor();
    let cmd = e.key_typed(&key(KeyCode::Char('q'), Modifiers::control_only(), "Char('q') [CONTROL]"));
    assert!(matches!(cmd, Cmd::Gtfo));
    assert!(e.key_history.events().is_empty());
    assert_eq!(state(&e.navigation), (0, 0, 0, 0));
}

#[test]
fn plain_q_and_other_keys_are_recorded() {
    let mut e = editor();
    let cmd = e.key_typed(&key(KeyCode::Char('q'), Modifiers::none(), "q"));
    assert!(matches!(cmd, Cmd::Nothing));
    let shifted = Modifiers { shift: true, ..Modifiers::none() };
    e.key_typed(&key(KeyCode::Down, shifted, "shift-down"));
    let ctrl_shift_q = Modifiers { shift: true, ..Modifiers::control_only() };
    let cmd = e.key_typed(&key(KeyCode::Char('q'), ctrl_shift_q, "ctrl-shift-q"));
    assert!(matches!(cmd, Cmd::Nothing));
    assert_eq!(e.key_history.describe(), "[q,shift-down,ctrl-shift-q,]");
    assert_eq!(state(&e.navigation), (0, 0, 0, 0));
}

#[test]
fn navigation_keys_move_the_cursor() {
    let mut e = editor();
    let cmd = e.key_typed(&key(KeyCode::Down, Modifiers::none(), "Down"));
    assert!(matches!(cmd, Cmd::Nothing));
    e.key_typed(&key(KeyCode::Down, Modifiers::none(), "Down"));
    e.key_typed(&key(KeyCode::Right, Modifiers::none(), "Right"));
    assert_eq!(state(&e.navigation), (1, 1, 1, 0));
    assert!(e.key_history.events().is_empty());
}

#[test]
fn events_and_messages() {
    let mut e = editor();
    let cmd = e.event_occurred(&Event::Resize(30, 12));
    assert!(matches!(cmd, Cmd::Nothing));
    assert_eq!((e.navigation.screen_size.columns, e.navigation.screen_size.rows), (30, 12));
    let cmd = e.event_occurred(&Event::Other);
    assert!(matches!(cmd, Cmd::Nothing));
    let cmd = e.update(&Message::SetBufferName("notes.txt".to_string()));
    assert!(matches!(cmd, Cmd::Nothing));
    assert_eq!(e.buffer_name, "notes.txt");
    let cmd = e.update(&Message::from(Event::Key(key(KeyCode::Char('q'), Modifiers::control_only(), "q"))));
    assert!(matches!(cmd, Cmd::Gtfo));
    let m = Message::size_reported(5, 6);
    assert!(matches!(m, Message::SizedChanged(s) if s.columns == 5 && s.rows == 6));
    let cmd = e.update(&Message::ExternalEvent(Event::Key(key(KeyCode::Esc, Modifiers::none(), "Esc"))));
    assert!(matches!(cmd, Cmd::Nothing));
    assert_eq!(e.key_history.describe(), "[Esc,]");
    assert!(matches!(e.record_key_event(&key(KeyCode::Tab, Modifiers::none(), "Tab")), Cmd::Nothing));
    assert_eq!(e.key_history.describe(), "[Esc,Tab,]");
}

#[test]
fn rendering_lines() {
    let mut e = editor();
    assert_eq!(e.render_line(0), "one");
    assert_eq!(e.render_line(1), "two");
    assert_eq!(e.screen_lines(), vec!["one", "two"]);
    e.update(&Message::SizedChanged(ScreenSize::new(3, 5)));
    assert_eq!(e.screen_lines(), vec!["one", "two", "thr", "~", "~"]);
    e.navigation.viewport.column_offset = 3;
    assert_eq!(e.screen_lines(), vec!["«", "«", "ee", "~", "~"]);
}

#[test]
fn cursor_target_truncates() {
    let mut e = editor();
    e.navigation.cursor = Position { column: 7, row: 65536 + 3 };
    assert_eq!(e.cursor_target(), (7, 3));
}
