use mochi::cell::Cell;
use mochi::line::Line;
use mochi::screen::Screen;
use mochi::scrollback::Scrollback;
use mochi::selection::{Selection, SelectionType};
use mochi::snapshot::Snapshot;

#[test]
fn test_screen_new() {
    let screen = Screen::new(24, 80);
    assert_eq!(screen.rows(), 24);
    assert_eq!(screen.cols(), 80);
    assert_eq!(screen.cursor.row, 0);
    assert_eq!(screen.cursor.col, 0);
}

#[test]
fn test_screen_write_char() {
    let mut screen = Screen::new(24, 80);
    screen.write_char('A');
    assert_eq!(screen.grid.cell(0, 0).c, "A");
    assert_eq!(screen.cursor.col, 1);
}

#[test]
fn test_screen_wrap() {
    let mut screen = Screen::new(24, 5);
    for c in "Hello".chars() {
        screen.write_char(c);
    }
    assert_eq!(screen.cursor.col, 4);
    assert!(screen.cursor.pending_wrap);

    screen.write_char('!');
    assert_eq!(screen.cursor.row, 1);
    assert_eq!(screen.cursor.col, 1);
    assert_eq!(screen.grid.cell(1, 0).c, "!");
}

#[test]
fn test_screen_scroll() {
    let mut screen = Screen::new(3, 10);
    screen.cursor.row = 2;
    let scrolled = screen.linefeed();
    assert!(scrolled.is_some());
    assert_eq!(screen.cursor.row, 2);
}

#[test]
fn test_screen_scroll_region() {
    let mut screen = Screen::new(5, 10);
    screen.set_scroll_region(1, 3);
    assert_eq!(screen.scroll_top, 1);
    assert_eq!(screen.scroll_bottom, 3);

    for i in 0..5 {
        screen.cursor.row = i;
        screen.cursor.col = 0;
        screen.write_char((b'0' + i as u8) as char);
    }

    screen.cursor.row = 3;
    screen.linefeed();

    assert_eq!(screen.grid.cell(0, 0).c, "0");
    assert_eq!(screen.grid.cell(4, 0).c, "4");
    assert_eq!(screen.grid.cell(1, 0).c, "2");
    assert_eq!(screen.grid.cell(2, 0).c, "3");
    assert_eq!(screen.grid.cell(3, 0).c, " ");
}

#[test]
fn test_screen_tab() {
    let mut screen = Screen::new(24, 80);
    screen.cursor.col = 0;
    screen.tab();
    assert_eq!(screen.cursor.col, 8);
    screen.tab();
    assert_eq!(screen.cursor.col, 16);
}

#[test]
fn test_screen_erase() {
    let mut screen = Screen::new(3, 10);
    for row in 0..3 {
        for col in 0..10 {
            screen.grid.cell_mut(row, col).c = "X".to_string();
        }
    }

    screen.cursor.row = 1;
    screen.cursor.col = 5;
    screen.erase_below();

    assert_eq!(screen.grid.cell(0, 0).c, "X");
    assert_eq!(screen.grid.cell(1, 4).c, "X");
    assert_eq!(screen.grid.cell(1, 5).c, " ");
    assert_eq!(screen.grid.cell(2, 0).c, " ");
}

#[test]
fn test_screen_insert_delete_lines() {
    let mut screen = Screen::new(5, 10);
    for i in 0..5 {
        screen.grid.cell_mut(i, 0).c = format!("{}", i);
    }

    screen.cursor.row = 2;
    screen.insert_lines(1);

    assert_eq!(screen.grid.cell(0, 0).c, "0");
    assert_eq!(screen.grid.cell(1, 0).c, "1");
    assert_eq!(screen.grid.cell(2, 0).c, " ");
    assert_eq!(screen.grid.cell(3, 0).c, "2");
    assert_eq!(screen.grid.cell(4, 0).c, "3");
}

#[test]
fn screen_wide_char_takes_two_cells() {
    let mut screen = Screen::new(2, 4);
    screen.write_char('\u{4e16}');
    assert_eq!(screen.grid.cell(0, 0).c, "\u{4e16}");
    assert!(screen.grid.cell(0, 0).is_wide());
    assert_eq!(screen.grid.cell(0, 1).c, " ");
    assert_eq!(screen.cursor.col, 2);
}

#[test]
fn screen_combining_mark_joins_previous_cell() {
    let mut screen = Screen::new(2, 4);
    screen.write_char('e');
    screen.write_char('\u{301}');
    assert_eq!(screen.grid.cell(0, 0).c, "e\u{301}");
    assert_eq!(screen.cursor.col, 1);
}

#[test]
fn screen_resize_clamps_cursor() {
    let mut screen = Screen::new(10, 10);
    screen.goto(8, 8);
    screen.resize(5, 4);
    assert_eq!(screen.rows(), 5);
    assert_eq!(screen.cols(), 4);
    assert_eq!(screen.cursor.row, 4);
    assert_eq!(screen.cursor.col, 3);
    assert_eq!(screen.scroll_bottom, 4);
}

#[test]
fn screen_save_restore_cursor_round_trip() {
    let mut screen = Screen::new(10, 10);
    screen.goto(3, 7);
    screen.save_cursor();
    screen.goto(0, 0);
    screen.restore_cursor();
    assert_eq!(screen.cursor.row, 3);
    assert_eq!(screen.cursor.col, 7);
}

#[test]
fn test_push_and_len() {
    let mut sb = Scrollback::new(100);
    assert_eq!(sb.len(), 0);

    sb.push(Line::new(80));
    assert_eq!(sb.len(), 1);

    sb.push(Line::new(80));
    assert_eq!(sb.len(), 2);
}

#[test]
fn test_max_lines_limit() {
    let mut sb = Scrollback::new(3);

    for i in 0..5 {
        let mut line = Line::new(80);
        line.set(0, Cell::new((b'A' + i as u8) as char));
        sb.push(line);
    }

    assert_eq!(sb.len(), 3);
    assert_eq!(sb.get(0).unwrap().get(0).unwrap().c, "C");
    assert_eq!(sb.get(1).unwrap().get(0).unwrap().c, "D");
    assert_eq!(sb.get(2).unwrap().get(0).unwrap().c, "E");
}

#[test]
fn test_pop() {
    let mut sb = Scrollback::new(100);
    sb.push(Line::new(80));
    sb.push(Line::new(80));

    assert_eq!(sb.len(), 2);
    sb.pop();
    assert_eq!(sb.len(), 1);
}

#[test]
fn test_get_from_end() {
    let mut sb = Scrollback::new(100);

    for i in 0..5 {
        let mut line = Line::new(80);
        line.set(0, Cell::new((b'A' + i as u8) as char));
        sb.push(line);
    }

    assert_eq!(sb.get_from_end(0).unwrap().get(0).unwrap().c, "E");
    assert_eq!(sb.get_from_end(1).unwrap().get(0).unwrap().c, "D");
    assert_eq!(sb.get_from_end(4).unwrap().get(0).unwrap().c, "A");
    assert!(sb.get_from_end(5).is_none());
}

#[test]
fn test_clear() {
    let mut sb = Scrollback::new(100);
    sb.push(Line::new(80));
    sb.push(Line::new(80));
    sb.clear();
    assert_eq!(sb.len(), 0);
}

#[test]
fn scrollback_zero_limit_keeps_newest_line() {
    let mut sb = Scrollback::new(0);
    sb.push(Line::new(1));
    sb.push(Line::new(2));
    assert_eq!(sb.len(), 1);
    assert_eq!(sb.get(0).unwrap().len(), 2);
    sb.set_max_lines(0);
    assert!(sb.is_empty());
}

#[test]
fn test_selection_contains_normal() {
    let mut sel = Selection::new();
    sel.start_selection(1, 5, SelectionType::Normal);
    sel.update_selection(3, 10);

    assert!(!sel.contains(0, 5));
    assert!(sel.contains(1, 5));
    assert!(sel.contains(1, 10));
    assert!(sel.contains(2, 0));
    assert!(sel.contains(2, 50));
    assert!(sel.contains(3, 0));
    assert!(sel.contains(3, 10));
    assert!(!sel.contains(3, 11));
    assert!(!sel.contains(4, 0));
}

#[test]
fn test_selection_contains_block() {
    let mut sel = Selection::new();
    sel.start_selection(1, 5, SelectionType::Block);
    sel.update_selection(3, 10);

    assert!(sel.contains(1, 5));
    assert!(sel.contains(1, 10));
    assert!(sel.contains(2, 7));
    assert!(!sel.contains(2, 4));
    assert!(!sel.contains(2, 11));
}

#[test]
fn test_selection_contains_line() {
    let mut sel = Selection::new();
    sel.start_selection(1, 5, SelectionType::Line);
    sel.update_selection(3, 10);

    assert!(!sel.contains(0, 0));
    assert!(sel.contains(1, 0));
    assert!(sel.contains(2, 100));
    assert!(sel.contains(3, 0));
    assert!(!sel.contains(4, 0));
}

#[test]
fn test_selection_normalized() {
    let mut sel = Selection::new();
    sel.start_selection(5, 10, SelectionType::Normal);
    sel.update_selection(2, 5);

    let (start, end) = sel.normalized();
    assert_eq!(start.row, 2);
    assert_eq!(start.col, 5);
    assert_eq!(end.row, 5);
    assert_eq!(end.col, 10);
}

#[test]
fn selection_cleared_is_empty() {
    let mut sel = Selection::new();
    assert!(sel.is_empty());
    sel.start_selection(2, 2, SelectionType::Normal);
    assert!(!sel.is_empty());
    assert!(sel.contains(2, 2));
    sel.clear();
    assert!(sel.is_empty());
    assert!(!sel.contains(0, 0));
}

#[test]
fn test_snapshot_from_screen() {
    let mut screen = Screen::new(24, 80);
    screen.write_char('H');
    screen.write_char('i');

    let snapshot = Snapshot::from_screen(&screen, false, String::new());
    assert_eq!(snapshot.cols, 80);
    assert_eq!(snapshot.rows, 24);
    assert_eq!(snapshot.cursor_col, 2);
    assert_eq!(snapshot.lines[0].text, "Hi");
}

#[test]
fn snapshot_test_text_content() {
    let mut screen = Screen::new(24, 80);
    screen.write_char('A');
    screen.linefeed();
    screen.carriage_return();
    screen.write_char('B');

    let snapshot = Snapshot::from_screen(&screen, false, String::new());
    let text = snapshot.text_content();
    assert!(text.contains("A"));
    assert!(text.contains("B"));
}

#[test]
fn snapshot_text_joins_lines_with_newlines() {
    let mut screen = Screen::new(2, 3);
    screen.write_char('x');
    let snapshot = Snapshot::from_screen(&screen, false, String::new());
    assert_eq!(snapshot.text_content(), "x\n");
    assert_eq!(snapshot.visible_text(), vec!["x".to_string(), String::new()]);
    assert!(snapshot.same_screen(&snapshot.clone()));
}
