use mochi::cell::CellFlags;
use mochi::color::{Color, Rgb};
use mochi::parser::Parser;
use mochi::performer::Performer;
use mochi::term::Term;

fn apply_sequence(term: &mut Term, input: &[u8]) {
    let mut parser = Parser::new();
    let mut performer = Performer::new();
    for action in parser.parse(input) {
        performer.perform(term, action);
    }
}

#[test]
fn performer_test_cursor_movement() {
    let mut term = Term::new(24, 80);
    apply_sequence(&mut term, b"\x1b[10;20H");
    assert_eq!(term.screen().cursor.row, 9);
    assert_eq!(term.screen().cursor.col, 19);
}

#[test]
fn test_cursor_up() {
    let mut term = Term::new(24, 80);
    term.goto(10, 10);
    apply_sequence(&mut term, b"\x1b[5A");
    assert_eq!(term.screen().cursor.row, 5);
}

#[test]
fn test_erase_display() {
    let mut term = Term::new(24, 80);
    apply_sequence(&mut term, b"Hello");
    apply_sequence(&mut term, b"\x1b[2J");
    assert_eq!(term.screen().grid.cell(0, 0).c, " ");
}

#[test]
fn test_sgr_bold() {
    let mut term = Term::new(24, 80);
    apply_sequence(&mut term, b"\x1b[1m");
    assert!(term.screen().cursor.attrs.flags.contains(CellFlags::BOLD));
}

#[test]
fn test_sgr_colors() {
    let mut term = Term::new(24, 80);
    apply_sequence(&mut term, b"\x1b[31m");
    assert_eq!(term.screen().cursor.attrs.fg, Color::Indexed(1));

    apply_sequence(&mut term, b"\x1b[42m");
    assert_eq!(term.screen().cursor.attrs.bg, Color::Indexed(2));
}

#[test]
fn test_sgr_256_color() {
    let mut term = Term::new(24, 80);
    apply_sequence(&mut term, b"\x1b[38;5;196m");
    assert_eq!(term.screen().cursor.attrs.fg, Color::Indexed(196));
}

#[test]
fn test_sgr_truecolor() {
    let mut term = Term::new(24, 80);
    apply_sequence(&mut term, b"\x1b[38;2;255;128;64m");
    assert_eq!(term.screen().cursor.attrs.fg, Color::Rgb(Rgb::new(255, 128, 64)));
}

#[test]
fn test_alternate_screen() {
    let mut term = Term::new(24, 80);
    apply_sequence(&mut term, b"Hello");
    apply_sequence(&mut term, b"\x1b[?1049h");
    assert!(term.mode.alt_screen);
    assert_eq!(term.screen().grid.cell(0, 0).c, " ");

    apply_sequence(&mut term, b"\x1b[?1049l");
    assert!(!term.mode.alt_screen);
    assert_eq!(term.screen().grid.cell(0, 0).c, "H");
}

#[test]
fn test_scroll_region() {
    let mut term = Term::new(24, 80);
    apply_sequence(&mut term, b"\x1b[5;15r");
    assert_eq!(term.screen().scroll_top, 4);
    assert_eq!(term.screen().scroll_bottom, 14);
}

#[test]
fn test_save_restore_cursor() {
    let mut term = Term::new(24, 80);
    apply_sequence(&mut term, b"\x1b[10;20H\x1b7");
    apply_sequence(&mut term, b"\x1b[1;1H");
    assert_eq!(term.screen().cursor.row, 0);

    apply_sequence(&mut term, b"\x1b8");
    assert_eq!(term.screen().cursor.row, 9);
    assert_eq!(term.screen().cursor.col, 19);
}

#[test]
fn performer_test_osc_title() {
    let mut term = Term::new(24, 80);
    apply_sequence(&mut term, b"\x1b]0;My Terminal\x07");
    assert_eq!(term.title, "My Terminal");
}

#[test]
fn performer_sgr_reset_and_flags_off() {
    let mut term = Term::new(4, 10);
    apply_sequence(&mut term, b"\x1b[1;2;3;31;44m");
    apply_sequence(&mut term, b"\x1b[22m");
    let attrs = term.screen().cursor.attrs;
    assert!(!attrs.flags.contains(CellFlags::BOLD));
    assert!(!attrs.flags.contains(CellFlags::FAINT));
    assert!(attrs.flags.contains(CellFlags::ITALIC));
    apply_sequence(&mut term, b"\x1b[m");
    assert_eq!(term.screen().cursor.attrs.fg, Color::Default);
    assert!(term.screen().cursor.attrs.flags.is_empty());
}

#[test]
fn performer_dec_alignment_fills_with_e() {
    let mut term = Term::new(2, 3);
    apply_sequence(&mut term, b"\x1b#8");
    assert_eq!(term.snapshot().row_text(1), "EEE");
}

#[test]
fn performer_hyperlink_ids_count_up() {
    let mut term = Term::new(2, 3);
    let mut parser = Parser::new();
    let mut performer = Performer::new();
    for action in parser.parse(b"\x1b]8;;http://x\x07\x1b]8;;\x07\x1b]8;;http://y\x07") {
        performer.perform(&mut term, action);
    }
    assert_eq!(performer.next_hyperlink_id(), 3);
}

#[test]
fn performer_lines_scroll_into_history() {
    let mut term = Term::new(2, 4);
    apply_sequence(&mut term, b"a\r\nb\r\nc\r\nd");
    assert_eq!(term.scrollback().len(), 2);
    assert_eq!(term.snapshot().row_text(0), "c");
    assert_eq!(term.snapshot().row_text(1), "d");
}

#[test]
fn test_rep_repeat_character() {
    let mut term = Term::new(24, 80);
    // Print 'X' then repeat it 4 times
    apply_sequence(&mut term, b"X\x1b[4b");
    assert_eq!(term.screen().grid.cell(0, 0).c, "X");
    assert_eq!(term.screen().grid.cell(0, 1).c, "X");
    assert_eq!(term.screen().grid.cell(0, 2).c, "X");
    assert_eq!(term.screen().grid.cell(0, 3).c, "X");
    assert_eq!(term.screen().grid.cell(0, 4).c, "X");
    assert_eq!(term.screen().grid.cell(0, 5).c, " ");
    assert_eq!(term.screen().cursor.col, 5);
}

#[test]
fn rep_without_a_printed_character_does_nothing() {
    let mut term = Term::new(24, 80);
    apply_sequence(&mut term, b"\x1b[3b");
    assert_eq!(term.screen().grid.cell(0, 0).c, " ");
    assert_eq!(term.screen().cursor.col, 0);
    // The default count is one.
    apply_sequence(&mut term, b"ab\x1b[b");
    assert_eq!(term.screen().grid.cell(0, 2).c, "b");
    assert_eq!(term.screen().cursor.col, 3);
}

#[test]
fn test_cbt_backward_tab() {
    let mut term = Term::new(24, 80);
    // Move forward with tabs then backward
    apply_sequence(&mut term, b"\tA"); // Tab to col 8, print A at col 8
    assert_eq!(term.screen().cursor.col, 9); // After printing A
    apply_sequence(&mut term, b"\x1b[Z"); // CBT - backward tab
    assert_eq!(term.screen().cursor.col, 8); // Should go back to tab stop at 8
}

#[test]
fn cbt_moves_back_several_stops_and_stops_at_the_first_column() {
    let mut term = Term::new(24, 80);
    term.goto(0, 30);
    apply_sequence(&mut term, b"\x1b[2Z");
    assert_eq!(term.screen().cursor.col, 16);
    apply_sequence(&mut term, b"\x1b[5Z");
    assert_eq!(term.screen().cursor.col, 0);
}
