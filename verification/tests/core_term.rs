use mochi::cell::CellFlags;
use mochi::term::{Charset, Term};

#[test]
fn test_term_new() {
    let term = Term::new(24, 80);
    assert_eq!(term.rows(), 24);
    assert_eq!(term.cols(), 80);
    assert!(!term.mode.alt_screen);
}

#[test]
fn test_term_write() {
    let mut term = Term::new(24, 80);
    term.write_char('H');
    term.write_char('i');

    let snapshot = term.snapshot();
    assert_eq!(snapshot.row_text(0), "Hi");
}

#[test]
fn test_term_alt_screen() {
    let mut term = Term::new(24, 80);
    term.write_char('A');

    term.enter_alt_screen();
    assert!(term.mode.alt_screen);
    term.write_char('B');

    let snapshot = term.snapshot();
    assert_eq!(snapshot.row_text(0), "B");

    term.leave_alt_screen();
    assert!(!term.mode.alt_screen);

    let snapshot = term.snapshot();
    assert_eq!(snapshot.row_text(0), "A");
}

#[test]
fn test_term_scrollback() {
    let mut term = Term::new(3, 10);

    for i in 0..5 {
        for c in format!("Line {}", i).chars() {
            term.write_char(c);
        }
        term.linefeed();
        term.carriage_return();
    }

    assert!(term.scrollback().len() > 0);
}

#[test]
fn test_term_dec_special_graphics() {
    let mut term = Term::new(24, 80);
    term.set_charset(0, Charset::DecSpecialGraphics);
    term.set_active_charset(0);

    term.write_char('q');
    let snapshot = term.snapshot();
    assert_eq!(snapshot.row_text(0), "\u{2500}");
}

#[test]
fn test_term_save_restore_cursor() {
    let mut term = Term::new(24, 80);
    term.goto(5, 10);
    term.set_bold(true);

    term.save_cursor();

    term.goto(0, 0);
    term.set_bold(false);

    term.restore_cursor();

    assert_eq!(term.screen().cursor.row, 5);
    assert_eq!(term.screen().cursor.col, 10);
    assert!(term.screen().cursor.attrs.flags.contains(CellFlags::BOLD));
}

#[test]
fn term_uk_charset_pound_sign() {
    let mut term = Term::new(2, 10);
    term.set_charset(1, Charset::Uk);
    term.set_active_charset(1);
    term.write_char('#');
    assert_eq!(term.snapshot().row_text(0), "\u{a3}");
}

#[test]
fn term_alt_screen_does_not_feed_scrollback() {
    let mut term = Term::new(2, 5);
    term.enter_alt_screen();
    for _ in 0..5 {
        term.linefeed();
    }
    assert_eq!(term.scrollback().len(), 0);
    term.leave_alt_screen();
    for _ in 0..3 {
        term.linefeed();
    }
    assert_eq!(term.scrollback().len(), 2);
}

#[test]
fn term_hyperlinks_are_found_by_id() {
    let mut term = Term::new(2, 5);
    let a = term.register_hyperlink("https://a".to_string(), String::new());
    let b = term.register_hyperlink("https://b".to_string(), "id=x".to_string());
    assert_eq!(a, 1);
    assert_eq!(b, 2);
    assert_eq!(term.get_hyperlink(b).unwrap().uri, "https://b");
    assert!(term.get_hyperlink(3).is_none());
    assert!(term.get_hyperlink(0).is_none());
}

#[test]
fn term_resize_and_reset() {
    let mut term = Term::new(10, 10);
    term.write_char('Z');
    term.set_title("t".to_string());
    term.resize(4, 6);
    assert_eq!(term.rows(), 4);
    assert_eq!(term.cols(), 6);
    term.reset();
    assert_eq!(term.snapshot().row_text(0), "");
    assert_eq!(term.title, "");
    assert_eq!(term.rows(), 4);
}

#[test]
fn term_cursor_moves_clamp() {
    let mut term = Term::new(5, 5);
    term.move_down(10);
    term.move_right(10);
    assert_eq!(term.screen().cursor.row, 4);
    assert_eq!(term.screen().cursor.col, 4);
    term.move_up(2);
    term.move_left(9);
    assert_eq!(term.screen().cursor.row, 2);
    assert_eq!(term.screen().cursor.col, 0);
}
