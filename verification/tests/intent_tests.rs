use mochi::action::Action;
use mochi::config::ColorScheme;
use mochi::grid::Grid;
use mochi::input::encode_bracketed_paste;
use mochi::parser::Parser;
use mochi::performer::ends_hyperlink;
use mochi::screen::{Screen, TabStops};

#[test]
fn grid_delete_lines_single_line_region() {
    let mut g = Grid::new(3, 10);
    g.cell_mut(1, 0).c = "Y".to_string();
    g.cell_mut(2, 0).c = "X".to_string();
    g.delete_lines(2, 2, 1);
    assert_eq!(g.cell(2, 0).c, " ");
    assert_eq!(g.cell(1, 0).c, "Y");
    assert_eq!(g.rows(), 3);
}

#[test]
fn grid_insert_lines_single_line_region() {
    let mut g = Grid::new(3, 10);
    g.cell_mut(2, 0).c = "X".to_string();
    g.insert_lines(2, 2, 1);
    assert_eq!(g.cell(2, 0).c, " ");
}

#[test]
fn tab_stops_resize_gets_default_stops() {
    let mut t = TabStops::new(16);
    t.resize(32);
    assert_eq!(t.next(15), 16);
    assert_eq!(t.next(16), 24);
    let mut small = TabStops::new(10);
    small.resize(20);
    assert_eq!(small.next(0), 8);
    assert_eq!(small.next(8), 16);
}

#[test]
fn wide_char_spacer_is_marked() {
    let mut s = Screen::new(24, 80);
    let scrolled = s.write_grapheme("世");
    assert!(scrolled.is_none());
    assert_eq!(s.grid.cell(0, 0).c, "世");
    assert!(s.grid.cell(0, 0).is_wide());
    assert!(s.grid.cell(0, 1).is_wide_spacer());
    assert_eq!(s.cursor.col, 2);
    assert_eq!(s.cursor.row, 0);
    s.write_grapheme("a");
    assert_eq!(s.grid.line(0).text_content(), "世a");
}

#[test]
fn hex_color_needs_six_hex_digits() {
    assert_eq!(ColorScheme::parse_hex("#ff0000"), Some((255, 0, 0)));
    assert_eq!(ColorScheme::parse_hex("00ff00"), Some((0, 255, 0)));
    assert_eq!(ColorScheme::parse_hex("#invalid"), None);
    assert_eq!(ColorScheme::parse_hex("+f+f+f"), None);
}

fn osc(input: &[u8]) -> (u16, String) {
    let mut p = Parser::new();
    let actions = p.parse(input);
    assert_eq!(actions.len(), 1);
    match &actions[0] {
        Action::OscDispatch { command, payload } => (*command, payload.clone()),
        other => panic!("expected an OSC dispatch, got {:?}", other),
    }
}

#[test]
fn osc_command_ends_at_first_semicolon() {
    assert_eq!(osc(b"\x1b]2;42\x07"), (2, "42".to_string()));
    assert_eq!(osc(b"\x1b]0;a;b\x07"), (0, "a;b".to_string()));
    assert_eq!(osc(b"\x1b]2;;x\x1b\\"), (2, ";x".to_string()));
    assert_eq!(osc(b"\x1b]52;c;aGk=\x07"), (52, "c;aGk=".to_string()));
}

#[test]
fn bracketed_paste_cannot_end_early() {
    let out = encode_bracketed_paste("a\x1b[201~b");
    assert_eq!(out, b"\x1b[200~a[201~b\x1b[201~".to_vec());
    let end = b"\x1b[201~";
    let hits = out.windows(6).filter(|w| w == end).count();
    assert_eq!(hits, 1);
    assert_eq!(encode_bracketed_paste("hello"), b"\x1b[200~hello\x1b[201~".to_vec());
}

#[test]
fn osc8_link_ends_on_empty_uri() {
    assert!(ends_hyperlink(";"));
    assert!(ends_hyperlink("id=1;"));
    assert!(ends_hyperlink(""));
    assert!(!ends_hyperlink(";http://x"));
    assert!(!ends_hyperlink("http://x"));
}
