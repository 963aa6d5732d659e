use mochi::cell::{Cell, CellFlags};
use mochi::color::{default_256_palette, Color, NamedColor, Rgb};
use mochi::cursor::Cursor;

#[test]
fn test_cell_default() {
    let cell = Cell::default();
    assert_eq!(cell.c, " ");
    assert_eq!(cell.fg, Color::Default);
    assert_eq!(cell.bg, Color::Default);
    assert!(cell.flags.is_empty());
    assert!(cell.is_empty());
}

#[test]
fn test_cell_new() {
    let cell = Cell::new('A');
    assert_eq!(cell.c, "A");
    assert!(!cell.is_empty());
}

#[test]
fn test_cell_flags() {
    let mut flags = CellFlags::empty();
    assert!(!flags.contains(CellFlags::BOLD));

    flags.insert(CellFlags::BOLD);
    assert!(flags.contains(CellFlags::BOLD));

    flags.insert(CellFlags::ITALIC);
    assert!(flags.contains(CellFlags::BOLD));
    assert!(flags.contains(CellFlags::ITALIC));

    flags.remove(CellFlags::BOLD);
    assert!(!flags.contains(CellFlags::BOLD));
    assert!(flags.contains(CellFlags::ITALIC));
}

#[test]
fn test_cell_reset() {
    let mut cell = Cell::new('X');
    cell.fg = Color::Indexed(1);
    cell.flags.insert(CellFlags::BOLD);

    cell.reset();
    assert!(cell.is_empty());
}

#[test]
fn test_named_color_from_sgr() {
    assert_eq!(NamedColor::from_sgr_normal(0), Some(NamedColor::Black));
    assert_eq!(NamedColor::from_sgr_normal(7), Some(NamedColor::White));
    assert_eq!(NamedColor::from_sgr_normal(8), None);

    assert_eq!(NamedColor::from_sgr_bright(0), Some(NamedColor::BrightBlack));
    assert_eq!(NamedColor::from_sgr_bright(7), Some(NamedColor::BrightWhite));
}

#[test]
fn test_256_palette_size() {
    let palette = default_256_palette();
    assert_eq!(palette.len(), 256);
}

#[test]
fn test_color_cube() {
    let palette = default_256_palette();
    assert_eq!(palette[16], Rgb::new(0, 0, 0));
    assert_eq!(palette[231], Rgb::new(255, 255, 255));
}

#[test]
fn cursor_test_cursor_movement() {
    let mut cursor = Cursor::new();
    assert_eq!(cursor.row, 0);
    assert_eq!(cursor.col, 0);

    cursor.move_to(5, 10);
    assert_eq!(cursor.row, 5);
    assert_eq!(cursor.col, 10);

    cursor.move_up(3);
    assert_eq!(cursor.row, 2);

    cursor.move_down(10, 24);
    assert_eq!(cursor.row, 12);

    cursor.move_left(5);
    assert_eq!(cursor.col, 5);

    cursor.move_right(100, 80);
    assert_eq!(cursor.col, 79);
}

#[test]
fn test_cursor_bounds() {
    let mut cursor = Cursor::new();

    cursor.move_up(100);
    assert_eq!(cursor.row, 0);

    cursor.move_left(100);
    assert_eq!(cursor.col, 0);
}

#[test]
fn test_carriage_return() {
    let mut cursor = Cursor::new();
    cursor.move_to(5, 40);
    cursor.carriage_return();
    assert_eq!(cursor.row, 5);
    assert_eq!(cursor.col, 0);
}

#[test]
fn cell_wide_flags_and_width() {
    let mut cell = Cell::new('W');
    assert_eq!(cell.width(), 1);
    cell.flags.insert(CellFlags::WIDE_CHAR);
    assert!(cell.is_wide());
    assert_eq!(cell.width(), 2);
}

#[test]
fn palette_standard_and_gray_entries() {
    let palette = default_256_palette();
    assert_eq!(palette[1], Rgb::new(205, 0, 0));
    assert_eq!(palette[232], Rgb::new(8, 8, 8));
    assert_eq!(palette[255], Rgb::new(238, 238, 238));
}
