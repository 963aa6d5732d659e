use mochi::cell::Cell;
use mochi::grid::Grid;
use mochi::line::Line;

fn letter(i: usize) -> char {
    (b'A' + i as u8) as char
}

#[test]
fn test_new_line() {
    let line = Line::new(80);
    assert_eq!(line.len(), 80);
    assert!(!line.wrapped);
}

#[test]
fn test_set_get_cell() {
    let mut line = Line::new(80);
    let cell = Cell::new('A');
    line.set(10, cell.clone());
    assert_eq!(line.get(10).unwrap().c, "A");
}

#[test]
fn test_clear_line() {
    let mut line = Line::new(80);
    line.set(0, Cell::new('A'));
    line.set(1, Cell::new('B'));
    line.clear();
    assert_eq!(line.get(0).unwrap().c, " ");
    assert_eq!(line.get(1).unwrap().c, " ");
}

#[test]
fn test_clear_range() {
    let mut line = Line::new(80);
    for i in 0..10 {
        line.set(i, Cell::new(letter(i)));
    }
    line.clear_range(3, 7);
    assert_eq!(line.get(2).unwrap().c, "C");
    assert_eq!(line.get(3).unwrap().c, " ");
    assert_eq!(line.get(6).unwrap().c, " ");
    assert_eq!(line.get(7).unwrap().c, "H");
}

#[test]
fn test_insert_cells() {
    let mut line = Line::new(10);
    for i in 0..10 {
        line.set(i, Cell::new(letter(i)));
    }
    line.insert_cells(3, 2);
    assert_eq!(line.get(2).unwrap().c, "C");
    assert_eq!(line.get(3).unwrap().c, " ");
    assert_eq!(line.get(4).unwrap().c, " ");
    assert_eq!(line.get(5).unwrap().c, "D");
    assert_eq!(line.len(), 10);
}

#[test]
fn test_delete_cells() {
    let mut line = Line::new(10);
    for i in 0..10 {
        line.set(i, Cell::new(letter(i)));
    }
    line.delete_cells(3, 2);
    assert_eq!(line.get(2).unwrap().c, "C");
    assert_eq!(line.get(3).unwrap().c, "F");
    assert_eq!(line.get(4).unwrap().c, "G");
    assert_eq!(line.len(), 10);
}

#[test]
fn line_test_text_content() {
    let mut line = Line::new(80);
    line.set(0, Cell::new('H'));
    line.set(1, Cell::new('e'));
    line.set(2, Cell::new('l'));
    line.set(3, Cell::new('l'));
    line.set(4, Cell::new('o'));
    assert_eq!(line.text_content(), "Hello");
}

#[test]
fn line_set_out_of_range_is_ignored() {
    let mut line = Line::new(3);
    line.set(3, Cell::new('Z'));
    assert_eq!(line.len(), 3);
    assert!(line.get(3).is_none());
}

#[test]
fn test_grid_new() {
    let grid = Grid::new(24, 80);
    assert_eq!(grid.rows(), 24);
    assert_eq!(grid.cols(), 80);
}

#[test]
fn test_grid_cell_access() {
    let mut grid = Grid::new(24, 80);
    grid.cell_mut(0, 0).c = "A".to_string();
    assert_eq!(grid.cell(0, 0).c, "A");
}

#[test]
fn test_grid_resize_grow() {
    let mut grid = Grid::new(10, 10);
    grid.cell_mut(5, 5).c = "X".to_string();

    grid.resize(20, 20);
    assert_eq!(grid.rows(), 20);
    assert_eq!(grid.cols(), 20);
    assert_eq!(grid.cell(5, 5).c, "X");
}

#[test]
fn test_grid_resize_shrink() {
    let mut grid = Grid::new(20, 20);
    grid.cell_mut(5, 5).c = "X".to_string();
    grid.cell_mut(15, 15).c = "Y".to_string();

    grid.resize(10, 10);
    assert_eq!(grid.rows(), 10);
    assert_eq!(grid.cols(), 10);
    assert_eq!(grid.cell(5, 5).c, "X");
}

#[test]
fn test_grid_scroll_up() {
    let mut grid = Grid::new(5, 10);
    for i in 0..5 {
        grid.cell_mut(i, 0).c = format!("{}", i);
    }

    let scrolled = grid.scroll_up(0, 4, 2);
    assert_eq!(scrolled.len(), 2);
    assert_eq!(scrolled[0].cell(0).c, "0");
    assert_eq!(scrolled[1].cell(0).c, "1");

    assert_eq!(grid.cell(0, 0).c, "2");
    assert_eq!(grid.cell(1, 0).c, "3");
    assert_eq!(grid.cell(2, 0).c, "4");
    assert_eq!(grid.cell(3, 0).c, " ");
    assert_eq!(grid.cell(4, 0).c, " ");
}

#[test]
fn test_grid_scroll_down() {
    let mut grid = Grid::new(5, 10);
    for i in 0..5 {
        grid.cell_mut(i, 0).c = format!("{}", i);
    }

    grid.scroll_down(0, 4, 2);

    assert_eq!(grid.cell(0, 0).c, " ");
    assert_eq!(grid.cell(1, 0).c, " ");
    assert_eq!(grid.cell(2, 0).c, "0");
    assert_eq!(grid.cell(3, 0).c, "1");
    assert_eq!(grid.cell(4, 0).c, "2");
}

#[test]
fn test_grid_scroll_region() {
    let mut grid = Grid::new(5, 10);
    for i in 0..5 {
        grid.cell_mut(i, 0).c = format!("{}", i);
    }

    grid.scroll_up(1, 3, 1);

    assert_eq!(grid.cell(0, 0).c, "0");
    assert_eq!(grid.cell(1, 0).c, "2");
    assert_eq!(grid.cell(2, 0).c, "3");
    assert_eq!(grid.cell(3, 0).c, " ");
    assert_eq!(grid.cell(4, 0).c, "4");
}

#[test]
fn test_grid_clear_below() {
    let mut grid = Grid::new(5, 10);
    for i in 0..5 {
        for j in 0..10 {
            grid.cell_mut(i, j).c = "X".to_string();
        }
    }

    grid.clear_below(2, 5);

    assert_eq!(grid.cell(0, 0).c, "X");
    assert_eq!(grid.cell(1, 9).c, "X");
    assert_eq!(grid.cell(2, 4).c, "X");
    assert_eq!(grid.cell(2, 5).c, " ");
    assert_eq!(grid.cell(3, 0).c, " ");
    assert_eq!(grid.cell(4, 9).c, " ");
}

#[test]
fn grid_scroll_down_then_up_keeps_size() {
    let mut grid = Grid::new(4, 3);
    grid.scroll_down(0, 3, 10);
    let out = grid.scroll_up(0, 3, 10);
    assert_eq!(out.len(), 4);
    assert_eq!(grid.rows(), 4);
    assert_eq!(grid.cell(3, 2).c, " ");
}
