//! Tests for cells and the cell grid.

use glyphgrid::cell::{Cell, CellGrid, BOLD, ITALIC, UNDERLINE};

#[test]
fn cell_styles_are_bit_flags() {
    let mut cell = Cell::new('x');
    assert!(!cell.has_style(BOLD));
    cell.add_style(BOLD);
    cell.add_style(ITALIC);
    assert!(cell.has_style(BOLD));
    assert!(cell.has_style(ITALIC));
    assert!(!cell.has_style(UNDERLINE));
    cell.remove_style(BOLD);
    assert!(!cell.has_style(BOLD));
    cell.toggle_style(UNDERLINE);
    assert!(cell.has_style(UNDERLINE));
    cell.toggle_style(UNDERLINE);
    assert!(!cell.has_style(UNDERLINE));
}

#[test]
fn cell_emptiness_is_the_default_cell() {
    assert!(Cell::default().is_empty());
    assert!(!Cell::new('a').is_empty());
    assert!(!Cell::styled(' ', 3, 0, 0).is_empty());
    assert!(!Cell::styled(' ', 7, 0, BOLD).is_empty());
    assert!(Cell::styled(' ', 7, 0, 0).is_empty());
}

#[test]
fn set_and_get_track_dirty_rows() {
    let mut grid = CellGrid::<8, 4>::new();
    assert_eq!(grid.dimensions(), (8, 4));
    assert_eq!(grid.dirty_row_count(), 0);
    assert_eq!(grid.change_count(), 0);

    grid.set_cell(2, 1, Cell::new('q'));
    assert_eq!(grid.get_cell(2, 1).unwrap().character, 'q');
    assert!(grid.is_row_dirty(1));
    assert!(!grid.is_row_dirty(0));
    assert_eq!(grid.dirty_row_count(), 1);
    assert_eq!(grid.change_count(), 1);

    // Writes outside the grid are ignored.
    grid.set_cell(8, 0, Cell::new('z'));
    grid.set_cell(0, 4, Cell::new('z'));
    assert_eq!(grid.change_count(), 1);
    assert!(grid.get_cell(8, 0).is_none());
    assert!(grid.get_cell(0, 4).is_none());

    grid.clear_dirty_flags();
    assert_eq!(grid.dirty_row_count(), 0);
}

#[test]
fn dirty_rows_iter_lists_dirty_indices_in_order() {
    let mut grid = CellGrid::<4, 6>::new();
    grid.mark_row_dirty(4);
    grid.mark_row_dirty(1);
    grid.mark_row_dirty(4);
    assert_eq!(grid.dirty_rows_iter(), vec![1, 4]);
}

#[test]
fn fill_and_clear_touch_every_row() {
    let mut grid = CellGrid::<3, 2>::new();
    grid.fill(Cell::new('#'));
    for r in 0..2 {
        for c in 0..3 {
            assert_eq!(grid.get_cell(c, r).unwrap().character, '#');
        }
        assert!(grid.is_row_dirty(r));
    }
    grid.clear();
    for r in 0..2 {
        for c in 0..3 {
            assert!(grid.get_cell(c, r).unwrap().is_empty());
        }
    }
}

#[test]
fn copy_row_duplicates_cells() {
    let mut grid = CellGrid::<3, 3>::new();
    grid.set_cell(0, 0, Cell::new('a'));
    grid.set_cell(1, 0, Cell::new('b'));
    grid.copy_row(0, 2);
    assert_eq!(grid.get_cell(0, 2).unwrap().character, 'a');
    assert_eq!(grid.get_cell(1, 2).unwrap().character, 'b');
    // Copying a row onto itself is ignored.
    let before = grid.change_count();
    grid.copy_row(1, 1);
    assert_eq!(grid.change_count(), before);
}

#[test]
fn scroll_up_moves_rows_and_clears_the_bottom() {
    let mut grid = CellGrid::<2, 3>::new();
    grid.set_cell(0, 0, Cell::new('0'));
    grid.set_cell(0, 1, Cell::new('1'));
    grid.set_cell(0, 2, Cell::new('2'));
    grid.scroll_up(1);
    assert_eq!(grid.get_cell(0, 0).unwrap().character, '1');
    assert_eq!(grid.get_cell(0, 1).unwrap().character, '2');
    assert!(grid.get_cell(0, 2).unwrap().is_empty());
    assert!(grid.is_row_dirty(0) && grid.is_row_dirty(1) && grid.is_row_dirty(2));
}

#[test]
fn scroll_down_moves_rows_and_clears_the_top() {
    let mut grid = CellGrid::<2, 3>::new();
    grid.set_cell(0, 0, Cell::new('0'));
    grid.set_cell(0, 1, Cell::new('1'));
    grid.set_cell(0, 2, Cell::new('2'));
    grid.scroll_down(1);
    assert!(grid.get_cell(0, 0).unwrap().is_empty());
    assert_eq!(grid.get_cell(0, 1).unwrap().character, '0');
    assert_eq!(grid.get_cell(0, 2).unwrap().character, '1');
}

#[test]
fn scroll_by_zero_or_full_height_changes_nothing() {
    let mut grid = CellGrid::<2, 3>::new();
    grid.set_cell(0, 1, Cell::new('x'));
    let count = grid.change_count();
    grid.scroll_up(0);
    grid.scroll_up(3);
    grid.scroll_down(0);
    grid.scroll_down(7);
    assert_eq!(grid.change_count(), count);
    assert_eq!(grid.get_cell(0, 1).unwrap().character, 'x');
}

#[test]
fn clear_row_resets_one_row_only() {
    let mut grid = CellGrid::<2, 2>::new();
    grid.set_cell(0, 0, Cell::new('a'));
    grid.set_cell(0, 1, Cell::new('b'));
    grid.clear_row(0);
    assert!(grid.get_cell(0, 0).unwrap().is_empty());
    assert_eq!(grid.get_cell(0, 1).unwrap().character, 'b');
}

#[test]
fn get_row_borrows_a_whole_row() {
    let mut grid = CellGrid::<3, 2>::new();
    grid.set_cell(1, 0, Cell::new('m'));
    let row = grid.get_row(0).unwrap();
    assert_eq!(row.len(), 3);
    assert_eq!(row[1].character, 'm');
    assert!(grid.get_row(2).is_none());
}
