use escape_time::grid::{cell_at, sample_count, Cell};

#[test]
fn count_is_width_times_height() {
    assert_eq!(sample_count(800, 600), 480_000);
    assert_eq!(sample_count(3, 2), 6);
    assert_eq!(sample_count(1, 1), 1);
}

#[test]
fn empty_grids_have_no_cells() {
    assert_eq!(sample_count(0, 600), 0);
    assert_eq!(sample_count(800, 0), 0);
    assert_eq!(sample_count(0, 0), 0);
    assert_eq!(cell_at(0, 0, 600), None);
    assert_eq!(cell_at(0, 800, 0), None);
    assert_eq!(cell_at(0, 0, 0), None);
}

#[test]
fn count_of_the_largest_grid_fits() {
    assert_eq!(sample_count(u32::MAX, u32::MAX), 18_446_744_065_119_617_025);
    assert_eq!(
        cell_at(18_446_744_065_119_617_024, u32::MAX, u32::MAX),
        Some(Cell { column: u32::MAX - 1, row: u32::MAX - 1 })
    );
    assert_eq!(cell_at(18_446_744_065_119_617_025, u32::MAX, u32::MAX), None);
    assert_eq!(cell_at(u64::MAX, u32::MAX, u32::MAX), None);
}

#[test]
fn first_index_is_the_first_cell() {
    assert_eq!(cell_at(0, 800, 600), Some(Cell { column: 0, row: 0 }));
}

#[test]
fn index_width_starts_the_second_row() {
    assert_eq!(cell_at(799, 800, 600), Some(Cell { column: 799, row: 0 }));
    assert_eq!(cell_at(800, 800, 600), Some(Cell { column: 0, row: 1 }));
    assert_eq!(cell_at(801, 800, 600), Some(Cell { column: 1, row: 1 }));
}

#[test]
fn last_index_is_the_last_cell() {
    assert_eq!(cell_at(479_999, 800, 600), Some(Cell { column: 799, row: 599 }));
    assert_eq!(cell_at(480_000, 800, 600), None);
}

#[test]
fn column_is_the_remainder_and_row_the_quotient() {
    assert_eq!(cell_at(1234, 100, 50), Some(Cell { column: 34, row: 12 }));
    assert_eq!(cell_at(7, 1, 8), Some(Cell { column: 0, row: 7 }));
    assert_eq!(cell_at(7, 8, 1), Some(Cell { column: 7, row: 0 }));
}

#[test]
fn cells_come_in_row_major_order() {
    let width: u32 = 5;
    let height: u32 = 4;
    let mut index: u64 = 0;
    for row in 0..height {
        for column in 0..width {
            assert_eq!(cell_at(index, width, height), Some(Cell { column, row }));
            index += 1;
        }
    }
    assert_eq!(index, sample_count(width, height));
    assert_eq!(cell_at(index, width, height), None);
}
