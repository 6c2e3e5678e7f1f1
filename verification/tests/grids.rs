use tgv::grid::Grid;
use tgv::shift::{circular_shift, wrap_index};

fn grid(rows: Vec<Vec<i32>>) -> Grid<i32> {
    let width = rows.first().map_or(0, |r| r.len());
    Grid::from_rows(width, rows).unwrap()
}

fn sample() -> Grid<i32> {
    grid(vec![vec![1, 2, 3], vec![4, 5, 6], vec![7, 8, 9], vec![10, 11, 12]])
}

#[test]
fn from_rows_keeps_shape_and_cells() {
    let g = sample();
    assert_eq!(g.height(), 4);
    assert_eq!(g.width(), 3);
    assert_eq!(g.get(0, 0), 1);
    assert_eq!(g.get(1, 2), 6);
    assert_eq!(g.get(3, 1), 11);
    assert_eq!(g.into_rows(), vec![vec![1, 2, 3], vec![4, 5, 6], vec![7, 8, 9], vec![10, 11, 12]]);
}

#[test]
fn from_rows_refuses_ragged_rows() {
    assert!(Grid::from_rows(2, vec![vec![1, 2], vec![3]]).is_none());
    assert!(Grid::from_rows(3, vec![vec![1, 2], vec![3, 4]]).is_none());
    assert!(Grid::from_rows(2, vec![vec![1, 2], vec![3, 4]]).is_some());
}

#[test]
fn from_rows_of_no_rows_keeps_the_width() {
    let g: Grid<i32> = Grid::from_rows(7, Vec::new()).unwrap();
    assert_eq!(g.height(), 0);
    assert_eq!(g.width(), 7);
}

#[test]
fn filled_sets_every_cell() {
    let g = Grid::filled(2, 3, 9u8);
    assert_eq!(g.height(), 2);
    assert_eq!(g.width(), 3);
    assert_eq!(g.into_rows(), vec![vec![9, 9, 9], vec![9, 9, 9]]);
}

#[test]
fn tabulate_passes_row_then_column() {
    let g = Grid::tabulate(2, 3, |i: usize, j: usize| 10 * i + j);
    assert_eq!(g.into_rows(), vec![vec![0, 1, 2], vec![10, 11, 12]]);
}

#[test]
fn duplicate_is_equal_cell_for_cell() {
    let g = sample();
    let copy = g.duplicate();
    assert_eq!(copy.height(), 4);
    assert_eq!(copy.width(), 3);
    assert_eq!(copy.into_rows(), g.into_rows());
}

#[test]
fn wrap_index_steps_back_by_the_amount() {
    assert_eq!(wrap_index(0, 5, 1), 4);
    assert_eq!(wrap_index(3, 5, 1), 2);
    assert_eq!(wrap_index(4, 5, -1), 0);
    assert_eq!(wrap_index(0, 5, -1), 1);
    assert_eq!(wrap_index(2, 5, 7), 0);
    assert_eq!(wrap_index(2, 5, -7), 4);
    assert_eq!(wrap_index(2, 5, 5), 2);
    assert_eq!(wrap_index(0, 1, i32::MIN), 0);
    assert_eq!(wrap_index(1, 3, i32::MAX), (1 + 3 - (i32::MAX as usize % 3)) % 3);
    assert_eq!(wrap_index(1, 3, i32::MIN), (1 + (1usize << 31)) % 3);
}

#[test]
fn shift_down_by_one_wraps_last_row_to_top() {
    let r = circular_shift(&sample(), 0, 1);
    assert_eq!(r.into_rows(), vec![vec![10, 11, 12], vec![1, 2, 3], vec![4, 5, 6], vec![7, 8, 9]]);
}

#[test]
fn shift_up_by_one_wraps_first_row_to_bottom() {
    let r = circular_shift(&sample(), 0, -1);
    assert_eq!(r.into_rows(), vec![vec![4, 5, 6], vec![7, 8, 9], vec![10, 11, 12], vec![1, 2, 3]]);
}

#[test]
fn shift_right_by_one_wraps_last_column_to_front() {
    let r = circular_shift(&sample(), 1, 1);
    assert_eq!(r.into_rows(), vec![vec![3, 1, 2], vec![6, 4, 5], vec![9, 7, 8], vec![12, 10, 11]]);
}

#[test]
fn shift_left_by_one_wraps_first_column_to_back() {
    let r = circular_shift(&sample(), 1, -1);
    assert_eq!(r.into_rows(), vec![vec![2, 3, 1], vec![5, 6, 4], vec![8, 9, 7], vec![11, 12, 10]]);
}

#[test]
fn shift_by_more_than_the_length_wraps_around() {
    let by_five = circular_shift(&sample(), 1, 5);
    let by_two = circular_shift(&sample(), 1, 2);
    assert_eq!(by_five.into_rows(), by_two.into_rows());
    let by_minus_nine = circular_shift(&sample(), 0, -9);
    let by_minus_one = circular_shift(&sample(), 0, -1);
    assert_eq!(by_minus_nine.into_rows(), by_minus_one.into_rows());
}

#[test]
fn shift_by_the_full_length_changes_nothing() {
    assert_eq!(circular_shift(&sample(), 0, 4).into_rows(), sample().into_rows());
    assert_eq!(circular_shift(&sample(), 1, -3).into_rows(), sample().into_rows());
}

#[test]
fn shift_along_another_axis_copies() {
    let r = circular_shift(&sample(), 2, 1);
    assert_eq!(r.into_rows(), sample().into_rows());
}

#[test]
fn shift_and_opposite_shift_cancel() {
    for axis in 0..2usize {
        for amount in [-5i32, -1, 1, 2, 7] {
            let there = circular_shift(&sample(), axis, amount);
            let back = circular_shift(&there, axis, -amount);
            assert_eq!(back.into_rows(), sample().into_rows());
        }
    }
}

#[test]
fn two_shifts_add_up() {
    let twice = circular_shift(&circular_shift(&sample(), 0, 1), 0, 2);
    let once = circular_shift(&sample(), 0, 3);
    assert_eq!(twice.into_rows(), once.into_rows());
}

#[test]
fn shift_of_an_empty_grid_is_empty() {
    let none: Grid<i32> = Grid::from_rows(3, Vec::new()).unwrap();
    let r = circular_shift(&none, 0, 1);
    assert_eq!(r.height(), 0);
    assert_eq!(r.width(), 3);
    let thin: Grid<i32> = Grid::from_rows(0, vec![Vec::new(), Vec::new()]).unwrap();
    let r = circular_shift(&thin, 1, -1);
    assert_eq!(r.height(), 2);
    assert_eq!(r.width(), 0);
}

#[test]
fn shift_moves_channel_cells_whole() {
    let g = Grid::from_rows(2, vec![vec![(1, 10), (2, 20)], vec![(3, 30), (4, 40)]]).unwrap();
    let r = circular_shift(&g, 1, 1);
    assert_eq!(r.into_rows(), vec![vec![(2, 20), (1, 10)], vec![(4, 40), (3, 30)]]);
}
