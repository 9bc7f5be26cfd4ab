use picross::board::{
    cell_corner, click_cell, locate_cell, status_text, BORDER, CLICK_MARGIN, GRID_LEFT, GRID_TOP,
    PIECE_SIZE,
};
use picross::puzzle::PuzzleError;
use picross::grid::{flatten_grid, init_solution, toggle_cell};

#[test]
fn layout_constants() {
    assert_eq!(GRID_LEFT, 500);
    assert_eq!(GRID_TOP, 300);
    assert_eq!(PIECE_SIZE, 80);
    assert_eq!(BORDER, 20);
    assert_eq!(CLICK_MARGIN, 5);
}

#[test]
fn blank_solution() {
    assert_eq!(init_solution(0), Vec::<Vec<bool>>::new());
    assert_eq!(init_solution(1), vec![vec![false]]);
    assert_eq!(init_solution(3), vec![vec![false; 3]; 3]);
    assert_eq!(init_solution(8), vec![vec![false; 8]; 8]);
}

#[test]
fn toggle_inverts_one_cell() {
    let mut grid = init_solution(3);
    toggle_cell(&mut grid, 1, 2);
    assert_eq!(
        grid,
        vec![vec![false, false, false], vec![false, false, true], vec![false, false, false]]
    );
    toggle_cell(&mut grid, 0, 0);
    toggle_cell(&mut grid, 1, 2);
    assert_eq!(
        grid,
        vec![vec![true, false, false], vec![false, false, false], vec![false, false, false]]
    );
}

#[test]
fn toggle_outside_the_grid_changes_nothing() {
    let mut grid = init_solution(3);
    toggle_cell(&mut grid, 3, 0);
    toggle_cell(&mut grid, 0, 3);
    toggle_cell(&mut grid, usize::MAX, usize::MAX);
    assert_eq!(grid, init_solution(3));
    let mut ragged = vec![vec![true], vec![false, false]];
    toggle_cell(&mut ragged, 0, 1);
    assert_eq!(ragged, vec![vec![true], vec![false, false]]);
    toggle_cell(&mut ragged, 1, 1);
    assert_eq!(ragged, vec![vec![true], vec![false, true]]);
}

#[test]
fn flattening() {
    assert_eq!(flatten_grid(&Vec::new()), Vec::<bool>::new());
    let grid = vec![vec![true, false], vec![], vec![false, true, true]];
    assert_eq!(flatten_grid(&grid), vec![true, false, false, true, true]);
}

#[test]
fn locate_inside_cells() {
    assert_eq!(locate_cell(500, 300, 8), Some((0, 0)));
    assert_eq!(locate_cell(579, 379, 8), Some((0, 0)));
    assert_eq!(locate_cell(580, 300, 8), Some((0, 1)));
    assert_eq!(locate_cell(500, 380, 8), Some((1, 0)));
    assert_eq!(locate_cell(745, 620, 8), Some((4, 3)));
    assert_eq!(locate_cell(1139, 939, 8), Some((7, 7)));
}

#[test]
fn locate_in_the_margin() {
    assert_eq!(locate_cell(495, 295, 8), Some((0, 0)));
    assert_eq!(locate_cell(499, 460, 8), Some((2, 0)));
    assert_eq!(locate_cell(660, 299, 8), Some((0, 2)));
    assert_eq!(locate_cell(494, 300, 8), None);
    assert_eq!(locate_cell(500, 294, 8), None);
}

#[test]
fn locate_outside_the_grid() {
    assert_eq!(locate_cell(1140, 300, 8), None);
    assert_eq!(locate_cell(500, 940, 8), None);
    assert_eq!(locate_cell(0, 0, 8), None);
    assert_eq!(locate_cell(-1, -1, 8), None);
    assert_eq!(locate_cell(i32::MIN, i32::MIN, 8), None);
    assert_eq!(locate_cell(i32::MAX, i32::MAX, 8), None);
    assert_eq!(locate_cell(500, 300, 0), None);
    assert_eq!(locate_cell(497, 297, 0), None);
    assert_eq!(locate_cell(900, 300, 5), None);
    assert_eq!(locate_cell(899, 300, 5), Some((0, 4)));
    assert_eq!(locate_cell(500, 699, 5), Some((4, 0)));
    assert_eq!(locate_cell(500, 700, 5), None);
}

#[test]
fn click_toggles_the_cell_under_it() {
    let mut grid = init_solution(5);
    click_cell(&mut grid, 590, 470);
    let mut expected = init_solution(5);
    expected[2][1] = true;
    assert_eq!(grid, expected);
    click_cell(&mut grid, 600, 475);
    assert_eq!(grid, init_solution(5));
}

#[test]
fn click_outside_the_grid_is_ignored() {
    let mut grid = init_solution(5);
    click_cell(&mut grid, 10, 10);
    click_cell(&mut grid, 900, 300);
    click_cell(&mut grid, 500, 700);
    click_cell(&mut grid, 494, 300);
    assert_eq!(grid, init_solution(5));
}

#[test]
fn corners_of_marks() {
    assert_eq!(cell_corner(0, 0), (500, 300));
    assert_eq!(cell_corner(0, 1), (580, 300));
    assert_eq!(cell_corner(1, 0), (500, 380));
    assert_eq!(cell_corner(7, 3), (740, 860));
}

#[test]
fn click_on_a_corner_hits_its_cell() {
    for row in 0..8 {
        for col in 0..8 {
            let (x, y) = cell_corner(row, col);
            assert_eq!(locate_cell(x, y, 8), Some((row, col)));
            let inside = PIECE_SIZE - BORDER - 1;
            assert_eq!(locate_cell(x + inside, y + inside, 8), Some((row, col)));
        }
    }
}

#[test]
fn banner_texts() {
    assert_eq!(status_text(Ok(true)), "Correct");
    assert_eq!(status_text(Ok(false)), "Not yet...");
    assert_eq!(status_text(Err(PuzzleError::DimensionMismatch)), "Not yet...");
    assert_eq!(status_text(Err(PuzzleError::InvalidDimensions)), "Not yet...");
}
