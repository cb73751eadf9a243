use game_of_life::torus::{wrap_next, wrap_prev};
use game_of_life::{Game, Grid};

#[test]
fn new_grid_is_all_dead() {
    let grid = Grid::new(7, 3);
    assert_eq!(grid.width, 7);
    assert_eq!(grid.height, 3);
    assert_eq!(grid.grid, vec![false; 21]);
}

#[test]
fn new_grid_of_one_cell() {
    let grid = Grid::new(1, 1);
    assert_eq!(grid.grid, vec![false]);
    assert!(!grid.get(0, 0));
}

#[test]
fn get_index_is_row_major() {
    let grid = Grid::new(50, 40);
    assert_eq!(grid.get_index(0, 0), 0);
    assert_eq!(grid.get_index(6, 7), 356);
    assert_eq!(grid.get_index(49, 0), 49);
    assert_eq!(grid.get_index(0, 1), 50);
    assert_eq!(grid.get_index(49, 39), 1999);
}

#[test]
fn position_inverts_get_index() {
    let grid = Grid::new(50, 40);
    assert_eq!(grid.position(356), (6, 7));
    assert_eq!(grid.position(0), (0, 0));
    assert_eq!(grid.position(1999), (49, 39));
    for y in 0..40 {
        for x in 0..50 {
            assert_eq!(grid.position(grid.get_index(x, y)), (x, y));
        }
    }
}

#[test]
fn set_index_marks_one_cell() {
    let mut grid = Grid::new(4, 3);
    grid.set_index(1, 2);
    let mut expected = vec![false; 12];
    expected[9] = true;
    assert_eq!(grid.grid, expected);
    assert!(grid.get(1, 2));
    assert!(!grid.get(2, 1));
}

#[test]
fn set_index_twice_keeps_the_cell_alive() {
    let mut grid = Grid::new(4, 3);
    grid.set_index(3, 0);
    grid.set_index(3, 0);
    assert!(grid.get(3, 0));
    assert_eq!(grid.grid.iter().filter(|alive| **alive).count(), 1);
}

#[test]
fn clone_copies_cells_and_size() {
    let mut grid = Grid::new(3, 2);
    grid.set_index(2, 1);
    let copy = grid.clone();
    assert_eq!(copy.width, 3);
    assert_eq!(copy.height, 2);
    assert_eq!(copy.grid, grid.grid);
    grid.set_index(0, 0);
    assert!(!copy.get(0, 0));
}

#[test]
fn wrap_prev_steps_back_around_the_ring() {
    assert_eq!(wrap_prev(0, 5), 4);
    assert_eq!(wrap_prev(1, 5), 0);
    assert_eq!(wrap_prev(4, 5), 3);
    assert_eq!(wrap_prev(0, 1), 0);
}

#[test]
fn wrap_next_steps_forward_around_the_ring() {
    assert_eq!(wrap_next(4, 5), 0);
    assert_eq!(wrap_next(0, 5), 1);
    assert_eq!(wrap_next(3, 5), 4);
    assert_eq!(wrap_next(0, 1), 0);
}

#[test]
fn wrapping_is_arithmetic_modulo_the_size() {
    for dim in 1..9usize {
        for c in 0..dim {
            assert_eq!(wrap_prev(c, dim), (c + dim - 1) % dim);
            assert_eq!(wrap_next(c, dim), (c + 1) % dim);
            assert_eq!(wrap_next(wrap_prev(c, dim), dim), c);
        }
    }
}

#[test]
fn neighbours_counts_the_eight_surrounding_cells() {
    let mut grid = Grid::new(5, 5);
    for (x, y) in [(1, 1), (2, 1), (3, 1), (1, 2), (3, 2), (1, 3), (2, 3), (3, 3)] {
        grid.set_index(x, y);
    }
    assert_eq!(grid.neighbours(2, 2), 8);
    assert_eq!(grid.neighbours(1, 1), 2);
    assert_eq!(grid.neighbours(0, 0), 1);
    assert_eq!(grid.neighbours(2, 0), 3);
}

#[test]
fn neighbours_does_not_count_the_cell_itself() {
    let mut grid = Grid::new(5, 5);
    grid.set_index(2, 2);
    assert_eq!(grid.neighbours(2, 2), 0);
    assert_eq!(grid.neighbours(1, 1), 1);
}

#[test]
fn corner_cells_are_diagonal_neighbours_across_the_edges() {
    let mut grid = Grid::new(3, 3);
    grid.set_index(2, 2);
    assert_eq!(grid.neighbours(0, 0), 1);
    grid.set_index(0, 0);
    assert_eq!(grid.neighbours(0, 0), 1);
    assert_eq!(grid.neighbours(2, 2), 1);
    grid.set_index(2, 0);
    grid.set_index(0, 2);
    assert_eq!(grid.neighbours(0, 0), 3);
    assert_eq!(grid.neighbours(1, 1), 4);
}

#[test]
fn far_corner_is_a_neighbour_on_an_oblong_grid() {
    let mut grid = Grid::new(6, 4);
    grid.set_index(5, 3);
    assert_eq!(grid.neighbours(0, 0), 1);
    assert_eq!(grid.neighbours(1, 0), 0);
    assert_eq!(grid.neighbours(0, 1), 0);
}

#[test]
fn narrow_grid_counts_a_cell_once_for_each_lookup() {
    let mut single = Grid::new(1, 1);
    single.set_index(0, 0);
    assert_eq!(single.neighbours(0, 0), 8);

    let mut column = Grid::new(1, 3);
    column.set_index(0, 0);
    assert_eq!(column.neighbours(0, 0), 2);
    assert_eq!(column.neighbours(0, 1), 3);
    assert_eq!(column.neighbours(0, 2), 3);

    let mut pair = Grid::new(2, 4);
    pair.set_index(1, 1);
    assert_eq!(pair.neighbours(0, 1), 2);
    assert_eq!(pair.neighbours(0, 0), 2);
    assert_eq!(pair.neighbours(1, 0), 1);
}

#[test]
fn game_starts_with_a_dead_grid() {
    let mut game = Game::new(50, 50);
    let grid = game.grid();
    assert_eq!(grid.width, 50);
    assert_eq!(grid.height, 50);
    assert_eq!(grid.grid, vec![false; 2500]);
}

#[test]
fn game_keeps_what_is_seeded_through_its_grid() {
    let mut game = Game::new(50, 50);
    let grid = game.grid();
    grid.set_index(6, 6);
    grid.set_index(4, 7);
    assert!(game.grid().get(6, 6));
    assert!(game.grid().get(4, 7));
    assert!(!game.grid().get(7, 4));
    let grid = game.into_grid();
    assert_eq!(grid.grid.iter().filter(|alive| **alive).count(), 2);
    assert!(grid.grid[306]);
    assert!(grid.grid[354]);
}

#[test]
fn well_formed_accepts_what_new_builds() {
    assert!(Grid::new(7, 3).well_formed());
    assert!(Grid::new(1, 1).well_formed());
    let mut grid = Grid::new(4, 4);
    grid.set_index(3, 3);
    assert!(grid.well_formed());
}

#[test]
fn well_formed_rejects_a_buffer_of_the_wrong_length() {
    assert!(!Grid { grid: vec![false; 5], width: 2, height: 3 }.well_formed());
    assert!(!Grid { grid: vec![false; 7], width: 2, height: 3 }.well_formed());
    assert!(Grid { grid: vec![true; 6], width: 2, height: 3 }.well_formed());
}

#[test]
fn well_formed_rejects_an_empty_board() {
    assert!(!Grid { grid: vec![], width: 0, height: 3 }.well_formed());
    assert!(!Grid { grid: vec![], width: 3, height: 0 }.well_formed());
    assert!(!Grid { grid: vec![], width: 0, height: 0 }.well_formed());
}

#[test]
fn well_formed_rejects_a_size_beyond_the_machine() {
    assert!(!Grid { grid: vec![], width: usize::MAX, height: 2 }.well_formed());
    assert!(!Grid { grid: vec![false; 2], width: usize::MAX, height: usize::MAX }.well_formed());
}
