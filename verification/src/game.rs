//! The owner of a simulation's grid.

use vstd::prelude::*;
use crate::grid::Grid;

verus! {

/// A game of Life: it owns the grid that the generations are played on.
pub struct Game {
    grid: Grid,
}

impl View for Game {
    type V = Grid;

    closed spec fn view(&self) -> Grid {
        self.grid
    }
}

impl Game {
    /// A game on a board of `width` by `height` cells, all of them dead.
    pub fn new(width: usize, height: usize) -> (game: Self)
        requires
            width > 0,
            height > 0,
            width * height <= usize::MAX,
        ensures
            game@.wf(),
            game@.width == width,
            game@.height == height,
            game@@.all_dead(),
    {
        Self { grid: Grid::new(width, height) }
    }

    /// The game's grid, to seed it or to play a generation on it. What the
    /// caller leaves in it is the game's grid from then on.
    pub fn grid(&mut self) -> (grid: &mut Grid)
        ensures
            *grid == old(self)@,
            final(self)@ == *final(grid),
    {
        &mut self.grid
    }

    /// Gives up the game and hands out its grid.
    pub fn into_grid(self) -> (grid: Grid)
        ensures
            grid == self@,
    {
        self.grid
    }
}

} // verus!
