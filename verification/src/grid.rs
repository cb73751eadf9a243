//! The cell buffer of a Game of Life board.

use vstd::prelude::*;
use crate::board::Board;
use crate::torus::{wrap_next, wrap_prev};

verus! {

/// A rectangular board of cells, `true` for a live cell, stored row by row:
/// cell `(x, y)` is at `y * width + x`.
pub struct Grid {
    pub grid: Vec<bool>,
    pub width: usize,
    pub height: usize,
}

impl View for Grid {
    type V = Board;

    open spec fn view(&self) -> Board {
        Board { cells: self.grid@, width: self.width as nat, height: self.height as nat }
    }
}

impl Clone for Grid {
    fn clone(&self) -> (copy: Self)
        ensures
            copy@ == self@,
    {
        Grid { grid: self.grid.clone(), width: self.width, height: self.height }
    }
}

impl Grid {
    /// The board is not empty and the buffer holds one cell for each of its
    /// positions.
    pub open spec fn wf(&self) -> bool {
        self@.wf()
    }

    /// Tests at run time what `wf` states, for callers that cannot rely on a
    /// proof: the fields are public, so a grid can be put together by hand.
    pub fn well_formed(&self) -> (ok: bool)
        ensures
            ok == self.wf(),
    {
        if self.width == 0 || self.height == 0 {
            return false;
        }
        let len = self.grid.len();
        assert(self.grid@.len() == len);
        match self.width.checked_mul(self.height) {
            Some(cells) => len == cells,
            None => false,
        }
    }

    /// A board of `width` by `height` cells, all of them dead.
    pub fn new(width: usize, height: usize) -> (grid: Self)
        requires
            width > 0,
            height > 0,
            width * height <= usize::MAX,
        ensures
            grid.wf(),
            grid.width == width,
            grid.height == height,
            grid@.all_dead(),
    {
        Self { grid: vec![false; width * height], width, height }
    }

    /// Marks cell `(x, y)` as alive; every other cell keeps its state.
    pub fn set_index(&mut self, x: usize, y: usize)
        requires
            old(self).wf(),
            x < old(self).width,
            y < old(self).height,
        ensures
            final(self).wf(),
            final(self)@ == (Board {
                cells: old(self)@.cells.update(old(self)@.index_of(x as int, y as int), true),
                ..old(self)@
            }),
    {
        let pos = self.get_index(x, y);
        self.grid[pos] = true;
    }

    /// Where cell `(x, y)` stands in the buffer.
    pub fn get_index(&self, x: usize, y: usize) -> (pos: usize)
        requires
            self.wf(),
            x < self.width,
            y < self.height,
        ensures
            pos == self@.index_of(x as int, y as int),
            pos == y * self.width + x,
            pos < self.grid@.len(),
    {
        proof {
            self@.lemma_index_of(x as int, y as int);
            assert(self.grid@.len() == self.grid.len());
        }
        (y * self.width) + x
    }

    /// The coordinates of the cell at `index` in the buffer, column first.
    pub fn position(&self, index: usize) -> (at: (usize, usize))
        requires
            self.wf(),
            index < self.grid@.len(),
        ensures
            at.0 == self@.column_of(index as int),
            at.1 == self@.row_of(index as int),
            at.0 == index % self.width,
            at.1 == index / self.width,
            self@.contains(at.0 as int, at.1 as int),
            self@.index_of(at.0 as int, at.1 as int) == index,
    {
        proof {
            self@.lemma_coordinates(index as int);
        }
        (index % self.width, index / self.width)
    }

    /// Whether cell `(x, y)` is alive.
    pub fn get(&self, x: usize, y: usize) -> (alive: bool)
        requires
            self.wf(),
            x < self.width,
            y < self.height,
        ensures
            alive == self@.alive(x as int, y as int),
    {
        let pos = self.get_index(x, y);
        self.grid[pos]
    }

    /// The number of live cells among the eight cells around `(x, y)`, the
    /// board's edges joined to the opposite edges.
    pub fn neighbours(&self, x: usize, y: usize) -> (count: u8)
        requires
            self.wf(),
            x < self.width,
            y < self.height,
        ensures
            count == self@.neighbours(x as int, y as int),
            count <= 8,
    {
        let left = wrap_prev(x, self.width);
        let right = wrap_next(x, self.width);
        let up = wrap_prev(y, self.height);
        let down = wrap_next(y, self.height);
        let mut count: u8 = 0;
        if self.get(left, up) {
            count += 1;
        }
        if self.get(x, up) {
            count += 1;
        }
        if self.get(right, up) {
            count += 1;
        }
        if self.get(left, y) {
            count += 1;
        }
        if self.get(right, y) {
            count += 1;
        }
        if self.get(left, down) {
            count += 1;
        }
        if self.get(x, down) {
            count += 1;
        }
        if self.get(right, down) {
            count += 1;
        }
        count
    }
}

} // verus!
