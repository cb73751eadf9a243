//! The mathematical model: a board of cells on a torus and one generation
//! of Conway's rule on it.

use vstd::prelude::*;
use crate::torus::{after, before};

verus! {

/// How many live cells a single cell contributes to a count.
pub open spec fn population(alive: bool) -> nat {
    if alive {
        1
    } else {
        0
    }
}

/// Conway's rule, stated as the cells that change: a live cell with fewer
/// than two or more than three live neighbours dies, a dead cell with exactly
/// three comes alive, and every other cell stays as it is.
pub open spec fn toggles(alive: bool, neighbours: nat) -> bool {
    if alive {
        neighbours < 2 || neighbours > 3
    } else {
        neighbours == 3
    }
}

/// Whether `changes` has an entry for the cell at `index`.
pub open spec fn reports(changes: Seq<(int, bool)>, index: int) -> bool {
    exists|k: int| 0 <= k < changes.len() && (#[trigger] changes[k]).0 == index
}

/// A board of `width` by `height` cells, stored row by row.
pub struct Board {
    pub cells: Seq<bool>,
    pub width: nat,
    pub height: nat,
}

impl Board {
    /// The board is not empty and holds one cell for each position.
    pub open spec fn wf(self) -> bool {
        &&& self.width > 0
        &&& self.height > 0
        &&& self.cells.len() == self.width * self.height
    }

    /// `(x, y)` names a cell of the board.
    pub open spec fn contains(self, x: int, y: int) -> bool {
        0 <= x < self.width && 0 <= y < self.height
    }

    /// Where cell `(x, y)` stands in `cells`.
    pub open spec fn index_of(self, x: int, y: int) -> int {
        y * self.width + x
    }

    /// The column of the cell at `index`.
    pub open spec fn column_of(self, index: int) -> int {
        index % (self.width as int)
    }

    /// The row of the cell at `index`.
    pub open spec fn row_of(self, index: int) -> int {
        index / (self.width as int)
    }

    /// Whether cell `(x, y)` is alive.
    pub open spec fn alive(self, x: int, y: int) -> bool {
        self.cells[self.index_of(x, y)]
    }

    /// The number of live cells among the eight cells around `(x, y)`, where
    /// each edge of the board continues at the opposite edge.
    ///
    /// The eight lookups are independent. On a board one or two cells wide
    /// (or high) several of them reach the same cell, which is then counted
    /// once for each lookup that reaches it.
    pub open spec fn neighbours(self, x: int, y: int) -> nat {
        let left = before(x, self.width as int);
        let right = after(x, self.width as int);
        let up = before(y, self.height as int);
        let down = after(y, self.height as int);
        population(self.alive(left, up)) + population(self.alive(x, up)) + population(
            self.alive(right, up),
        ) + population(self.alive(left, y)) + population(self.alive(right, y)) + population(
            self.alive(left, down),
        ) + population(self.alive(x, down)) + population(self.alive(right, down))
    }

    /// Whether the cell at `index` changes in the next generation.
    pub open spec fn flips(self, index: int) -> bool {
        let x = self.column_of(index);
        let y = self.row_of(index);
        toggles(self.alive(x, y), self.neighbours(x, y))
    }

    /// The next generation: every cell that the rule toggles is inverted, all
    /// of them judged on this board.
    pub open spec fn next(self) -> Board {
        Board {
            cells: Seq::new(self.cells.len(), |i: int| self.cells[i] != self.flips(i)),
            width: self.width,
            height: self.height,
        }
    }

    /// The board after `n` generations.
    pub open spec fn generation(self, n: nat) -> Board
        decreases n,
    {
        if n == 0 {
            self
        } else {
            self.generation((n - 1) as nat).next()
        }
    }

    /// The indices below `n` of the cells that change in the next
    /// generation, in ascending order.
    pub open spec fn flipped_below(self, n: nat) -> Seq<int>
        decreases n,
    {
        if n == 0 {
            Seq::empty()
        } else if self.flips(n - 1) {
            self.flipped_below((n - 1) as nat).push(n - 1)
        } else {
            self.flipped_below((n - 1) as nat)
        }
    }

    /// The indices of all cells that change in the next generation, in
    /// ascending order, which is the order of a row-by-row scan.
    pub open spec fn flipped(self) -> Seq<int> {
        self.flipped_below(self.cells.len())
    }

    /// What one generation changes: each cell that flips, in scan order, with
    /// the state it has afterwards.
    pub open spec fn delta(self) -> Seq<(int, bool)> {
        Seq::new(self.flipped().len(), |k: int| (self.flipped()[k], !self.cells[self.flipped()[k]]))
    }

    /// No cell is alive.
    pub open spec fn all_dead(self) -> bool {
        forall|i: int| 0 <= i < self.cells.len() ==> !self.cells[i]
    }

    /// The cells listed by `flipped_below` are exactly the cells below `n`
    /// that flip, each listed once and in ascending order.
    pub proof fn lemma_flipped_below(self, n: nat)
        ensures
            self.flipped_below(n).len() <= n,
            forall|k: int|
                0 <= k < self.flipped_below(n).len() ==> {
                    &&& 0 <= #[trigger] self.flipped_below(n)[k] < n
                    &&& self.flips(self.flipped_below(n)[k])
                },
            forall|j: int, k: int|
                0 <= j < k < self.flipped_below(n).len() ==> self.flipped_below(n)[j]
                    < self.flipped_below(n)[k],
            forall|i: int| 0 <= i < n && self.flips(i) ==> self.flipped_below(n).contains(i),
        decreases n,
    {
        if n > 0 {
            let shorter = self.flipped_below((n - 1) as nat);
            self.lemma_flipped_below((n - 1) as nat);
            let longer = self.flipped_below(n);
            assert forall|i: int| 0 <= i < n && self.flips(i) implies longer.contains(i) by {
                if i == n - 1 {
                    assert(longer[longer.len() - 1] == i);
                } else {
                    let k = choose|k: int| 0 <= k < shorter.len() && shorter[k] == i;
                    assert(longer[k] == i);
                }
            }
        }
    }

    /// Every cell of the board has a place in `cells`, from which its
    /// coordinates are found again.
    pub proof fn lemma_index_of(self, x: int, y: int)
        requires
            self.wf(),
            self.contains(x, y),
        ensures
            0 <= self.index_of(x, y) < self.cells.len(),
            self.column_of(self.index_of(x, y)) == x,
            self.row_of(self.index_of(x, y)) == y,
    {
        let w = self.width as int;
        let h = self.height as int;
        assert(0 <= y * w && y * w + w <= h * w) by (nonlinear_arith)
            requires
                0 <= y < h,
                0 < w,
        ;
        assert(h * w == self.width * self.height) by (nonlinear_arith)
            requires
                w == self.width,
                h == self.height,
        ;
        vstd::arithmetic::div_mod::lemma_fundamental_div_mod_converse(y * w + x, w, y, x);
    }

    /// Every place in `cells` belongs to exactly one cell of the board.
    pub proof fn lemma_coordinates(self, index: int)
        requires
            self.wf(),
            0 <= index < self.cells.len(),
        ensures
            self.contains(self.column_of(index), self.row_of(index)),
            self.index_of(self.column_of(index), self.row_of(index)) == index,
    {
        let w = self.width as int;
        let h = self.height as int;
        let x = index % w;
        let y = index / w;
        vstd::arithmetic::div_mod::lemma_fundamental_div_mod(index, w);
        vstd::arithmetic::div_mod::lemma_mod_bound(index, w);
        assert(w * y == y * w) by (nonlinear_arith);
        assert(0 <= y < h) by (nonlinear_arith)
            requires
                0 <= index < w * h,
                index == y * w + x,
                0 <= x < w,
        ;
    }
}

} // verus!
