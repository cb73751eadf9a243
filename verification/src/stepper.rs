//! One generation of Life on a grid, and the record of what it changed.

use vstd::prelude::*;
use crate::board::{reports, toggles};
use crate::grid::Grid;

verus! {

/// The cells that the last generation changed, in the order of a row-by-row
/// scan: each entry is a cell's index in the grid's buffer and the state the
/// cell has now.
pub struct GridDelta {
    pub xs: Vec<(usize, bool)>,
}

impl View for GridDelta {
    type V = Seq<(int, bool)>;

    open spec fn view(&self) -> Seq<(int, bool)> {
        Seq::new(self.xs@.len(), |k: int| (self.xs@[k].0 as int, self.xs@[k].1))
    }
}

impl Default for GridDelta {
    fn default() -> (delta: Self)
        ensures
            delta@ == Seq::<(int, bool)>::empty(),
    {
        GridDelta { xs: Vec::new() }
    }
}

/// The buffer positions in `coords` as mathematical integers.
pub open spec fn indices(coords: Seq<usize>) -> Seq<int> {
    Seq::new(coords.len(), |k: int| coords[k] as int)
}

/// Conway's rule for one cell: whether a cell in state `alive` with
/// `neighbours` live cells around it changes state.
pub fn must_toggle(alive: bool, neighbours: u8) -> (toggle: bool)
    ensures
        toggle == toggles(alive, neighbours as nat),
{
    if alive && (neighbours < 2 || neighbours > 3) {
        true
    } else if !alive && neighbours == 3 {
        true
    } else {
        false
    }
}

/// Advances `grid` by one generation and leaves in `delta` the cells that
/// changed.
///
/// Every cell is judged on the grid as it was before the call; only then are
/// the changes written. What `delta` held before is discarded.
pub fn step(grid: &mut Grid, delta: &mut GridDelta)
    requires
        old(grid).wf(),
    ensures
        final(grid).wf(),
        final(grid)@ == old(grid)@.next(),
        final(delta)@ == old(grid)@.delta(),
        final(delta)@.len() <= old(grid)@.cells.len(),
        forall|i: int|
            0 <= i < old(grid)@.cells.len() ==> (old(grid)@.cells[i] != final(grid)@.cells[i]
                <==> reports(final(delta)@, i)),
{
    let ghost before = grid@;
    let mut coords: Vec<usize> = Vec::new();
    assert(indices(coords@) == before.flipped_below((0 * grid.width) as nat));

    for i in 0..grid.height
        invariant
            grid@ == before,
            before.wf(),
            indices(coords@) == before.flipped_below((i * grid.width) as nat),
    {
        for j in 0..grid.width
            invariant
                grid@ == before,
                before.wf(),
                i < grid.height,
                indices(coords@) == before.flipped_below((i * grid.width + j) as nat),
        {
            let neighbours = grid.neighbours(j, i);
            let pos = grid.get_index(j, i);
            proof {
                before.lemma_index_of(j as int, i as int);
            }
            if must_toggle(grid.grid[pos], neighbours) {
                coords.push(pos);
            }
        }
        assert(i * grid.width + grid.width == (i + 1) * grid.width) by (nonlinear_arith);
    }

    proof {
        assert(grid.height * grid.width == before.cells.len()) by (nonlinear_arith)
            requires
                before.cells.len() == grid.width * grid.height,
        ;
        before.lemma_flipped_below(before.cells.len());
    }
    let ghost flipped = before.flipped();

    delta.xs.clear();
    for k in 0..coords.len()
        invariant
            before.wf(),
            grid.width == before.width,
            grid.height == before.height,
            grid.grid@.len() == before.cells.len(),
            indices(coords@) == flipped,
            flipped == before.flipped(),
            forall|m: int|
                0 <= m < flipped.len() ==> {
                    &&& 0 <= #[trigger] flipped[m] < before.cells.len()
                    &&& before.flips(flipped[m])
                },
            forall|m: int, n: int| 0 <= m < n < flipped.len() ==> flipped[m] < flipped[n],
            delta@ == before.delta().take(k as int),
            forall|i: int|
                0 <= i < before.cells.len() ==> grid.grid@[i] == (before.cells[i]
                    != flipped.take(k as int).contains(i)),
    {
        let pos = coords[k];
        assert(flipped[k as int] == pos);
        let ghost reported = delta@;
        assert(reported.len() == k);
        grid.grid[pos] ^= true;
        delta.xs.push((pos, grid.grid[pos]));
        proof {
            assert forall|i: int| 0 <= i < before.cells.len() implies grid.grid@[i] == (
            before.cells[i] != flipped.take(k + 1).contains(i)) by {
                if i == pos {
                    assert(flipped.take(k + 1)[k as int] == i);
                }
            }
            assert forall|m: int| 0 <= m < k + 1 implies delta@[m] == before.delta().take(
                k + 1,
            )[m] by {
                if m < k {
                    assert(delta@[m] == reported[m]);
                }
            }
        }
    }

    proof {
        assert(flipped.take(flipped.len() as int) == flipped);
        assert forall|i: int| 0 <= i < before.cells.len() implies grid.grid@[i]
            == before.next().cells[i] by {
            if flipped.contains(i) {
                let m = choose|m: int| 0 <= m < flipped.len() && flipped[m] == i;
                assert(before.flips(flipped[m]));
            }
        }
        assert(grid@.cells == before.next().cells);
        assert(grid@ == before.next());
        assert(delta@ == before.delta().take(flipped.len() as int));
        assert(delta@ == before.delta());
        crate::laws::lemma_delta_is_complete(before);
    }
}

} // verus!
