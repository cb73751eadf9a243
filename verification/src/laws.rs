//! Properties of a generation that hold of every board.

use vstd::prelude::*;
use crate::board::{reports, toggles, Board};
use crate::grid::Grid;
use crate::torus::{after, before, lemma_ring_steps};

verus! {

/// A generation depends on nothing but the cells and the size of the board:
/// two grids that agree on these have the same next generation and the same
/// changes, however often and wherever the step is taken.
pub proof fn lemma_step_is_deterministic(first: Grid, second: Grid)
    requires
        first.width == second.width,
        first.height == second.height,
        first.grid@ == second.grid@,
    ensures
        first@.next() == second@.next(),
        first@.delta() == second@.delta(),
{
    assert(first@ == second@);
}

/// A generation changes no more cells than the board has.
pub proof fn lemma_changes_are_bounded(board: Board)
    ensures
        board.delta().len() <= board.cells.len(),
{
    board.lemma_flipped_below(board.cells.len());
}

/// The changes of a generation name exactly the cells whose state differs
/// between the board and its next generation: each such cell once, in
/// ascending order of its index, with the state it has in the next
/// generation.
pub proof fn lemma_delta_is_complete(board: Board)
    ensures
        forall|i: int|
            0 <= i < board.cells.len() ==> (board.cells[i] != board.next().cells[i] <==> reports(
                board.delta(),
                i,
            )),
        forall|k: int|
            0 <= k < board.delta().len() ==> {
                &&& 0 <= (#[trigger] board.delta()[k]).0 < board.cells.len()
                &&& board.delta()[k].1 == board.next().cells[board.delta()[k].0]
                &&& board.delta()[k].1 != board.cells[board.delta()[k].0]
            },
        forall|j: int, k: int|
            0 <= j < k < board.delta().len() ==> (#[trigger] board.delta()[j]).0 < (
            #[trigger] board.delta()[k]).0,
{
    let flipped = board.flipped();
    let delta = board.delta();
    board.lemma_flipped_below(board.cells.len());
    assert forall|i: int| 0 <= i < board.cells.len() implies (board.cells[i]
        != board.next().cells[i] <==> reports(delta, i)) by {
        if board.flips(i) {
            let k = choose|k: int| 0 <= k < flipped.len() && flipped[k] == i;
            assert(delta[k].0 == i);
        }
        if reports(delta, i) {
            let k = choose|k: int| 0 <= k < delta.len() && (#[trigger] delta[k]).0 == i;
            assert(flipped[k] == i);
        }
    }
    assert forall|k: int| 0 <= k < delta.len() implies {
        &&& 0 <= (#[trigger] delta[k]).0 < board.cells.len()
        &&& delta[k].1 == board.next().cells[delta[k].0]
        &&& delta[k].1 != board.cells[delta[k].0]
    } by {
        assert(board.flips(flipped[k]));
    }
    assert forall|j: int, k: int| 0 <= j < k < delta.len() implies (#[trigger] delta[j]).0 < (
    #[trigger] delta[k]).0 by {
        assert(flipped[j] < flipped[k]);
    }
}

/// The eight cells around a cell of the board are cells of the board.
pub proof fn lemma_neighbourhood(board: Board, x: int, y: int)
    requires
        board.wf(),
        board.contains(x, y),
    ensures
        board.contains(before(x, board.width as int), before(y, board.height as int)),
        board.contains(x, before(y, board.height as int)),
        board.contains(after(x, board.width as int), before(y, board.height as int)),
        board.contains(before(x, board.width as int), y),
        board.contains(after(x, board.width as int), y),
        board.contains(before(x, board.width as int), after(y, board.height as int)),
        board.contains(x, after(y, board.height as int)),
        board.contains(after(x, board.width as int), after(y, board.height as int)),
{
    lemma_ring_steps(x, board.width as int);
    lemma_ring_steps(y, board.height as int);
}

/// On a board without a live cell no cell has a live neighbour.
pub proof fn lemma_dead_board_has_no_neighbours(board: Board, x: int, y: int)
    requires
        board.wf(),
        board.all_dead(),
        board.contains(x, y),
    ensures
        !board.alive(x, y),
        board.neighbours(x, y) == 0,
{
    let left = before(x, board.width as int);
    let right = after(x, board.width as int);
    let up = before(y, board.height as int);
    let down = after(y, board.height as int);
    lemma_neighbourhood(board, x, y);
    board.lemma_index_of(x, y);
    board.lemma_index_of(left, up);
    board.lemma_index_of(x, up);
    board.lemma_index_of(right, up);
    board.lemma_index_of(left, y);
    board.lemma_index_of(right, y);
    board.lemma_index_of(left, down);
    board.lemma_index_of(x, down);
    board.lemma_index_of(right, down);
}

/// A board on which no cell flips is its own next generation, and the
/// generation reports no change.
pub proof fn lemma_still_board(board: Board)
    requires
        forall|i: int| 0 <= i < board.cells.len() ==> !board.flips(i),
    ensures
        board.next() == board,
        board.delta() == Seq::<(int, bool)>::empty(),
{
    assert(board.next().cells == board.cells);
    board.lemma_flipped_below(board.cells.len());
    if board.flipped().len() > 0 {
        assert(board.flips(board.flipped()[0]));
    }
    assert(board.delta() == Seq::<(int, bool)>::empty());
}

/// A board without a live cell stays without one: after any number of
/// generations it is unchanged, and a further generation changes nothing.
pub proof fn lemma_dead_board_stays_dead(board: Board, n: nat)
    requires
        board.wf(),
        board.all_dead(),
    ensures
        board.generation(n) == board,
        board.generation(n).all_dead(),
        board.generation(n).delta() == Seq::<(int, bool)>::empty(),
    decreases n,
{
    assert forall|i: int| 0 <= i < board.cells.len() implies !board.flips(i) by {
        board.lemma_coordinates(i);
        lemma_dead_board_has_no_neighbours(board, board.column_of(i), board.row_of(i));
    }
    lemma_still_board(board);
    if n > 0 {
        lemma_dead_board_stays_dead(board, (n - 1) as nat);
    }
}

/// The board's only live cells are the four cells of the two-by-two block
/// whose upper left cell is `(x, y)`; the block may reach across an edge.
pub open spec fn is_block(board: Board, x: int, y: int) -> bool {
    forall|cx: int, cy: int|
        board.contains(cx, cy) ==> (#[trigger] board.alive(cx, cy) <==> (cx == x || cx == after(
            x,
            board.width as int,
        )) && (cy == y || cy == after(y, board.height as int)))
}

/// A two-by-two block on a board of at least three columns and three rows
/// is a still life: the next generation is the same board and reports no
/// change.
pub proof fn lemma_block_is_still(board: Board, x: int, y: int)
    requires
        board.wf(),
        board.width >= 3,
        board.height >= 3,
        board.contains(x, y),
        is_block(board, x, y),
    ensures
        board.next() == board,
        board.delta() == Seq::<(int, bool)>::empty(),
{
    assert forall|i: int| 0 <= i < board.cells.len() implies !board.flips(i) by {
        board.lemma_coordinates(i);
        lemma_neighbourhood(board, board.column_of(i), board.row_of(i));
    }
    lemma_still_board(board);
}

/// The board's only live cells are the three cells of the horizontal line
/// whose middle cell is `(x, y)`; the line may reach across an edge.
pub open spec fn is_row_of_three(board: Board, x: int, y: int) -> bool {
    forall|cx: int, cy: int|
        board.contains(cx, cy) ==> (#[trigger] board.alive(cx, cy) <==> cy == y && (cx == before(
            x,
            board.width as int,
        ) || cx == x || cx == after(x, board.width as int)))
}

/// The board's only live cells are the three cells of the vertical line
/// whose middle cell is `(x, y)`; the line may reach across an edge.
pub open spec fn is_column_of_three(board: Board, x: int, y: int) -> bool {
    forall|cx: int, cy: int|
        board.contains(cx, cy) ==> (#[trigger] board.alive(cx, cy) <==> cx == x && (cy == before(
            y,
            board.height as int,
        ) || cy == y || cy == after(y, board.height as int)))
}

/// The state of a cell in the next generation, by its coordinates.
pub proof fn lemma_next_alive(board: Board, x: int, y: int)
    requires
        board.wf(),
        board.contains(x, y),
    ensures
        board.next().alive(x, y) == (board.alive(x, y) != toggles(
            board.alive(x, y),
            board.neighbours(x, y),
        )),
        board.flips(board.index_of(x, y)) == toggles(
            board.alive(x, y),
            board.neighbours(x, y),
        ),
{
    board.lemma_index_of(x, y);
}

/// A horizontal line of three on a board of at least four columns and four
/// rows becomes the vertical line of three through the same middle cell.
pub proof fn lemma_row_of_three_turns(board: Board, x: int, y: int)
    requires
        board.wf(),
        board.width >= 4,
        board.height >= 4,
        board.contains(x, y),
        is_row_of_three(board, x, y),
    ensures
        is_column_of_three(board.next(), x, y),
{
    let after_one = board.next();
    assert forall|cx: int, cy: int| after_one.contains(cx, cy) implies (#[trigger] after_one.alive(
        cx,
        cy,
    ) <==> cx == x && (cy == before(y, board.height as int) || cy == y || cy == after(
        y,
        board.height as int,
    ))) by {
        lemma_next_alive(board, cx, cy);
        lemma_neighbourhood(board, cx, cy);
    }
}

/// A vertical line of three on a board of at least four columns and four
/// rows becomes the horizontal line of three through the same middle cell.
pub proof fn lemma_column_of_three_turns(board: Board, x: int, y: int)
    requires
        board.wf(),
        board.width >= 4,
        board.height >= 4,
        board.contains(x, y),
        is_column_of_three(board, x, y),
    ensures
        is_row_of_three(board.next(), x, y),
{
    let after_one = board.next();
    assert forall|cx: int, cy: int| after_one.contains(cx, cy) implies (#[trigger] after_one.alive(
        cx,
        cy,
    ) <==> cy == y && (cx == before(x, board.width as int) || cx == x || cx == after(
        x,
        board.width as int,
    ))) by {
        lemma_next_alive(board, cx, cy);
        lemma_neighbourhood(board, cx, cy);
    }
}

/// Two boards of one size on which the same cells are alive are the same
/// board.
pub proof fn lemma_boards_agree(first: Board, second: Board)
    requires
        first.wf(),
        second.wf(),
        first.width == second.width,
        first.height == second.height,
        forall|x: int, y: int|
            first.contains(x, y) ==> #[trigger] first.alive(x, y) == second.alive(x, y),
    ensures
        first == second,
{
    assert forall|i: int| 0 <= i < first.cells.len() implies first.cells[i] == second.cells[i] by {
        first.lemma_coordinates(i);
        assert(first.alive(first.column_of(i), first.row_of(i)) == second.alive(
            first.column_of(i),
            first.row_of(i),
        ));
    }
    assert(first.cells == second.cells);
}

/// A line of three on a board of at least four columns and four rows, lying
/// or standing, is back where it was after two generations.
pub proof fn lemma_line_of_three_has_period_two(board: Board, x: int, y: int)
    requires
        board.wf(),
        board.width >= 4,
        board.height >= 4,
        board.contains(x, y),
        is_row_of_three(board, x, y) || is_column_of_three(board, x, y),
    ensures
        board.generation(2) == board,
        board.generation(1) != board,
{
    reveal_with_fuel(Board::generation, 3);
    let turned = board.next();
    let back = turned.next();
    lemma_ring_steps(x, board.width as int);
    lemma_ring_steps(y, board.height as int);
    if is_row_of_three(board, x, y) {
        lemma_row_of_three_turns(board, x, y);
        lemma_column_of_three_turns(turned, x, y);
        assert(board.alive(after(x, board.width as int), y));
        assert(!turned.alive(after(x, board.width as int), y));
    } else {
        lemma_column_of_three_turns(board, x, y);
        lemma_row_of_three_turns(turned, x, y);
        assert(board.alive(x, after(y, board.height as int)));
        assert(!turned.alive(x, after(y, board.height as int)));
    }
    lemma_boards_agree(back, board);
}

/// A generation in which exactly four given cells flip reports four
/// changes.
pub proof fn lemma_four_changes(board: Board, a: int, b: int, c: int, d: int)
    requires
        a != b && a != c && a != d && b != c && b != d && c != d,
        0 <= a < board.cells.len(),
        0 <= b < board.cells.len(),
        0 <= c < board.cells.len(),
        0 <= d < board.cells.len(),
        forall|i: int|
            0 <= i < board.cells.len() ==> (#[trigger] board.flips(i) <==> i == a || i == b || i
                == c || i == d),
    ensures
        board.delta().len() == 4,
        forall|i: int|
            0 <= i < board.cells.len() ==> (reports(board.delta(), i) <==> i == a || i == b || i
                == c || i == d),
{
    let flipped = board.flipped();
    board.lemma_flipped_below(board.cells.len());
    lemma_delta_is_complete(board);
    assert(flipped.no_duplicates());
    flipped.unique_seq_to_set();
    let four = Set::<int>::empty().insert(a).insert(b).insert(c).insert(d);
    assert forall|i: int| flipped.to_set().contains(i) <==> four.contains(i) by {
        if flipped.to_set().contains(i) {
            let k = choose|k: int| 0 <= k < flipped.len() && flipped[k] == i;
            assert(board.flips(flipped[k]));
        }
        if four.contains(i) {
            assert(board.flips(i));
            assert(flipped.contains(i));
        }
    }
    assert(flipped.to_set() =~= four);
    assert(four.len() == 4) by {
        broadcast use vstd::set::group_set_axioms;

    }
}

/// A horizontal line of three changes four cells in a generation: its two
/// ends die, and the cells above and below its middle come alive. The middle
/// cell stays alive and is not reported.
pub proof fn lemma_row_of_three_changes(board: Board, x: int, y: int)
    requires
        board.wf(),
        board.width >= 4,
        board.height >= 4,
        board.contains(x, y),
        is_row_of_three(board, x, y),
    ensures
        board.delta().len() == 4,
        forall|i: int|
            0 <= i < board.cells.len() ==> (reports(board.delta(), i) <==> {
                ||| i == board.index_of(before(x, board.width as int), y)
                ||| i == board.index_of(after(x, board.width as int), y)
                ||| i == board.index_of(x, before(y, board.height as int))
                ||| i == board.index_of(x, after(y, board.height as int))
            }),
{
    let left = before(x, board.width as int);
    let right = after(x, board.width as int);
    let up = before(y, board.height as int);
    let down = after(y, board.height as int);
    lemma_neighbourhood(board, x, y);
    board.lemma_index_of(left, y);
    board.lemma_index_of(right, y);
    board.lemma_index_of(x, up);
    board.lemma_index_of(x, down);
    assert forall|i: int| 0 <= i < board.cells.len() implies (#[trigger] board.flips(i) <==> i
        == board.index_of(left, y) || i == board.index_of(right, y) || i == board.index_of(x, up)
        || i == board.index_of(x, down)) by {
        board.lemma_coordinates(i);
        lemma_neighbourhood(board, board.column_of(i), board.row_of(i));
    }
    lemma_four_changes(
        board,
        board.index_of(left, y),
        board.index_of(right, y),
        board.index_of(x, up),
        board.index_of(x, down),
    );
}

/// A vertical line of three changes four cells in a generation: its two
/// ends die, and the cells left and right of its middle come alive. The
/// middle cell stays alive and is not reported.
pub proof fn lemma_column_of_three_changes(board: Board, x: int, y: int)
    requires
        board.wf(),
        board.width >= 4,
        board.height >= 4,
        board.contains(x, y),
        is_column_of_three(board, x, y),
    ensures
        board.delta().len() == 4,
        forall|i: int|
            0 <= i < board.cells.len() ==> (reports(board.delta(), i) <==> {
                ||| i == board.index_of(before(x, board.width as int), y)
                ||| i == board.index_of(after(x, board.width as int), y)
                ||| i == board.index_of(x, before(y, board.height as int))
                ||| i == board.index_of(x, after(y, board.height as int))
            }),
{
    let left = before(x, board.width as int);
    let right = after(x, board.width as int);
    let up = before(y, board.height as int);
    let down = after(y, board.height as int);
    lemma_neighbourhood(board, x, y);
    board.lemma_index_of(left, y);
    board.lemma_index_of(right, y);
    board.lemma_index_of(x, up);
    board.lemma_index_of(x, down);
    assert forall|i: int| 0 <= i < board.cells.len() implies (#[trigger] board.flips(i) <==> i
        == board.index_of(left, y) || i == board.index_of(right, y) || i == board.index_of(x, up)
        || i == board.index_of(x, down)) by {
        board.lemma_coordinates(i);
        lemma_neighbourhood(board, board.column_of(i), board.row_of(i));
    }
    lemma_four_changes(
        board,
        board.index_of(left, y),
        board.index_of(right, y),
        board.index_of(x, up),
        board.index_of(x, down),
    );
}

/// The cell diagonally before the first cell of the board is its last cell:
/// a live cell in the far corner is a neighbour of the cell at `(0, 0)`.
pub proof fn lemma_corners_are_neighbours(board: Board)
    requires
        board.wf(),
        board.alive(board.width - 1, board.height - 1),
    ensures
        before(0, board.width as int) == board.width - 1,
        before(0, board.height as int) == board.height - 1,
        board.neighbours(0, 0) >= 1,
{
}

} // verus!
