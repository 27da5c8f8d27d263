//! The board validator: decides whether a list of cells is a legal fleet.
//!
//! The cells are painted on a grid, the grid is scanned row by row, and every
//! ship met is walked from its bow along its axis. A walk fails where the
//! ship bends or another occupied cell meets it at a side or at a corner.

use crate::board::{
    cell_of, covered, fleet_sizes, is_layout, is_standard_fleet, occupied, occurrences, on_grid,
    ships_of_len, valid_board, well_formed_positions, Ship, FLEET_CELLS,
};
use crate::layout::{
    has_diagonal_contact, lemma_diagonal_contact_has_no_layout, lemma_fleet_sizes_scale,
    lemma_layouts_agree, lemma_no_ships_off_scale, lemma_sizes_count_ships,
    lemma_touching_cells,
};
use vstd::prelude::*;

verus! {

/// What the validator knows of one cell of the grid.
#[derive(Clone, Copy, Debug, PartialEq, Eq, Structural)]
pub enum Cell {
    /// No ship lies here.
    Empty,
    /// A part of a ship that has not been walked yet.
    Ship,
    /// A part of a ship that has been walked.
    Visited,
}

/// The kinds of ship in a fleet, largest first.
pub enum ShipType {
    /// Five cells.
    Carrier,
    /// Four cells.
    Battleship,
    /// Three cells.
    Destroyer,
    /// Two cells; a fleet has two.
    Cruiser,
    /// One cell; a fleet has two.
    Submarine,
}

impl ShipType {
    /// The sizes of the seven ships of a fleet: two cruisers and two
    /// submarines, one of each other kind.
    pub fn fleet() -> (sizes: Vec<usize>)
        ensures
            sizes@ == fleet_sizes(),
    {
        let sizes: Vec<usize> = vec![5, 4, 3, 2, 2, 1, 1];
        assert(sizes@ =~= fleet_sizes());
        sizes
    }
}

/// The state of the cell in column `x` of row `y`.
pub open spec fn cell_state(grid: Seq<Cell>, x: int, y: int) -> Cell {
    grid[y * 10 + x]
}

/// The cell is on the grid and holds a part of a ship not yet walked.
pub open spec fn unvisited(grid: Seq<Cell>, x: int, y: int) -> bool {
    on_grid(x, y) && cell_state(grid, x, y) == Cell::Ship
}

/// The cell is on the grid and holds a part of a ship, walked or not.
pub open spec fn marked(grid: Seq<Cell>, x: int, y: int) -> bool {
    on_grid(x, y) && cell_state(grid, x, y) != Cell::Empty
}

/// Number of cells from `(x, y)` to the right, one after the other, that
/// hold a part of a ship not yet walked.
pub open spec fn row_run(grid: Seq<Cell>, x: int, y: int) -> int
    decreases 10 - x,
{
    if unvisited(grid, x, y) {
        1 + row_run(grid, x + 1, y)
    } else {
        0
    }
}

/// Number of cells from `(x, y)` downwards, one after the other, that hold
/// a part of a ship not yet walked.
pub open spec fn column_run(grid: Seq<Cell>, x: int, y: int) -> int
    decreases 10 - y,
{
    if unvisited(grid, x, y) {
        1 + column_run(grid, x, y + 1)
    } else {
        0
    }
}

/// What must not be around a cell of a ship that lies in a row: a part of a
/// ship not yet walked above or below it, or anything at its lower corners.
pub open spec fn row_cell_fault(grid: Seq<Cell>, x: int, y: int) -> bool {
    ||| unvisited(grid, x, y - 1)
    ||| unvisited(grid, x, y + 1)
    ||| marked(grid, x - 1, y + 1)
    ||| marked(grid, x + 1, y + 1)
}

/// What must not be around a cell of a ship that lies in a column: a part
/// of a ship not yet walked to its left or right, or anything at its lower
/// corners.
pub open spec fn column_cell_fault(grid: Seq<Cell>, x: int, y: int) -> bool {
    ||| unvisited(grid, x - 1, y)
    ||| unvisited(grid, x + 1, y)
    ||| marked(grid, x - 1, y + 1)
    ||| marked(grid, x + 1, y + 1)
}

/// What must not be around a ship of one cell, which has no part of a ship
/// to its right or below it: a part of a ship not yet walked to its left or
/// above it, or anything at its lower corners.
pub open spec fn single_fault(grid: Seq<Cell>, x: int, y: int) -> bool {
    ||| unvisited(grid, x - 1, y)
    ||| unvisited(grid, x, y - 1)
    ||| marked(grid, x - 1, y + 1)
    ||| marked(grid, x + 1, y + 1)
}

/// Number of cells that a walk to the right from `(x, y)` marks: it goes
/// along the run and stops behind the first cell that has around it what it
/// must not have.
pub open spec fn row_walked(grid: Seq<Cell>, x: int, y: int) -> int
    decreases 10 - x,
{
    if !unvisited(grid, x, y) {
        0
    } else if row_cell_fault(grid, x, y) {
        1
    } else {
        1 + row_walked(grid, x + 1, y)
    }
}

/// Number of cells that a walk downwards from `(x, y)` marks: it goes along
/// the run and stops behind the first cell that has around it what it must
/// not have.
pub open spec fn column_walked(grid: Seq<Cell>, x: int, y: int) -> int
    decreases 10 - y,
{
    if !unvisited(grid, x, y) {
        0
    } else if column_cell_fault(grid, x, y) {
        1
    } else {
        1 + column_walked(grid, x, y + 1)
    }
}

/// Some cell of the run to the right of `(x, y)` has around it what it must
/// not have.
pub open spec fn row_fault(grid: Seq<Cell>, x: int, y: int) -> bool {
    exists|j: int| x <= j < x + row_run(grid, x, y) && #[trigger] row_cell_fault(grid, j, y)
}

/// Some cell of the run below `(x, y)` has around it what it must not have.
pub open spec fn column_fault(grid: Seq<Cell>, x: int, y: int) -> bool {
    exists|i: int| y <= i < y + column_run(grid, x, y) && #[trigger] column_cell_fault(grid, x, i)
}

/// What a walk from the bow `(x, y)` gives: the length of the ship, or 0
/// where the ship bends or something touches it. The ship runs to the right
/// where the cell to the right of the bow is part of a ship, down where the
/// cell below is, and is one cell long otherwise; parts of a ship on both of
/// these sides are a bend.
pub open spec fn walk_length(grid: Seq<Cell>, x: int, y: int) -> int {
    if unvisited(grid, x + 1, y) && unvisited(grid, x, y + 1) {
        0
    } else if unvisited(grid, x + 1, y) {
        if row_fault(grid, x, y) {
            0
        } else {
            row_run(grid, x, y)
        }
    } else if unvisited(grid, x, y + 1) {
        if column_fault(grid, x, y) {
            0
        } else {
            column_run(grid, x, y)
        }
    } else if single_fault(grid, x, y) {
        0
    } else {
        1
    }
}

/// The ship of `length` cells that lies in a row with its bow at `(x, y)`.
pub open spec fn row_ship(x: int, y: int, length: int) -> Ship {
    Ship { x0: x, y0: y, x1: x + length - 1, y1: y }
}

/// The ship of `length` cells that lies in a column with its bow at
/// `(x, y)`.
pub open spec fn column_ship(x: int, y: int, length: int) -> Ship {
    Ship { x0: x, y0: y, x1: x, y1: y + length - 1 }
}

/// The cells that a walk from `(x, y)` marks as visited, whether it
/// succeeds or not: none where the ship bends at the bow, the cells of the
/// run up to the first one that has around it what it must not have where
/// the ship lies in a row or in a column, and the cell itself otherwise.
pub open spec fn walk_marks(grid: Seq<Cell>, x: int, y: int) -> Ship {
    if unvisited(grid, x + 1, y) && unvisited(grid, x, y + 1) {
        row_ship(x, y, 0)
    } else if unvisited(grid, x + 1, y) {
        row_ship(x, y, row_walked(grid, x, y))
    } else if unvisited(grid, x, y + 1) {
        column_ship(x, y, column_walked(grid, x, y))
    } else {
        row_ship(x, y, 1)
    }
}

/// The ship that a walk of `length` cells from the bow `(x, y)` has covered.
pub open spec fn walked_ship(grid: Seq<Cell>, x: int, y: int, length: int) -> Ship {
    if unvisited(grid, x + 1, y) {
        row_ship(x, y, length)
    } else {
        column_ship(x, y, length)
    }
}

/// The grid after a walk of `ship`: the cells of the ship are visited and
/// the others are as they were.
pub open spec fn walked(before: Seq<Cell>, after: Seq<Cell>, ship: Ship) -> bool {
    &&& after.len() == 100
    &&& forall|x: int, y: int|
        #![trigger cell_state(after, x, y)]
        on_grid(x, y) ==> cell_state(after, x, y) == if ship.covers(x, y) {
            Cell::Visited
        } else {
            cell_state(before, x, y)
        }
}

/// Two marked cells of the grid meet at a corner.
spec fn grid_has_corner(grid: Seq<Cell>) -> bool {
    exists|x: int, y: int|
        #![trigger cell_state(grid, x, y)]
        marked(grid, x, y) && (marked(grid, x + 1, y + 1) || marked(grid, x - 1, y + 1))
}

/// What a successful walk of `ship` has done to the grid, and what it has
/// seen around the ship.
spec fn walk_done(before: Seq<Cell>, after: Seq<Cell>, ship: Ship) -> bool {
    &&& ship.well_formed()
    &&& walked(before, after, ship)
    &&& forall|x: int, y: int|
        #![trigger cell_state(before, x, y)]
        ship.covers(x, y) ==> cell_state(before, x, y) == Cell::Ship
    &&& forall|x: int, y: int|
        #![trigger ship.covers(x, y)]
        ship.covers(x, y) ==> {
            &&& !unvisited(after, x + 1, y)
            &&& !unvisited(after, x - 1, y)
            &&& !unvisited(after, x, y + 1)
            &&& !unvisited(after, x, y - 1)
            &&& !marked(before, x + 1, y + 1)
            &&& !marked(before, x - 1, y + 1)
        }
}

/// Reads the cell in column `x` of row `y`.
fn cell_at(board: &Vec<Cell>, x: usize, y: usize) -> (c: Cell)
    requires
        board@.len() == 100,
        x < 10,
        y < 10,
    ensures
        c == cell_state(board@, x as int, y as int),
{
    board[y * 10 + x]
}

/// Writes the cell in column `x` of row `y` and leaves the others as they are.
fn set_cell(board: &mut Vec<Cell>, x: usize, y: usize, value: Cell)
    requires
        old(board)@.len() == 100,
        x < 10,
        y < 10,
    ensures
        final(board)@.len() == 100,
        forall|cx: int, cy: int|
            #![trigger cell_state(final(board)@, cx, cy)]
            on_grid(cx, cy) ==> cell_state(final(board)@, cx, cy) == if cx == x && cy == y {
                value
            } else {
                cell_state(old(board)@, cx, cy)
            },
{
    board.set(y * 10 + x, value);
    assert forall|cx: int, cy: int|
        #![trigger cell_state(board@, cx, cy)]
        on_grid(cx, cy) implies cell_state(board@, cx, cy) == if cx == x && cy == y {
        value
    } else {
        cell_state(old(board)@, cx, cy)
    } by {
        assert((cy * 10 + cx == y * 10 + x) <==> (cx == x && cy == y));
    }
}

/// The cell is on the grid and holds a part of a ship not yet walked.
fn is_unvisited(board: &Vec<Cell>, x: usize, y: usize) -> (b: bool)
    requires
        board@.len() == 100,
    ensures
        b == unvisited(board@, x as int, y as int),
{
    x < 10 && y < 10 && cell_at(board, x, y) == Cell::Ship
}

/// The cell is on the grid and holds a part of a ship, walked or not.
fn is_marked(board: &Vec<Cell>, x: usize, y: usize) -> (b: bool)
    requires
        board@.len() == 100,
    ensures
        b == marked(board@, x as int, y as int),
{
    x < 10 && y < 10 && cell_at(board, x, y) != Cell::Empty
}

/// Something meets the cell `(x, y)` at one of its two lower corners.
fn lower_corner_marked(board: &Vec<Cell>, x: usize, y: usize) -> (b: bool)
    requires
        board@.len() == 100,
        x < 10,
        y < 10,
    ensures
        b == (marked(board@, x - 1, y + 1) || marked(board@, x + 1, y + 1)),
{
    (x > 0 && is_marked(board, x - 1, y + 1)) || is_marked(board, x + 1, y + 1)
}

/// Walks to the right from `(x, y)` along a ship that lies in a row.
fn walk_row(board: &mut Vec<Cell>, x: usize, y: usize) -> (length: usize)
    requires
        old(board)@.len() == 100,
        x < 10,
        y < 10,
    ensures
        final(board)@.len() == 100,
        length == if row_fault(old(board)@, x as int, y as int) {
            0
        } else {
            row_run(old(board)@, x as int, y as int)
        },
        walked(
            old(board)@,
            final(board)@,
            row_ship(x as int, y as int, row_walked(old(board)@, x as int, y as int)),
        ),
        !row_fault(old(board)@, x as int, y as int) ==> row_walked(
            old(board)@,
            x as int,
            y as int,
        ) == row_run(old(board)@, x as int, y as int),
{
    let ghost before = board@;
    let mut length: usize = 0;
    let mut j = x;
    while j < 10 && cell_at(board, j, y) == Cell::Ship
        invariant
            x <= j <= 10,
            y < 10,
            length == j - x,
            board@.len() == 100,
            before == old(board)@,
            row_run(before, x as int, y as int) == (j - x) + row_run(before, j as int, y as int),
            row_walked(before, x as int, y as int) == (j - x) + row_walked(
                before,
                j as int,
                y as int,
            ),
            forall|cx: int, cy: int|
                #![trigger cell_state(board@, cx, cy)]
                on_grid(cx, cy) ==> cell_state(board@, cx, cy) == if cy == y && x <= cx < j {
                    Cell::Visited
                } else {
                    cell_state(before, cx, cy)
                },
            forall|cx: int| x <= cx < j ==> !#[trigger] row_cell_fault(before, cx, y as int),
        decreases 10 - j,
    {
        assert(unvisited(before, j as int, y as int));
        let ghost mid = board@;
        set_cell(board, j, y, Cell::Visited);
        length += 1;

        // Nothing may lie above or below a ship that lies in a row, and
        // nothing may meet it at a corner.
        let fault = (y > 0 && is_unvisited(board, j, y - 1)) || is_unvisited(board, j, y + 1)
            || lower_corner_marked(board, j, y);
        proof {
            if on_grid(j as int, y - 1) {
                assert(cell_state(board@, j as int, y - 1) == cell_state(mid, j as int, y - 1));
            }
            if on_grid(j as int, y + 1) {
                assert(cell_state(board@, j as int, y + 1) == cell_state(mid, j as int, y + 1));
            }
            if on_grid(j - 1, y + 1) {
                assert(cell_state(board@, j - 1, y + 1) == cell_state(mid, j - 1, y + 1));
            }
            if on_grid(j + 1, y + 1) {
                assert(cell_state(board@, j + 1, y + 1) == cell_state(mid, j + 1, y + 1));
            }
            assert(fault == row_cell_fault(before, j as int, y as int));
            lemma_row_run(before, j + 1, y as int);
            assert forall|cx: int, cy: int|
                #![trigger cell_state(board@, cx, cy)]
                on_grid(cx, cy) implies cell_state(board@, cx, cy) == if cy == y && x <= cx < j + 1 {
                Cell::Visited
            } else {
                cell_state(before, cx, cy)
            } by {
            }
        }
        if fault {
            return 0;
        }
        j += 1;
    }
    proof {
        if j < 10 {
            assert(cell_state(before, j as int, y as int) == cell_state(board@, j as int, y as int));
        }
        assert(!unvisited(before, j as int, y as int));
        assert(row_run(before, x as int, y as int) == j - x);
    }
    length
}

/// Walks down from `(x, y)` along a ship that lies in a column.
fn walk_column(board: &mut Vec<Cell>, x: usize, y: usize) -> (length: usize)
    requires
        old(board)@.len() == 100,
        x < 10,
        y < 10,
    ensures
        final(board)@.len() == 100,
        length == if column_fault(old(board)@, x as int, y as int) {
            0
        } else {
            column_run(old(board)@, x as int, y as int)
        },
        walked(
            old(board)@,
            final(board)@,
            column_ship(x as int, y as int, column_walked(old(board)@, x as int, y as int)),
        ),
        !column_fault(old(board)@, x as int, y as int) ==> column_walked(
            old(board)@,
            x as int,
            y as int,
        ) == column_run(old(board)@, x as int, y as int),
{
    let ghost before = board@;
    let mut length: usize = 0;
    let mut i = y;
    while i < 10 && cell_at(board, x, i) == Cell::Ship
        invariant
            y <= i <= 10,
            x < 10,
            length == i - y,
            board@.len() == 100,
            before == old(board)@,
            column_run(before, x as int, y as int) == (i - y) + column_run(
                before,
                x as int,
                i as int,
            ),
            column_walked(before, x as int, y as int) == (i - y) + column_walked(
                before,
                x as int,
                i as int,
            ),
            forall|cx: int, cy: int|
                #![trigger cell_state(board@, cx, cy)]
                on_grid(cx, cy) ==> cell_state(board@, cx, cy) == if cx == x && y <= cy < i {
                    Cell::Visited
                } else {
                    cell_state(before, cx, cy)
                },
            forall|cy: int| y <= cy < i ==> !#[trigger] column_cell_fault(before, x as int, cy),
        decreases 10 - i,
    {
        assert(unvisited(before, x as int, i as int));
        let ghost mid = board@;
        set_cell(board, x, i, Cell::Visited);
        length += 1;

        // Nothing may lie to the left or right of a ship that lies in a
        // column, and nothing may meet it at a corner.
        let fault = (x > 0 && is_unvisited(board, x - 1, i)) || is_unvisited(board, x + 1, i)
            || lower_corner_marked(board, x, i);
        proof {
            if on_grid(x - 1, i as int) {
                assert(cell_state(board@, x - 1, i as int) == cell_state(mid, x - 1, i as int));
            }
            if on_grid(x + 1, i as int) {
                assert(cell_state(board@, x + 1, i as int) == cell_state(mid, x + 1, i as int));
            }
            if on_grid(x - 1, i + 1) {
                assert(cell_state(board@, x - 1, i + 1) == cell_state(mid, x - 1, i + 1));
            }
            if on_grid(x + 1, i + 1) {
                assert(cell_state(board@, x + 1, i + 1) == cell_state(mid, x + 1, i + 1));
            }
            assert(fault == column_cell_fault(before, x as int, i as int));
            lemma_column_run(before, x as int, i + 1);
            assert forall|cx: int, cy: int|
                #![trigger cell_state(board@, cx, cy)]
                on_grid(cx, cy) implies cell_state(board@, cx, cy) == if cx == x && y <= cy < i + 1 {
                Cell::Visited
            } else {
                cell_state(before, cx, cy)
            } by {
            }
        }
        if fault {
            return 0;
        }
        i += 1;
    }
    proof {
        if i < 10 {
            assert(cell_state(before, x as int, i as int) == cell_state(board@, x as int, i as int));
        }
        assert(!unvisited(before, x as int, i as int));
        assert(column_run(before, x as int, y as int) == i - y);
    }
    length
}

/// Marks the ship of one cell at `(x, y)`.
fn walk_single(board: &mut Vec<Cell>, x: usize, y: usize) -> (length: usize)
    requires
        old(board)@.len() == 100,
        x < 10,
        y < 10,
        !unvisited(old(board)@, x + 1, y as int),
        !unvisited(old(board)@, x as int, y + 1),
    ensures
        final(board)@.len() == 100,
        length == if single_fault(old(board)@, x as int, y as int) {
            0int
        } else {
            1int
        },
        walked(old(board)@, final(board)@, row_ship(x as int, y as int, 1)),
{
    let ghost before = board@;
    set_cell(board, x, y, Cell::Visited);

    // A ship of one cell has no part of a ship on any side, and nothing
    // meets it at a corner.
    let fault = (x > 0 && is_unvisited(board, x - 1, y)) || is_unvisited(board, x + 1, y) || (y > 0
        && is_unvisited(board, x, y - 1)) || is_unvisited(board, x, y + 1) || lower_corner_marked(
        board,
        x,
        y,
    );
    proof {
        if on_grid(x - 1, y as int) {
            assert(cell_state(before, x - 1, y as int) == cell_state(board@, x - 1, y as int));
        }
        if on_grid(x + 1, y as int) {
            assert(cell_state(before, x + 1, y as int) == cell_state(board@, x + 1, y as int));
        }
        if on_grid(x as int, y - 1) {
            assert(cell_state(before, x as int, y - 1) == cell_state(board@, x as int, y - 1));
        }
        if on_grid(x as int, y + 1) {
            assert(cell_state(before, x as int, y + 1) == cell_state(board@, x as int, y + 1));
        }
        if on_grid(x - 1, y + 1) {
            assert(cell_state(before, x - 1, y + 1) == cell_state(board@, x - 1, y + 1));
        }
        if on_grid(x + 1, y + 1) {
            assert(cell_state(before, x + 1, y + 1) == cell_state(board@, x + 1, y + 1));
        }
        assert(fault == single_fault(before, x as int, y as int));
    }
    if fault {
        return 0;
    }
    1
}

/// Walks the ship whose bow is `(x, y)`, marks its cells as visited and
/// returns its length, or 0 where the ship bends or something touches it.
///
/// The ship runs to the right where the cell to the right of the bow is part
/// of a ship, down where the cell below is, and is one cell long otherwise.
/// Parts of a ship on both of these sides are a bend.
pub fn explore_ship(board: &mut Vec<Cell>, x: usize, y: usize) -> (length: usize)
    requires
        old(board)@.len() == 100,
        x < 10,
        y < 10,
    ensures
        final(board)@.len() == 100,
        length == walk_length(old(board)@, x as int, y as int),
        walked(old(board)@, final(board)@, walk_marks(old(board)@, x as int, y as int)),
        length > 0 ==> walk_marks(old(board)@, x as int, y as int) == walked_ship(
            old(board)@,
            x as int,
            y as int,
            length as int,
        ),
{
    let is_horizontal = is_unvisited(board, x + 1, y);
    let is_vertical = is_unvisited(board, x, y + 1);

    if is_horizontal && is_vertical {
        assert forall|cx: int, cy: int| !row_ship(x as int, y as int, 0).covers(cx, cy) by {
        }
        return 0;
    }
    if is_horizontal {
        walk_row(board, x, y)
    } else if is_vertical {
        walk_column(board, x, y)
    } else {
        walk_single(board, x, y)
    }
}

/// The cells of a run to the right are parts of a ship not yet walked, and
/// the cell behind the run is not.
proof fn lemma_row_run(grid: Seq<Cell>, x: int, y: int)
    requires
        0 <= x,
    ensures
        0 <= row_run(grid, x, y),
        x + row_run(grid, x, y) <= 10 || row_run(grid, x, y) == 0,
        forall|j: int| x <= j < x + row_run(grid, x, y) ==> #[trigger] unvisited(grid, j, y),
        !unvisited(grid, x + row_run(grid, x, y), y),
    decreases 10 - x,
{
    if unvisited(grid, x, y) {
        lemma_row_run(grid, x + 1, y);
    }
}

/// The cells of a run downwards are parts of a ship not yet walked, and the
/// cell behind the run is not.
proof fn lemma_column_run(grid: Seq<Cell>, x: int, y: int)
    requires
        0 <= y,
    ensures
        0 <= column_run(grid, x, y),
        y + column_run(grid, x, y) <= 10 || column_run(grid, x, y) == 0,
        forall|i: int| y <= i < y + column_run(grid, x, y) ==> #[trigger] unvisited(grid, x, i),
        !unvisited(grid, x, y + column_run(grid, x, y)),
    decreases 10 - y,
{
    if unvisited(grid, x, y) {
        lemma_column_run(grid, x, y + 1);
    }
}

/// One of the first `n` cells of the list is the cell `(x, y)`.
spec fn painted(positions: Seq<u8>, n: int, x: int, y: int) -> bool {
    exists|i: int| 0 <= i < n && #[trigger] positions[i] == cell_of(x, y)
}

/// What holds of the grid while it is scanned: it shows the placement, the
/// cells before `next` hold no part of a ship that is still to be walked, no
/// walked cell has such a part beside it or anything at its lower corners,
/// and `ships` are the ships walked so far.
spec fn scan_inv(grid: Seq<Cell>, positions: Seq<u8>, ships: Seq<Ship>, next: int) -> bool {
    &&& grid.len() == 100
    &&& forall|x: int, y: int|
        #![trigger cell_state(grid, x, y)]
        on_grid(x, y) ==> marked(grid, x, y) == occupied(positions, x, y)
    &&& forall|x: int, y: int|
        #![trigger cell_state(grid, x, y)]
        on_grid(x, y) && y * 10 + x < next ==> cell_state(grid, x, y) != Cell::Ship
    &&& forall|x: int, y: int|
        #![trigger cell_state(grid, x, y)]
        on_grid(x, y) && cell_state(grid, x, y) == Cell::Visited ==> {
            &&& !unvisited(grid, x + 1, y)
            &&& !unvisited(grid, x - 1, y)
            &&& !unvisited(grid, x, y + 1)
            &&& !unvisited(grid, x, y - 1)
            &&& !marked(grid, x + 1, y + 1)
            &&& !marked(grid, x - 1, y + 1)
        }
    &&& forall|i: int| 0 <= i < ships.len() ==> (#[trigger] ships[i]).well_formed()
    &&& forall|i: int, j: int|
        0 <= i < ships.len() && 0 <= j < ships.len() && i != j ==> !(#[trigger] ships[i]).touches(
            #[trigger] ships[j],
        )
    &&& forall|x: int, y: int|
        #![trigger cell_state(grid, x, y)]
        #![trigger covered(ships, x, y)]
        on_grid(x, y) ==> (cell_state(grid, x, y) == Cell::Visited <==> covered(ships, x, y))
}

/// A ship just walked touches none of the ships walked before it.
proof fn lemma_walked_ship_is_clear(
    before: Seq<Cell>,
    after: Seq<Cell>,
    positions: Seq<u8>,
    ships: Seq<Ship>,
    next: int,
    ship: Ship,
    i: int,
)
    requires
        scan_inv(before, positions, ships, next),
        walk_done(before, after, ship),
        0 <= i < ships.len(),
    ensures
        !ship.touches(ships[i]),
        !ships[i].touches(ship),
{
    let t = ships[i];
    assert(t.well_formed());
    if ship.touches(t) {
        let (sx, sy, tx, ty) = lemma_touching_cells(ship, t);
        assert(ship.covers(sx, sy));
        assert(cell_state(before, sx, sy) == Cell::Ship);
        assert(covered(ships, tx, ty));
        assert(cell_state(before, tx, ty) == Cell::Visited);
        assert(unvisited(before, sx, sy));
        assert(marked(before, tx, ty));
        assert(marked(before, sx, sy));
    }
}

/// A walk that succeeds keeps the grid in order, with the ship it has
/// walked added to the ships.
proof fn lemma_scan_step(
    before: Seq<Cell>,
    after: Seq<Cell>,
    positions: Seq<u8>,
    ships: Seq<Ship>,
    ship: Ship,
)
    requires
        scan_inv(before, positions, ships, ship.y0 * 10 + ship.x0),
        walk_done(before, after, ship),
    ensures
        scan_inv(after, positions, ships.push(ship), ship.y0 * 10 + ship.x0 + 1),
{
    let next = ship.y0 * 10 + ship.x0;
    let grown = ships.push(ship);
    assert forall|x: int, y: int| #![trigger cell_state(after, x, y)] on_grid(x, y) implies marked(
        after,
        x,
        y,
    ) == occupied(positions, x, y) by {
        assert(marked(before, x, y) == occupied(positions, x, y));
    }
    assert forall|x: int, y: int|
        #![trigger cell_state(after, x, y)]
        on_grid(x, y) && y * 10 + x < next + 1 implies cell_state(after, x, y) != Cell::Ship by {
        if !ship.covers(x, y) {
            assert(cell_state(before, x, y) == cell_state(after, x, y));
            assert(ship.covers(ship.x0, ship.y0));
        }
    }
    assert forall|x: int, y: int|
        #![trigger cell_state(after, x, y)]
        on_grid(x, y) && cell_state(after, x, y) == Cell::Visited implies {
        &&& !unvisited(after, x + 1, y)
        &&& !unvisited(after, x - 1, y)
        &&& !unvisited(after, x, y + 1)
        &&& !unvisited(after, x, y - 1)
        &&& !marked(after, x + 1, y + 1)
        &&& !marked(after, x - 1, y + 1)
    } by {
        if on_grid(x + 1, y + 1) {
            assert(marked(after, x + 1, y + 1) == marked(before, x + 1, y + 1));
        }
        if on_grid(x - 1, y + 1) {
            assert(marked(after, x - 1, y + 1) == marked(before, x - 1, y + 1));
        }
        if !ship.covers(x, y) {
            assert(cell_state(before, x, y) == Cell::Visited);
            if on_grid(x + 1, y) {
                assert(unvisited(after, x + 1, y) ==> unvisited(before, x + 1, y));
            }
            if on_grid(x - 1, y) {
                assert(unvisited(after, x - 1, y) ==> unvisited(before, x - 1, y));
            }
            if on_grid(x, y + 1) {
                assert(unvisited(after, x, y + 1) ==> unvisited(before, x, y + 1));
            }
            if on_grid(x, y - 1) {
                assert(unvisited(after, x, y - 1) ==> unvisited(before, x, y - 1));
            }
        }
    }
    assert forall|i: int, j: int|
        0 <= i < grown.len() && 0 <= j < grown.len() && i != j implies !(#[trigger] grown[i]).touches(
        #[trigger] grown[j],
    ) by {
        if i == ships.len() {
            lemma_walked_ship_is_clear(before, after, positions, ships, next, ship, j);
        } else if j == ships.len() {
            lemma_walked_ship_is_clear(before, after, positions, ships, next, ship, i);
        } else {
            assert(!ships[i].touches(ships[j]));
        }
    }
    assert forall|x: int, y: int|
        #![trigger cell_state(after, x, y)]
        #![trigger covered(grown, x, y)]
        on_grid(x, y) implies (cell_state(after, x, y) == Cell::Visited <==> covered(grown, x, y)) by {
        assert(cell_state(before, x, y) == Cell::Visited <==> covered(ships, x, y));
        if covered(ships, x, y) {
            let i = choose|i: int| 0 <= i < ships.len() && (#[trigger] ships[i]).covers(x, y);
            assert(grown[i].covers(x, y));
        }
        if ship.covers(x, y) {
            assert(grown[ships.len() as int].covers(x, y));
        }
        if covered(grown, x, y) {
            let i = choose|i: int| 0 <= i < grown.len() && (#[trigger] grown[i]).covers(x, y);
            if i < ships.len() {
                assert(ships[i].covers(x, y));
            }
        }
    }
    assert forall|i: int| 0 <= i < grown.len() implies (#[trigger] grown[i]).well_formed() by {
        if i < ships.len() {
            assert(ships[i].well_formed());
        }
    }
}

/// A walk from the next cell of the scan that gives 0 has found two marked
/// cells that meet at a corner.
proof fn lemma_fault_is_corner(
    grid: Seq<Cell>,
    positions: Seq<u8>,
    ships: Seq<Ship>,
    x: int,
    y: int,
)
    requires
        scan_inv(grid, positions, ships, y * 10 + x),
        unvisited(grid, x, y),
        walk_length(grid, x, y) == 0,
    ensures
        grid_has_corner(grid),
{
    assert(marked(grid, x, y));
    if unvisited(grid, x + 1, y) && unvisited(grid, x, y + 1) {
        assert(marked(grid, x + 1, y));
        assert(marked(grid, x + 1 - 1, y + 1));
    } else if unvisited(grid, x + 1, y) {
        lemma_row_run(grid, x, y);
        lemma_row_run(grid, x + 1, y);
        let n = row_run(grid, x, y);
        assert(n >= 2);
        let j = choose|j: int| x <= j < x + n && #[trigger] row_cell_fault(grid, j, y);
        assert(unvisited(grid, j, y));
        assert(marked(grid, j, y));
        let side = if j > x {
            j - 1
        } else {
            j + 1
        };
        assert(unvisited(grid, side, y));
        assert(marked(grid, side, y));
        if unvisited(grid, j, y - 1) {
            assert(cell_state(grid, j, y - 1) != Cell::Ship);
        } else if unvisited(grid, j, y + 1) {
            assert(marked(grid, j, y + 1));
            assert(marked(grid, side + 1, y + 1) || marked(grid, side - 1, y + 1));
        }
    } else if unvisited(grid, x, y + 1) {
        lemma_column_run(grid, x, y);
        lemma_column_run(grid, x, y + 1);
        let n = column_run(grid, x, y);
        assert(n >= 2);
        let i = choose|i: int| y <= i < y + n && #[trigger] column_cell_fault(grid, x, i);
        assert(unvisited(grid, x, i));
        assert(marked(grid, x, i));
        if unvisited(grid, x - 1, i) {
            assert(marked(grid, x - 1, i));
            if i == y {
                assert(cell_state(grid, x - 1, y) != Cell::Ship);
            } else {
                assert(unvisited(grid, x, i - 1));
                assert(marked(grid, x, i - 1));
                assert(marked(grid, x - 1, i - 1 + 1));
            }
        } else if unvisited(grid, x + 1, i) {
            assert(marked(grid, x + 1, i));
            if i == y {
                assert(unvisited(grid, x, i + 1));
                assert(marked(grid, x, i + 1));
                assert(marked(grid, x + 1 - 1, i + 1));
            } else {
                assert(unvisited(grid, x, i - 1));
                assert(marked(grid, x, i - 1));
                assert(marked(grid, x + 1, i - 1 + 1));
            }
        }
    } else {
        if unvisited(grid, x - 1, y) {
            assert(cell_state(grid, x - 1, y) != Cell::Ship);
        }
        if unvisited(grid, x, y - 1) {
            assert(cell_state(grid, x, y - 1) != Cell::Ship);
        }
    }
}

/// A walk from the next cell of the scan that gives a length has walked a
/// whole ship and has found it clear on all sides.
proof fn lemma_walk_is_done(
    before: Seq<Cell>,
    after: Seq<Cell>,
    positions: Seq<u8>,
    ships: Seq<Ship>,
    x: int,
    y: int,
)
    requires
        scan_inv(before, positions, ships, y * 10 + x),
        unvisited(before, x, y),
        walk_length(before, x, y) > 0,
        walked(before, after, walked_ship(before, x, y, walk_length(before, x, y))),
    ensures
        walk_done(before, after, walked_ship(before, x, y, walk_length(before, x, y))),
{
    let n = walk_length(before, x, y);
    let ship = walked_ship(before, x, y, n);
    if unvisited(before, x + 1, y) {
        lemma_row_run(before, x, y);
        assert forall|cx: int, cy: int|
            #![trigger cell_state(before, cx, cy)]
            ship.covers(cx, cy) implies cell_state(before, cx, cy) == Cell::Ship by {
            assert(unvisited(before, cx, y));
        }
        assert forall|cx: int, cy: int|
            #![trigger ship.covers(cx, cy)]
            ship.covers(cx, cy) implies {
            &&& !unvisited(after, cx + 1, cy)
            &&& !unvisited(after, cx - 1, cy)
            &&& !unvisited(after, cx, cy + 1)
            &&& !unvisited(after, cx, cy - 1)
            &&& !marked(before, cx + 1, cy + 1)
            &&& !marked(before, cx - 1, cy + 1)
        } by {
            assert(!row_cell_fault(before, cx, y));
            if on_grid(cx + 1, cy) {
                assert(cell_state(after, cx + 1, cy) != Cell::Ship);
            }
            if on_grid(cx - 1, cy) {
                assert(cell_state(after, cx - 1, cy) != Cell::Ship) by {
                    if cx == x {
                        assert(cell_state(before, x - 1, y) != Cell::Ship);
                    }
                }
            }
            if on_grid(cx, cy + 1) {
                assert(cell_state(after, cx, cy + 1) == cell_state(before, cx, cy + 1));
            }
            if on_grid(cx, cy - 1) {
                assert(cell_state(after, cx, cy - 1) == cell_state(before, cx, cy - 1));
            }
        }
    } else if unvisited(before, x, y + 1) {
        lemma_column_run(before, x, y);
        assert forall|cx: int, cy: int|
            #![trigger cell_state(before, cx, cy)]
            ship.covers(cx, cy) implies cell_state(before, cx, cy) == Cell::Ship by {
            assert(unvisited(before, x, cy));
        }
        assert forall|cx: int, cy: int|
            #![trigger ship.covers(cx, cy)]
            ship.covers(cx, cy) implies {
            &&& !unvisited(after, cx + 1, cy)
            &&& !unvisited(after, cx - 1, cy)
            &&& !unvisited(after, cx, cy + 1)
            &&& !unvisited(after, cx, cy - 1)
            &&& !marked(before, cx + 1, cy + 1)
            &&& !marked(before, cx - 1, cy + 1)
        } by {
            assert(!column_cell_fault(before, x, cy));
            if on_grid(cx, cy + 1) {
                assert(cell_state(after, cx, cy + 1) != Cell::Ship);
            }
            if on_grid(cx, cy - 1) {
                assert(cell_state(after, cx, cy - 1) != Cell::Ship) by {
                    if cy == y {
                        assert(cell_state(before, x, y - 1) != Cell::Ship);
                    }
                }
            }
            if on_grid(cx + 1, cy) {
                assert(cell_state(after, cx + 1, cy) == cell_state(before, cx + 1, cy));
            }
            if on_grid(cx - 1, cy) {
                assert(cell_state(after, cx - 1, cy) == cell_state(before, cx - 1, cy));
            }
        }
    } else {
        assert forall|cx: int, cy: int|
            #![trigger ship.covers(cx, cy)]
            ship.covers(cx, cy) implies {
            &&& !unvisited(after, cx + 1, cy)
            &&& !unvisited(after, cx - 1, cy)
            &&& !unvisited(after, cx, cy + 1)
            &&& !unvisited(after, cx, cy - 1)
            &&& !marked(before, cx + 1, cy + 1)
            &&& !marked(before, cx - 1, cy + 1)
        } by {
            if on_grid(x + 1, y) {
                assert(cell_state(after, x + 1, y) == cell_state(before, x + 1, y));
            }
            if on_grid(x - 1, y) {
                assert(cell_state(after, x - 1, y) == cell_state(before, x - 1, y));
            }
            if on_grid(x, y + 1) {
                assert(cell_state(after, x, y + 1) == cell_state(before, x, y + 1));
            }
            if on_grid(x, y - 1) {
                assert(cell_state(after, x, y - 1) == cell_state(before, x, y - 1));
            }
        }
    }
}

/// Once the whole grid is scanned, the ships walked are a layout of the
/// placement.
proof fn lemma_scan_complete(grid: Seq<Cell>, positions: Seq<u8>, ships: Seq<Ship>)
    requires
        scan_inv(grid, positions, ships, 100),
    ensures
        is_layout(ships, positions),
{
    assert forall|x: int, y: int|
        #![trigger occupied(positions, x, y)]
        #![trigger covered(ships, x, y)]
        on_grid(x, y) implies (occupied(positions, x, y) <==> covered(ships, x, y)) by {
        assert(marked(grid, x, y) == occupied(positions, x, y));
        assert(cell_state(grid, x, y) != Cell::Ship);
    }
}

/// Two marked cells that meet at a corner are two occupied cells that do.
proof fn lemma_corner_is_contact(grid: Seq<Cell>, positions: Seq<u8>, ships: Seq<Ship>, next: int)
    requires
        scan_inv(grid, positions, ships, next),
        grid_has_corner(grid),
    ensures
        has_diagonal_contact(positions),
{
    let (x, y) = choose|x: int, y: int|
        #![trigger cell_state(grid, x, y)]
        marked(grid, x, y) && (marked(grid, x + 1, y + 1) || marked(grid, x - 1, y + 1));
    assert(occupied(positions, x, y));
    if marked(grid, x + 1, y + 1) {
        assert(cell_state(grid, x + 1, y + 1) != Cell::Empty);
        assert(occupied(positions, x + 1, y + 1));
    } else {
        assert(cell_state(grid, x - 1, y + 1) != Cell::Empty);
        assert(occupied(positions, x - 1, y + 1));
    }
}

/// Number of entries of `sizes` equal to `k`.
fn count_size(sizes: &Vec<usize>, k: usize) -> (n: usize)
    ensures
        n == occurrences(sizes@, k as int),
{
    let mut n: usize = 0;
    let mut i: usize = 0;
    while i < sizes.len()
        invariant
            i <= sizes.len(),
            n <= i,
            n == occurrences(sizes@.take(i as int), k as int),
        decreases sizes.len() - i,
    {
        assert(sizes@.take(i + 1).drop_last() =~= sizes@.take(i as int));
        if sizes[i] == k {
            n += 1;
        }
        i += 1;
    }
    assert(sizes@.take(i as int) =~= sizes@);
    n
}

/// Paints the cells of the list on an empty grid, or returns `None` where
/// the list names a cell off the grid or names a cell twice.
fn paint_board(positions: &[u8]) -> (painted_board: Option<Vec<Cell>>)
    requires
        positions@.len() == FLEET_CELLS,
    ensures
        painted_board is Some <==> well_formed_positions(positions@),
        painted_board matches Some(board) ==> scan_inv(board@, positions@, Seq::empty(), 0),
{
    let mut board: Vec<Cell> = Vec::new();
    let mut c: usize = 0;
    while c < 100
        invariant
            c <= 100,
            board@.len() == c,
            forall|i: int| 0 <= i < c ==> board@[i] == Cell::Empty,
        decreases 100 - c,
    {
        board.push(Cell::Empty);
        c += 1;
    }
    let mut n: usize = 0;
    while n < positions.len()
        invariant
            n <= positions@.len(),
            board@.len() == 100,
            forall|i: int| 0 <= i < n ==> #[trigger] positions@[i] < 100,
            forall|i: int, j: int| 0 <= i < j < n ==> positions@[i] != positions@[j],
            forall|x: int, y: int|
                #![trigger cell_state(board@, x, y)]
                on_grid(x, y) ==> cell_state(board@, x, y) == if painted(positions@, n as int, x, y) {
                    Cell::Ship
                } else {
                    Cell::Empty
                },
        decreases positions@.len() - n,
    {
        let pos = positions[n];
        if pos >= 100 {
            return None;
        }
        let x = (pos % 10) as usize;
        let y = (pos / 10) as usize;
        assert(cell_of(x as int, y as int) == pos);
        if cell_at(&board, x, y) != Cell::Empty {
            proof {
                let i = choose|i: int|
                    0 <= i < n && #[trigger] positions@[i] == cell_of(x as int, y as int);
                assert(positions@[i] == positions@[n as int]);
            }
            return None;
        }
        let ghost mid = board@;
        set_cell(&mut board, x, y, Cell::Ship);
        proof {
            assert forall|i: int, j: int|
                0 <= i < j < n + 1 implies positions@[i] != positions@[j] by {
                if j == n && positions@[i] == pos {
                    assert(painted(positions@, n as int, x as int, y as int));
                    assert(cell_state(mid, x as int, y as int) == Cell::Ship);
                }
            }
            assert forall|cx: int, cy: int|
                #![trigger cell_state(board@, cx, cy)]
                on_grid(cx, cy) implies cell_state(board@, cx, cy) == if painted(
                positions@,
                n + 1,
                cx,
                cy,
            ) {
                Cell::Ship
            } else {
                Cell::Empty
            } by {
                if cx == x && cy == y {
                    assert(positions@[n as int] == cell_of(cx, cy));
                } else {
                    assert(cell_of(cx, cy) != pos);
                    if painted(positions@, n as int, cx, cy) {
                        let i = choose|i: int|
                            0 <= i < n && #[trigger] positions@[i] == cell_of(cx, cy);
                        assert(positions@[i] == cell_of(cx, cy));
                    }
                    if painted(positions@, n + 1, cx, cy) {
                        let i = choose|i: int|
                            0 <= i < n + 1 && #[trigger] positions@[i] == cell_of(cx, cy);
                        assert(i < n);
                    }
                }
            }
        }
        n += 1;
    }
    proof {
        let none = Seq::<Ship>::empty();
        assert forall|x: int, y: int|
            #![trigger cell_state(board@, x, y)]
            on_grid(x, y) implies marked(
            board@,
            x,
            y,
        ) == occupied(positions@, x, y) by {
            if painted(positions@, n as int, x, y) {
                let i = choose|i: int| 0 <= i < n && #[trigger] positions@[i] == cell_of(x, y);
                assert(positions@.contains(cell_of(x, y)));
            }
            if positions@.contains(cell_of(x, y)) {
                let i = choose|i: int| 0 <= i < positions@.len() && positions@[i] == cell_of(x, y);
                assert(positions@[i] == cell_of(x, y));
            }
        }
        assert forall|x: int, y: int|
            #![trigger cell_state(board@, x, y)]
            #![trigger covered(none, x, y)]
            on_grid(x, y) implies (cell_state(board@, x, y) == Cell::Visited <==> covered(none, x, y)) by {
        }
    }
    Some(board)
}

/// Decides whether the list of cells is a legal fleet: eighteen different
/// cells of the grid that make up one ship of five cells, one of four, one of
/// three, two of two and two of one, each straight and none touching another,
/// not even at a corner.
pub fn validate_battleship_board(positions: &[u8]) -> (valid: bool)
    ensures
        valid == valid_board(positions@),
{
    if positions.len() != 18 {
        return false;
    }
    let mut board = match paint_board(positions) {
        Some(board) => board,
        None => {
            return false;
        },
    };

    let mut sizes_found: Vec<usize> = Vec::new();
    let ghost mut ships: Seq<Ship> = Seq::empty();

    let mut y: usize = 0;
    while y < 10
        invariant
            y <= 10,
            scan_inv(board@, positions@, ships, y * 10),
            sizes_found@.len() == ships.len(),
            forall|i: int| 0 <= i < ships.len() ==> #[trigger] sizes_found@[i] == ships[i].len(),
        decreases 10 - y,
    {
        let mut x: usize = 0;
        while x < 10
            invariant
                x <= 10,
                y < 10,
                scan_inv(board@, positions@, ships, y * 10 + x),
                sizes_found@.len() == ships.len(),
                forall|i: int|
                    0 <= i < ships.len() ==> #[trigger] sizes_found@[i] == ships[i].len(),
            decreases 10 - x,
        {
            if cell_at(&board, x, y) == Cell::Ship {
                let ghost before = board@;
                let size = explore_ship(&mut board, x, y);
                if size == 0 {
                    proof {
                        lemma_fault_is_corner(before, positions@, ships, x as int, y as int);
                        lemma_corner_is_contact(before, positions@, ships, y * 10 + x);
                        assert forall|fleet: Seq<Ship>| !is_layout(fleet, positions@) by {
                            lemma_diagonal_contact_has_no_layout(fleet, positions@);
                        }
                    }
                    return false;
                }
                proof {
                    let ship = walked_ship(before, x as int, y as int, size as int);
                    lemma_walk_is_done(before, board@, positions@, ships, x as int, y as int);
                    lemma_scan_step(before, board@, positions@, ships, ship);
                    ships = ships.push(ship);
                }
                sizes_found.push(size);
            } else {
                assert forall|cx: int, cy: int|
                    #![trigger cell_state(board@, cx, cy)]
                    on_grid(cx, cy) && cy * 10 + cx < y * 10 + x + 1 implies cell_state(board@, cx, cy)
                    != Cell::Ship by {
                }
            }
            x += 1;
        }
        y += 1;
    }
    proof {
        lemma_scan_complete(board@, positions@, ships);
    }

    let expected = ShipType::fleet();
    let mut k: usize = 1;
    while k <= 10
        invariant
            1 <= k <= 11,
            expected@ == fleet_sizes(),
            is_layout(ships, positions@),
            sizes_found@.len() == ships.len(),
            forall|i: int| 0 <= i < ships.len() ==> #[trigger] sizes_found@[i] == ships[i].len(),
            forall|m: int|
                1 <= m < k ==> #[trigger] ships_of_len(ships, m) == occurrences(fleet_sizes(), m),
        decreases 11 - k,
    {
        proof {
            lemma_sizes_count_ships(ships, sizes_found@, k as int);
        }
        if count_size(&sizes_found, k) != count_size(&expected, k) {
            proof {
                assert forall|fleet: Seq<Ship>|
                    !(#[trigger] is_layout(fleet, positions@) && is_standard_fleet(fleet)) by {
                    if is_layout(fleet, positions@) && is_standard_fleet(fleet) {
                        lemma_layouts_agree(ships, fleet, positions@, k as int);
                        assert(ships_of_len(fleet, k as int) == occurrences(fleet_sizes(), k as int));
                    }
                }
            }
            return false;
        }
        k += 1;
    }
    proof {
        assert forall|m: int|
            #[trigger] ships_of_len(ships, m) == occurrences(fleet_sizes(), m) by {
            if m < 1 || m > 10 {
                lemma_no_ships_off_scale(ships, m);
                lemma_fleet_sizes_scale(m);
            }
        }
        assert(is_layout(ships, positions@) && is_standard_fleet(ships));
    }
    true
}

} // verus!
