//! The mathematical model of a fleet placement on the 10×10 grid.
//!
//! A placement is given as a list of occupied cells, `cell = y * 10 + x`.
//! It is legal when the occupied cells are exactly the cells of a fleet of
//! straight ships that keep clear of one another, diagonals included, and the
//! fleet has one ship of five cells, one of four, one of three, two of two and
//! two of one.

use vstd::prelude::*;

verus! {

/// Number of cells a full fleet occupies.
pub const FLEET_CELLS: usize = 18;

pub open spec fn on_grid(x: int, y: int) -> bool {
    0 <= x < 10 && 0 <= y < 10
}

/// The byte that stands for the cell in column `x` of row `y`.
pub open spec fn cell_of(x: int, y: int) -> u8 {
    (y * 10 + x) as u8
}

/// The cell `(x, y)` lies on the grid and the placement lists it.
pub open spec fn occupied(positions: Seq<u8>, x: int, y: int) -> bool {
    on_grid(x, y) && positions.contains(cell_of(x, y))
}

/// A ship as the grid sees it: the rectangle from its bow `(x0, y0)` to its
/// stern `(x1, y1)`, both ends included.
pub struct Ship {
    pub x0: int,
    pub y0: int,
    pub x1: int,
    pub y1: int,
}

impl Ship {
    /// The ship lies on the grid along one axis, bow before stern.
    pub open spec fn well_formed(self) -> bool {
        &&& 0 <= self.x0 <= self.x1 < 10
        &&& 0 <= self.y0 <= self.y1 < 10
        &&& (self.x0 == self.x1 || self.y0 == self.y1)
    }

    /// Number of cells the ship occupies.
    pub open spec fn len(self) -> int {
        (self.x1 - self.x0) + (self.y1 - self.y0) + 1
    }

    pub open spec fn covers(self, x: int, y: int) -> bool {
        self.x0 <= x <= self.x1 && self.y0 <= y <= self.y1
    }

    /// Some cell of `self` is a cell of `other` or one of its eight
    /// neighbours: the two hulls overlap once one of them is widened by one
    /// cell on every side.
    pub open spec fn touches(self, other: Ship) -> bool {
        &&& self.x0 - 1 <= other.x1
        &&& other.x0 - 1 <= self.x1
        &&& self.y0 - 1 <= other.y1
        &&& other.y0 - 1 <= self.y1
    }
}

/// Some ship of the list covers the cell `(x, y)`.
pub open spec fn covered(ships: Seq<Ship>, x: int, y: int) -> bool {
    exists|i: int| 0 <= i < ships.len() && (#[trigger] ships[i]).covers(x, y)
}

/// `ships` is a way to read the placement as ships: every ship is straight
/// and on the grid, no two of them touch, and together they cover the
/// occupied cells and no others.
pub open spec fn is_layout(ships: Seq<Ship>, positions: Seq<u8>) -> bool {
    &&& forall|i: int| 0 <= i < ships.len() ==> (#[trigger] ships[i]).well_formed()
    &&& forall|i: int, j: int|
        0 <= i < ships.len() && 0 <= j < ships.len() && i != j ==> !(#[trigger] ships[i]).touches(
            #[trigger] ships[j],
        )
    &&& forall|x: int, y: int|
        #![trigger occupied(positions, x, y)]
        #![trigger covered(ships, x, y)]
        on_grid(x, y) ==> (occupied(positions, x, y) <==> covered(ships, x, y))
}

/// Number of ships in the list that are `k` cells long.
pub open spec fn ships_of_len(ships: Seq<Ship>, k: int) -> nat
    decreases ships.len(),
{
    if ships.len() == 0 {
        0
    } else {
        ships_of_len(ships.drop_last(), k) + if ships.last().len() == k {
            1nat
        } else {
            0nat
        }
    }
}

/// Number of entries of `sizes` equal to `k`.
pub open spec fn occurrences(sizes: Seq<usize>, k: int) -> nat
    decreases sizes.len(),
{
    if sizes.len() == 0 {
        0
    } else {
        occurrences(sizes.drop_last(), k) + if sizes.last() == k {
            1nat
        } else {
            0nat
        }
    }
}

/// The sizes of the ships every player has to place.
pub open spec fn fleet_sizes() -> Seq<usize> {
    seq![5usize, 4, 3, 2, 2, 1, 1]
}

/// The list holds as many ships of each length as the fleet asks for.
pub open spec fn is_standard_fleet(ships: Seq<Ship>) -> bool {
    forall|k: int| #[trigger] ships_of_len(ships, k) == occurrences(fleet_sizes(), k)
}

/// The list names eighteen different cells of the grid.
pub open spec fn well_formed_positions(positions: Seq<u8>) -> bool {
    &&& positions.len() == FLEET_CELLS
    &&& forall|i: int| 0 <= i < positions.len() ==> #[trigger] positions[i] < 100
    &&& positions.no_duplicates()
}

/// The placement is a legal fleet.
pub open spec fn valid_board(positions: Seq<u8>) -> bool {
    &&& well_formed_positions(positions)
    &&& exists|ships: Seq<Ship>| #[trigger]
        is_layout(ships, positions) && is_standard_fleet(ships)
}

} // verus!
