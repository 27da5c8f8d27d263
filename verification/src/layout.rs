//! Facts about layouts: a placement can be read as ships in one way only, and
//! whether it is legal does not depend on the order in which its cells are
//! listed.

use crate::board::{
    covered, fleet_sizes, is_layout, is_standard_fleet, occupied, occurrences, on_grid,
    ships_of_len, valid_board, well_formed_positions, Ship,
};
use vstd::prelude::*;

verus! {

/// Two occupied cells meet at a corner.
pub open spec fn has_diagonal_contact(positions: Seq<u8>) -> bool {
    exists|x: int, y: int|
        #![trigger occupied(positions, x, y)]
        occupied(positions, x, y) && (occupied(positions, x + 1, y + 1) || occupied(
            positions,
            x - 1,
            y + 1,
        ))
}

/// An occupied cell next to a ship of a layout, or on it, belongs to that ship.
proof fn lemma_cell_owner(ships: Seq<Ship>, positions: Seq<u8>, i: int, x: int, y: int)
    requires
        is_layout(ships, positions),
        0 <= i < ships.len(),
        occupied(positions, x, y),
        ships[i].x0 - 1 <= x <= ships[i].x1 + 1,
        ships[i].y0 - 1 <= y <= ships[i].y1 + 1,
    ensures
        ships[i].covers(x, y),
{
    assert(covered(ships, x, y));
    let k = choose|k: int| 0 <= k < ships.len() && (#[trigger] ships[k]).covers(x, y);
    if k != i {
        assert(ships[i].touches(ships[k]));
    }
}

/// Where two occupied cells meet at a corner, the placement has no layout.
pub proof fn lemma_diagonal_contact_has_no_layout(ships: Seq<Ship>, positions: Seq<u8>)
    requires
        has_diagonal_contact(positions),
    ensures
        !is_layout(ships, positions),
{
    if is_layout(ships, positions) {
        let (x, y) = choose|x: int, y: int|
            #![trigger occupied(positions, x, y)]
            occupied(positions, x, y) && (occupied(positions, x + 1, y + 1) || occupied(
                positions,
                x - 1,
                y + 1,
            ));
        assert(covered(ships, x, y));
        let i = choose|i: int| 0 <= i < ships.len() && (#[trigger] ships[i]).covers(x, y);
        if occupied(positions, x + 1, y + 1) {
            lemma_cell_owner(ships, positions, i, x + 1, y + 1);
        } else {
            lemma_cell_owner(ships, positions, i, x - 1, y + 1);
        }
        assert(ships[i].well_formed());
    }
}

/// A point of `[a0, a1]` and a point of `[b0, b1]` that are at most one apart,
/// where the two intervals overlap or lie side by side.
spec fn near_points(a0: int, a1: int, b0: int, b1: int) -> (int, int) {
    if a1 < b0 {
        (a1, b0)
    } else if b1 < a0 {
        (a0, b1)
    } else if a0 <= b0 {
        (b0, b0)
    } else {
        (a0, a0)
    }
}

/// Two ships that touch have a cell each such that the two cells are the
/// same or neighbours, sideways or at a corner.
pub proof fn lemma_touching_cells(a: Ship, b: Ship) -> (w: (int, int, int, int))
    requires
        a.well_formed(),
        b.well_formed(),
        a.touches(b),
    ensures
        a.covers(w.0, w.1),
        b.covers(w.2, w.3),
        -1 <= w.0 - w.2 <= 1,
        -1 <= w.1 - w.3 <= 1,
{
    let (ax, bx) = near_points(a.x0, a.x1, b.x0, b.x1);
    let (ay, by) = near_points(a.y0, a.y1, b.y0, b.y1);
    (ax, ay, bx, by)
}

/// A cell of `a` and a cell of `b` are the same or neighbours, sideways or
/// at a corner.
pub open spec fn has_close_cells(a: Ship, b: Ship) -> bool {
    exists|x1: int, y1: int, x2: int, y2: int|
        #![trigger a.covers(x1, y1), b.covers(x2, y2)]
        a.covers(x1, y1) && b.covers(x2, y2) && -1 <= x1 - x2 <= 1 && -1 <= y1 - y2 <= 1
}

/// Two ships touch exactly when a cell of one is a cell of the other or
/// one of its eight neighbours.
pub proof fn lemma_touches_iff_close_cells(a: Ship, b: Ship)
    requires
        a.well_formed(),
        b.well_formed(),
    ensures
        a.touches(b) <==> has_close_cells(a, b),
{
    if a.touches(b) {
        let w = lemma_touching_cells(a, b);
        assert(a.covers(w.0, w.1) && b.covers(w.2, w.3));
    }
}

/// Every ship of one layout of a placement is a ship of any other.
proof fn lemma_ship_in_other_layout(a: Seq<Ship>, b: Seq<Ship>, positions: Seq<u8>, i: int) -> (j:
    int)
    requires
        is_layout(a, positions),
        is_layout(b, positions),
        0 <= i < a.len(),
    ensures
        0 <= j < b.len(),
        b[j] == a[i],
{
    let s = a[i];
    assert(s.well_formed());
    assert(s.covers(s.x0, s.y0));
    assert(covered(a, s.x0, s.y0));
    assert(occupied(positions, s.x0, s.y0));
    assert(covered(b, s.x0, s.y0));
    let j = choose|j: int| 0 <= j < b.len() && (#[trigger] b[j]).covers(s.x0, s.y0);
    let t = b[j];
    assert(t.well_formed());
    if t.x0 < s.x0 {
        assert(t.covers(s.x0 - 1, s.y0));
        assert(covered(b, s.x0 - 1, s.y0));
        lemma_cell_owner(a, positions, i, s.x0 - 1, s.y0);
    }
    if t.y0 < s.y0 {
        assert(t.covers(s.x0, s.y0 - 1));
        assert(covered(b, s.x0, s.y0 - 1));
        lemma_cell_owner(a, positions, i, s.x0, s.y0 - 1);
    }
    if t.x1 > s.x1 {
        assert(t.covers(s.x1 + 1, s.y0));
        assert(covered(b, s.x1 + 1, s.y0));
        lemma_cell_owner(a, positions, i, s.x1 + 1, s.y0);
    }
    if t.x1 < s.x1 {
        assert(s.covers(t.x1 + 1, s.y0));
        assert(covered(a, t.x1 + 1, s.y0));
        lemma_cell_owner(b, positions, j, t.x1 + 1, s.y0);
    }
    if t.y1 > s.y1 {
        assert(t.covers(s.x0, s.y1 + 1));
        assert(covered(b, s.x0, s.y1 + 1));
        lemma_cell_owner(a, positions, i, s.x0, s.y1 + 1);
    }
    if t.y1 < s.y1 {
        assert(s.covers(s.x0, t.y1 + 1));
        assert(covered(a, s.x0, t.y1 + 1));
        lemma_cell_owner(b, positions, j, s.x0, t.y1 + 1);
    }
    j
}

/// No ship occurs twice in a layout.
proof fn lemma_layout_no_duplicates(ships: Seq<Ship>, positions: Seq<u8>)
    requires
        is_layout(ships, positions),
    ensures
        ships.no_duplicates(),
{
    assert forall|i: int, j: int|
        0 <= i < ships.len() && 0 <= j < ships.len() && i != j implies ships[i] != ships[j] by {
        assert(ships[i].well_formed());
        assert(!ships[i].touches(ships[j]));
    }
}

proof fn lemma_ships_of_len_remove(ships: Seq<Ship>, j: int, k: int)
    requires
        0 <= j < ships.len(),
    ensures
        ships_of_len(ships, k) == ships_of_len(ships.remove(j), k) + if ships[j].len() == k {
            1nat
        } else {
            0nat
        },
    decreases ships.len(),
{
    if j == ships.len() - 1 {
        assert(ships.remove(j) =~= ships.drop_last());
    } else {
        lemma_ships_of_len_remove(ships.drop_last(), j, k);
        assert(ships.remove(j).drop_last() =~= ships.drop_last().remove(j));
        assert(ships.remove(j).last() == ships.last());
    }
}

/// Two lists without repetitions that hold the same ships hold as many ships
/// of each length.
proof fn lemma_same_ships_same_counts(a: Seq<Ship>, b: Seq<Ship>, k: int)
    requires
        a.no_duplicates(),
        b.no_duplicates(),
        forall|i: int| 0 <= i < a.len() ==> b.contains(#[trigger] a[i]),
        forall|j: int| 0 <= j < b.len() ==> a.contains(#[trigger] b[j]),
    ensures
        ships_of_len(a, k) == ships_of_len(b, k),
    decreases a.len(),
{
    if a.len() == 0 {
        if b.len() > 0 {
            assert(a.contains(b[0]));
        }
    } else {
        let s = a.last();
        assert(b.contains(a[a.len() - 1]));
        let j = choose|j: int| 0 <= j < b.len() && b[j] == s;
        let a1 = a.drop_last();
        let b1 = b.remove(j);
        assert forall|i: int| 0 <= i < a1.len() implies b1.contains(#[trigger] a1[i]) by {
            assert(b.contains(a[i]));
            let m = choose|m: int| 0 <= m < b.len() && b[m] == a[i];
            assert(m != j);
            if m < j {
                assert(b1[m] == a1[i]);
            } else {
                assert(b1[m - 1] == a1[i]);
            }
        }
        assert forall|m: int| 0 <= m < b1.len() implies a1.contains(#[trigger] b1[m]) by {
            let m0 = if m < j {
                m
            } else {
                m + 1
            };
            assert(b1[m] == b[m0]);
            assert(a.contains(b[m0]));
            let i = choose|i: int| 0 <= i < a.len() && a[i] == b[m0];
            assert(i != a.len() - 1);
            assert(a1[i] == b1[m]);
        }
        lemma_same_ships_same_counts(a1, b1, k);
        lemma_ships_of_len_remove(b, j, k);
    }
}

/// A list of sizes that goes with a list of ships counts as the ships do.
pub proof fn lemma_sizes_count_ships(ships: Seq<Ship>, sizes: Seq<usize>, k: int)
    requires
        sizes.len() == ships.len(),
        forall|i: int| 0 <= i < ships.len() ==> #[trigger] sizes[i] == ships[i].len(),
    ensures
        occurrences(sizes, k) == ships_of_len(ships, k),
    decreases ships.len(),
{
    if ships.len() > 0 {
        lemma_sizes_count_ships(ships.drop_last(), sizes.drop_last(), k);
        assert(sizes.last() == sizes[sizes.len() - 1]);
    }
}

/// No ship on the grid is shorter than one cell or longer than ten.
pub proof fn lemma_no_ships_off_scale(ships: Seq<Ship>, k: int)
    requires
        forall|i: int| 0 <= i < ships.len() ==> (#[trigger] ships[i]).well_formed(),
        k < 1 || k > 10,
    ensures
        ships_of_len(ships, k) == 0,
    decreases ships.len(),
{
    if ships.len() > 0 {
        lemma_no_ships_off_scale(ships.drop_last(), k);
        assert(ships.last().well_formed());
    }
}

/// The fleet asks for no ship shorter than one cell or longer than five.
pub proof fn lemma_fleet_sizes_scale(k: int)
    requires
        k < 1 || k > 5,
    ensures
        occurrences(fleet_sizes(), k) == 0,
{
    lemma_absent_size(fleet_sizes(), k);
}

proof fn lemma_absent_size(sizes: Seq<usize>, k: int)
    requires
        forall|i: int| 0 <= i < sizes.len() ==> #[trigger] sizes[i] != k,
    ensures
        occurrences(sizes, k) == 0,
    decreases sizes.len(),
{
    if sizes.len() > 0 {
        lemma_absent_size(sizes.drop_last(), k);
        assert(sizes.last() == sizes[sizes.len() - 1]);
    }
}

/// A placement has at most one layout, up to the order of the ships: any two
/// layouts of it hold as many ships of each length.
pub proof fn lemma_layouts_agree(a: Seq<Ship>, b: Seq<Ship>, positions: Seq<u8>, k: int)
    requires
        is_layout(a, positions),
        is_layout(b, positions),
    ensures
        ships_of_len(a, k) == ships_of_len(b, k),
{
    lemma_layout_no_duplicates(a, positions);
    lemma_layout_no_duplicates(b, positions);
    assert forall|i: int| 0 <= i < a.len() implies b.contains(#[trigger] a[i]) by {
        let j = lemma_ship_in_other_layout(a, b, positions, i);
    }
    assert forall|j: int| 0 <= j < b.len() implies a.contains(#[trigger] b[j]) by {
        let i = lemma_ship_in_other_layout(b, a, positions, j);
    }
    lemma_same_ships_same_counts(a, b, k);
}

/// Whether a placement is legal depends on which cells it lists, not on the
/// order in which it lists them.
pub proof fn lemma_valid_board_ignores_order(p: Seq<u8>, q: Seq<u8>)
    requires
        p.to_multiset() == q.to_multiset(),
    ensures
        valid_board(p) == valid_board(q),
{
    if valid_board(p) {
        lemma_valid_board_carries_over(p, q);
    }
    if valid_board(q) {
        lemma_valid_board_carries_over(q, p);
    }
}

proof fn lemma_valid_board_carries_over(p: Seq<u8>, q: Seq<u8>)
    requires
        p.to_multiset() == q.to_multiset(),
        valid_board(p),
    ensures
        valid_board(q),
{
    broadcast use vstd::seq_lib::group_to_multiset_ensures;

    p.to_multiset_ensures();
    q.to_multiset_ensures();
    assert forall|v: u8| p.contains(v) == q.contains(v) by {
        assert(p.contains(v) <==> p.to_multiset().count(v) > 0);
        assert(q.contains(v) <==> q.to_multiset().count(v) > 0);
    }
    assert(q.len() == p.len());
    assert forall|i: int| 0 <= i < q.len() implies #[trigger] q[i] < 100 by {
        assert(q.contains(q[i]));
        assert(p.contains(q[i]));
    }
    p.lemma_multiset_has_no_duplicates();
    q.lemma_multiset_has_no_duplicates_conv();
    assert(well_formed_positions(q));
    let ships = choose|ships: Seq<Ship>| #[trigger]
        is_layout(ships, p) && is_standard_fleet(ships);
    assert forall|x: int, y: int|
        #![trigger occupied(q, x, y)]
        #![trigger covered(ships, x, y)]
        on_grid(x, y) implies (occupied(q, x, y) <==> covered(ships, x, y)) by {
        assert(occupied(q, x, y) == occupied(p, x, y));
    }
    assert(is_layout(ships, q));
}

} // verus!
