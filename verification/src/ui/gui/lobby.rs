//! What a graphical front-end shows while a board is put together: the
//! ships still to be placed, the board with the cells that are barred, and
//! the size of the ship to be placed next.

use crate::model::{required_size, ship_size, IncompleteBoard, Ship, SHIP_COUNT};
use crate::ui::cli::covered;
use crate::ui::gui::common::{bordered, rows_of, square, BoardData, FieldState, BOARD_SIDE};
use vstd::prelude::*;

verus! {

/// The greatest size of a ship.
pub const MAX_SHIP_SIZE: u8 = 5;

/// The number of ships of size `size` in a fleet: five of one cell, four of
/// two, three of three, two of four and one of five.
pub open spec fn fleet_count(size: int) -> int {
    if 1 <= size <= MAX_SHIP_SIZE {
        6 - size
    } else {
        0
    }
}

/// The number of ships of size `size` among `ships`.
pub open spec fn count_of_size(ships: Seq<Ship>, size: int) -> int
    decreases ships.len(),
{
    if ships.len() == 0 {
        0
    } else {
        count_of_size(ships.drop_last(), size) + if ships.last().size == size {
            1int
        } else {
            0int
        }
    }
}

/// The number of places of size `size` among the first `placed` places.
pub open spec fn places_of_size(placed: int, size: int) -> int {
    let first: int = if size == 1 {
        0
    } else if size == 2 {
        5
    } else if size == 3 {
        9
    } else if size == 4 {
        12
    } else {
        14
    };
    if 1 <= size <= MAX_SHIP_SIZE && placed > first {
        if placed - first < fleet_count(size) {
            placed - first
        } else {
            fleet_count(size)
        }
    } else {
        0
    }
}

/// Ships that each have the size of their place are as many of each size as
/// their places are.
pub proof fn lemma_count_of_placed(ships: Seq<Ship>, size: int)
    requires
        ships.len() <= SHIP_COUNT,
        forall|k: int| 0 <= k < ships.len() ==> (#[trigger] ships[k]).size == required_size(k),
    ensures
        count_of_size(ships, size) == places_of_size(ships.len() as int, size),
        0 <= count_of_size(ships, size) <= fleet_count(size),
    decreases ships.len(),
{
    if ships.len() > 0 {
        lemma_count_of_placed(ships.drop_last(), size);
        assert(ships.last().size == required_size(ships.len() - 1));
    }
}

/// What is shown while a board is put together.
pub struct State {
    /// For each size, from none to five, the number of ships of that size
    /// that are still to be placed.
    pub ships: Vec<u8>,
    /// The board, with the ships placed so far and the cells beside them.
    pub board: Vec<Vec<FieldState>>,
    /// The size of the ship to be placed next, or nothing if none is left.
    pub current_ship_size: u8,
}

/// What is shown of the board `inc_board`: how many ships of each size are
/// left, the board with the cells beside the ships barred, and the size of
/// the next ship.
pub fn determine_state(inc_board: &IncompleteBoard) -> (state: State)
    requires
        inc_board.wf(),
    ensures
        state.ships@.len() == MAX_SHIP_SIZE + 1,
        forall|size: int|
            0 <= size <= MAX_SHIP_SIZE ==> #[trigger] state.ships@[size] == fleet_count(size)
                - count_of_size(inc_board.0@, size),
        state.current_ship_size == if inc_board.0.len() < SHIP_COUNT {
            required_size(inc_board.0.len() as int)
        } else {
            0
        },
        square(rows_of(state.board)),
        forall|x: int, y: int|
            0 <= x < BOARD_SIDE && 0 <= y < BOARD_SIDE ==> (#[trigger] rows_of(state.board)[y][x])
                == if bordered(inc_board.0@, x, y) {
                FieldState::Miss
            } else if covered(inc_board.0@, x, y) {
                FieldState::Ship
            } else {
                FieldState::Empty
            },
{
    let mut ships: Vec<u8> = Vec::new();
    let mut size: u8 = 0;
    while size <= MAX_SHIP_SIZE
        invariant
            size <= MAX_SHIP_SIZE + 1,
            ships.len() == size,
            forall|s: int| 0 <= s < size ==> #[trigger] ships[s] == 0,
        decreases MAX_SHIP_SIZE + 1 - size,
    {
        ships.push(0);
        size += 1;
    }
    let mut k: usize = 0;
    while k < SHIP_COUNT
        invariant
            k <= SHIP_COUNT,
            ships.len() == MAX_SHIP_SIZE + 1,
            forall|s: int| 0 <= s <= MAX_SHIP_SIZE ==> #[trigger] ships[s] == places_of_size(
                k as int,
                s,
            ),
        decreases SHIP_COUNT - k,
    {
        let required = ship_size(k) as usize;
        ships[required] = ships[required] + 1;
        k += 1;
    }
    let placed = inc_board.0.len();
    let mut i: usize = 0;
    while i < placed
        invariant
            i <= placed,
            placed == inc_board.0.len(),
            inc_board.wf(),
            ships.len() == MAX_SHIP_SIZE + 1,
            forall|s: int| 0 <= s <= MAX_SHIP_SIZE ==> #[trigger] ships[s] == fleet_count(s)
                - places_of_size(i as int, s),
        decreases placed - i,
    {
        let ship = inc_board.0[i];
        assert(ship.size == required_size(i as int));
        let at = ship.size as usize;
        ships[at] = ships[at] - 1;
        i += 1;
    }
    proof {
        assert forall|s: int| 0 <= s <= MAX_SHIP_SIZE implies #[trigger] ships@[s] == fleet_count(s)
            - count_of_size(inc_board.0@, s) by {
            lemma_count_of_placed(inc_board.0@, s);
        }
    }
    let mut placed_ships: Vec<Ship> = Vec::new();
    let mut borders: Vec<Ship> = Vec::new();
    let mut n: usize = 0;
    while n < placed
        invariant
            n <= placed,
            placed == inc_board.0.len(),
            placed_ships@ == inc_board.0@.take(n as int),
            borders@ == inc_board.0@.take(n as int),
        decreases placed - n,
    {
        placed_ships.push(inc_board.0[n]);
        borders.push(inc_board.0[n]);
        assert(inc_board.0@.take(n as int + 1) =~= inc_board.0@.take(n as int).push(
            inc_board.0@[n as int],
        ));
        n += 1;
    }
    assert(inc_board.0@.take(placed as int) =~= inc_board.0@);
    let mut board_data = BoardData::new(placed_ships);
    board_data.add_borders(borders);

    let mut current_ship_size: u8 = 0;
    let mut s: u8 = 0;
    let mut found = false;
    while s <= MAX_SHIP_SIZE && !found
        invariant
            s <= MAX_SHIP_SIZE + 1,
            ships.len() == MAX_SHIP_SIZE + 1,
            forall|t: int| 0 <= t < s ==> #[trigger] ships[t] == 0,
            found ==> s <= MAX_SHIP_SIZE && current_ship_size == s && ships[s as int] > 0,
            !found ==> current_ship_size == 0,
        decreases MAX_SHIP_SIZE + 1 - s + if found { 0int } else { 1int },
    {
        if ships[s as usize] > 0 {
            current_ship_size = s;
            found = true;
        } else {
            s += 1;
        }
    }
    proof {
        assert forall|t: int| 0 <= t <= MAX_SHIP_SIZE implies #[trigger] ships@[t] == fleet_count(t)
            - places_of_size(placed as int, t) by {
            lemma_count_of_placed(inc_board.0@, t);
        }
        if placed < SHIP_COUNT {
            let next = required_size(placed as int);
            assert(ships@[next] > 0);
            assert(forall|t: int| 0 <= t < next ==> #[trigger] ships@[t] == 0);
        } else {
            assert(forall|t: int| 0 <= t <= MAX_SHIP_SIZE ==> #[trigger] ships@[t] == 0);
        }
    }
    State { ships, board: board_data.board, current_ship_size }
}

} // verus!
