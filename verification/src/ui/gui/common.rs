//! A board as a graphical front-end shows it: twelve rows of twelve cells,
//! the grid and a margin of one cell around it.

use crate::logic::GameState;
use crate::model::{self, Ship};
use crate::ui::cli::covered;
use vstd::prelude::*;

verus! {

/// The number of cells along a side of the shown board.
pub const BOARD_SIDE: usize = 12;

/// What a cell of the shown board holds.
#[derive(Clone, Copy, Debug, PartialEq, Eq, Structural)]
pub enum FieldState {
    Empty,
    Miss,
    Ship,
    Hit,
}

impl FieldState {
    /// The name of the style class of a cell in this state.
    pub fn to_class_name(&self) -> (name: String)
        ensures
            name@ == match *self {
                FieldState::Empty => "field-state-empty"@,
                FieldState::Miss => "field-state-miss"@,
                FieldState::Ship => "field-state-ship"@,
                FieldState::Hit => "field-state-hit"@,
            },
    {
        match self {
            FieldState::Empty => "field-state-empty".to_owned(),
            FieldState::Miss => "field-state-miss".to_owned(),
            FieldState::Ship => "field-state-ship".to_owned(),
            FieldState::Hit => "field-state-hit".to_owned(),
        }
    }
}

/// Whether the cell `(x, y)` is none of `ship` but equals or neighbours one
/// of its cells.
pub open spec fn beside(ship: Ship, x: int, y: int) -> bool {
    &&& ship.x - 1 <= x <= ship.right_x() + 1
    &&& ship.y - 1 <= y <= ship.lower_y() + 1
    &&& !ship.occupies(x, y)
}

/// Whether the cell `(x, y)` is beside some ship of `ships`.
pub open spec fn bordered(ships: Seq<Ship>, x: int, y: int) -> bool {
    exists|k: int| 0 <= k < ships.len() && beside(#[trigger] ships[k], x, y)
}

/// What the cell `(x, y)` shows after the shots `shots` were marked over
/// `under`: for the last shot at the cell, `Miss` if it found nothing and
/// `hit` if it found a ship; `under` if no shot was fired at the cell.
pub open spec fn marked(
    shots: Seq<(u8, u8, model::FieldState)>,
    hit: FieldState,
    x: int,
    y: int,
    under: FieldState,
) -> FieldState
    decreases shots.len(),
{
    if shots.len() == 0 {
        under
    } else if shots.last().0 == x && shots.last().1 == y {
        if shots.last().2 == model::FieldState::Empty {
            FieldState::Miss
        } else {
            hit
        }
    } else {
        marked(shots.drop_last(), hit, x, y, under)
    }
}

/// Whether `rows` are twelve rows of twelve cells.
pub open spec fn square(rows: Seq<Seq<FieldState>>) -> bool {
    &&& rows.len() == BOARD_SIDE
    &&& forall|y: int| 0 <= y < BOARD_SIDE ==> (#[trigger] rows[y]).len() == BOARD_SIDE
}

/// The cells of a shown board, row by row.
pub struct BoardData {
    pub board: Vec<Vec<FieldState>>,
}

/// The cells `board` in sequences, row by row.
pub open spec fn rows_of(board: Vec<Vec<FieldState>>) -> Seq<Seq<FieldState>> {
    Seq::new(board.len() as nat, |y: int| board[y]@)
}

impl View for BoardData {
    type V = Seq<Seq<FieldState>>;

    open spec fn view(&self) -> Seq<Seq<FieldState>> {
        rows_of(self.board)
    }
}

impl BoardData {
    /// Whether the board has twelve rows of twelve cells.
    pub open spec fn wf(self) -> bool {
        square(self@)
    }

    /// Writes `state` into the cell `(x, y)`.
    fn set(&mut self, x: usize, y: usize, state: FieldState)
        requires
            old(self).wf(),
            x < BOARD_SIDE,
            y < BOARD_SIDE,
        ensures
            final(self).wf(),
            forall|cx: int, cy: int|
                0 <= cx < BOARD_SIDE && 0 <= cy < BOARD_SIDE ==> (#[trigger] final(self)@[cy][cx])
                    == if cx == x && cy == y {
                    state
                } else {
                    old(self)@[cy][cx]
                },
    {
        assert(self@[y as int].len() == BOARD_SIDE);
        self.board[y][x] = state;
        assert(self@ =~= old(self)@.update(y as int, old(self)@[y as int].update(x as int, state)));
    }

    /// The board that shows the ships `ships` and nothing else.
    pub fn new(ships: Vec<Ship>) -> (data: BoardData)
        requires
            forall|k: int| 0 <= k < ships.len() ==> (#[trigger] ships[k]).fits(),
        ensures
            data.wf(),
            forall|x: int, y: int|
                0 <= x < BOARD_SIDE && 0 <= y < BOARD_SIDE ==> (#[trigger] data@[y][x]) == if covered(
                    ships@,
                    x,
                    y,
                ) {
                    FieldState::Ship
                } else {
                    FieldState::Empty
                },
    {
        let mut board: Vec<Vec<FieldState>> = Vec::new();
        let mut j: usize = 0;
        while j < BOARD_SIDE
            invariant
                j <= BOARD_SIDE,
                board.len() == j,
                forall|y: int| 0 <= y < j ==> (#[trigger] board[y]).len() == BOARD_SIDE,
                forall|x: int, y: int|
                    0 <= y < j && 0 <= x < BOARD_SIDE ==> (#[trigger] board[y][x])
                        == FieldState::Empty,
            decreases BOARD_SIDE - j,
        {
            let mut row: Vec<FieldState> = Vec::new();
            let mut i: usize = 0;
            while i < BOARD_SIDE
                invariant
                    i <= BOARD_SIDE,
                    row.len() == i,
                    forall|x: int| 0 <= x < i ==> row[x] == FieldState::Empty,
                decreases BOARD_SIDE - i,
            {
                row.push(FieldState::Empty);
                i += 1;
            }
            board.push(row);
            j += 1;
        }
        let mut data = BoardData { board };
        let mut k: usize = 0;
        while k < ships.len()
            invariant
                k <= ships.len(),
                forall|n: int| 0 <= n < ships.len() ==> (#[trigger] ships[n]).fits(),
                data.wf(),
                forall|x: int, y: int|
                    0 <= x < BOARD_SIDE && 0 <= y < BOARD_SIDE ==> (#[trigger] data@[y][x])
                        == if covered(ships@.take(k as int), x, y) {
                        FieldState::Ship
                    } else {
                        FieldState::Empty
                    },
            decreases ships.len() - k,
        {
            let ship = ships[k];
            let ghost before = data@;
            let mut i: u8 = 0;
            while i < ship.size
                invariant
                    i <= ship.size,
                    ship.fits(),
                    data.wf(),
                    forall|x: int, y: int|
                        0 <= x < BOARD_SIDE && 0 <= y < BOARD_SIDE ==> (#[trigger] data@[y][x])
                            == if ship.occupies(x, y) && (x - ship.x) + (y - ship.y) < i {
                            FieldState::Ship
                        } else {
                            before[y][x]
                        },
                decreases ship.size - i,
            {
                match ship.direction {
                    model::Direction::Horizontal => {
                        data.set((ship.x + i) as usize, ship.y as usize, FieldState::Ship);
                    },
                    model::Direction::Vertical => {
                        data.set(ship.x as usize, (ship.y + i) as usize, FieldState::Ship);
                    },
                }
                i += 1;
            }
            proof {
                let shorter = ships@.take(k as int);
                let longer = ships@.take(k as int + 1);
                assert forall|x: int, y: int| covered(longer, x, y) == (covered(shorter, x, y)
                    || ship.occupies(x, y)) by {
                    if covered(shorter, x, y) {
                        let n = choose|n: int|
                            0 <= n < shorter.len() && (#[trigger] shorter[n]).occupies(x, y);
                        assert(longer[n].occupies(x, y));
                    }
                    if ship.occupies(x, y) {
                        assert(longer[k as int].occupies(x, y));
                    }
                    if covered(longer, x, y) {
                        let n = choose|n: int|
                            0 <= n < longer.len() && (#[trigger] longer[n]).occupies(x, y);
                        if n < k {
                            assert(shorter[n].occupies(x, y));
                        }
                    }
                }
            }
            k += 1;
        }
        assert(ships@.take(k as int) =~= ships@);
        data
    }

    /// Marks every cell beside a ship of `ships` as a miss: no ship can lie
    /// there.
    pub fn add_borders(&mut self, ships: Vec<Ship>)
        requires
            old(self).wf(),
            forall|k: int| 0 <= k < ships.len() ==> (#[trigger] ships[k]).fits(),
        ensures
            final(self).wf(),
            forall|x: int, y: int|
                0 <= x < BOARD_SIDE && 0 <= y < BOARD_SIDE ==> (#[trigger] final(self)@[y][x])
                    == if bordered(ships@, x, y) {
                    FieldState::Miss
                } else {
                    old(self)@[y][x]
                },
    {
        let mut k: usize = 0;
        while k < ships.len()
            invariant
                k <= ships.len(),
                forall|n: int| 0 <= n < ships.len() ==> (#[trigger] ships[n]).fits(),
                self.wf(),
                forall|x: int, y: int|
                    0 <= x < BOARD_SIDE && 0 <= y < BOARD_SIDE ==> (#[trigger] self@[y][x])
                        == if bordered(ships@.take(k as int), x, y) {
                        FieldState::Miss
                    } else {
                        old(self)@[y][x]
                    },
            decreases ships.len() - k,
        {
            let ship = ships[k];
            let ghost before = self@;
            let (last_x, last_y) = ship.direction.transpose(ship.x, ship.y, ship.size - 1);
            let mut y: u8 = ship.y - 1;
            while y <= last_y + 1
                invariant
                    ship.fits(),
                    last_x == ship.right_x(),
                    last_y == ship.lower_y(),
                    ship.y - 1 <= y <= last_y + 2,
                    self.wf(),
                    forall|cx: int, cy: int|
                        0 <= cx < BOARD_SIDE && 0 <= cy < BOARD_SIDE ==> (#[trigger] self@[cy][cx])
                            == if beside(ship, cx, cy) && cy < y {
                            FieldState::Miss
                        } else {
                            before[cy][cx]
                        },
                decreases last_y + 2 - y,
            {
                let mut x: u8 = ship.x - 1;
                while x <= last_x + 1
                    invariant
                        ship.fits(),
                        last_x == ship.right_x(),
                        last_y == ship.lower_y(),
                        ship.y - 1 <= y <= last_y + 1,
                        ship.x - 1 <= x <= last_x + 2,
                        self.wf(),
                        forall|cx: int, cy: int|
                            0 <= cx < BOARD_SIDE && 0 <= cy < BOARD_SIDE ==> (
                            #[trigger] self@[cy][cx]) == if beside(ship, cx, cy) && (cy < y || (cy
                                == y && cx < x)) {
                                FieldState::Miss
                            } else {
                                before[cy][cx]
                            },
                    decreases last_x + 2 - x,
                {
                    if !ship.covers(x, y) {
                        self.set(x as usize, y as usize, FieldState::Miss);
                    }
                    x += 1;
                }
                y += 1;
            }
            proof {
                let shorter = ships@.take(k as int);
                let longer = ships@.take(k as int + 1);
                assert forall|cx: int, cy: int| bordered(longer, cx, cy) == (bordered(
                    shorter,
                    cx,
                    cy,
                ) || beside(ship, cx, cy)) by {
                    if bordered(shorter, cx, cy) {
                        let n = choose|n: int|
                            0 <= n < shorter.len() && beside(#[trigger] shorter[n], cx, cy);
                        assert(beside(longer[n], cx, cy));
                    }
                    if beside(ship, cx, cy) {
                        assert(beside(longer[k as int], cx, cy));
                    }
                    if bordered(longer, cx, cy) {
                        let n = choose|n: int|
                            0 <= n < longer.len() && beside(#[trigger] longer[n], cx, cy);
                        if n < k {
                            assert(beside(shorter[n], cx, cy));
                        }
                    }
                }
            }
            k += 1;
        }
        assert(ships@.take(k as int) =~= ships@);
    }

    /// Marks the shots `shots` that lie on the shown board, in their order:
    /// a shot that found nothing as a miss, one that found a ship as
    /// `hit_state`.
    pub fn add_shots(&mut self, shots: Vec<(u8, u8, model::FieldState)>, hit_state: FieldState)
        requires
            old(self).wf(),
        ensures
            final(self).wf(),
            forall|x: int, y: int|
                0 <= x < BOARD_SIDE && 0 <= y < BOARD_SIDE ==> (#[trigger] final(self)@[y][x])
                    == marked(shots@, hit_state, x, y, old(self)@[y][x]),
    {
        let mut k: usize = 0;
        while k < shots.len()
            invariant
                k <= shots.len(),
                self.wf(),
                forall|x: int, y: int|
                    0 <= x < BOARD_SIDE && 0 <= y < BOARD_SIDE ==> (#[trigger] self@[y][x])
                        == marked(shots@.take(k as int), hit_state, x, y, old(self)@[y][x]),
            decreases shots.len() - k,
        {
            let shot = shots[k];
            proof {
                let longer = shots@.take(k as int + 1);
                assert(longer.drop_last() =~= shots@.take(k as int));
                assert(longer.last() == shot);
            }
            if (shot.0 as usize) < BOARD_SIDE && (shot.1 as usize) < BOARD_SIDE {
                let state = match shot.2 {
                    model::FieldState::Empty => FieldState::Miss,
                    model::FieldState::Occupied => hit_state,
                };
                self.set(shot.0 as usize, shot.1 as usize, state);
            }
            k += 1;
        }
        assert(shots@.take(k as int) =~= shots@);
    }
}

/// A copy of the shots `shots`.
fn copy_shots(shots: &Vec<(u8, u8, model::FieldState)>) -> (copy: Vec<(u8, u8, model::FieldState)>)
    ensures
        copy@ == shots@,
{
    let mut copy: Vec<(u8, u8, model::FieldState)> = Vec::new();
    let mut k: usize = 0;
    while k < shots.len()
        invariant
            k <= shots.len(),
            copy@ == shots@.take(k as int),
        decreases shots.len() - k,
    {
        copy.push(shots[k]);
        assert(shots@.take(k as int + 1) =~= shots@.take(k as int).push(shots@[k as int]));
        k += 1;
    }
    assert(shots@.take(k as int) =~= shots@);
    copy
}

/// What is shown of the other player's board: our shots, the hits as ships.
/// Before a game, an empty board.
pub fn determine_opponents_board(state: Option<&GameState>) -> (board: Vec<Vec<FieldState>>)
    ensures
        square(rows_of(board)),
        forall|x: int, y: int|
            0 <= x < BOARD_SIDE && 0 <= y < BOARD_SIDE ==> (#[trigger] rows_of(board)[y][x])
                == match state {
                Some(game) => marked(game.our_shots@, FieldState::Ship, x, y, FieldState::Empty),
                None => FieldState::Empty,
            },
{
    let mut board_data = BoardData::new(Vec::new());
    assert forall|x: int, y: int| !covered(Seq::<Ship>::empty(), x, y) by {}
    match state {
        None => {},
        Some(game) => {
            board_data.add_shots(copy_shots(&game.our_shots), FieldState::Ship);
        },
    }
    board_data.board
}

/// What is shown of our board: our ships and the other player's shots, the
/// hits as hits. Before a game, an empty board.
pub fn determine_our_board(state: Option<&GameState>) -> (board: Vec<Vec<FieldState>>)
    requires
        state matches Some(game) ==> game.board.board.valid(),
    ensures
        square(rows_of(board)),
        forall|x: int, y: int|
            0 <= x < BOARD_SIDE && 0 <= y < BOARD_SIDE ==> (#[trigger] rows_of(board)[y][x])
                == match state {
                Some(game) => marked(
                    game.their_shots@,
                    FieldState::Hit,
                    x,
                    y,
                    if game.board.board.occupied(x, y) {
                        FieldState::Ship
                    } else {
                        FieldState::Empty
                    },
                ),
                None => FieldState::Empty,
            },
{
    match state {
        None => {
            let board_data = BoardData::new(Vec::new());
            assert forall|x: int, y: int| !covered(Seq::<Ship>::empty(), x, y) by {}
            board_data.board
        },
        Some(game) => {
            let mut ships: Vec<Ship> = Vec::new();
            let mut k: usize = 0;
            while k < 15
                invariant
                    k <= 15,
                    ships@ == game.board.board.ships@.take(k as int),
                decreases 15 - k,
            {
                ships.push(game.board.board.ships[k]);
                assert(game.board.board.ships@.take(k as int + 1) =~= game.board.board.ships@.take(
                    k as int,
                ).push(game.board.board.ships@[k as int]));
                k += 1;
            }
            assert(game.board.board.ships@.take(15) =~= game.board.board.ships@);
            assert forall|x: int, y: int| covered(ships@, x, y) == game.board.board.occupied(
                x,
                y,
            ) by {
                if covered(ships@, x, y) {
                    let n = choose|n: int|
                        0 <= n < ships@.len() && (#[trigger] ships@[n]).occupies(x, y);
                    assert(game.board.board.ships@[n].occupies(x, y));
                }
                if game.board.board.occupied(x, y) {
                    let n = choose|n: int|
                        0 <= n < 15 && (#[trigger] game.board.board.ships@[n]).occupies(x, y);
                    assert(ships@[n].occupies(x, y));
                }
            }
            let mut board_data = BoardData::new(ships);
            board_data.add_shots(copy_shots(&game.their_shots), FieldState::Hit);
            board_data.board
        },
    }
}

} // verus!
