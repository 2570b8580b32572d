//! Ships, boards and the cells they cover.
//!
//! The grid has ten columns and ten rows, both counted from one. A ship lies
//! along one axis from its origin; a board holds fifteen ships of fixed
//! sizes, none of which may touch another, not even at a corner.

use vstd::prelude::*;
use crate::utils::ship_helpers::{overlaps, Point, Rectangle};

verus! {

/// The number of ships on a board.
pub const SHIP_COUNT: usize = 15;

/// The number of columns, and of rows, of the grid.
pub const GRID_SIDE: u8 = 10;

/// The size that the ship at `index` must have: five ships of one cell, four
/// of two, three of three, two of four and one of five, smallest first.
pub open spec fn required_size(index: int) -> int {
    if index < 5 {
        1
    } else if index < 9 {
        2
    } else if index < 12 {
        3
    } else if index < 14 {
        4
    } else {
        5
    }
}

/// The size that the ship at `index` must have.
pub fn ship_size(index: usize) -> (size: u8)
    requires
        index < SHIP_COUNT,
    ensures
        size == required_size(index as int),
        1 <= size <= 5,
{
    if index < 5 {
        1
    } else if index < 9 {
        2
    } else if index < 12 {
        3
    } else if index < 14 {
        4
    } else {
        5
    }
}

/// Whether `(x, y)` is a cell of the grid.
pub open spec fn on_grid(x: int, y: int) -> bool {
    1 <= x <= GRID_SIDE && 1 <= y <= GRID_SIDE
}

/// Whether two cells are equal or neighbours, diagonal neighbours included.
pub open spec fn adjacent(x1: int, y1: int, x2: int, y2: int) -> bool {
    -1 <= x1 - x2 <= 1 && -1 <= y1 - y2 <= 1
}

/// The axis along which a ship grows from its origin.
#[derive(Copy, Clone, Debug, PartialEq, Eq, Structural)]
pub enum Direction {
    /// Downwards: the ship grows along `y`.
    Vertical,
    /// To the right: the ship grows along `x`.
    Horizontal,
}

impl Direction {
    /// The number that stands for the direction in a commitment.
    pub open spec fn code(self) -> u8 {
        match self {
            Direction::Vertical => 0,
            Direction::Horizontal => 1,
        }
    }

    /// The number that stands for the direction in a commitment.
    pub fn to_u8(self) -> (code: u8)
        ensures
            code == self.code(),
    {
        match self {
            Direction::Vertical => 0,
            Direction::Horizontal => 1,
        }
    }

    /// The point reached from `(x, y)` after `size` steps along this axis.
    pub open spec fn transposed(self, x: int, y: int, size: int) -> (int, int) {
        match self {
            Direction::Vertical => (x, y + size),
            Direction::Horizontal => (x + size, y),
        }
    }

    /// Moves `(x, y)` by `size` cells along this axis.
    pub fn transpose(&self, x: u8, y: u8, size: u8) -> (moved: (u8, u8))
        requires
            self.transposed(x as int, y as int, size as int).0 <= u8::MAX,
            self.transposed(x as int, y as int, size as int).1 <= u8::MAX,
        ensures
            (moved.0 as int, moved.1 as int) == self.transposed(x as int, y as int, size as int),
    {
        match self {
            Direction::Vertical => (x, y + size),
            Direction::Horizontal => (x + size, y),
        }
    }
}

/// What a cell holds.
#[derive(Copy, Clone, Debug, PartialEq, Eq, Structural)]
pub enum FieldState {
    /// No ship covers the cell.
    Empty,
    /// A ship covers the cell.
    Occupied,
}

impl FieldState {
    /// The number that stands for the state in a proof's public input.
    pub open spec fn code(self) -> u8 {
        match self {
            FieldState::Empty => 0,
            FieldState::Occupied => 1,
        }
    }

    /// The number that stands for the state in a proof's public input.
    pub fn to_u8(self) -> (code: u8)
        ensures
            code == self.code(),
    {
        match self {
            FieldState::Empty => 0,
            FieldState::Occupied => 1,
        }
    }
}

/// A ship: `size` cells in a row, starting at `(x, y)` and growing along
/// `direction`.
#[derive(Copy, Clone, Debug, PartialEq, Eq, Structural)]
pub struct Ship {
    pub x: u8,
    pub y: u8,
    pub size: u8,
    pub direction: Direction,
}

impl Ship {
    /// Whether the ship covers the cell `(x, y)`.
    pub open spec fn occupies(self, x: int, y: int) -> bool {
        match self.direction {
            Direction::Vertical => x == self.x && self.y <= y < self.y + self.size,
            Direction::Horizontal => y == self.y && self.x <= x < self.x + self.size,
        }
    }

    /// The column of the ship's last cell.
    pub open spec fn right_x(self) -> int {
        match self.direction {
            Direction::Vertical => self.x as int,
            Direction::Horizontal => self.x + self.size - 1,
        }
    }

    /// The row of the ship's last cell.
    pub open spec fn lower_y(self) -> int {
        match self.direction {
            Direction::Vertical => self.y + self.size - 1,
            Direction::Horizontal => self.y as int,
        }
    }

    /// Whether the ship has a cell and all its cells lie on the grid.
    pub open spec fn fits(self) -> bool {
        &&& 1 <= self.size
        &&& 1 <= self.x
        &&& 1 <= self.y
        &&& self.right_x() <= GRID_SIDE
        &&& self.lower_y() <= GRID_SIDE
    }

    /// Whether some cell of this ship equals or neighbours some cell of
    /// `other`.
    pub open spec fn touches(self, other: Ship) -> bool {
        exists|x1: int, y1: int, x2: int, y2: int|
            #![trigger self.occupies(x1, y1), other.occupies(x2, y2)]
            self.occupies(x1, y1) && other.occupies(x2, y2) && adjacent(x1, y1, x2, y2)
    }

    /// Whether this ship lies wholly to one side of `other` grown by one cell
    /// in every direction: left of it, right of it, above it or below it.
    pub open spec fn clear_of(self, other: Ship) -> bool {
        ||| self.right_x() < other.x - 1
        ||| self.x > other.right_x() + 1
        ||| self.lower_y() < other.y - 1
        ||| self.y > other.lower_y() + 1
    }

    /// A ship with a cell covers exactly the cells between its origin and its
    /// last cell.
    pub proof fn lemma_occupies_is_box(self, x: int, y: int)
        requires
            self.size >= 1,
        ensures
            self.occupies(x, y) <==> (self.x <= x <= self.right_x() && self.y <= y
                <= self.lower_y()),
    {
    }

    /// A ship with a cell fits exactly when each of its cells is on the grid.
    pub proof fn lemma_fits_is_every_cell_on_grid(self)
        requires
            self.size >= 1,
        ensures
            self.fits() <==> forall|x: int, y: int| self.occupies(x, y) ==> on_grid(x, y),
    {
        if forall|x: int, y: int| self.occupies(x, y) ==> on_grid(x, y) {
            assert(self.occupies(self.x as int, self.y as int));
            assert(self.occupies(self.right_x(), self.lower_y()));
            assert(on_grid(self.x as int, self.y as int));
            assert(on_grid(self.right_x(), self.lower_y()));
        }
    }

    /// For ships with a cell, lying clear of the other's surroundings is the
    /// same as touching it nowhere.
    pub proof fn lemma_clear_of_is_not_touching(self, other: Ship)
        requires
            self.size >= 1,
            other.size >= 1,
        ensures
            self.clear_of(other) <==> !self.touches(other),
    {
        if !self.clear_of(other) {
            // The two boxes, one grown by a cell, share a column and a row.
            let x1 = if self.x >= other.x - 1 {
                self.x as int
            } else {
                other.x - 1
            };
            let x2 = if x1 < other.x {
                other.x as int
            } else if x1 > other.right_x() {
                other.right_x()
            } else {
                x1
            };
            let y1 = if self.y >= other.y - 1 {
                self.y as int
            } else {
                other.y - 1
            };
            let y2 = if y1 < other.y {
                other.y as int
            } else if y1 > other.lower_y() {
                other.lower_y()
            } else {
                y1
            };
            self.lemma_occupies_is_box(x1, y1);
            other.lemma_occupies_is_box(x2, y2);
            assert(self.occupies(x1, y1) && other.occupies(x2, y2) && adjacent(x1, y1, x2, y2));
        }
        if self.touches(other) {
            let (x1, y1, x2, y2) = choose|x1: int, y1: int, x2: int, y2: int|
                #![trigger self.occupies(x1, y1), other.occupies(x2, y2)]
                self.occupies(x1, y1) && other.occupies(x2, y2) && adjacent(x1, y1, x2, y2);
            self.lemma_occupies_is_box(x1, y1);
            other.lemma_occupies_is_box(x2, y2);
        }
    }

    /// Touching is mutual.
    pub proof fn lemma_touches_is_symmetric(self, other: Ship)
        ensures
            self.touches(other) <==> other.touches(self),
    {
        if self.touches(other) {
            let (x1, y1, x2, y2) = choose|x1: int, y1: int, x2: int, y2: int|
                #![trigger self.occupies(x1, y1), other.occupies(x2, y2)]
                self.occupies(x1, y1) && other.occupies(x2, y2) && adjacent(x1, y1, x2, y2);
            assert(other.occupies(x2, y2) && self.occupies(x1, y1) && adjacent(x2, y2, x1, y1));
        }
        if other.touches(self) {
            let (x1, y1, x2, y2) = choose|x1: int, y1: int, x2: int, y2: int|
                #![trigger other.occupies(x1, y1), self.occupies(x2, y2)]
                other.occupies(x1, y1) && self.occupies(x2, y2) && adjacent(x1, y1, x2, y2);
            assert(self.occupies(x2, y2) && other.occupies(x1, y1) && adjacent(x2, y2, x1, y1));
        }
    }
}

impl Ship {
    /// Whether the ship covers the cell `(x, y)`.
    pub fn covers(&self, x: u8, y: u8) -> (covered: bool)
        ensures
            covered == self.occupies(x as int, y as int),
    {
        let x: u16 = x as u16;
        let y: u16 = y as u16;
        let sx: u16 = self.x as u16;
        let sy: u16 = self.y as u16;
        let size: u16 = self.size as u16;
        match self.direction {
            Direction::Vertical => x == sx && sy <= y && y < sy + size,
            Direction::Horizontal => y == sy && sx <= x && x < sx + size,
        }
    }

    /// Whether the ship has a cell and all its cells lie on the grid.
    pub fn is_on_grid(&self) -> (fitting: bool)
        ensures
            fitting == self.fits(),
    {
        if self.size < 1 || self.x < 1 || self.y < 1 {
            return false;
        }
        let last: u16 = match self.direction {
            Direction::Vertical => self.y as u16 + self.size as u16 - 1,
            Direction::Horizontal => self.x as u16 + self.size as u16 - 1,
        };
        self.x <= GRID_SIDE && self.y <= GRID_SIDE && last <= GRID_SIDE as u16
    }

    /// Whether this ship lies wholly to one side of `other` grown by one cell
    /// in every direction.
    pub fn is_clear_of(&self, other: &Ship) -> (clear: bool)
        requires
            self.size >= 1,
            other.size >= 1,
        ensures
            clear == self.clear_of(*other),
            clear == !self.touches(*other),
    {
        proof {
            self.lemma_clear_of_is_not_touching(*other);
        }
        let (right_x, lower_y): (u16, u16) = match self.direction {
            Direction::Vertical => (self.x as u16, self.y as u16 + self.size as u16 - 1),
            Direction::Horizontal => (self.x as u16 + self.size as u16 - 1, self.y as u16),
        };
        let (other_right_x, other_lower_y): (u16, u16) = match other.direction {
            Direction::Vertical => (other.x as u16, other.y as u16 + other.size as u16 - 1),
            Direction::Horizontal => (other.x as u16 + other.size as u16 - 1, other.y as u16),
        };
        right_x + 1 < other.x as u16 || self.x as u16 > other_right_x + 1 || lower_y + 1
            < other.y as u16 || self.y as u16 > other_lower_y + 1
    }

    /// The cells of a ship as a rectangle: from its origin to one past its
    /// last cell. The ship has a cell, and the corner past its last cell can
    /// be written in the rectangle's coordinates.
    pub fn to_rectangle(&self) -> (r: Rectangle)
        requires
            self.size >= 1,
            self.right_x() + 1 <= i8::MAX,
            self.lower_y() + 1 <= i8::MAX,
        ensures
            r.0.0 == self.x,
            r.0.1 == self.y,
            r.1.0 == self.right_x() + 1,
            r.1.1 == self.lower_y() + 1,
            forall|x: int, y: int| r.covers(x, y) <==> self.occupies(x, y),
    {
        let (x, y) = self.direction.transpose(self.x, self.y, self.size - 1);
        let r = Rectangle(Point(self.x as i8, self.y as i8), Point((x + 1) as i8, (y + 1) as i8));
        proof {
            assert forall|px: int, py: int| r.covers(px, py) <==> self.occupies(px, py) by {
                self.lemma_occupies_is_box(px, py);
            }
        }
        r
    }
}

/// Fifteen ships, in the order of their sizes.
#[derive(Copy, Clone, Debug)]
pub struct Board {
    pub ships: [Ship; 15],
}

impl Board {
    /// Whether some ship covers the cell `(x, y)`.
    pub open spec fn occupied(self, x: int, y: int) -> bool {
        exists|i: int| 0 <= i < SHIP_COUNT && (#[trigger] self.ships@[i]).occupies(x, y)
    }

    /// What the cell `(x, y)` holds.
    pub open spec fn state_at(self, x: int, y: int) -> FieldState {
        if self.occupied(x, y) {
            FieldState::Occupied
        } else {
            FieldState::Empty
        }
    }

    /// Whether the ships have the required sizes, lie on the grid and touch
    /// one another nowhere.
    pub open spec fn valid(self) -> bool {
        &&& forall|i: int|
            0 <= i < SHIP_COUNT ==> (#[trigger] self.ships@[i]).size == required_size(i)
        &&& forall|i: int| 0 <= i < SHIP_COUNT ==> (#[trigger] self.ships@[i]).fits()
        &&& forall|i: int, j: int|
            0 <= i < j < SHIP_COUNT ==> !(#[trigger] self.ships@[i]).touches(
                #[trigger] self.ships@[j],
            )
    }

    /// Whether the ships have the required sizes, lie on the grid and touch
    /// one another nowhere.
    pub fn is_valid(&self) -> (ok: bool)
        ensures
            ok == self.valid(),
    {
        let mut i: usize = 0;
        while i < SHIP_COUNT
            invariant
                i <= SHIP_COUNT,
                forall|k: int| 0 <= k < i ==> (#[trigger] self.ships@[k]).size == required_size(k),
                forall|k: int| 0 <= k < i ==> (#[trigger] self.ships@[k]).fits(),
            decreases SHIP_COUNT - i,
        {
            if self.ships[i].size != ship_size(i) || !self.ships[i].is_on_grid() {
                return false;
            }
            i += 1;
        }
        let mut i: usize = 0;
        while i < SHIP_COUNT
            invariant
                i <= SHIP_COUNT,
                forall|k: int| 0 <= k < SHIP_COUNT ==> (#[trigger] self.ships@[k]).size == required_size(k),
                forall|k: int| 0 <= k < SHIP_COUNT ==> (#[trigger] self.ships@[k]).fits(),
                forall|a: int, b: int|
                    0 <= a < b < SHIP_COUNT && a < i ==> !(#[trigger] self.ships@[a]).touches(
                        #[trigger] self.ships@[b],
                    ),
            decreases SHIP_COUNT - i,
        {
            let mut j: usize = i + 1;
            while j < SHIP_COUNT
                invariant
                    i < j <= SHIP_COUNT,
                    forall|k: int| 0 <= k < SHIP_COUNT ==> (#[trigger] self.ships@[k]).fits(),
                    forall|b: int|
                        i < b < j ==> !self.ships@[i as int].touches(#[trigger] self.ships@[b]),
                decreases SHIP_COUNT - j,
            {
                assert(self.ships@[i as int].fits() && self.ships@[j as int].fits());
                if !self.ships[i].is_clear_of(&self.ships[j]) {
                    return false;
                }
                j += 1;
            }
            i += 1;
        }
        true
    }

    /// A board is valid exactly if its ships have the required sizes, every
    /// cell of every ship is on the grid, and no cell of one ship equals or
    /// neighbours a cell of another, diagonal neighbours included.
    pub proof fn lemma_valid_is_cellwise(self)
        ensures
            self.valid() <==> {
                &&& forall|i: int|
                    0 <= i < SHIP_COUNT ==> (#[trigger] self.ships@[i]).size == required_size(i)
                &&& forall|i: int, x: int, y: int|
                    0 <= i < SHIP_COUNT && (#[trigger] self.ships@[i].occupies(x, y)) ==> on_grid(
                        x,
                        y,
                    )
                &&& forall|i: int, j: int, x1: int, y1: int, x2: int, y2: int|
                    0 <= i < j < SHIP_COUNT && (#[trigger] self.ships@[i].occupies(x1, y1)) && (
                    #[trigger] self.ships@[j].occupies(x2, y2)) ==> !adjacent(x1, y1, x2, y2)
            },
    {
        let ships = self.ships@;
        let sized = forall|i: int|
            0 <= i < SHIP_COUNT ==> (#[trigger] ships[i]).size == required_size(i);
        let on_the_grid = forall|i: int, x: int, y: int|
            0 <= i < SHIP_COUNT && (#[trigger] ships[i].occupies(x, y)) ==> on_grid(x, y);
        let apart = forall|i: int, j: int, x1: int, y1: int, x2: int, y2: int|
            0 <= i < j < SHIP_COUNT && (#[trigger] ships[i].occupies(x1, y1)) && (
            #[trigger] ships[j].occupies(x2, y2)) ==> !adjacent(x1, y1, x2, y2);
        if sized {
            assert forall|i: int| 0 <= i < SHIP_COUNT implies ((#[trigger] ships[i]).fits()
                <==> forall|x: int, y: int| ships[i].occupies(x, y) ==> on_grid(x, y)) by {
                ships[i].lemma_fits_is_every_cell_on_grid();
            }
        }
        if self.valid() {
            assert(on_the_grid);
            assert(apart);
        }
        if sized && on_the_grid && apart {
            assert forall|i: int| 0 <= i < SHIP_COUNT implies (#[trigger] ships[i]).fits() by {
                assert forall|x: int, y: int| ships[i].occupies(x, y) implies on_grid(x, y) by {}
            }
            assert forall|i: int, j: int| 0 <= i < j < SHIP_COUNT implies !(#[trigger] ships[i]).touches(
                #[trigger] ships[j],
            ) by {
                if ships[i].touches(ships[j]) {
                    let (x1, y1, x2, y2) = choose|x1: int, y1: int, x2: int, y2: int|
                        #![trigger ships[i].occupies(x1, y1), ships[j].occupies(x2, y2)]
                        ships[i].occupies(x1, y1) && ships[j].occupies(x2, y2) && adjacent(
                            x1,
                            y1,
                            x2,
                            y2,
                        );
                    assert(!adjacent(x1, y1, x2, y2));
                }
            }
        }
    }

    /// What the cell `(x, y)` holds: `Occupied` if a ship covers it, `Empty`
    /// if none does.
    pub fn get_field_state(&self, x: u8, y: u8) -> (state: FieldState)
        ensures
            state == self.state_at(x as int, y as int),
    {
        let mut i: usize = 0;
        while i < SHIP_COUNT
            invariant
                i <= SHIP_COUNT,
                forall|k: int| 0 <= k < i ==> !(#[trigger] self.ships@[k]).occupies(x as int, y as int),
            decreases SHIP_COUNT - i,
        {
            if self.ships[i].covers(x, y) {
                assert(self.ships@[i as int].occupies(x as int, y as int));
                return FieldState::Occupied;
            }
            i += 1;
        }
        FieldState::Empty
    }
}

/// The ships placed so far on a board under construction, in the order in
/// which they were placed.
#[derive(Clone, Debug)]
pub struct IncompleteBoard(pub Vec<Ship>);

impl IncompleteBoard {
    /// Whether every ship placed so far has the size of its place, lies on
    /// the grid and touches no other.
    pub open spec fn wf(self) -> bool {
        &&& self.0.len() <= SHIP_COUNT
        &&& forall|i: int|
            0 <= i < self.0.len() ==> (#[trigger] self.0@[i]).size == required_size(i)
        &&& forall|i: int| 0 <= i < self.0.len() ==> (#[trigger] self.0@[i]).fits()
        &&& forall|i: int, j: int|
            0 <= i < j < self.0.len() ==> !(#[trigger] self.0@[i]).touches(#[trigger] self.0@[j])
    }

    /// Whether every ship placed so far has a cell and lies on the grid.
    pub open spec fn placed_on_grid(self) -> bool {
        forall|i: int| 0 <= i < self.0.len() ==> (#[trigger] self.0@[i]).fits()
    }

    /// Whether `ship` may be placed next: a place is left, the ship has the
    /// size of that place, lies on the grid, and touches no ship placed so
    /// far.
    pub open spec fn accepts(self, ship: Ship) -> bool {
        &&& self.0.len() < SHIP_COUNT
        &&& ship.size == required_size(self.0.len() as int)
        &&& ship.fits()
        &&& forall|i: int| 0 <= i < self.0.len() ==> !(#[trigger] self.0@[i]).touches(ship)
    }

    /// A board with no ship placed.
    pub fn new() -> (board: Self)
        ensures
            board.0@ == Seq::<Ship>::empty(),
            board.wf(),
    {
        IncompleteBoard(Vec::new())
    }

    /// Whether `ship` may be placed next.
    pub fn can_be_extended_with(&self, ship: Ship) -> (ok: bool)
        requires
            self.placed_on_grid(),
        ensures
            ok == self.accepts(ship),
    {
        let placed = self.0.len();
        if placed >= SHIP_COUNT {
            return false;
        }
        if ship.size != ship_size(placed) {
            return false;
        }
        if ship.x < 1 || ship.x > GRID_SIDE || ship.y < 1 || ship.y > GRID_SIDE {
            return false;
        }
        let board_boundaries = Rectangle(Point(1, 1), Point(11, 11));
        let (last_x, last_y) = ship.direction.transpose(ship.x, ship.y, ship.size - 1);
        if !overlaps(board_boundaries, Rectangle::cell(Point(last_x as i8, last_y as i8))) {
            return false;
        }
        let ship_rect = ship.to_rectangle();
        let surroundings = ship_rect.grown(Rectangle(Point(-1, -1), Point(1, 1)));
        let mut i: usize = 0;
        while i < placed
            invariant
                i <= placed,
                placed == self.0.len(),
                self.placed_on_grid(),
                ship.fits(),
                surroundings.0.0 == ship.x - 1,
                surroundings.0.1 == ship.y - 1,
                surroundings.1.0 == ship.right_x() + 2,
                surroundings.1.1 == ship.lower_y() + 2,
                forall|k: int| 0 <= k < i ==> !(#[trigger] self.0@[k]).touches(ship),
            decreases placed - i,
        {
            let other = self.0[i];
            proof {
                other.lemma_clear_of_is_not_touching(ship);
            }
            if overlaps(other.to_rectangle(), surroundings) {
                return false;
            }
            i += 1;
        }
        true
    }

    /// Places `ship` after the ships placed so far.
    pub fn extend(&mut self, ship: Ship)
        ensures
            final(self).0@ == old(self).0@.push(ship),
            old(self).wf() && old(self).accepts(ship) ==> final(self).wf(),
            old(self).placed_on_grid() && ship.fits() ==> final(self).placed_on_grid(),
    {
        self.0.push(ship);
    }

    /// The finished board, with the ships in the order in which they were
    /// placed.
    pub fn build_board(self) -> (board: Board)
        requires
            self.0.len() == SHIP_COUNT,
        ensures
            board.ships@ == self.0@,
            self.wf() ==> board.valid(),
    {
        let mut ships: [Ship; 15] = [self.0[0]; 15];
        let mut i: usize = 1;
        while i < SHIP_COUNT
            invariant
                1 <= i <= SHIP_COUNT,
                self.0.len() == SHIP_COUNT,
                forall|k: int| 0 <= k < i ==> ships@[k] == self.0@[k],
            decreases SHIP_COUNT - i,
        {
            ships[i] = self.0[i];
            i += 1;
        }
        assert(ships@ =~= self.0@);
        Board { ships }
    }
}

/// A valid board: the single-cell ships down the first column, the longer
/// ones to their right, the two horizontal ones along the last row.
pub fn sample_board() -> (board: Board)
    ensures
        board.valid(),
        board.ships@ == sample_ships(),
{
    let v = Direction::Vertical;
    let h = Direction::Horizontal;
    let board = Board {
        ships: [
            Ship { x: 1, y: 1, size: 1, direction: v },
            Ship { x: 1, y: 3, size: 1, direction: v },
            Ship { x: 1, y: 5, size: 1, direction: v },
            Ship { x: 1, y: 7, size: 1, direction: v },
            Ship { x: 1, y: 9, size: 1, direction: v },
            Ship { x: 3, y: 1, size: 2, direction: v },
            Ship { x: 3, y: 4, size: 2, direction: v },
            Ship { x: 3, y: 7, size: 2, direction: v },
            Ship { x: 3, y: 10, size: 2, direction: h },
            Ship { x: 5, y: 1, size: 3, direction: v },
            Ship { x: 5, y: 5, size: 3, direction: v },
            Ship { x: 6, y: 10, size: 3, direction: h },
            Ship { x: 7, y: 1, size: 4, direction: v },
            Ship { x: 9, y: 1, size: 4, direction: v },
            Ship { x: 10, y: 6, size: 5, direction: v },
        ],
    };
    assert(board.ships@ =~= sample_ships());
    proof {
        lemma_sample_ships_are_valid();
    }
    board
}

/// The ships of the sample board.
pub open spec fn sample_ships() -> Seq<Ship> {
    let v = Direction::Vertical;
    let h = Direction::Horizontal;
    seq![
        Ship { x: 1, y: 1, size: 1, direction: v },
        Ship { x: 1, y: 3, size: 1, direction: v },
        Ship { x: 1, y: 5, size: 1, direction: v },
        Ship { x: 1, y: 7, size: 1, direction: v },
        Ship { x: 1, y: 9, size: 1, direction: v },
        Ship { x: 3, y: 1, size: 2, direction: v },
        Ship { x: 3, y: 4, size: 2, direction: v },
        Ship { x: 3, y: 7, size: 2, direction: v },
        Ship { x: 3, y: 10, size: 2, direction: h },
        Ship { x: 5, y: 1, size: 3, direction: v },
        Ship { x: 5, y: 5, size: 3, direction: v },
        Ship { x: 6, y: 10, size: 3, direction: h },
        Ship { x: 7, y: 1, size: 4, direction: v },
        Ship { x: 9, y: 1, size: 4, direction: v },
        Ship { x: 10, y: 6, size: 5, direction: v },
    ]
}

/// The ships of the sample board have the required sizes, lie on the grid
/// and touch one another nowhere.
pub proof fn lemma_sample_ships_are_valid()
    ensures
        forall|i: int| 0 <= i < SHIP_COUNT ==> (#[trigger] sample_ships()[i]).size == required_size(i),
        forall|i: int| 0 <= i < SHIP_COUNT ==> (#[trigger] sample_ships()[i]).fits(),
        forall|i: int, j: int|
            0 <= i < j < SHIP_COUNT ==> !(#[trigger] sample_ships()[i]).touches(
                #[trigger] sample_ships()[j],
            ),
{
    let s = sample_ships();
    assert forall|i: int, j: int| 0 <= i < j < SHIP_COUNT implies !(#[trigger] s[i]).touches(
        #[trigger] s[j],
    ) by {
        s[i].lemma_clear_of_is_not_touching(s[j]);
        assert(s[i].clear_of(s[j]));
    }
}

} // verus!
