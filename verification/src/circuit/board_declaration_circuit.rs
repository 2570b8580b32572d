//! The circuit that proves a committed board well-formed: the public hash
//! is the commitment to the private ships and salt, and the ships have the
//! required sizes, lie on the grid, and touch one another nowhere.

use crate::circuit::commons::{
    bind_commitment, commitment, compute_commitment, lemma_fleet_models_is_kept,
    lemma_fleet_models_placements, Placement, ShipVars,
};
use crate::circuit::constraints::{
    bit_enforce_equal, bit_or, bit_select, bits_of_bytes, constant_bit, constraints_hold, modulus,
    public_values, ready,
    new_constant_num, new_system, num_add, num_enforce_equal, num_is_eq, num_select, num_sub,
    system_is_satisfied, Constraints, Num,
};
use crate::circuit::ordering::{
    at_most, enforce_at_least, enforce_at_most, is_above, is_at_most, is_below,
    strictly_comparable, weakly_comparable,
};
use crate::model::{required_size, ship_size, Board, Direction, Ship, GRID_SIDE, SHIP_COUNT};
use ark_relations::r1cs::SynthesisError;
use vstd::prelude::*;

verus! {

/// The residue of `v` in the field.
pub open spec fn field(v: int) -> int {
    v % modulus()
}

/// What the circuit records of a ship's origin: column and row are at least
/// one and at most ten, by the ordering gadgets.
pub open spec fn position_recorded(p: Placement) -> bool {
    &&& at_most(1, p.x)
    &&& at_most(p.x, 10)
    &&& at_most(1, p.y)
    &&& at_most(p.y, 10)
}

/// The column of a ship's last cell if the ship were horizontal, computed in
/// the field.
pub open spec fn far_column(p: Placement) -> int {
    field(field(p.x + p.size) - 1)
}

/// The row of a ship's last cell if the ship were vertical, computed in the
/// field.
pub open spec fn far_row(p: Placement) -> int {
    field(field(p.y + p.size) - 1)
}

/// What the circuit records of a ship's extent: the ordering gadgets accept
/// both far coordinates against ten, and the one along the ship's axis is at
/// most ten.
pub open spec fn fit_recorded(p: Placement) -> bool {
    &&& weakly_comparable(far_column(p), 10)
    &&& weakly_comparable(far_row(p), 10)
    &&& if p.vertical {
        far_row(p) < field(10int + 1)
    } else {
        far_column(p) < field(10int + 1)
    }
}

/// The column of a ship's last cell, computed in the field.
pub open spec fn right_column(p: Placement) -> int {
    if p.vertical {
        p.x
    } else {
        far_column(p)
    }
}

/// The row of a ship's last cell, computed in the field.
pub open spec fn lower_row(p: Placement) -> int {
    if p.vertical {
        far_row(p)
    } else {
        p.y
    }
}

/// The column just right of a ship's last cell, computed in the field.
pub open spec fn zone_right(p: Placement) -> int {
    if p.vertical {
        field(p.x + 1)
    } else {
        field(p.x + p.size)
    }
}

/// The row just below a ship's last cell, computed in the field.
pub open spec fn zone_bottom(p: Placement) -> int {
    if p.vertical {
        field(p.y + p.size)
    } else {
        field(p.y + 1)
    }
}

/// What the circuit records of two ships: the ordering gadgets accept the
/// four comparisons of the first ship with the second ship's forbidden zone,
/// and the first ship lies above, below, left or right of that zone.
pub open spec fn apart_recorded(a: Placement, b: Placement) -> bool {
    &&& strictly_comparable(lower_row(a), field(b.y - 1))
    &&& strictly_comparable(a.y, zone_bottom(b))
    &&& strictly_comparable(right_column(a), field(b.x - 1))
    &&& strictly_comparable(a.x, zone_right(b))
    &&& (lower_row(a) < field(b.y - 1) || zone_bottom(b) < a.y || right_column(a) < field(b.x - 1)
        || zone_right(b) < a.x)
}

/// Whether a ship's origin is on the grid.
pub open spec fn origin_on_grid(ship: Ship) -> bool {
    1 <= ship.x <= GRID_SIDE && 1 <= ship.y <= GRID_SIDE
}

/// The ordering gadgets record of a ship's origin exactly that it is on the
/// grid.
pub proof fn lemma_position_recorded(ship: Ship)
    ensures
        position_recorded(ship.placement()) <==> origin_on_grid(ship),
{
}

/// Of a ship with a cell and its origin on the grid, the circuit records
/// exactly that it fits.
pub proof fn lemma_fit_recorded(ship: Ship)
    requires
        origin_on_grid(ship),
        ship.size >= 1,
    ensures
        fit_recorded(ship.placement()) <==> ship.fits(),
{
}

/// A small natural number is its own residue.
pub proof fn lemma_field_of_small(v: int)
    requires
        0 <= v < 1024,
    ensures
        field(v) == v,
{
}

/// What the circuit computes for a ship with a cell and its origin on the
/// grid are the ship's own coordinates.
pub proof fn lemma_coordinates_recorded(ship: Ship)
    requires
        origin_on_grid(ship),
        1 <= ship.size,
    ensures
        right_column(ship.placement()) == ship.right_x(),
        lower_row(ship.placement()) == ship.lower_y(),
        zone_right(ship.placement()) == ship.right_x() + 1,
        zone_bottom(ship.placement()) == ship.lower_y() + 1,
        field(ship.x - 1) == ship.x - 1,
        field(ship.y - 1) == ship.y - 1,
{
    lemma_field_of_small(ship.x + ship.size);
    lemma_field_of_small(ship.y + ship.size);
    lemma_field_of_small(ship.x + ship.size - 1);
    lemma_field_of_small(ship.y + ship.size - 1);
    lemma_field_of_small(ship.x + 1);
    lemma_field_of_small(ship.y + 1);
    lemma_field_of_small(ship.x - 1);
    lemma_field_of_small(ship.y - 1);
}

/// Of two ships with a cell and their origins on the grid, the circuit
/// records exactly that the first lies clear of the second.
pub proof fn lemma_apart_recorded(a: Ship, b: Ship)
    requires
        origin_on_grid(a),
        origin_on_grid(b),
        1 <= a.size,
        1 <= b.size,
    ensures
        apart_recorded(a.placement(), b.placement()) <==> a.clear_of(b),
{
    lemma_coordinates_recorded(a);
    lemma_coordinates_recorded(b);
}

/// Whether `constants` are constants of `cs` that hold the numbers from zero
/// on, each at its own place.
pub open spec fn counts_up(cs: Constraints, constants: Seq<Num>) -> bool {
    forall|n: int|
        0 <= n < constants.len() ==> cs.has_num(#[trigger] constants[n]) && cs.num(constants[n])
            == n && cs.is_constant(constants[n])
}

/// The constants zero to five. Constants are made without touching the
/// system, so this cannot fail.
fn create_constants(cs: &mut Constraints) -> (r: Result<Vec<Num>, SynthesisError>)
    ensures
        r is Ok,
        r matches Ok(constants) ==> constants.len() == 6 && counts_up(*final(cs), constants@),
        r is Ok ==> final(cs).keeps(*old(cs)),
        r is Ok ==> public_values(*final(cs)) == public_values(*old(cs)),
        r is Ok ==> constraints_hold(*final(cs)) == constraints_hold(*old(cs)),
{
    let ghost before = *cs;
    let mut constants: Vec<Num> = Vec::new();
    let mut n: u8 = 0;
    while n <= 5
        invariant
            n <= 6,
            constants.len() == n,
            counts_up(*cs, constants@),
            before == *old(cs),
            cs.keeps(before),
            public_values(*cs) == public_values(before),
            constraints_hold(*cs) == constraints_hold(before),
        decreases 6 - n,
    {
        let constant = new_constant_num(cs, n)?;
        constants.push(constant);
        n += 1;
    }
    Ok(constants)
}

/// Records of each ship that its column and its row are at least one and at
/// most ten. Where there is no ship nothing is recorded, and nothing can
/// fail; on a ready system nothing fails either where no ship's variable is
/// a constant.
fn enforce_positions(ships_vars: &Vec<ShipVars>, one: Num, ten: Num, cs: &mut Constraints) -> (r:
    Result<(), SynthesisError>)
    requires
        forall|k: int| 0 <= k < ships_vars.len() ==> (#[trigger] ships_vars[k]).within(*old(cs)),
        old(cs).has_num(one),
        old(cs).has_num(ten),
        old(cs).num(one) == 1,
        old(cs).num(ten) == 10,
    ensures
        ships_vars.len() == 0 ==> r is Ok,
        ready(*old(cs)) && (forall|k: int|
            0 <= k < ships_vars.len() ==> (#[trigger] ships_vars[k]).allocated(*old(cs)))
            ==> r is Ok,
        r is Ok ==> final(cs).same_variables(*old(cs)),
        r is Ok ==> (constraints_hold(*final(cs)) == (constraints_hold(*old(cs)) && forall|k: int|
            0 <= k < ships_vars.len() ==> position_recorded(
                (#[trigger] ships_vars[k]).placement(*old(cs)),
            ))),
{
    let ghost before = *cs;
    let mut i: usize = 0;
    while i < ships_vars.len()
        invariant
            i <= ships_vars.len(),
            forall|k: int| 0 <= k < ships_vars.len() ==> (#[trigger] ships_vars[k]).within(before),
            before.has_num(one),
            before.has_num(ten),
            before.num(one) == 1,
            before.num(ten) == 10,
            before == *old(cs),
            cs.same_variables(before),
            constraints_hold(*cs) == (constraints_hold(before) && forall|k: int|
                0 <= k < i ==> position_recorded((#[trigger] ships_vars[k]).placement(before))),
        decreases ships_vars.len() - i,
    {
        let vars = ships_vars[i];
        enforce_at_least(cs, vars.x, one)?;
        enforce_at_most(cs, vars.x, ten)?;
        enforce_at_least(cs, vars.y, one)?;
        enforce_at_most(cs, vars.y, ten)?;
        i += 1;
    }
    Ok(())
}

/// Records of each ship that its size is the one required at its place. On a
/// ready system this cannot fail.
fn enforce_sizes(ships_vars: &Vec<ShipVars>, constants: &Vec<Num>, cs: &mut Constraints) -> (r:
    Result<(), SynthesisError>)
    requires
        ships_vars.len() == SHIP_COUNT,
        constants.len() == 6,
        counts_up(*old(cs), constants@),
        forall|k: int| 0 <= k < ships_vars.len() ==> (#[trigger] ships_vars[k]).coherent(*old(cs)),
    ensures
        ready(*old(cs)) ==> r is Ok,
        r is Ok ==> final(cs).same_variables(*old(cs)),
        r is Ok ==> (constraints_hold(*final(cs)) == (constraints_hold(*old(cs)) && forall|k: int|
            0 <= k < ships_vars.len() ==> (#[trigger] ships_vars[k]).placement(*old(cs)).size
                == required_size(k))),
{
    let ghost before = *cs;
    let mut i: usize = 0;
    while i < SHIP_COUNT
        invariant
            i <= SHIP_COUNT,
            ships_vars.len() == SHIP_COUNT,
            constants.len() == 6,
            counts_up(before, constants@),
            forall|k: int| 0 <= k < ships_vars.len() ==> (#[trigger] ships_vars[k]).coherent(before),
            before == *old(cs),
            cs.same_variables(before),
            constraints_hold(*cs) == (constraints_hold(before) && forall|k: int|
                0 <= k < i ==> (#[trigger] ships_vars[k]).placement(before).size == required_size(
                    k,
                )),
        decreases SHIP_COUNT - i,
    {
        let required = ship_size(i);
        assert(ships_vars[i as int].coherent(before));
        num_enforce_equal(cs, ships_vars[i].size, constants[required as usize])?;
        i += 1;
    }
    Ok(())
}

/// Records of each ship that its last cell lies within the tenth column or
/// row, whichever its direction asks for. Where there is no ship nothing is
/// recorded, and nothing can fail; on a ready system nothing fails either
/// where no ship's variable is a constant.
fn enforce_fits(ships_vars: &Vec<ShipVars>, zero: Num, one: Num, ten: Num, cs: &mut Constraints) -> (r:
    Result<(), SynthesisError>)
    requires
        forall|k: int| 0 <= k < ships_vars.len() ==> (#[trigger] ships_vars[k]).coherent(*old(cs)),
        old(cs).has_num(zero),
        old(cs).has_num(one),
        old(cs).has_num(ten),
        old(cs).num(zero) == 0,
        old(cs).num(one) == 1,
        old(cs).num(ten) == 10,
    ensures
        ships_vars.len() == 0 ==> r is Ok && final(cs).same_variables(*old(cs)),
        ready(*old(cs)) && (forall|k: int|
            0 <= k < ships_vars.len() ==> (#[trigger] ships_vars[k]).allocated(*old(cs)))
            ==> r is Ok,
        r is Ok ==> final(cs).keeps(*old(cs)),
        r is Ok ==> public_values(*final(cs)) == public_values(*old(cs)),
        r is Ok ==> (constraints_hold(*final(cs)) == (constraints_hold(*old(cs)) && forall|k: int|
            0 <= k < ships_vars.len() ==> fit_recorded(
                (#[trigger] ships_vars[k]).placement(*old(cs)),
            ))),
{
    let ghost before = *cs;
    let mut i: usize = 0;
    while i < ships_vars.len()
        invariant
            i <= ships_vars.len(),
            forall|k: int| 0 <= k < ships_vars.len() ==> (#[trigger] ships_vars[k]).coherent(before),
            before.has_num(zero),
            before.has_num(one),
            before.has_num(ten),
            before.num(zero) == 0,
            before.num(one) == 1,
            before.num(ten) == 10,
            before == *old(cs),
            cs.keeps(before),
            i == 0 ==> cs.same_variables(before),
            public_values(*cs) == public_values(before),
            constraints_hold(*cs) == (constraints_hold(before) && forall|k: int|
                0 <= k < i ==> fit_recorded((#[trigger] ships_vars[k]).placement(before))),
        decreases ships_vars.len() - i,
    {
        let vars = ships_vars[i];
        assert(vars.coherent(before));
        let is_vertical = num_is_eq(cs, vars.direction, zero)?;
        let past_x = num_add(cs, vars.x, vars.size);
        let new_x = num_sub(cs, past_x, one);
        let past_y = num_add(cs, vars.y, vars.size);
        let new_y = num_sub(cs, past_y, one);
        let is_within_x = is_at_most(cs, new_x, ten)?;
        let is_within_y = is_at_most(cs, new_y, ten)?;
        let valid_requirement = bit_select(cs, is_vertical, is_within_y, is_within_x)?;
        let truth = constant_bit(cs, true);
        bit_enforce_equal(cs, valid_requirement, truth)?;
        i += 1;
    }
    Ok(())
}

/// Records that `ship1` lies above, below, left or right of the forbidden
/// zone of `ship2`: the cells of `ship2` and the cells around them. On a
/// ready system this cannot fail where no variable of the two ships is a
/// constant.
fn enforce_ships_not_touching(ship1: &ShipVars, ship2: &ShipVars, one: Num, cs: &mut Constraints) -> (r:
    Result<(), SynthesisError>)
    requires
        ship1.within(*old(cs)),
        ship2.within(*old(cs)),
        old(cs).has_num(one),
        old(cs).num(one) == 1,
    ensures
        ready(*old(cs)) && ship1.allocated(*old(cs)) && ship2.allocated(*old(cs)) ==> r is Ok,
        r is Ok ==> final(cs).keeps(*old(cs)),
        r is Ok ==> public_values(*final(cs)) == public_values(*old(cs)),
        r is Ok ==> (constraints_hold(*final(cs)) == (constraints_hold(*old(cs)) && apart_recorded(
            ship1.placement(*old(cs)),
            ship2.placement(*old(cs)),
        ))),
{
    // The last column and the last row of the first ship.
    let past_x = num_add(cs, ship1.x, ship1.size);
    let far_x = num_sub(cs, past_x, one);
    let ship1_right_x = num_select(cs, ship1.is_vertical, ship1.x, far_x)?;
    let past_y = num_add(cs, ship1.y, ship1.size);
    let far_y = num_sub(cs, past_y, one);
    let ship1_lower_y = num_select(cs, ship1.is_vertical, far_y, ship1.y)?;

    // The corners of the forbidden zone of the second ship.
    let rect_lu_x = num_sub(cs, ship2.x, one);
    let rect_lu_y = num_sub(cs, ship2.y, one);
    let next_x = num_add(cs, ship2.x, one);
    let end_x = num_add(cs, ship2.x, ship2.size);
    let rect_ru_x = num_select(cs, ship2.is_vertical, next_x, end_x)?;
    let end_y = num_add(cs, ship2.y, ship2.size);
    let next_y = num_add(cs, ship2.y, one);
    let rect_ll_y = num_select(cs, ship2.is_vertical, end_y, next_y)?;

    // Where the first ship lies relative to the zone.
    let lies_above = is_below(cs, ship1_lower_y, rect_lu_y)?;
    let lies_below = is_above(cs, ship1.y, rect_ll_y)?;
    let lies_left = is_below(cs, ship1_right_x, rect_lu_x)?;
    let lies_right = is_above(cs, ship1.x, rect_ru_x)?;

    let vertical_condition = bit_or(cs, lies_above, lies_below)?;
    let horizontal_condition = bit_or(cs, lies_left, lies_right)?;
    let result_condition = bit_or(cs, vertical_condition, horizontal_condition)?;
    let truth = constant_bit(cs, true);
    bit_enforce_equal(cs, result_condition, truth)
}

/// Records of every two ships that the earlier one lies clear of the later
/// one's forbidden zone. On a ready system this cannot fail where no ship's
/// variable is a constant.
fn enforce_fleet_apart(ships_vars: &Vec<ShipVars>, one: Num, cs: &mut Constraints) -> (r: Result<
    (),
    SynthesisError,
>)
    requires
        ships_vars.len() == SHIP_COUNT,
        forall|k: int| 0 <= k < ships_vars.len() ==> (#[trigger] ships_vars[k]).within(*old(cs)),
        old(cs).has_num(one),
        old(cs).num(one) == 1,
    ensures
        ready(*old(cs)) && (forall|k: int|
            0 <= k < ships_vars.len() ==> (#[trigger] ships_vars[k]).allocated(*old(cs)))
            ==> r is Ok,
        r is Ok ==> final(cs).keeps(*old(cs)),
        r is Ok ==> public_values(*final(cs)) == public_values(*old(cs)),
        r is Ok ==> (constraints_hold(*final(cs)) == (constraints_hold(*old(cs)) && forall|
            a: int,
            b: int,
        |
            0 <= a < b < SHIP_COUNT ==> apart_recorded(
                (#[trigger] ships_vars[a]).placement(*old(cs)),
                (#[trigger] ships_vars[b]).placement(*old(cs)),
            ))),
{
    let ghost before = *cs;
    let mut i: usize = 0;
    while i < 14
        invariant
            i <= 14,
            ships_vars.len() == SHIP_COUNT,
            forall|k: int| 0 <= k < ships_vars.len() ==> (#[trigger] ships_vars[k]).within(before),
            before.has_num(one),
            before.num(one) == 1,
            before == *old(cs),
            cs.keeps(before),
            public_values(*cs) == public_values(before),
            constraints_hold(*cs) == (constraints_hold(before) && forall|a: int, b: int|
                0 <= a < b < SHIP_COUNT && a < i ==> apart_recorded(
                    (#[trigger] ships_vars[a]).placement(before),
                    (#[trigger] ships_vars[b]).placement(before),
                )),
        decreases 14 - i,
    {
        let ghost outer = *cs;
        let mut j: usize = i + 1;
        while j < 15
            invariant
                i < j <= 15,
                i < 14,
                ships_vars.len() == SHIP_COUNT,
                forall|k: int|
                    0 <= k < ships_vars.len() ==> (#[trigger] ships_vars[k]).within(before),
                before.has_num(one),
                before.num(one) == 1,
                before == *old(cs),
                cs.keeps(before),
                public_values(*cs) == public_values(before),
                constraints_hold(*cs) == (constraints_hold(outer) && forall|b: int|
                    i < b < j ==> apart_recorded(
                        ships_vars[i as int].placement(before),
                        (#[trigger] ships_vars[b]).placement(before),
                    )),
            decreases 15 - j,
        {
            assert(ships_vars[i as int].within(before) && ships_vars[j as int].within(before));
            let first = ships_vars[i];
            let second = ships_vars[j];
            assert(first.placement(*cs) == first.placement(before));
            assert(second.placement(*cs) == second.placement(before));
            enforce_ships_not_touching(&first, &second, one, cs)?;
            j += 1;
        }
        i += 1;
    }
    Ok(())
}

/// A board, the salt that hides it, and the hash that commits to both: the
/// private and the public side of a proof that the board is well-formed.
#[derive(Copy, Clone, Debug)]
pub struct BoardDeclarationCircuit {
    pub board: Board,
    pub salt: [u8; 32],
    pub hash: [u8; 32],
}

/// The constraints recorded of the ships of a board hold exactly if the
/// board is valid.
pub proof fn lemma_recorded_is_valid(board: Board)
    ensures
        board.valid() <==> {
            &&& forall|k: int|
                0 <= k < SHIP_COUNT ==> position_recorded(
                    (#[trigger] board.ships@[k]).placement(),
                )
            &&& forall|k: int|
                0 <= k < SHIP_COUNT ==> (#[trigger] board.ships@[k]).placement().size
                    == required_size(k)
            &&& forall|k: int|
                0 <= k < SHIP_COUNT ==> fit_recorded((#[trigger] board.ships@[k]).placement())
            &&& forall|a: int, b: int|
                0 <= a < b < SHIP_COUNT ==> apart_recorded(
                    (#[trigger] board.ships@[a]).placement(),
                    (#[trigger] board.ships@[b]).placement(),
                )
        },
{
    let ships = board.ships@;
    let sized = forall|k: int|
        0 <= k < SHIP_COUNT ==> (#[trigger] ships[k]).placement().size == required_size(k);
    let placed = forall|k: int|
        0 <= k < SHIP_COUNT ==> position_recorded((#[trigger] ships[k]).placement());
    if sized && placed {
        assert forall|k: int| 0 <= k < SHIP_COUNT implies (fit_recorded(
            (#[trigger] ships[k]).placement(),
        ) <==> ships[k].fits()) by {
            lemma_position_recorded(ships[k]);
            lemma_fit_recorded(ships[k]);
        }
        assert forall|a: int, b: int| 0 <= a < b < SHIP_COUNT implies (apart_recorded(
            (#[trigger] ships[a]).placement(),
            (#[trigger] ships[b]).placement(),
        ) <==> !ships[a].touches(ships[b])) by {
            lemma_position_recorded(ships[a]);
            lemma_position_recorded(ships[b]);
            lemma_apart_recorded(ships[a], ships[b]);
            ships[a].lemma_clear_of_is_not_touching(ships[b]);
        }
    }
    if board.valid() {
        assert forall|k: int| 0 <= k < SHIP_COUNT implies position_recorded(
            (#[trigger] ships[k]).placement(),
        ) by {
            lemma_position_recorded(ships[k]);
            assert(ships[k].fits());
        }
        assert(sized);
    }
}

impl BoardDeclarationCircuit {
    /// What a proof for this circuit shows: the hash is the commitment to
    /// the board under the salt, and the board is valid.
    pub open spec fn statement(self) -> bool {
        self.hash@ == commitment(self.board.ships@, self.salt@) && self.board.valid()
    }

    /// The circuit for `board` under `salt`, with the hash that commits to
    /// both.
    pub fn new(board: Board, salt: [u8; 32]) -> (circuit: Self)
        ensures
            circuit.board == board,
            circuit.salt == salt,
            circuit.hash@ == commitment(board.ships@, salt@),
            circuit.statement() == board.valid(),
    {
        let hash = compute_commitment(&board.ships, &salt);
        BoardDeclarationCircuit { board, salt, hash }
    }

    /// The instance from which the keys of this circuit are generated: every
    /// ship in the first cell, downwards, with the size required at its
    /// place, and a salt and a hash of zeros.
    pub fn setup_instance() -> (circuit: Self)
        ensures
            circuit.salt@ == Seq::new(32, |i: int| 0u8),
            circuit.hash@ == Seq::new(32, |i: int| 0u8),
            forall|k: int|
                0 <= k < SHIP_COUNT ==> #[trigger] circuit.board.ships@[k] == (Ship {
                    x: 1,
                    y: 1,
                    size: required_size(k) as u8,
                    direction: Direction::Vertical,
                }),
    {
        let mut ships = [Ship { x: 1, y: 1, size: 1, direction: Direction::Vertical };15];
        let mut k: usize = 0;
        while k < SHIP_COUNT
            invariant
                k <= SHIP_COUNT,
                forall|j: int|
                    0 <= j < SHIP_COUNT ==> #[trigger] ships@[j] == (Ship {
                        x: 1,
                        y: 1,
                        size: if j < k {
                            required_size(j) as u8
                        } else {
                            1u8
                        },
                        direction: Direction::Vertical,
                    }),
            decreases SHIP_COUNT - k,
        {
            let mut ship = ships[k];
            ship.size = ship_size(k);
            ships[k] = ship;
            k += 1;
        }
        let circuit = BoardDeclarationCircuit { board: Board { ships }, salt: [0u8;32], hash: [0u8;32] };
        assert(circuit.salt@ =~= Seq::new(32, |i: int| 0u8));
        assert(circuit.hash@ =~= Seq::new(32, |i: int| 0u8));
        circuit
    }

    /// Writes the circuit into `cs`: allocates the ships and the salt in
    /// private and the hash in public, and records the constraints that hold
    /// exactly if the statement is true. The public variables allocated are
    /// the bits of the hash, byte by byte and from the lowest bit up. On a
    /// ready system this succeeds for every board, salt and hash.
    pub fn generate_constraints(self, cs: &mut Constraints) -> (r: Result<(), SynthesisError>)
        ensures
            ready(*old(cs)) ==> r is Ok,
            r is Ok ==> final(cs).keeps(*old(cs)),
            r is Ok ==> public_values(*final(cs)) == public_values(*old(cs)) + bits_of_bytes(
                self.hash@,
            ),
            r is Ok ==> (constraints_hold(*final(cs)) == (constraints_hold(*old(cs))
                && self.statement())),
    {
        let ghost ships = self.board.ships@;
        let constants = create_constants(cs)?;
        let ten = new_constant_num(cs, 10)?;
        let ships_vars = bind_commitment(&self.board.ships, &self.salt, &self.hash, cs)?;
        let zero = constants[0];
        let one = constants[1];
        let ghost bound = *cs;
        assert(counts_up(bound, constants@));
        assert(bound.has_num(constants@[0]) && bound.has_num(constants@[1]));
        proof {
            lemma_fleet_models_placements(bound, ships_vars@, ships);
        }
        enforce_positions(&ships_vars, one, ten, cs)?;
        let ghost placed = *cs;
        proof {
            lemma_fleet_models_is_kept(bound, placed, ships_vars@, ships);
            lemma_fleet_models_placements(placed, ships_vars@, ships);
            let recorded = forall|k: int|
                0 <= k < ships_vars.len() ==> position_recorded(
                    (#[trigger] ships_vars[k]).placement(bound),
                );
            let wanted = forall|k: int|
                0 <= k < SHIP_COUNT ==> position_recorded((#[trigger] ships[k]).placement());
            if recorded {
                assert forall|k: int| 0 <= k < SHIP_COUNT implies position_recorded(
                    (#[trigger] ships[k]).placement(),
                ) by {
                    assert(ships_vars[k].placement(bound) == ships[k].placement());
                }
            }
            if wanted {
                assert forall|k: int| 0 <= k < ships_vars.len() implies position_recorded(
                    (#[trigger] ships_vars[k]).placement(bound),
                ) by {
                    assert(position_recorded(ships[k].placement()));
                }
            }
            assert(recorded == wanted);
        }
        enforce_sizes(&ships_vars, &constants, cs)?;
        let ghost sized = *cs;
        proof {
            lemma_fleet_models_is_kept(placed, sized, ships_vars@, ships);
            lemma_fleet_models_placements(sized, ships_vars@, ships);
            let recorded = forall|k: int|
                0 <= k < ships_vars.len() ==> (#[trigger] ships_vars[k]).placement(placed).size
                    == required_size(k);
            let wanted = forall|k: int|
                0 <= k < SHIP_COUNT ==> (#[trigger] ships[k]).placement().size == required_size(k);
            if recorded {
                assert forall|k: int| 0 <= k < SHIP_COUNT implies (#[trigger] ships[k]).placement().size
                    == required_size(k) by {
                    assert(ships_vars[k].placement(placed) == ships[k].placement());
                }
            }
            if wanted {
                assert forall|k: int| 0 <= k < ships_vars.len() implies (
                #[trigger] ships_vars[k]).placement(placed).size == required_size(k) by {
                    assert(ships[k].placement().size == required_size(k));
                }
            }
            assert(recorded == wanted);
        }
        enforce_fits(&ships_vars, zero, one, ten, cs)?;
        let ghost fitted = *cs;
        proof {
            lemma_fleet_models_is_kept(sized, fitted, ships_vars@, ships);
            lemma_fleet_models_placements(fitted, ships_vars@, ships);
            let recorded = forall|k: int|
                0 <= k < ships_vars.len() ==> fit_recorded(
                    (#[trigger] ships_vars[k]).placement(sized),
                );
            let wanted = forall|k: int|
                0 <= k < SHIP_COUNT ==> fit_recorded((#[trigger] ships[k]).placement());
            if recorded {
                assert forall|k: int| 0 <= k < SHIP_COUNT implies fit_recorded(
                    (#[trigger] ships[k]).placement(),
                ) by {
                    assert(ships_vars[k].placement(sized) == ships[k].placement());
                }
            }
            if wanted {
                assert forall|k: int| 0 <= k < ships_vars.len() implies fit_recorded(
                    (#[trigger] ships_vars[k]).placement(sized),
                ) by {
                    assert(fit_recorded(ships[k].placement()));
                }
            }
            assert(recorded == wanted);
        }
        enforce_fleet_apart(&ships_vars, one, cs)?;
        proof {
            let recorded = forall|a: int, b: int|
                0 <= a < b < SHIP_COUNT ==> apart_recorded(
                    (#[trigger] ships_vars[a]).placement(fitted),
                    (#[trigger] ships_vars[b]).placement(fitted),
                );
            let wanted = forall|a: int, b: int|
                0 <= a < b < SHIP_COUNT ==> apart_recorded(
                    (#[trigger] ships[a]).placement(),
                    (#[trigger] ships[b]).placement(),
                );
            if recorded {
                assert forall|a: int, b: int| 0 <= a < b < SHIP_COUNT implies apart_recorded(
                    (#[trigger] ships[a]).placement(),
                    (#[trigger] ships[b]).placement(),
                ) by {
                    assert(ships_vars[a].placement(fitted) == ships[a].placement());
                    assert(ships_vars[b].placement(fitted) == ships[b].placement());
                }
            }
            if wanted {
                assert forall|a: int, b: int| 0 <= a < b < SHIP_COUNT implies apart_recorded(
                    (#[trigger] ships_vars[a]).placement(fitted),
                    (#[trigger] ships_vars[b]).placement(fitted),
                ) by {
                    assert(apart_recorded(ships[a].placement(), ships[b].placement()));
                }
            }
            assert(recorded == wanted);
            lemma_recorded_is_valid(self.board);
        }
        Ok(())
    }

    /// Whether the statement is true, found by writing the circuit into a
    /// fresh system and asking whether that system is satisfied. This
    /// succeeds for every board, salt and hash.
    pub fn is_satisfied(self) -> (r: Result<bool, SynthesisError>)
        ensures
            r is Ok,
            r matches Ok(satisfied) ==> satisfied == self.statement(),
    {
        let mut cs = new_system();
        self.generate_constraints(&mut cs)?;
        system_is_satisfied(&cs)
    }
}

/// A valid board, with the hash that commits to it under its salt, makes the
/// statement of its circuit true: a system into which the circuit is written
/// stays satisfied.
pub proof fn lemma_valid_board_is_accepted(circuit: BoardDeclarationCircuit)
    requires
        circuit.board.valid(),
        circuit.hash@ == commitment(circuit.board.ships@, circuit.salt@),
    ensures
        circuit.statement(),
{
}

/// A board that is not valid makes the statement of its circuit false,
/// whatever the salt and the hash: a system into which the circuit is
/// written is not satisfied. So it is for a ship with a cell off the grid,
/// for a ship of another size than its place requires, and for two ships
/// with cells that are equal or neighbours.
pub proof fn lemma_invalid_board_is_rejected(circuit: BoardDeclarationCircuit)
    requires
        !circuit.board.valid(),
    ensures
        !circuit.statement(),
{
}

/// The hash that is computed for a board and a salt outside a circuit is the
/// digest that the circuit computes of them: with that hash for its public
/// input, the statement of the circuit says no more than that the board is
/// valid.
pub proof fn lemma_commitment_is_bound(circuit: BoardDeclarationCircuit)
    requires
        circuit.hash@ == commitment(circuit.board.ships@, circuit.salt@),
    ensures
        circuit.statement() == circuit.board.valid(),
{
}

} // verus!
