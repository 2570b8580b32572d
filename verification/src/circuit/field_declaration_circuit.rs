//! The circuit that proves what one cell of a committed board holds: the
//! public hash is the commitment to the private ships and salt, the public
//! cell is on the grid, and the public state says whether a ship covers it.
//!
//! The circuit does not ask again that the board be well-formed: that was
//! proved once, when the board was committed to.

use crate::circuit::board_declaration_circuit::{
    far_column, far_row, field, lemma_field_of_small, lower_row, right_column,
};
use crate::circuit::commons::{
    bind_commitment, commitment, fleet_models, lemma_fleet_models_is_kept,
    lemma_fleet_models_placements, Placement, ShipVars,
};
use crate::circuit::constraints::{
    bit_and, bit_enforce_equal, bit_not, bit_or, bits_of_bytes, constant_bit, constraints_hold,
    modulus, public_values, ready,
    new_constant_num, new_input_num, new_system, num_add, num_is_eq, num_select, num_sub,
    system_is_satisfied, Bit, Constraints, Num,
};
use crate::circuit::ordering::{
    at_most, enforce_at_least, enforce_at_most, is_at_least, is_at_most, weakly_comparable,
};
use crate::model::{on_grid, Board, Direction, FieldState, Ship, SHIP_COUNT};
use ark_relations::r1cs::SynthesisError;
use vstd::prelude::*;

verus! {

/// Whether the ordering gadgets accept the four comparisons of a cell with
/// a ship's first and last cell.
pub open spec fn occupancy_comparable(p: Placement, x: int, y: int) -> bool {
    &&& weakly_comparable(p.x, x)
    &&& weakly_comparable(x, right_column(p))
    &&& weakly_comparable(p.y, y)
    &&& weakly_comparable(y, lower_row(p))
}

/// What the circuit computes for a ship and a cell: the cell lies between
/// the ship's first and last cell, along both axes.
pub open spec fn occupancy_recorded(p: Placement, x: int, y: int) -> bool {
    &&& p.x < field(x + 1)
    &&& x < field(right_column(p) + 1)
    &&& p.y < field(y + 1)
    &&& y < field(lower_row(p) + 1)
}

/// What the circuit records of the queried cell: column and row are at least
/// one and at most ten, by the ordering gadgets.
pub open spec fn cell_recorded(x: int, y: int) -> bool {
    &&& at_most(1, x)
    &&& at_most(x, 10)
    &&& at_most(1, y)
    &&& at_most(y, 10)
}

/// For any ship and any cell, the ordering gadgets accept the comparisons
/// and the circuit computes whether the ship covers the cell.
pub proof fn lemma_occupancy_recorded(ship: Ship, x: u8, y: u8)
    ensures
        occupancy_comparable(ship.placement(), x as int, y as int),
        occupancy_recorded(ship.placement(), x as int, y as int) <==> ship.occupies(
            x as int,
            y as int,
        ),
{
    lemma_field_of_small(x + 1);
    lemma_field_of_small(y + 1);
    lemma_field_of_small(ship.x + ship.size);
    lemma_field_of_small(ship.y + ship.size);
    lemma_field_of_small(ship.x + 1);
    lemma_field_of_small(ship.y + 1);
    if ship.x + ship.size >= 1 {
        lemma_field_of_small(ship.x + ship.size - 1);
        lemma_field_of_small(ship.x + ship.size);
    } else {
        assert(far_column(ship.placement()) == modulus() - 1);
        assert(field(far_column(ship.placement()) + 1) == 0);
    }
    if ship.y + ship.size >= 1 {
        lemma_field_of_small(ship.y + ship.size - 1);
        lemma_field_of_small(ship.y + ship.size);
    } else {
        assert(far_row(ship.placement()) == modulus() - 1);
        assert(field(far_row(ship.placement()) + 1) == 0);
    }
}

/// The ordering gadgets record of a cell exactly that it is on the grid.
pub proof fn lemma_cell_recorded(x: u8, y: u8)
    ensures
        cell_recorded(x as int, y as int) <==> on_grid(x as int, y as int),
{
}

/// A boolean variable that says whether the ship lies over the cell: the
/// cell's column is between the ship's first and last column, and its row
/// between the ship's first and last row. On a ready system this cannot fail
/// where no variable of the ship or of the cell is a constant.
fn is_ship_occupying_field(
    ship_vars: &ShipVars,
    field_x_var: Num,
    field_y_var: Num,
    one: Num,
    cs: &mut Constraints,
) -> (r: Result<Bit, SynthesisError>)
    requires
        ship_vars.within(*old(cs)),
        old(cs).has_num(field_x_var),
        old(cs).has_num(field_y_var),
        old(cs).has_num(one),
        old(cs).num(one) == 1,
    ensures
        ready(*old(cs)) && ship_vars.allocated(*old(cs)) && !old(cs).is_constant(field_x_var)
            && !old(cs).is_constant(field_y_var) ==> r is Ok,
        r matches Ok(bit) ==> final(cs).has_bit(bit) && (occupancy_comparable(
            ship_vars.placement(*old(cs)),
            old(cs).num(field_x_var),
            old(cs).num(field_y_var),
        ) ==> final(cs).bit(bit) == occupancy_recorded(
            ship_vars.placement(*old(cs)),
            old(cs).num(field_x_var),
            old(cs).num(field_y_var),
        )),
        r is Ok ==> final(cs).keeps(*old(cs)),
        r is Ok ==> public_values(*final(cs)) == public_values(*old(cs)),
        r is Ok ==> (constraints_hold(*final(cs)) == (constraints_hold(*old(cs))
            && occupancy_comparable(
            ship_vars.placement(*old(cs)),
            old(cs).num(field_x_var),
            old(cs).num(field_y_var),
        ))),
{
    let past_x = num_add(cs, ship_vars.x, ship_vars.size);
    let far_x = num_sub(cs, past_x, one);
    let ship_right_x = num_select(cs, ship_vars.is_vertical, ship_vars.x, far_x)?;
    let past_y = num_add(cs, ship_vars.y, ship_vars.size);
    let far_y = num_sub(cs, past_y, one);
    let ship_lower_y = num_select(cs, ship_vars.is_vertical, far_y, ship_vars.y)?;

    let ship_x_le_field_x = is_at_most(cs, ship_vars.x, field_x_var)?;
    let right_x_ge_field_x = is_at_least(cs, ship_right_x, field_x_var)?;
    let x_condition = bit_and(cs, ship_x_le_field_x, right_x_ge_field_x)?;

    let ship_y_le_field_y = is_at_most(cs, ship_vars.y, field_y_var)?;
    let lower_y_ge_field_y = is_at_least(cs, ship_lower_y, field_y_var)?;
    let y_condition = bit_and(cs, ship_y_le_field_y, lower_y_ge_field_y)?;

    bit_and(cs, x_condition, y_condition)
}

/// A boolean variable that says whether any of the ships lies over the cell.
/// Where there is no ship the variable is the constant that says no, nothing
/// is recorded, and nothing can fail; on a ready system nothing fails either
/// where no variable of the ships or of the cell is a constant.
fn is_field_occupied(
    ships_vars: &Vec<ShipVars>,
    field_x_var: Num,
    field_y_var: Num,
    one: Num,
    cs: &mut Constraints,
) -> (r: Result<Bit, SynthesisError>)
    requires
        forall|k: int| 0 <= k < ships_vars.len() ==> (#[trigger] ships_vars[k]).within(*old(cs)),
        old(cs).has_num(field_x_var),
        old(cs).has_num(field_y_var),
        old(cs).has_num(one),
        old(cs).num(one) == 1,
    ensures
        ships_vars.len() == 0 ==> (r matches Ok(bit) && final(cs).adds_bit(*old(cs), bit, false)),
        ready(*old(cs)) && (forall|k: int|
            0 <= k < ships_vars.len() ==> (#[trigger] ships_vars[k]).allocated(*old(cs)))
            && !old(cs).is_constant(field_x_var) && !old(cs).is_constant(field_y_var) ==> r is Ok,
        r matches Ok(bit) ==> final(cs).has_bit(bit) && ((forall|k: int|
            0 <= k < ships_vars.len() ==> occupancy_comparable(
                (#[trigger] ships_vars[k]).placement(*old(cs)),
                old(cs).num(field_x_var),
                old(cs).num(field_y_var),
            )) ==> final(cs).bit(bit) == exists|k: int|
            0 <= k < ships_vars.len() && occupancy_recorded(
                (#[trigger] ships_vars[k]).placement(*old(cs)),
                old(cs).num(field_x_var),
                old(cs).num(field_y_var),
            )),
        r is Ok ==> final(cs).keeps(*old(cs)),
        r is Ok ==> public_values(*final(cs)) == public_values(*old(cs)),
        r is Ok ==> (constraints_hold(*final(cs)) == (constraints_hold(*old(cs)) && forall|k: int|
            0 <= k < ships_vars.len() ==> occupancy_comparable(
                (#[trigger] ships_vars[k]).placement(*old(cs)),
                old(cs).num(field_x_var),
                old(cs).num(field_y_var),
            ))),
{
    let ghost before = *cs;
    let ghost x = cs.num(field_x_var);
    let ghost y = cs.num(field_y_var);
    let mut occupied = constant_bit(cs, false);
    let mut i: usize = 0;
    while i < ships_vars.len()
        invariant
            i <= ships_vars.len(),
            forall|k: int| 0 <= k < ships_vars.len() ==> (#[trigger] ships_vars[k]).within(before),
            before.has_num(field_x_var),
            before.has_num(field_y_var),
            before.has_num(one),
            before.num(one) == 1,
            x == before.num(field_x_var),
            y == before.num(field_y_var),
            before == *old(cs),
            cs.keeps(before),
            i == 0 ==> cs.adds_bit(before, occupied, false),
            public_values(*cs) == public_values(before),
            cs.has_bit(occupied),
            (forall|k: int|
                0 <= k < i ==> occupancy_comparable(
                    (#[trigger] ships_vars[k]).placement(before),
                    x,
                    y,
                )) ==> cs.bit(occupied) == exists|k: int|
                0 <= k < i && occupancy_recorded((#[trigger] ships_vars[k]).placement(before), x, y),
            constraints_hold(*cs) == (constraints_hold(before) && forall|k: int|
                0 <= k < i ==> occupancy_comparable(
                    (#[trigger] ships_vars[k]).placement(before),
                    x,
                    y,
                )),
        decreases ships_vars.len() - i,
    {
        let vars = ships_vars[i];
        assert(vars.within(before));
        assert(vars.placement(*cs) == vars.placement(before));
        let ghost earlier = cs.bit(occupied);
        let covering = is_ship_occupying_field(&vars, field_x_var, field_y_var, one, cs)?;
        occupied = bit_or(cs, occupied, covering)?;
        proof {
            let all_before = forall|k: int|
                0 <= k < i ==> occupancy_comparable(
                    (#[trigger] ships_vars[k]).placement(before),
                    x,
                    y,
                );
            let all_now = forall|k: int|
                0 <= k < i + 1 ==> occupancy_comparable(
                    (#[trigger] ships_vars[k]).placement(before),
                    x,
                    y,
                );
            if all_now {
                assert(all_before);
                assert(occupancy_comparable(ships_vars[i as int].placement(before), x, y));
                let some_before = exists|k: int|
                    0 <= k < i && occupancy_recorded(
                        (#[trigger] ships_vars[k]).placement(before),
                        x,
                        y,
                    );
                let some_now = exists|k: int|
                    0 <= k < i + 1 && occupancy_recorded(
                        (#[trigger] ships_vars[k]).placement(before),
                        x,
                        y,
                    );
                let this = occupancy_recorded(ships_vars[i as int].placement(before), x, y);
                assert(earlier == some_before);
                assert(some_now == (some_before || this)) by {
                    if some_before {
                        let k = choose|k: int|
                            0 <= k < i && occupancy_recorded(
                                (#[trigger] ships_vars[k]).placement(before),
                                x,
                                y,
                            );
                        assert(0 <= k < i + 1 && occupancy_recorded(
                            ships_vars[k].placement(before),
                            x,
                            y,
                        ));
                    }
                    if this {
                        assert(0 <= i < i + 1 && occupancy_recorded(
                            ships_vars[i as int].placement(before),
                            x,
                            y,
                        ));
                    }
                }
            }
            if all_before && occupancy_comparable(ships_vars[i as int].placement(before), x, y) {
                assert(all_now);
            }
        }
        i += 1;
    }
    Ok(occupied)
}

/// Allocates the public variables of the queried cell and of the declared
/// state, records that the cell is on the grid and that the state is at most
/// one, and derives the boolean that says whether the state is `Empty`. On a
/// ready system this succeeds for every cell and state.
fn declare_cell(
    x: u8,
    y: u8,
    state: FieldState,
    zero: Num,
    one: Num,
    ten: Num,
    cs: &mut Constraints,
) -> (r: Result<(Num, Num, Bit), SynthesisError>)
    requires
        old(cs).has_num(zero),
        old(cs).has_num(one),
        old(cs).has_num(ten),
        old(cs).num(zero) == 0,
        old(cs).num(one) == 1,
        old(cs).num(ten) == 10,
    ensures
        ready(*old(cs)) ==> r is Ok,
        r matches Ok(vars) ==> !final(cs).is_constant(vars.0) && !final(cs).is_constant(vars.1)
            && !final(cs).is_constant_bit(vars.2),
        r matches Ok(vars) ==> final(cs).has_num(vars.0) && final(cs).has_num(vars.1) && final(cs).has_bit(
            vars.2,
        ) && final(cs).num(vars.0) == x && final(cs).num(vars.1) == y && final(cs).bit(
            vars.2,
        ) == (state == FieldState::Empty),
        r is Ok ==> final(cs).keeps(*old(cs)),
        r is Ok ==> public_values(*final(cs)) == public_values(*old(cs)).push(x as int).push(
            y as int,
        ).push(state.code() as int),
        r is Ok ==> (constraints_hold(*final(cs)) == (constraints_hold(*old(cs)) && on_grid(
            x as int,
            y as int,
        ))),
{
    let field_x_var = new_input_num(cs, x)?;
    let field_y_var = new_input_num(cs, y)?;
    let field_state_var = new_input_num(cs, state.to_u8())?;
    enforce_at_least(cs, field_x_var, one)?;
    enforce_at_most(cs, field_x_var, ten)?;
    enforce_at_least(cs, field_y_var, one)?;
    enforce_at_most(cs, field_y_var, ten)?;
    enforce_at_most(cs, field_state_var, one)?;
    proof {
        lemma_cell_recorded(x, y);
    }
    let is_field_declaration_empty = num_is_eq(cs, field_state_var, zero)?;
    Ok((field_x_var, field_y_var, is_field_declaration_empty))
}

/// For variables that hold the ships of a board, the ordering gadgets accept
/// every comparison with a cell, and the circuit computes for some ship that
/// it lies over the cell exactly if the board is occupied there.
pub proof fn lemma_fleet_occupancy(
    cs: Constraints,
    vars: Seq<ShipVars>,
    board: Board,
    x: u8,
    y: u8,
)
    requires
        fleet_models(cs, vars, board.ships@),
    ensures
        forall|k: int|
            0 <= k < vars.len() ==> (#[trigger] vars[k]).within(cs) && occupancy_comparable(
                vars[k].placement(cs),
                x as int,
                y as int,
            ),
        (exists|k: int|
            0 <= k < vars.len() && occupancy_recorded(
                (#[trigger] vars[k]).placement(cs),
                x as int,
                y as int,
            )) == board.occupied(x as int, y as int),
{
    let ships = board.ships@;
    lemma_fleet_models_placements(cs, vars, ships);
    assert forall|k: int| 0 <= k < vars.len() implies (#[trigger] vars[k]).within(cs)
        && occupancy_comparable(vars[k].placement(cs), x as int, y as int) by {
        lemma_occupancy_recorded(ships[k], x, y);
        assert(vars[k].models(cs, ships[k]));
    }
    let recorded = exists|k: int|
        0 <= k < vars.len() && occupancy_recorded(
            (#[trigger] vars[k]).placement(cs),
            x as int,
            y as int,
        );
    if recorded {
        let k = choose|k: int|
            0 <= k < vars.len() && occupancy_recorded(
                (#[trigger] vars[k]).placement(cs),
                x as int,
                y as int,
            );
        lemma_occupancy_recorded(ships[k], x, y);
        assert(ships[k].occupies(x as int, y as int));
    }
    if board.occupied(x as int, y as int) {
        let k = choose|k: int|
            0 <= k < SHIP_COUNT && (#[trigger] ships[k]).occupies(x as int, y as int);
        lemma_occupancy_recorded(ships[k], x, y);
        assert(occupancy_recorded(vars[k].placement(cs), x as int, y as int));
    }
}

/// A board, the salt that hides it, the hash that commits to both, a cell
/// and what is said to be in it: the private and the public side of a proof
/// that the cell of the committed board holds that state.
#[derive(Copy, Clone, Debug)]
pub struct FieldDeclarationCircuit {
    pub board: Board,
    pub salt: [u8; 32],
    pub hash: [u8; 32],
    pub field_x: u8,
    pub field_y: u8,
    pub field_state: FieldState,
}

impl FieldDeclarationCircuit {
    /// What a proof for this circuit shows: the hash is the commitment to
    /// the board under the salt, the cell is on the grid, and the state is
    /// what the board holds there.
    pub open spec fn statement(self) -> bool {
        &&& self.hash@ == commitment(self.board.ships@, self.salt@)
        &&& on_grid(self.field_x as int, self.field_y as int)
        &&& self.field_state == self.board.state_at(self.field_x as int, self.field_y as int)
    }

    /// The instance from which the keys of this circuit are generated: every
    /// ship of one cell in the first cell, a salt and a hash of zeros, and
    /// the first cell declared empty.
    pub fn setup_instance() -> (circuit: Self)
        ensures
            circuit.salt@ == Seq::new(32, |i: int| 0u8),
            circuit.hash@ == Seq::new(32, |i: int| 0u8),
            circuit.field_x == 1,
            circuit.field_y == 1,
            circuit.field_state == FieldState::Empty,
            forall|k: int|
                0 <= k < SHIP_COUNT ==> #[trigger] circuit.board.ships@[k] == (Ship {
                    x: 1,
                    y: 1,
                    size: 1,
                    direction: Direction::Vertical,
                }),
    {
        let ships = [Ship { x: 1, y: 1, size: 1, direction: Direction::Vertical };15];
        let circuit = FieldDeclarationCircuit {
            board: Board { ships },
            salt: [0u8;32],
            hash: [0u8;32],
            field_x: 1,
            field_y: 1,
            field_state: FieldState::Empty,
        };
        assert(circuit.salt@ =~= Seq::new(32, |i: int| 0u8));
        assert(circuit.hash@ =~= Seq::new(32, |i: int| 0u8));
        circuit
    }

    /// Writes the circuit into `cs`: allocates the ships and the salt in
    /// private, and the hash, the cell and the state in public, in that
    /// order, and records the constraints that hold exactly if the statement
    /// is true. The public variables allocated are the bits of the hash, byte
    /// by byte and from the lowest bit up, then the column, the row and the
    /// number of the state. On a ready system this succeeds for every board,
    /// salt, hash, cell and state.
    pub fn generate_constraints(self, cs: &mut Constraints) -> (r: Result<(), SynthesisError>)
        ensures
            ready(*old(cs)) ==> r is Ok,
            r is Ok ==> final(cs).keeps(*old(cs)),
            r is Ok ==> public_values(*final(cs)) == public_values(*old(cs)) + bits_of_bytes(
                self.hash@,
            ).push(self.field_x as int).push(self.field_y as int).push(
                self.field_state.code() as int,
            ),
            r is Ok ==> (constraints_hold(*final(cs)) == (constraints_hold(*old(cs))
                && self.statement())),
    {
        let ten = new_constant_num(cs, 10)?;
        let one = new_constant_num(cs, 1)?;
        let zero = new_constant_num(cs, 0)?;
        let ships_vars = bind_commitment(&self.board.ships, &self.salt, &self.hash, cs)?;
        let ghost bound = *cs;
        let (field_x_var, field_y_var, is_field_declaration_empty) = declare_cell(
            self.field_x,
            self.field_y,
            self.field_state,
            zero,
            one,
            ten,
            cs,
        )?;
        let ghost declared = *cs;
        proof {
            lemma_fleet_models_is_kept(bound, declared, ships_vars@, self.board.ships@);
            lemma_fleet_occupancy(
                declared,
                ships_vars@,
                self.board,
                self.field_x,
                self.field_y,
            );
        }
        let occupied = is_field_occupied(&ships_vars, field_x_var, field_y_var, one, cs)?;
        let vacant = bit_not(cs, occupied);
        bit_enforce_equal(cs, is_field_declaration_empty, vacant)
    }

    /// Whether the statement is true, found by writing the circuit into a
    /// fresh system and asking whether that system is satisfied. This
    /// succeeds for every board, salt, hash, cell and state.
    pub fn is_satisfied(self) -> (r: Result<bool, SynthesisError>)
        ensures
            r is Ok,
            r matches Ok(satisfied) ==> satisfied == self.statement(),
    {
        let mut cs = new_system();
        self.generate_constraints(&mut cs)?;
        system_is_satisfied(&cs)
    }
}

/// For a board with the hash that commits to it under its salt, and a cell
/// on the grid, the statement of the circuit is true with the state that
/// the board holds at the cell, and false with the other state.
pub proof fn lemma_only_the_true_state_is_accepted(circuit: FieldDeclarationCircuit)
    requires
        circuit.hash@ == commitment(circuit.board.ships@, circuit.salt@),
        on_grid(circuit.field_x as int, circuit.field_y as int),
    ensures
        circuit.statement() <==> circuit.field_state == circuit.board.state_at(
            circuit.field_x as int,
            circuit.field_y as int,
        ),
        circuit.statement() <==> (circuit.field_state == FieldState::Occupied
            <==> circuit.board.occupied(circuit.field_x as int, circuit.field_y as int)),
{
}

/// An answer that differs from what the board holds at the cell makes the
/// statement of the circuit false, whatever the salt and the hash.
pub proof fn lemma_false_answer_is_rejected(circuit: FieldDeclarationCircuit)
    requires
        circuit.field_state != circuit.board.state_at(
            circuit.field_x as int,
            circuit.field_y as int,
        ),
    ensures
        !circuit.statement(),
{
}

} // verus!
