use ark_bls12_381::Fr;
use battleships::circuit::board_declaration_circuit::BoardDeclarationCircuit;
use battleships::circuit::constraints::Constraints;
use battleships::logic::game_loop::Player;
use battleships::logic::GameState;
use battleships::model::sample_board;

fn instance_of(cs: &Constraints) -> Vec<Fr> {
    cs.system.borrow().unwrap().instance_assignment.clone()
}

fn elements_of(input: &[u8]) -> Vec<Fr> {
    let mut elements = vec![Fr::from(1u8)];
    elements.extend(input.iter().map(|e| Fr::from(*e)));
    elements
}

#[test]
fn board_circuit_allocates_its_public_input() {
    let circuit = BoardDeclarationCircuit::new(sample_board(), [1; 32]);
    let mut cs = Constraints::new();
    circuit.generate_constraints(&mut cs).unwrap();
    assert!(cs.is_satisfied().unwrap());
    assert_eq!(instance_of(&cs), elements_of(&circuit.public_input().0));
    assert_eq!(cs.system.num_instance_variables(), 257);
}

#[test]
fn field_circuit_allocates_its_public_input() {
    let circuit = BoardDeclarationCircuit::new(sample_board(), [1; 32]);
    let state = GameState::new(circuit, [0; 32], Player::Client);
    let field = state.field_declaration(5, 6);
    let mut cs = Constraints::new();
    field.generate_constraints(&mut cs).unwrap();
    assert!(cs.is_satisfied().unwrap());
    assert_eq!(instance_of(&cs), elements_of(&field.public_input().0));
    assert_eq!(cs.system.num_instance_variables(), 260);
}

#[test]
fn fresh_system_is_satisfied_and_empty() {
    let cs = Constraints::new();
    assert!(cs.is_satisfied().unwrap());
    assert_eq!(cs.system.num_constraints(), 0);
    assert_eq!(cs.system.num_witness_variables(), 0);
}

#[test]
fn unsatisfied_system_stays_unsatisfied() {
    let mut board = sample_board();
    board.ships[12].x = 6;
    let circuit = BoardDeclarationCircuit::new(board, [1; 32]);
    let mut cs = Constraints::new();
    circuit.generate_constraints(&mut cs).unwrap();
    assert!(!cs.is_satisfied().unwrap());
    let valid = BoardDeclarationCircuit::new(sample_board(), [1; 32]);
    valid.generate_constraints(&mut cs).unwrap();
    assert!(!cs.is_satisfied().unwrap());
}
