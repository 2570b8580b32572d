use battleships::circuit::board_declaration_circuit::BoardDeclarationCircuit;
use battleships::circuit::field_declaration_circuit::FieldDeclarationCircuit;
use battleships::model::{sample_board, Direction, FieldState};

#[test]
fn board_circuit_agrees_with_the_rules_on_broken_boards() {
    let mut diagonal = sample_board();
    diagonal.ships[0].x = 2;
    diagonal.ships[0].y = 3;
    let mut turned = sample_board();
    turned.ships[14].direction = Direction::Horizontal;
    let mut swapped = sample_board();
    swapped.ships.swap(4, 5);
    for board in [diagonal, turned, swapped] {
        assert!(!board.is_valid());
        let circuit = BoardDeclarationCircuit::new(board, [3; 32]);
        assert_eq!(circuit.is_satisfied().unwrap(), board.is_valid());
    }
}

#[test]
fn board_circuit_agrees_with_the_rules_on_valid_boards() {
    let mut moved = sample_board();
    moved.ships[4].x = 8;
    moved.ships[4].y = 8;
    let mut turned = sample_board();
    turned.ships[5].x = 2;
    turned.ships[5].direction = Direction::Horizontal;
    turned.ships[0].y = 10;
    turned.ships[0].x = 1;
    for board in [moved, turned] {
        let circuit = BoardDeclarationCircuit::new(board, [9; 32]);
        assert_eq!(circuit.is_satisfied().unwrap(), board.is_valid());
    }
    assert!(moved.is_valid());
}

#[test]
fn field_circuit_agrees_with_the_board() {
    let board = sample_board();
    let declaration = BoardDeclarationCircuit::new(board, [5; 32]);
    for (x, y) in [(1, 1), (2, 2), (10, 10), (8, 10), (10, 5), (4, 10)] {
        for field_state in [FieldState::Empty, FieldState::Occupied] {
            let circuit = FieldDeclarationCircuit {
                board,
                salt: declaration.salt,
                hash: declaration.hash,
                field_x: x,
                field_y: y,
                field_state,
            };
            assert_eq!(
                circuit.is_satisfied().unwrap(),
                board.get_field_state(x, y) == field_state,
                "cell ({}, {})",
                x,
                y
            );
        }
    }
}

#[test]
fn field_circuit_needs_the_committed_salt() {
    let board = sample_board();
    let declaration = BoardDeclarationCircuit::new(board, [5; 32]);
    let circuit = FieldDeclarationCircuit {
        board,
        salt: [6; 32],
        hash: declaration.hash,
        field_x: 1,
        field_y: 1,
        field_state: FieldState::Occupied,
    };
    assert!(!circuit.is_satisfied().unwrap());
    let mut other = board;
    other.ships[0].x = 2;
    let circuit = FieldDeclarationCircuit {
        board: other,
        salt: declaration.salt,
        hash: declaration.hash,
        field_x: 1,
        field_y: 1,
        field_state: FieldState::Empty,
    };
    assert!(!circuit.is_satisfied().unwrap());
}
