use battleships::circuit::board_declaration_circuit::BoardDeclarationCircuit;
use battleships::circuit::constraints::Constraints;
use battleships::model::{Board, Direction, Ship};
use sha2::{Digest, Sha256};

fn hash_of(board: &Board, salt: [u8; 32]) -> [u8; 32] {
    let mut hasher = Sha256::new();
    board
        .ships
        .iter()
        .for_each(|ship| hasher.update([ship.x, ship.y, ship.size, ship.direction.to_u8()]));
    hasher.update(salt);
    hasher.finalize().into()
}

fn ship(x: u8, y: u8, size: u8, direction: Direction) -> Ship {
    Ship { x, y, size, direction }
}

fn get_correct_board() -> Board {
    let v = Direction::Vertical;
    let h = Direction::Horizontal;
    Board {
        ships: [
            ship(1, 1, 1, v),
            ship(1, 3, 1, v),
            ship(1, 5, 1, v),
            ship(1, 7, 1, v),
            ship(1, 9, 1, v),
            ship(3, 1, 2, v),
            ship(3, 4, 2, v),
            ship(3, 7, 2, v),
            ship(3, 10, 2, h),
            ship(5, 1, 3, v),
            ship(5, 5, 3, v),
            ship(6, 10, 3, h),
            ship(7, 1, 4, v),
            ship(9, 1, 4, v),
            ship(10, 6, 5, v),
        ],
    }
}

#[test]
fn board_declaration_circuit_tests_correct_board_test() {
    let board = get_correct_board();
    let salt = [1; 32];
    let real_circuit = BoardDeclarationCircuit { board, salt, hash: hash_of(&board, salt) };

    let mut cs = Constraints::new();
    real_circuit.clone().generate_constraints(&mut cs).unwrap();
    assert!(cs.is_satisfied().unwrap());
}

#[test]
fn board_declaration_circuit_tests_touching_ships_test() {
    let mut board = get_correct_board();
    board.ships[12].x = 6;
    let salt = [1; 32];
    let real_circuit = BoardDeclarationCircuit { board, salt, hash: hash_of(&board, salt) };

    let mut cs = Constraints::new();
    real_circuit.clone().generate_constraints(&mut cs).unwrap();
    assert!(!cs.is_satisfied().unwrap());
}

#[test]
fn board_declaration_circuit_tests_bad_ship_size_test() {
    let mut board = get_correct_board();
    board.ships[2].size = 2;
    let salt = [1; 32];
    let real_circuit = BoardDeclarationCircuit { board, salt, hash: hash_of(&board, salt) };

    let mut cs = Constraints::new();
    real_circuit.clone().generate_constraints(&mut cs).unwrap();
    assert!(!cs.is_satisfied().unwrap());
}
