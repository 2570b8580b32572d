use battleships::circuit::board_declaration_circuit::BoardDeclarationCircuit;
use battleships::logic::game_loop::Player;
use battleships::logic::GameState;
use battleships::model::{self, sample_board, Direction, IncompleteBoard, Ship};
use battleships::ui::gui::common::{
    determine_opponents_board, determine_our_board, BoardData, FieldState,
};
use battleships::ui::gui::lobby::determine_state;

fn count(board: &Vec<Vec<FieldState>>, state: FieldState) -> usize {
    board.iter().flatten().filter(|cell| **cell == state).count()
}

#[test]
fn class_names_follow_the_states() {
    assert_eq!(FieldState::Empty.to_class_name(), "field-state-empty");
    assert_eq!(FieldState::Miss.to_class_name(), "field-state-miss");
    assert_eq!(FieldState::Ship.to_class_name(), "field-state-ship");
    assert_eq!(FieldState::Hit.to_class_name(), "field-state-hit");
}

#[test]
fn board_data_shows_the_ships() {
    let data = BoardData::new(vec![]);
    assert_eq!(data.board, vec![vec![FieldState::Empty; 12]; 12]);
    let data = BoardData::new(vec![
        Ship { x: 3, y: 10, size: 2, direction: Direction::Horizontal },
        Ship { x: 10, y: 6, size: 5, direction: Direction::Vertical },
    ]);
    assert_eq!(data.board.len(), 12);
    assert!(data.board.iter().all(|row| row.len() == 12));
    assert_eq!(count(&data.board, FieldState::Ship), 7);
    assert_eq!(data.board[10][3], FieldState::Ship);
    assert_eq!(data.board[10][4], FieldState::Ship);
    assert_eq!(data.board[10][5], FieldState::Empty);
    for y in 6..=10 {
        assert_eq!(data.board[y][10], FieldState::Ship);
    }
    assert_eq!(data.board[5][10], FieldState::Empty);
}

#[test]
fn borders_surround_each_ship() {
    let ships = vec![Ship { x: 5, y: 5, size: 3, direction: Direction::Vertical }];
    let mut data = BoardData::new(ships.clone());
    data.add_borders(ships);
    assert_eq!(count(&data.board, FieldState::Ship), 3);
    assert_eq!(count(&data.board, FieldState::Miss), 12);
    for y in 4..=8 {
        assert_eq!(data.board[y][4], FieldState::Miss);
        assert_eq!(data.board[y][6], FieldState::Miss);
    }
    assert_eq!(data.board[4][5], FieldState::Miss);
    assert_eq!(data.board[8][5], FieldState::Miss);
    assert_eq!(data.board[3][5], FieldState::Empty);
    assert_eq!(data.board[9][5], FieldState::Empty);

    let corner = vec![
        Ship { x: 1, y: 1, size: 1, direction: Direction::Horizontal },
        Ship { x: 9, y: 10, size: 2, direction: Direction::Horizontal },
    ];
    let mut data = BoardData::new(corner.clone());
    data.add_borders(corner);
    assert_eq!(data.board[0][0], FieldState::Miss);
    assert_eq!(data.board[2][2], FieldState::Miss);
    assert_eq!(data.board[11][11], FieldState::Miss);
    assert_eq!(data.board[9][8], FieldState::Miss);
    assert_eq!(count(&data.board, FieldState::Miss), 8 + 10);
}

#[test]
fn shots_are_marked_in_their_order() {
    let mut data = BoardData::new(vec![]);
    data.add_shots(
        vec![
            (1, 2, model::FieldState::Empty),
            (3, 4, model::FieldState::Occupied),
            (5, 5, model::FieldState::Occupied),
            (5, 5, model::FieldState::Empty),
            (12, 1, model::FieldState::Occupied),
            (1, 200, model::FieldState::Empty),
            (11, 0, model::FieldState::Occupied),
        ],
        FieldState::Hit,
    );
    assert_eq!(data.board[2][1], FieldState::Miss);
    assert_eq!(data.board[4][3], FieldState::Hit);
    assert_eq!(data.board[5][5], FieldState::Miss);
    assert_eq!(data.board[0][11], FieldState::Hit);
    assert_eq!(count(&data.board, FieldState::Hit), 2);
    assert_eq!(count(&data.board, FieldState::Miss), 2);
}

#[test]
fn boards_of_a_game_show_ships_and_shots() {
    assert_eq!(determine_opponents_board(None), vec![vec![FieldState::Empty; 12]; 12]);
    assert_eq!(determine_our_board(None), vec![vec![FieldState::Empty; 12]; 12]);
    let circuit = BoardDeclarationCircuit::new(sample_board(), [1; 32]);
    let mut state = GameState::new(circuit, [0; 32], Player::Host);
    state.record_our_shot(1, 1, model::FieldState::Occupied);
    state.record_our_shot(2, 1, model::FieldState::Empty);
    state.record_their_shot(5, 6, model::FieldState::Occupied);
    state.record_their_shot(6, 5, model::FieldState::Empty);
    let theirs = determine_opponents_board(Some(&state));
    assert_eq!(theirs[1][1], FieldState::Ship);
    assert_eq!(theirs[1][2], FieldState::Miss);
    assert_eq!(count(&theirs, FieldState::Empty), 142);
    let ours = determine_our_board(Some(&state));
    assert_eq!(ours[6][5], FieldState::Hit);
    assert_eq!(ours[5][6], FieldState::Miss);
    assert_eq!(ours[1][1], FieldState::Ship);
    assert_eq!(count(&ours, FieldState::Ship), 34);
    assert_eq!(count(&ours, FieldState::Hit), 1);
    assert_eq!(count(&ours, FieldState::Miss), 1);
}

#[test]
fn lobby_counts_the_remaining_ships() {
    let sample = sample_board();
    let mut board = IncompleteBoard::new();
    let state = determine_state(&board);
    assert_eq!(state.ships, vec![0, 5, 4, 3, 2, 1]);
    assert_eq!(state.current_ship_size, 1);
    assert_eq!(state.board, vec![vec![FieldState::Empty; 12]; 12]);
    let expected = [
        (vec![0, 4, 4, 3, 2, 1], 1),
        (vec![0, 3, 4, 3, 2, 1], 1),
        (vec![0, 2, 4, 3, 2, 1], 1),
        (vec![0, 1, 4, 3, 2, 1], 1),
        (vec![0, 0, 4, 3, 2, 1], 2),
        (vec![0, 0, 3, 3, 2, 1], 2),
        (vec![0, 0, 2, 3, 2, 1], 2),
        (vec![0, 0, 1, 3, 2, 1], 2),
        (vec![0, 0, 0, 3, 2, 1], 3),
        (vec![0, 0, 0, 2, 2, 1], 3),
        (vec![0, 0, 0, 1, 2, 1], 3),
        (vec![0, 0, 0, 0, 2, 1], 4),
        (vec![0, 0, 0, 0, 1, 1], 4),
        (vec![0, 0, 0, 0, 0, 1], 5),
        (vec![0, 0, 0, 0, 0, 0], 0),
    ];
    for (ship, (ships, next)) in sample.ships.iter().zip(expected.iter()) {
        assert!(board.can_be_extended_with(*ship));
        board.extend(*ship);
        let state = determine_state(&board);
        assert_eq!(&state.ships, ships);
        assert_eq!(state.current_ship_size, *next);
    }
    let state = determine_state(&board);
    assert_eq!(count(&state.board, FieldState::Ship), 35);
    assert_eq!(state.board[1][1], FieldState::Ship);
    assert_eq!(state.board[0][0], FieldState::Miss);
    assert_eq!(state.board[2][1], FieldState::Miss);
    assert_eq!(state.board[11][10], FieldState::Miss);
    assert_eq!(state.board[5][8], FieldState::Miss);
    assert_eq!(state.board[7][8], FieldState::Empty);
}
