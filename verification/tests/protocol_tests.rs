use battleships::circuit::board_declaration_circuit::BoardDeclarationCircuit;
use battleships::circuit::commons::compute_commitment;
use battleships::circuit::constraints::Constraints;
use battleships::circuit::field_declaration_circuit::FieldDeclarationCircuit;
use battleships::crypto::keys::{
    proving_key_file, verifying_key_file, BOARD_DECLARATION_KEYS, FIELD_DECLARATION_KEYS,
};
use battleships::crypto::proofs::{board_declaration_input, field_declaration_input, PublicInput};
use battleships::logic::board_creation::{
    commit, declaration, declared, is_complete, judge_declaration, place, placing_report, Placing,
};
use battleships::logic::game_loop::{
    are_all_discovered, Game, GameAction, GameEvent, Phase, Player,
};
use battleships::logic::main::{Progress, Routing, Stage};
use battleships::logic::{GameMessage, GameState, Outcome};
use battleships::model::{sample_board, Direction, FieldState, IncompleteBoard, Ship};
use battleships::net::connection::{
    accept_message, client_greeting, client_verdict, decode_header, encode_frame, encode_header,
    host_reply,
};
use battleships::net::message::Message;
use battleships::ui::UiInput;
use sha2::{Digest, Sha256};

fn sample_hash(salt: [u8; 32]) -> [u8; 32] {
    let board = sample_board();
    let mut hasher = Sha256::new();
    for ship in board.ships.iter() {
        hasher.update([ship.x, ship.y, ship.size, ship.direction.to_u8()]);
    }
    hasher.update(salt);
    hasher.finalize().into()
}

fn sample_circuit() -> BoardDeclarationCircuit {
    BoardDeclarationCircuit::new(sample_board(), [1; 32])
}

#[test]
fn commitment_is_the_digest_of_ships_and_salt() {
    let board = sample_board();
    assert_eq!(compute_commitment(&board.ships, &[1; 32]), sample_hash([1; 32]));
    assert_eq!(compute_commitment(&board.ships, &[7; 32]), sample_hash([7; 32]));
    assert_ne!(compute_commitment(&board.ships, &[1; 32]), compute_commitment(&board.ships, &[2; 32]));
    assert_ne!(compute_commitment(&board.ships, &[1; 32]), [1; 32]);
}

#[test]
fn circuit_of_a_valid_board_with_its_commitment_is_satisfied() {
    let circuit = sample_circuit();
    assert_eq!(circuit.hash, sample_hash([1; 32]));
    assert!(circuit.is_satisfied().unwrap());
}

#[test]
fn synthesis_succeeds_whatever_the_board() {
    let mut board = sample_board();
    board.ships[0] = Ship { x: 0, y: 0, size: 0, direction: Direction::Horizontal };
    board.ships[1] = Ship { x: 255, y: 255, size: 255, direction: Direction::Vertical };
    let circuit = BoardDeclarationCircuit { board, salt: [0; 32], hash: [0; 32] };
    let mut cs = Constraints::new();
    assert!(circuit.generate_constraints(&mut cs).is_ok());
    assert_eq!(cs.is_satisfied().ok(), Some(false));
    let state = GameState::new(circuit, [0; 32], Player::Host);
    for (x, y) in [(0, 0), (255, 255), (1, 1)] {
        let field = state.field_declaration(x, y);
        let mut cs = Constraints::new();
        assert!(field.generate_constraints(&mut cs).is_ok());
        assert_eq!(cs.is_satisfied().ok(), Some(false));
    }
}

#[test]
fn circuit_with_another_hash_is_not_satisfied() {
    let mut circuit = sample_circuit();
    circuit.hash = [0; 32];
    assert!(!circuit.is_satisfied().unwrap());
    let mut circuit = sample_circuit();
    circuit.salt = [2; 32];
    assert!(!circuit.is_satisfied().unwrap());
}

#[test]
fn circuit_of_a_ship_off_the_grid_is_not_satisfied() {
    let mut board = sample_board();
    board.ships[14].y = 7;
    assert!(!BoardDeclarationCircuit::new(board, [1; 32]).is_satisfied().unwrap());
    let mut board = sample_board();
    board.ships[0].x = 0;
    assert!(!BoardDeclarationCircuit::new(board, [1; 32]).is_satisfied().unwrap());
}

#[test]
fn field_circuit_accepts_the_true_state_only() {
    let state = GameState::new(sample_circuit(), [0; 32], Player::Host);
    let honest = state.field_declaration(5, 7);
    assert_eq!(honest.field_state, FieldState::Occupied);
    assert!(honest.is_satisfied().unwrap());
    let mut lie = honest;
    lie.field_state = FieldState::Empty;
    assert!(!lie.is_satisfied().unwrap());
    let honest = state.field_declaration(6, 5);
    assert_eq!(honest.field_state, FieldState::Empty);
    assert!(honest.is_satisfied().unwrap());
}

#[test]
fn field_circuit_rejects_a_cell_off_the_grid() {
    let state = GameState::new(sample_circuit(), [0; 32], Player::Host);
    assert!(!state.field_declaration(0, 5).is_satisfied().unwrap());
    assert!(!state.field_declaration(5, 11).is_satisfied().unwrap());
}

#[test]
fn setup_instances_are_filled_in() {
    let board = BoardDeclarationCircuit::setup_instance();
    let sizes: Vec<u8> = board.board.ships.iter().map(|s| s.size).collect();
    assert_eq!(sizes, vec![1, 1, 1, 1, 1, 2, 2, 2, 2, 3, 3, 3, 4, 4, 5]);
    assert!(board.board.ships.iter().all(|s| s.x == 1 && s.y == 1));
    assert_eq!(board.salt, [0; 32]);
    assert_eq!(board.hash, [0; 32]);
    let field = FieldDeclarationCircuit::setup_instance();
    assert!(field.board.ships.iter().all(|s| s.size == 1));
    assert_eq!((field.field_x, field.field_y, field.field_state), (1, 1, FieldState::Empty));
}

#[test]
fn public_input_is_lsb_first() {
    let mut hash = vec![0u8; 32];
    hash[0] = 0b0000_0101;
    hash[31] = 0x80;
    let input = PublicInput::from(hash);
    assert_eq!(input.0.len(), 256);
    assert_eq!(&input.0[0..8], &[1, 0, 1, 0, 0, 0, 0, 0]);
    assert_eq!(&input.0[248..256], &[0, 0, 0, 0, 0, 0, 0, 1]);
    assert_eq!(input.0.iter().map(|b| *b as u32).sum::<u32>(), 3);
}

#[test]
fn public_input_of_a_longer_vector_ends_in_zeros() {
    let input = PublicInput::from(vec![0xff; 33]);
    assert_eq!(input.0.len(), 264);
    assert!(input.0[0..256].iter().all(|b| *b == 1));
    assert!(input.0[256..264].iter().all(|b| *b == 0));
}

#[test]
fn public_input_appends_scalars() {
    let input = PublicInput::from(vec![0; 32]).add(5).add(7).add(1);
    assert_eq!(input.0.len(), 259);
    assert_eq!(&input.0[256..], &[5, 7, 1]);
}

#[test]
fn circuit_public_inputs_match_their_hash() {
    let circuit = sample_circuit();
    let input = circuit.public_input();
    assert_eq!(input.0, board_declaration_input(&circuit.hash).0);
    assert_eq!(input.0.len(), 256);
    for i in 0..32 {
        for j in 0..8 {
            assert_eq!(input.0[i * 8 + j], (circuit.hash[i] >> j) & 1);
        }
    }
    assert_ne!(input.0, vec![0u8; 256]);
    let state = GameState::new(circuit, [0; 32], Player::Host);
    let field = state.field_declaration(5, 6);
    let input = field.public_input();
    assert_eq!(input.0, field_declaration_input(&circuit.hash, 5, 6, FieldState::Occupied).0);
    assert_eq!(&input.0[256..], &[5, 6, 1]);
}

#[test]
fn player_other_swaps_roles() {
    assert_eq!(Player::Host.other(), Player::Client);
    assert_eq!(Player::Client.other(), Player::Host);
}

#[test]
fn all_discovered_counts_hits() {
    let mut shots = vec![(1u8, 1u8, FieldState::Occupied); 34];
    shots.push((2, 2, FieldState::Empty));
    assert!(!are_all_discovered(&shots));
    shots.push((1, 1, FieldState::Occupied));
    assert!(are_all_discovered(&shots));
    shots.push((1, 1, FieldState::Occupied));
    assert!(!are_all_discovered(&shots));
    assert!(!are_all_discovered(&vec![]));
    assert!(!are_all_discovered(&vec![(1, 1, FieldState::Occupied); 300]));
}

#[test]
fn game_state_turn_passes_on_a_miss_only() {
    let mut state = GameState::new(sample_circuit(), [9; 32], Player::Host);
    assert_eq!(state.turn_of, Player::Host);
    assert!(state.is_our_turn());
    assert_eq!(state.outcome(), None);
    state.record_our_shot(1, 1, FieldState::Occupied);
    assert!(state.is_our_turn());
    state.record_our_shot(2, 2, FieldState::Empty);
    assert!(!state.is_our_turn());
    state.record_their_shot(1, 1, FieldState::Occupied);
    assert!(!state.is_our_turn());
    state.record_their_shot(2, 1, FieldState::Empty);
    assert!(state.is_our_turn());
    assert_eq!(state.our_shots, vec![(1, 1, FieldState::Occupied), (2, 2, FieldState::Empty)]);
    assert_eq!(state.their_shots, vec![(1, 1, FieldState::Occupied), (2, 1, FieldState::Empty)]);
}

#[test]
fn game_state_outcome_checks_the_loss_first() {
    let mut state = GameState::new(sample_circuit(), [9; 32], Player::Client);
    state.our_shots = vec![(1, 1, FieldState::Occupied); 35];
    assert_eq!(state.outcome(), Some(Outcome::Won));
    state.their_shots = vec![(1, 1, FieldState::Occupied); 35];
    assert_eq!(state.outcome(), Some(Outcome::Lost));
    state.our_shots.clear();
    assert_eq!(state.outcome(), Some(Outcome::Lost));
}

fn occupied_cells() -> Vec<(u8, u8)> {
    let board = sample_board();
    (1..=10u8)
        .flat_map(|x| (1..=10u8).map(move |y| (x, y)))
        .filter(|(x, y)| board.get_field_state(*x, *y) == FieldState::Occupied)
        .collect()
}

fn play_round(shooter: &mut Game, answerer: &mut Game, x: u8, y: u8) -> FieldState {
    let (ax, ay) = match shooter.handle(GameEvent::Input(UiInput::Shoot(x, y))) {
        GameAction::Ask { x, y } => (x, y),
        _ => panic!("the shooter did not ask"),
    };
    let query = Message::Value(GameMessage::AskForField(ax, ay));
    let circuit = match answerer.handle(GameEvent::Received(query)) {
        GameAction::Prove(circuit) => circuit,
        _ => panic!("the answerer did not prove"),
    };
    assert_eq!((circuit.field_x, circuit.field_y), (x, y));
    let (proof, state) = match answerer.handle(GameEvent::Proved(vec![1, 2, 3])) {
        GameAction::Answer { proof, state } => (proof, state),
        _ => panic!("the answerer did not answer"),
    };
    assert_eq!(state, circuit.field_state);
    let answer = Message::Value(GameMessage::FieldProof(proof, state));
    match shooter.handle(GameEvent::Received(answer)) {
        GameAction::Verify { proof, input } => {
            assert_eq!(proof, vec![1, 2, 3]);
            assert_eq!(
                input.0,
                field_declaration_input(&answerer.state.board.hash, x, y, state).0
            );
        }
        _ => panic!("the shooter did not verify"),
    }
    assert!(matches!(shooter.handle(GameEvent::Verified(true)), GameAction::Wait));
    state
}

#[test]
fn two_players_agree_on_shots_and_verdict() {
    let host_circuit = BoardDeclarationCircuit::new(sample_board(), [1; 32]);
    let client_circuit = BoardDeclarationCircuit::new(sample_board(), [2; 32]);
    let mut host = Game::start(GameState::new(host_circuit, client_circuit.hash, Player::Host));
    let mut client = Game::start(GameState::new(client_circuit, host_circuit.hash, Player::Client));
    assert_eq!(host.phase, Phase::AwaitingShot);
    assert_eq!(client.phase, Phase::AwaitingQuery);

    assert_eq!(play_round(&mut host, &mut client, 2, 2), FieldState::Empty);
    assert_eq!(host.phase, Phase::AwaitingQuery);
    assert_eq!(client.phase, Phase::AwaitingShot);
    assert_eq!(play_round(&mut client, &mut host, 1, 1), FieldState::Occupied);
    assert_eq!(client.phase, Phase::AwaitingShot);
    assert_eq!(play_round(&mut client, &mut host, 2, 1), FieldState::Empty);
    assert_eq!(host.phase, Phase::AwaitingShot);

    for (x, y) in occupied_cells() {
        assert_eq!(host.phase, Phase::AwaitingShot);
        assert_eq!(play_round(&mut host, &mut client, x, y), FieldState::Occupied);
    }
    assert_eq!(host.phase, Phase::Over(Outcome::Won));
    assert_eq!(client.phase, Phase::Over(Outcome::Lost));
    assert_eq!(host.state.outcome(), Some(Outcome::Won));
    assert_eq!(client.state.outcome(), Some(Outcome::Lost));
    assert_eq!(host.state.our_shots, client.state.their_shots);
    assert_eq!(host.state.their_shots, client.state.our_shots);
    assert_eq!(host.state.our_shots.len(), 36);
    assert!(matches!(host.handle(GameEvent::Input(UiInput::Shoot(1, 1))), GameAction::Wait));
    assert_eq!(host.phase, Phase::Over(Outcome::Won));
}

#[test]
fn rejected_proof_aborts_the_game() {
    let circuit = sample_circuit();
    let mut game = Game::start(GameState::new(circuit, [3; 32], Player::Host));
    assert!(matches!(
        game.handle(GameEvent::Input(UiInput::Shoot(4, 4))),
        GameAction::Ask { x: 4, y: 4 }
    ));
    assert_eq!(game.phase, Phase::AwaitingFieldProof { x: 4, y: 4 });
    let answer = Message::Value(GameMessage::FieldProof(vec![9], FieldState::Occupied));
    match game.handle(GameEvent::Received(answer)) {
        GameAction::Verify { proof, input } => {
            assert_eq!(proof, vec![9]);
            assert_eq!(input.0, field_declaration_input(&[3; 32], 4, 4, FieldState::Occupied).0);
        }
        _ => panic!("no verification was asked for"),
    }
    match game.handle(GameEvent::Verified(false)) {
        GameAction::Abort(er) => assert_eq!(er.message, "Invalid proof of the field!"),
        _ => panic!("the game went on"),
    }
    assert_eq!(game.phase, Phase::Aborted);
    assert!(game.state.our_shots.is_empty());
    assert!(matches!(game.handle(GameEvent::Verified(true)), GameAction::Wait));
    assert_eq!(game.phase, Phase::Aborted);
    assert!(game.state.our_shots.is_empty());
}

#[test]
fn game_passes_over_what_it_does_not_wait_for() {
    let mut game = Game::start(GameState::new(sample_circuit(), [3; 32], Player::Client));
    assert_eq!(game.phase, Phase::AwaitingQuery);
    assert!(matches!(game.handle(GameEvent::Input(UiInput::Shoot(1, 1))), GameAction::Wait));
    assert!(matches!(game.handle(GameEvent::Verified(true)), GameAction::Wait));
    let info = Message::Info { sender: "x".to_owned(), info: "y".to_owned() };
    assert!(matches!(game.handle(GameEvent::Received(info)), GameAction::Wait));
    assert_eq!(game.phase, Phase::AwaitingQuery);
    let error = Message::Error { sender: "HOST".to_owned(), info: "gone".to_owned() };
    match game.handle(GameEvent::Received(error)) {
        GameAction::Abort(er) => assert_eq!(er.message, "gone"),
        _ => panic!("the game went on"),
    }
    assert_eq!(game.phase, Phase::Aborted);
}

#[test]
fn stage_goes_from_menu_to_game_and_back() {
    let mut stage = Stage::new();
    assert_eq!(stage, Stage::MainMenu);
    assert!(matches!(stage.route(UiInput::Shoot(1, 1)), Routing::Ignore));
    let host = UiInput::HostGame { addr: "a:1".to_owned(), passwd: "pw".to_owned() };
    match stage.route(host) {
        Routing::Host { addr, passwd } => assert_eq!((addr.as_str(), passwd.as_str()), ("a:1", "pw")),
        _ => panic!("no connection was started"),
    }
    assert_eq!(stage, Stage::Connecting(Player::Host));
    stage.advance(Progress::BoardsVerified);
    assert_eq!(stage, Stage::Connecting(Player::Host));
    stage.advance(Progress::Connected);
    assert_eq!(stage, Stage::Committing(Player::Host));
    let put = UiInput::PutShip(Ship { x: 1, y: 1, size: 1, direction: Direction::Vertical });
    assert!(matches!(stage.route(put), Routing::Forward(UiInput::PutShip(_))));
    let chat = UiInput::SendMessage("me".to_owned(), "hi".to_owned());
    match stage.route(chat) {
        Routing::Chat(Message::Info { sender, info }) => {
            assert_eq!((sender.as_str(), info.as_str()), ("me", "hi"))
        }
        _ => panic!("the remark was not sent"),
    }
    stage.advance(Progress::BoardsVerified);
    assert_eq!(stage, Stage::Playing);
    assert!(matches!(stage.route(UiInput::Esc), Routing::Ignore));
    assert_eq!(stage, Stage::Playing);
    assert!(matches!(stage.route(UiInput::Shoot(3, 4)), Routing::Forward(UiInput::Shoot(3, 4))));
    stage.advance(Progress::GameEnded);
    assert_eq!(stage, Stage::MainMenu);
    assert!(matches!(stage.route(UiInput::Esc), Routing::Quit));
    assert_eq!(stage, Stage::Closed);
    assert!(matches!(stage.route(UiInput::Exit), Routing::Ignore));
    assert_eq!(stage, Stage::Closed);
}

#[test]
fn stage_interrupts_connecting_and_committing() {
    let mut stage = Stage::new();
    let join = UiInput::JoinGame { addr: "a:1".to_owned(), passwd: "pw".to_owned() };
    assert!(matches!(stage.route(join), Routing::Join { .. }));
    assert_eq!(stage, Stage::Connecting(Player::Client));
    assert!(matches!(stage.route(UiInput::Shoot(1, 1)), Routing::Ignore));
    assert!(matches!(stage.route(UiInput::Esc), Routing::Interrupt));
    assert_eq!(stage, Stage::MainMenu);
    let join = UiInput::JoinGame { addr: "a:1".to_owned(), passwd: "pw".to_owned() };
    assert!(matches!(stage.route(join), Routing::Join { .. }));
    stage.advance(Progress::ConnectionFailed);
    assert_eq!(stage, Stage::MainMenu);
    let join = UiInput::JoinGame { addr: "a:1".to_owned(), passwd: "pw".to_owned() };
    assert!(matches!(stage.route(join), Routing::Join { .. }));
    stage.advance(Progress::Connected);
    assert!(matches!(stage.route(UiInput::Esc), Routing::Interrupt));
    assert_eq!(stage, Stage::MainMenu);
    let join = UiInput::JoinGame { addr: "a:1".to_owned(), passwd: "pw".to_owned() };
    assert!(matches!(stage.route(join), Routing::Join { .. }));
    assert!(matches!(stage.route(UiInput::Exit), Routing::Quit));
    assert_eq!(stage, Stage::Closed);
}

#[test]
fn header_is_big_endian() {
    assert_eq!(encode_header(0), [0, 0, 0, 0]);
    assert_eq!(encode_header(1), [0, 0, 0, 1]);
    assert_eq!(encode_header(0x0102_0304), [1, 2, 3, 4]);
    assert_eq!(encode_header(u32::MAX), [255, 255, 255, 255]);
    assert_eq!(encode_header(300), 300u32.to_be_bytes());
    assert_eq!(decode_header(&[1, 2, 3, 4]), 0x0102_0304);
    assert_eq!(decode_header(&[255, 255, 255, 255]), u32::MAX);
    for n in [0u32, 7, 255, 256, 65_535, 65_536, 16_777_216, 4_000_000_000] {
        assert_eq!(decode_header(&encode_header(n)), n);
        assert_eq!(decode_header(&n.to_be_bytes()), n);
    }
}

#[test]
fn frame_is_header_then_payload() {
    assert_eq!(encode_frame(&vec![]), Some(vec![0, 0, 0, 0]));
    assert_eq!(encode_frame(&vec![7, 8, 9]), Some(vec![0, 0, 0, 3, 7, 8, 9]));
    let payload = vec![5u8; 258];
    let frame = encode_frame(&payload).unwrap();
    assert_eq!(&frame[0..4], &[0, 0, 1, 2]);
    assert_eq!(&frame[4..], payload.as_slice());
}

#[test]
fn received_error_becomes_our_error() {
    let error: Message<GameMessage> =
        Message::Error { sender: "HOST".to_owned(), info: "Incorrect password".to_owned() };
    assert_eq!(accept_message(error).unwrap_err().message, "Incorrect password");
    let info: Message<GameMessage> = Message::Info { sender: "a".to_owned(), info: "b".to_owned() };
    assert!(matches!(accept_message(info), Ok(Message::Info { .. })));
    let value = Message::Value(GameMessage::AskForField(1, 2));
    assert!(matches!(accept_message(value), Ok(Message::Value(GameMessage::AskForField(1, 2)))));
}

#[test]
fn host_lets_in_the_password_only() {
    let greeting: Message<GameMessage> = client_greeting("secret");
    match &greeting {
        Message::Info { sender, info } => assert_eq!((sender.as_str(), info.as_str()), ("CLIENT", "secret")),
        _ => panic!("the greeting is no remark"),
    }
    let (reply, kept) = host_reply(&greeting, "secret");
    assert!(kept);
    match &reply {
        Message::Info { sender, info } => {
            assert_eq!((sender.as_str(), info.as_str()), ("HOST", "Password is correct"))
        }
        _ => panic!("the reply is no remark"),
    }
    assert!(client_verdict(&reply).is_ok());

    let (reply, kept) = host_reply(&greeting, "other");
    assert!(!kept);
    match &reply {
        Message::Error { sender, info } => {
            assert_eq!((sender.as_str(), info.as_str()), ("HOST", "Incorrect password"))
        }
        _ => panic!("the reply is no error"),
    }
    assert_eq!(client_verdict(&reply).unwrap_err().message, "Incorrect password");

    let value = Message::Value(GameMessage::AskForField(1, 1));
    assert!(!host_reply(&value, "secret").1);
    assert_eq!(client_verdict(&value).unwrap_err().message, "Invalid response");
    let error: Message<GameMessage> =
        Message::Error { sender: "CLIENT".to_owned(), info: "secret".to_owned() };
    assert!(!host_reply(&error, "secret").1);
    let empty: Message<GameMessage> = client_greeting("");
    assert!(host_reply(&empty, "").1);
    assert!(!host_reply(&empty, "x").1);
}

#[test]
fn placing_follows_the_rules() {
    let sample = sample_board();
    let mut board = IncompleteBoard::new();
    assert_eq!(place(&mut board, &UiInput::Esc), Placing::Ignored);
    assert_eq!(place(&mut board, &UiInput::Shoot(1, 1)), Placing::Ignored);
    let bad = Ship { x: 1, y: 1, size: 3, direction: Direction::Vertical };
    assert_eq!(place(&mut board, &UiInput::PutShip(bad)), Placing::Refused);
    assert!(board.0.is_empty());
    for (i, ship) in sample.ships.iter().enumerate() {
        assert!(!is_complete(&board));
        assert_eq!(place(&mut board, &UiInput::PutShip(*ship)), Placing::Added);
        assert_eq!(board.0.len(), i + 1);
        assert_eq!(place(&mut board, &UiInput::PutShip(*ship)), Placing::Refused);
        assert_eq!(board.0.len(), i + 1);
    }
    assert!(is_complete(&board));
    assert_eq!(placing_report(Placing::Added), Some("Ship successfully added"));
    assert_eq!(placing_report(Placing::Refused), Some("Cannot extend the board with this ship"));
    assert_eq!(placing_report(Placing::Ignored), None);
    let circuit = commit(board, [1; 32]);
    assert_eq!(circuit.hash, sample_hash([1; 32]));
    assert_eq!(circuit.salt, [1; 32]);
    assert!(circuit.board.is_valid());
}

#[test]
fn declarations_are_exchanged() {
    let circuit = sample_circuit();
    let message = declaration(vec![4, 5, 6], &circuit);
    let (proof, hash, input) = declared(message).unwrap();
    assert_eq!(proof, vec![4, 5, 6]);
    assert_eq!(hash, circuit.hash);
    assert_eq!(input.0, circuit.public_input().0);
    assert!(declared(Message::Value(GameMessage::AskForField(1, 1))).is_none());
    assert!(declared(Message::Info { sender: "a".to_owned(), info: "b".to_owned() }).is_none());
    assert_eq!(judge_declaration(hash, true).unwrap(), hash);
    assert_eq!(judge_declaration(hash, false).unwrap_err().message, "Invalid proof");
}

#[test]
fn key_files_lie_under_their_directory() {
    assert_eq!(verifying_key_file(BOARD_DECLARATION_KEYS), "keys/board_declaration/vk.bin");
    assert_eq!(proving_key_file(BOARD_DECLARATION_KEYS), "keys/board_declaration/pk.bin");
    assert_eq!(verifying_key_file(FIELD_DECLARATION_KEYS), "keys/field_declaration/vk.bin");
    assert_eq!(proving_key_file(FIELD_DECLARATION_KEYS), "keys/field_declaration/pk.bin");
    assert_eq!(proving_key_file(""), "/pk.bin");
}
