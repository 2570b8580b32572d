use battleships::model::{sample_board, Direction, FieldState, Ship};
use battleships::ui::cli::{fleet_fits, render_construction, render_game, Screen};
use battleships::utils::ship_helpers::{Point, Rectangle};

#[test]
fn new_screen_is_blank() {
    let screen = Screen::new(3, 2);
    assert_eq!(screen.0, vec![vec![' '; 3]; 2]);
    assert_eq!(screen.to_string(), "   \n   \n");
    assert_eq!(Screen::new(0, 2).to_string(), "\n\n");
    assert_eq!(Screen::new(4, 0).to_string(), "");
}

#[test]
fn draw_fills_the_rectangle_only() {
    let mut screen = Screen::new(4, 3);
    screen.draw(Rectangle(Point(1, 0), Point(3, 2)), 'o');
    assert_eq!(screen.0[0], vec![' ', 'o', 'o', ' ']);
    assert_eq!(screen.0[1], vec![' ', 'o', 'o', ' ']);
    assert_eq!(screen.0[2], vec![' ', ' ', ' ', ' ']);
    screen.draw(Rectangle(Point(2, 1), Point(2, 3)), 'x');
    screen.draw(Rectangle(Point(3, 2), Point(1, 3)), 'x');
    assert_eq!(screen.0, vec![vec![' ', 'o', 'o', ' '], vec![' ', 'o', 'o', ' '], vec![' '; 4]]);
    screen.put(3, 2, '!');
    assert_eq!(screen.to_string(), " oo \n oo \n   !\n");
}

#[test]
fn empty_board_has_a_frame_around_water() {
    let text = render_construction(&vec![]);
    let rows: Vec<&str> = text.lines().collect();
    assert_eq!(rows.len(), 15);
    assert!(rows.iter().all(|row| row.chars().count() == 15));
    assert_eq!(rows[0], "               ");
    assert_eq!(rows[3], "   ------------");
    assert_eq!(rows[4], "   |~~~~~~~~~~|");
    assert_eq!(rows[13], "   |~~~~~~~~~~|");
    assert_eq!(rows[14], "   ------------");
    assert!(text.ends_with('\n'));
}

#[test]
fn board_shows_its_ships() {
    let ships = vec![
        Ship { x: 1, y: 1, size: 1, direction: Direction::Vertical },
        Ship { x: 3, y: 10, size: 2, direction: Direction::Horizontal },
        Ship { x: 10, y: 6, size: 5, direction: Direction::Vertical },
    ];
    assert!(fleet_fits(&ships));
    let text = render_construction(&ships);
    let rows: Vec<&str> = text.lines().collect();
    assert_eq!(rows[4], "   |#~~~~~~~~~|");
    assert_eq!(rows[5], "   |~~~~~~~~~~|");
    assert_eq!(rows[9], "   |~~~~~~~~~#|");
    assert_eq!(rows[13], "   |~~##~~~~~#|");
    assert_eq!(text.matches('#').count(), 8);
    assert!(!fleet_fits(&vec![Ship { x: 10, y: 7, size: 5, direction: Direction::Vertical }]));
}

#[test]
fn game_shows_both_boards_and_the_shots() {
    let ships = sample_board().ships.to_vec();
    let our_shots = vec![(1, 1, FieldState::Occupied), (2, 1, FieldState::Empty), (0, 0, FieldState::Occupied),
        (11, 3, FieldState::Empty), (10, 10, FieldState::Empty)];
    let their_shots = vec![(1, 1, FieldState::Empty), (1, 1, FieldState::Occupied), (5, 6, FieldState::Occupied),
        (6, 5, FieldState::Empty), (200, 7, FieldState::Occupied)];
    let text = render_game(&ships, &our_shots, &their_shots);
    let rows: Vec<&str> = text.lines().collect();
    assert_eq!(rows.len(), 15);
    assert!(rows.iter().all(|row| row.chars().count() == 30));
    assert_eq!(rows[3], "   ------------   ------------");
    assert_eq!(rows[4], "   |*~#~#~#~#~|   |*X~~~~~~~~|");
    assert_eq!(rows[8], "   |#~#~#X~~~~|   |~~~~~~~~~~|");
    assert_eq!(rows[9], "   |~~~~*~~~~#|   |~~~~~~~~~~|");
    assert_eq!(rows[13], "   |~~##~###~#|   |~~~~~~~~~X|");
    assert_eq!(rows[14], "   ------------   ------------");
    assert_eq!(text.matches('#').count(), 33);
    assert_eq!(text.matches('*').count(), 3);
    assert_eq!(text.matches('X').count(), 3);
}
