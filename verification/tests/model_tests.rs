use battleships::model::{
    sample_board, ship_size, Board, Direction, FieldState, IncompleteBoard, Ship,
};
use battleships::utils::ship_helpers::{overlaps, Interval, Point, Rectangle};

fn ship(x: u8, y: u8, size: u8, direction: Direction) -> Ship {
    Ship { x, y, size, direction }
}

#[test]
fn ship_sizes_follow_the_fleet() {
    let sizes: Vec<u8> = (0..15).map(ship_size).collect();
    assert_eq!(sizes, vec![1, 1, 1, 1, 1, 2, 2, 2, 2, 3, 3, 3, 4, 4, 5]);
    assert_eq!(sizes.iter().map(|s| *s as u32).sum::<u32>(), 35);
}

#[test]
fn direction_transposes_along_its_axis() {
    assert_eq!(Direction::Vertical.transpose(3, 4, 2), (3, 6));
    assert_eq!(Direction::Horizontal.transpose(3, 4, 2), (5, 4));
    assert_eq!(Direction::Vertical.to_u8(), 0);
    assert_eq!(Direction::Horizontal.to_u8(), 1);
    assert_eq!(FieldState::Empty.to_u8(), 0);
    assert_eq!(FieldState::Occupied.to_u8(), 1);
}

#[test]
fn interval_is_half_open() {
    let i = Interval(2, 5);
    assert!(!i.contains(1));
    assert!(i.contains(2));
    assert!(i.contains(4));
    assert!(!i.contains(5));
    assert!(i.intersects(Interval(4, 9)));
    assert!(!i.intersects(Interval(5, 9)));
    assert!(Interval(4, 9).intersects(i));
}

#[test]
fn rectangles_overlap_only_on_both_axes() {
    let a = Rectangle(Point(1, 1), Point(3, 3));
    assert!(overlaps(a, Rectangle(Point(2, 2), Point(4, 4))));
    assert!(!overlaps(a, Rectangle(Point(3, 1), Point(5, 3))));
    assert!(!overlaps(a, Rectangle(Point(1, 3), Point(3, 5))));
    let (xs, ys) = Rectangle(Point(1, 2), Point(3, 4)).as_interval_pair();
    assert_eq!((xs.0, xs.1, ys.0, ys.1), (1, 3, 2, 4));
    let cell = Rectangle::cell(Point(4, 7));
    assert_eq!((cell.0, cell.1), (Point(4, 7), Point(5, 8)));
    let grown = a.grown(Rectangle(Point(-1, -1), Point(1, 1)));
    assert_eq!((grown.0, grown.1), (Point(0, 0), Point(4, 4)));
}

#[test]
fn ship_rectangle_ends_one_past_the_last_cell() {
    let r = ship(3, 10, 2, Direction::Horizontal).to_rectangle();
    assert_eq!((r.0, r.1), (Point(3, 10), Point(5, 11)));
    let r = ship(10, 6, 5, Direction::Vertical).to_rectangle();
    assert_eq!((r.0, r.1), (Point(10, 6), Point(11, 11)));
}

#[test]
fn ship_covers_its_own_cells_only() {
    let s = ship(5, 5, 3, Direction::Vertical);
    assert!(s.covers(5, 5));
    assert!(s.covers(5, 7));
    assert!(!s.covers(5, 8));
    assert!(!s.covers(6, 5));
    assert!(!s.covers(5, 4));
    assert!(!ship(250, 250, 0, Direction::Horizontal).covers(250, 250));
    assert!(ship(250, 250, 20, Direction::Horizontal).covers(255, 250));
}

#[test]
fn ship_fits_up_to_the_tenth_cell() {
    assert!(ship(10, 6, 5, Direction::Vertical).is_on_grid());
    assert!(!ship(10, 7, 5, Direction::Vertical).is_on_grid());
    assert!(ship(6, 10, 5, Direction::Horizontal).is_on_grid());
    assert!(!ship(7, 10, 5, Direction::Horizontal).is_on_grid());
    assert!(!ship(0, 1, 1, Direction::Vertical).is_on_grid());
    assert!(!ship(1, 0, 1, Direction::Vertical).is_on_grid());
    assert!(!ship(1, 1, 0, Direction::Vertical).is_on_grid());
    assert!(!ship(255, 255, 255, Direction::Vertical).is_on_grid());
}

#[test]
fn ships_touch_at_corners_too() {
    let a = ship(5, 5, 3, Direction::Vertical);
    assert!(!a.is_clear_of(&ship(6, 8, 1, Direction::Vertical)));
    assert!(!a.is_clear_of(&ship(4, 4, 1, Direction::Vertical)));
    assert!(!a.is_clear_of(&ship(6, 6, 2, Direction::Horizontal)));
    assert!(a.is_clear_of(&ship(7, 5, 3, Direction::Vertical)));
    assert!(a.is_clear_of(&ship(5, 9, 1, Direction::Vertical)));
    assert!(ship(7, 5, 3, Direction::Vertical).is_clear_of(&a));
}

#[test]
fn sample_board_is_valid() {
    let board = sample_board();
    assert!(board.is_valid());
    assert_eq!(board.ships[14].x, 10);
    assert_eq!(board.ships[14].y, 6);
    assert_eq!(board.ships[8].direction, Direction::Horizontal);
}

#[test]
fn moved_ship_makes_the_board_invalid() {
    let mut board = sample_board();
    board.ships[12].x = 6;
    assert!(!board.is_valid());
}

#[test]
fn wrong_size_makes_the_board_invalid() {
    let mut board = sample_board();
    board.ships[2].size = 2;
    assert!(!board.is_valid());
}

#[test]
fn coordinate_off_the_grid_makes_the_board_invalid() {
    let mut board = sample_board();
    board.ships[0].x = 0;
    assert!(!board.is_valid());
    let mut board = sample_board();
    board.ships[14].y = 7;
    assert!(!board.is_valid());
    let mut board = sample_board();
    board.ships[4].y = 11;
    assert!(!board.is_valid());
}

#[test]
fn field_state_follows_the_ships() {
    let board = sample_board();
    assert_eq!(board.get_field_state(6, 5), FieldState::Empty);
    assert_eq!(board.get_field_state(5, 6), FieldState::Occupied);
    assert_eq!(board.get_field_state(5, 7), FieldState::Occupied);
    assert_eq!(board.get_field_state(5, 8), FieldState::Empty);
    assert_eq!(board.get_field_state(8, 10), FieldState::Occupied);
    assert_eq!(board.get_field_state(9, 10), FieldState::Empty);
    assert_eq!(board.get_field_state(0, 0), FieldState::Empty);
    assert_eq!(board.get_field_state(255, 255), FieldState::Empty);
    let occupied = (1..=10u8)
        .flat_map(|x| (1..=10u8).map(move |y| (x, y)))
        .filter(|(x, y)| board.get_field_state(*x, *y) == FieldState::Occupied)
        .count();
    assert_eq!(occupied, 35);
}

#[test]
fn incomplete_board_takes_the_sample_ships_in_order() {
    let sample = sample_board();
    let mut board = IncompleteBoard::new();
    assert!(board.0.is_empty());
    for s in sample.ships.iter() {
        assert!(board.can_be_extended_with(*s));
        board.extend(*s);
    }
    assert_eq!(board.0.len(), 15);
    assert!(!board.can_be_extended_with(ship(1, 1, 5, Direction::Vertical)));
    let built: Board = board.build_board();
    assert!(built.is_valid());
    for i in 0..15 {
        assert_eq!(built.ships[i], sample.ships[i]);
    }
}

#[test]
fn incomplete_board_refuses_a_wrong_size() {
    let board = IncompleteBoard::new();
    assert!(board.can_be_extended_with(ship(1, 1, 1, Direction::Vertical)));
    assert!(!board.can_be_extended_with(ship(1, 1, 2, Direction::Vertical)));
    assert!(!board.can_be_extended_with(ship(1, 1, 0, Direction::Vertical)));
}

#[test]
fn incomplete_board_refuses_a_ship_off_the_grid() {
    let board = IncompleteBoard::new();
    assert!(!board.can_be_extended_with(ship(0, 1, 1, Direction::Vertical)));
    assert!(!board.can_be_extended_with(ship(1, 0, 1, Direction::Vertical)));
    assert!(!board.can_be_extended_with(ship(11, 1, 1, Direction::Vertical)));
    assert!(!board.can_be_extended_with(ship(1, 11, 1, Direction::Vertical)));
    assert!(!board.can_be_extended_with(ship(255, 255, 1, Direction::Horizontal)));
    assert!(board.can_be_extended_with(ship(10, 10, 1, Direction::Horizontal)));
    let mut five = IncompleteBoard::new();
    for y in [1u8, 3, 5, 7, 9] {
        five.extend(ship(1, y, 1, Direction::Vertical));
    }
    assert!(five.can_be_extended_with(ship(9, 10, 2, Direction::Horizontal)));
    assert!(!five.can_be_extended_with(ship(10, 10, 2, Direction::Horizontal)));
    assert!(five.can_be_extended_with(ship(10, 9, 2, Direction::Vertical)));
    assert!(!five.can_be_extended_with(ship(10, 10, 2, Direction::Vertical)));
}

#[test]
fn incomplete_board_refuses_a_touching_ship() {
    let mut board = IncompleteBoard::new();
    board.extend(ship(5, 5, 1, Direction::Vertical));
    assert!(!board.can_be_extended_with(ship(5, 5, 1, Direction::Vertical)));
    assert!(!board.can_be_extended_with(ship(6, 6, 1, Direction::Vertical)));
    assert!(!board.can_be_extended_with(ship(4, 6, 1, Direction::Vertical)));
    assert!(!board.can_be_extended_with(ship(5, 4, 1, Direction::Horizontal)));
    assert!(board.can_be_extended_with(ship(7, 5, 1, Direction::Vertical)));
    assert!(board.can_be_extended_with(ship(5, 7, 1, Direction::Vertical)));
    assert!(board.can_be_extended_with(ship(3, 3, 1, Direction::Vertical)));
}

#[test]
fn ship_rectangle_needs_no_grid() {
    let r = ship(100, 120, 5, Direction::Horizontal).to_rectangle();
    assert_eq!((r.0, r.1), (Point(100, 120), Point(105, 121)));
    let r = ship(0, 0, 1, Direction::Vertical).to_rectangle();
    assert_eq!((r.0, r.1), (Point(0, 0), Point(1, 1)));
    let r = ship(126, 1, 1, Direction::Vertical).to_rectangle();
    assert_eq!((r.0, r.1), (Point(126, 1), Point(127, 2)));
}

#[test]
fn incomplete_board_judges_the_next_ship_whatever_was_placed() {
    let mut board = IncompleteBoard::new();
    board.extend(ship(5, 5, 3, Direction::Vertical));
    board.extend(ship(6, 6, 2, Direction::Horizontal));
    assert!(board.can_be_extended_with(ship(1, 1, 1, Direction::Vertical)));
    assert!(!board.can_be_extended_with(ship(8, 7, 1, Direction::Vertical)));
    assert!(!board.can_be_extended_with(ship(4, 8, 1, Direction::Vertical)));
    assert!(board.can_be_extended_with(ship(9, 9, 1, Direction::Vertical)));
    assert!(!board.can_be_extended_with(ship(9, 9, 2, Direction::Vertical)));
}
