use battleships::model::{Direction, Ship};
use battleships::ui::cli::{parse_command, parse_number, split_words};
use battleships::ui::UiInput;

#[test]
fn lines_are_cut_at_each_space() {
    assert_eq!(split_words(""), vec![""]);
    assert_eq!(split_words("clear"), vec!["clear"]);
    assert_eq!(split_words("put 1 2 down"), vec!["put", "1", "2", "down"]);
    assert_eq!(split_words("a  b"), vec!["a", "", "b"]);
    assert_eq!(split_words(" a "), vec!["", "a", ""]);
    assert_eq!(split_words("żółw łódź"), vec!["żółw", "łódź"]);
    for line in ["", " ", "msg me hello  there", "x y z ", "  "] {
        let expected: Vec<&str> = line.split(' ').collect();
        assert_eq!(split_words(line), expected);
        assert_eq!(split_words(line).join(" "), line);
    }
}

#[test]
fn numbers_fit_a_byte() {
    assert_eq!(parse_number("0"), Some(0));
    assert_eq!(parse_number("7"), Some(7));
    assert_eq!(parse_number("10"), Some(10));
    assert_eq!(parse_number("255"), Some(255));
    assert_eq!(parse_number("256"), None);
    assert_eq!(parse_number("0007"), Some(7));
    assert_eq!(parse_number("+7"), Some(7));
    assert_eq!(parse_number("+"), None);
    assert_eq!(parse_number(""), None);
    assert_eq!(parse_number("-1"), None);
    assert_eq!(parse_number("1a"), None);
    assert_eq!(parse_number("a1"), None);
    assert_eq!(parse_number("99999999999999999999"), None);
    assert_eq!(parse_number("1 "), None);
    for word in ["0", "12", "+200", "255", "256", "300", "", "+", "++1", "1+", "٣", "00000000000"] {
        assert_eq!(parse_number(word), word.parse::<u8>().ok());
    }
}

#[test]
fn commands_are_recognised() {
    assert!(matches!(parse_command("clear", None), Some(UiInput::ResetBoard)));
    assert!(matches!(parse_command("clear the board now", Some(3)), Some(UiInput::ResetBoard)));
    match parse_command("create 127.0.0.1:8080 secret", None) {
        Some(UiInput::HostGame { addr, passwd }) => {
            assert_eq!((addr.as_str(), passwd.as_str()), ("127.0.0.1:8080", "secret"))
        }
        _ => panic!("no game was hosted"),
    }
    match parse_command("join host:1 pw extra", None) {
        Some(UiInput::JoinGame { addr, passwd }) => {
            assert_eq!((addr.as_str(), passwd.as_str()), ("host:1", "pw"))
        }
        _ => panic!("no game was joined"),
    }
    match parse_command("msg me hello  there friend", None) {
        Some(UiInput::SendMessage(sender, info)) => {
            assert_eq!((sender.as_str(), info.as_str()), ("me", "hello  there friend"))
        }
        _ => panic!("no remark was sent"),
    }
    assert!(matches!(parse_command("shoot 3 10", None), Some(UiInput::Shoot(3, 10))));
    assert!(matches!(parse_command("shoot 3 10 again", None), Some(UiInput::Shoot(3, 10))));
}

#[test]
fn put_takes_the_size_of_its_place() {
    let expect = |line: &str, placed: usize, ship: Ship| match parse_command(line, Some(placed)) {
        Some(UiInput::PutShip(found)) => assert_eq!(found, ship),
        _ => panic!("no ship was put"),
    };
    expect("put 1 2 down", 0, Ship { x: 1, y: 2, size: 1, direction: Direction::Vertical });
    expect("put 1 2 right", 5, Ship { x: 1, y: 2, size: 2, direction: Direction::Horizontal });
    expect("put 9 9 sideways", 11, Ship { x: 9, y: 9, size: 3, direction: Direction::Horizontal });
    expect("put 10 6 down", 14, Ship { x: 10, y: 6, size: 5, direction: Direction::Vertical });
    assert!(parse_command("put 1 2 down", Some(15)).is_none());
    assert!(parse_command("put 1 2 down", None).is_none());
    assert!(parse_command("put 1 2", Some(0)).is_none());
    assert!(parse_command("put 1 2 down now", Some(0)).is_none());
    assert!(parse_command("put x 2 down", Some(0)).is_none());
    assert!(parse_command("put 1 256 down", Some(0)).is_none());
}

#[test]
fn other_lines_are_no_commands() {
    for line in ["", " ", "shoot", "shoot 1", "shoot a b", "shoot 1 300", "create a", "join", "msg me",
        "fire 1 2", "Clear", " clear", "put  1 2 down"]
    {
        assert!(parse_command(line, Some(0)).is_none(), "{}", line);
    }
}
