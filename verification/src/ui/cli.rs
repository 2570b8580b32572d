//! The commands of the terminal front-end.
//!
//! A line is cut into words at each space. The first word names the
//! command:
//!
//! ```text
//! create address:port password    host a game
//! join address:port password      join a game
//! msg name text                   send the other player a remark
//! put x y (right/down)            place the next ship
//! clear                           take every ship off the board
//! shoot x y                       shoot at a cell
//! ```

use crate::model::{
    on_grid, required_size, ship_size, Direction, FieldState, Ship, GRID_SIDE, SHIP_COUNT,
};
use crate::utils::ship_helpers::{Point, Rectangle};
use crate::ui::UiInput;
use vstd::prelude::*;
use vstd::string::StringExecFns;

verus! {

/// The words of `line`: what stands between its spaces, before the first
/// and after the last one. Two spaces in a row have an empty word between
/// them, and a line without a space is one word.
pub open spec fn split(line: Seq<char>) -> Seq<Seq<char>>
    decreases line.len(),
{
    if line.len() == 0 {
        seq![Seq::<char>::empty()]
    } else {
        let before = split(line.drop_last());
        if line.last() == ' ' {
            before.push(Seq::<char>::empty())
        } else {
            before.update(before.len() - 1, before.last().push(line.last()))
        }
    }
}

/// A line has at least one word.
pub proof fn lemma_split_has_a_word(line: Seq<char>)
    ensures
        split(line).len() >= 1,
    decreases line.len(),
{
    if line.len() > 0 {
        lemma_split_has_a_word(line.drop_last());
    }
}

/// The words `words` with a space between each two.
pub open spec fn joined(words: Seq<Seq<char>>) -> Seq<char>
    decreases words.len(),
{
    if words.len() == 0 {
        Seq::<char>::empty()
    } else if words.len() == 1 {
        words[0]
    } else {
        joined(words.drop_last()) + seq![' '] + words.last()
    }
}

/// The words of a line, joined again, are the line.
pub proof fn lemma_joined_split_is_line(line: Seq<char>)
    ensures
        joined(split(line)) == line,
    decreases line.len(),
{
    if line.len() == 0 {
        assert(split(line)[0] =~= line);
    } else {
        let shorter = line.drop_last();
        lemma_joined_split_is_line(shorter);
        lemma_split_has_a_word(shorter);
        let before = split(shorter);
        if line.last() == ' ' {
            let now = before.push(Seq::<char>::empty());
            assert(now.drop_last() =~= before);
            assert(joined(now) =~= joined(before) + seq![' ']);
            assert(shorter + seq![' '] =~= line);
        } else {
            let now = before.update(before.len() - 1, before.last().push(line.last()));
            if before.len() == 1 {
                assert(now[0] =~= before[0].push(line.last()));
                assert(before[0].push(line.last()) =~= line);
            } else {
                assert(now.drop_last() =~= before.drop_last());
                assert(joined(now) =~= joined(before.drop_last()) + seq![' '] + before.last().push(
                    line.last(),
                ));
                assert(joined(now) =~= joined(before).push(line.last()));
                assert(shorter.push(line.last()) =~= line);
            }
        }
    }
}

/// The views of `words`.
pub open spec fn texts(words: Seq<String>) -> Seq<Seq<char>> {
    Seq::new(words.len(), |i: int| words[i]@)
}

/// Cuts `line` into its words.
pub fn split_words(line: &str) -> (words: Vec<String>)
    ensures
        texts(words@) == split(line@),
{
    let n = line.unicode_len();
    let mut words: Vec<String> = Vec::new();
    let mut start: usize = 0;
    let mut i: usize = 0;
    proof {
        assert(line@.take(0) =~= Seq::<char>::empty());
        assert(line@.subrange(0, 0) =~= Seq::<char>::empty());
        assert(texts(words@).push(Seq::<char>::empty()) =~= seq![Seq::<char>::empty()]);
    }
    while i < n
        invariant
            start <= i <= n,
            n == line@.len(),
            split(line@.take(i as int)) == texts(words@).push(
                line@.subrange(start as int, i as int),
            ),
        decreases n - i,
    {
        let c = line.get_char(i);
        proof {
            let taken = line@.take(i as int + 1);
            assert(taken.drop_last() =~= line@.take(i as int));
            assert(taken.last() == c);
        }
        if c == ' ' {
            let ghost earlier = texts(words@);
            words.push(String::from_str(line.substring_char(start, i)));
            proof {
                assert(texts(words@) =~= earlier.push(line@.subrange(start as int, i as int)));
                assert(line@.subrange(i as int + 1, i as int + 1) =~= Seq::<char>::empty());
            }
            start = i + 1;
        } else {
            proof {
                let word = line@.subrange(start as int, i as int);
                assert(word.push(c) =~= line@.subrange(start as int, i as int + 1));
                let before = texts(words@).push(word);
                assert(before.update(before.len() - 1, before.last().push(c)) =~= texts(
                    words@,
                ).push(word.push(c)));
            }
        }
        i += 1;
    }
    let ghost earlier = texts(words@);
    words.push(String::from_str(line.substring_char(start, n)));
    proof {
        assert(line@.take(n as int) =~= line@);
        assert(texts(words@) =~= earlier.push(line@.subrange(start as int, n as int)));
    }
    words
}

/// Whether `c` is one of the digits `0` to `9`.
pub open spec fn is_digit(c: char) -> bool {
    '0' as u32 <= c as u32 <= '9' as u32
}

/// The number that the digits `digits` write in base ten.
pub open spec fn decimal(digits: Seq<char>) -> int
    decreases digits.len(),
{
    if digits.len() == 0 {
        0
    } else {
        decimal(digits.drop_last()) * 10 + (digits.last() as u32 - '0' as u32)
    }
}

/// The digits of a word that writes a number: the word without a plus sign
/// at its front.
pub open spec fn digits_of(word: Seq<char>) -> Seq<char> {
    if word.len() > 0 && word[0] == '+' {
        word.skip(1)
    } else {
        word
    }
}

/// The number that `word` writes if it fits a byte: one or more digits, with
/// or without a plus sign before them, that write a number of at most 255.
pub open spec fn number_of(word: Seq<char>) -> Option<u8> {
    let digits = digits_of(word);
    if digits.len() > 0 && (forall|i: int| 0 <= i < digits.len() ==> is_digit(digits[i]))
        && decimal(digits) <= u8::MAX {
        Some(decimal(digits) as u8)
    } else {
        None
    }
}

/// Digits write at least the number that the digits before the last one
/// write.
pub proof fn lemma_decimal_grows(digits: Seq<char>, len: int)
    requires
        0 <= len <= digits.len(),
        forall|i: int| 0 <= i < digits.len() ==> is_digit(digits[i]),
    ensures
        0 <= decimal(digits.take(len)) <= decimal(digits),
    decreases digits.len() - len,
{
    if len == digits.len() {
        assert(digits.take(len) =~= digits);
        lemma_decimal_is_natural(digits);
    } else {
        lemma_decimal_grows(digits, len + 1);
        let longer = digits.take(len + 1);
        assert(longer.drop_last() =~= digits.take(len));
        lemma_decimal_is_natural(digits.take(len));
    }
}

/// Digits write a natural number.
pub proof fn lemma_decimal_is_natural(digits: Seq<char>)
    requires
        forall|i: int| 0 <= i < digits.len() ==> is_digit(digits[i]),
    ensures
        0 <= decimal(digits),
    decreases digits.len(),
{
    if digits.len() > 0 {
        lemma_decimal_is_natural(digits.drop_last());
    }
}

/// The number that `word` writes, if it writes one that fits a byte.
pub fn parse_number(word: &str) -> (number: Option<u8>)
    ensures
        number == number_of(word@),
{
    let n = word.unicode_len();
    let first: usize = if n > 0 && word.get_char(0) == '+' {
        1
    } else {
        0
    };
    let ghost digits = digits_of(word@);
    assert(digits =~= word@.skip(first as int));
    if first == n {
        return None;
    }
    let mut value: u32 = 0;
    let mut i: usize = first;
    while i < n
        invariant
            first <= i <= n,
            n == word@.len(),
            digits == word@.skip(first as int),
            digits == digits_of(word@),
            forall|k: int| 0 <= k < i - first ==> is_digit(digits[k]),
            value == decimal(digits.take(i - first)),
            value <= u8::MAX,
        decreases n - i,
    {
        let c = word.get_char(i);
        assert(digits[i - first] == c);
        if !(c as u32 >= '0' as u32 && c as u32 <= '9' as u32) {
            assert(!is_digit(digits[i - first]));
            return None;
        }
        proof {
            let longer = digits.take(i - first + 1);
            assert(longer.drop_last() =~= digits.take(i - first));
            assert(longer.last() == c);
        }
        value = value * 10 + (c as u32 - '0' as u32);
        assert(value == decimal(digits.take(i - first + 1)));
        if value > u8::MAX as u32 {
            proof {
                if forall|k: int| 0 <= k < digits.len() ==> is_digit(digits[k]) {
                    lemma_decimal_grows(digits, i - first + 1);
                    assert(decimal(digits) > u8::MAX);
                }
            }
            return None;
        }
        i += 1;
    }
    assert(digits.take(i - first) =~= digits);
    Some(value as u8)
}

/// What a line asks for.
pub enum Command {
    Reset,
    Host { addr: Seq<char>, passwd: Seq<char> },
    Join { addr: Seq<char>, passwd: Seq<char> },
    Chat { sender: Seq<char>, info: Seq<char> },
    Shoot { x: u8, y: u8 },
    Put(Ship),
}

/// The direction that a word names: `down` for vertical, anything else for
/// horizontal.
pub open spec fn direction_of(word: Seq<char>) -> Direction {
    if word == "down"@ {
        Direction::Vertical
    } else {
        Direction::Horizontal
    }
}

/// What the words of a line ask for, if they make a command. `placed` is
/// the number of ships placed so far while a board is put together, and
/// nothing at any other time; a ship can be put only while one is, and is
/// given the size that its place requires.
pub open spec fn command_of(words: Seq<Seq<char>>, placed: Option<usize>) -> Option<Command> {
    if words.len() == 0 {
        None
    } else if words[0] == "clear"@ {
        Some(Command::Reset)
    } else if words.len() < 3 {
        None
    } else if words[0] == "create"@ {
        Some(Command::Host { addr: words[1], passwd: words[2] })
    } else if words[0] == "join"@ {
        Some(Command::Join { addr: words[1], passwd: words[2] })
    } else if words[0] == "msg"@ {
        Some(Command::Chat { sender: words[1], info: joined(words.skip(2)) })
    } else if words[0] == "shoot"@ {
        match (number_of(words[1]), number_of(words[2])) {
            (Some(x), Some(y)) => Some(Command::Shoot { x, y }),
            _ => None,
        }
    } else if words[0] == "put"@ && words.len() == 4 {
        match (placed, number_of(words[1]), number_of(words[2])) {
            (Some(count), Some(x), Some(y)) => if count < SHIP_COUNT {
                Some(
                    Command::Put(
                        Ship {
                            x,
                            y,
                            size: required_size(count as int) as u8,
                            direction: direction_of(words[3]),
                        },
                    ),
                )
            } else {
                None
            },
            _ => None,
        }
    } else {
        None
    }
}

impl UiInput {
    /// The command that the input stands for, if a line can ask for it.
    pub open spec fn command(self) -> Option<Command> {
        match self {
            UiInput::ResetBoard => Some(Command::Reset),
            UiInput::HostGame { addr, passwd } => Some(
                Command::Host { addr: addr@, passwd: passwd@ },
            ),
            UiInput::JoinGame { addr, passwd } => Some(
                Command::Join { addr: addr@, passwd: passwd@ },
            ),
            UiInput::SendMessage(sender, info) => Some(
                Command::Chat { sender: sender@, info: info@ },
            ),
            UiInput::Shoot(x, y) => Some(Command::Shoot { x, y }),
            UiInput::PutShip(ship) => Some(Command::Put(ship)),
            _ => None,
        }
    }
}

/// Whether `word` reads `keyword`.
fn reads(word: &String, keyword: &str) -> (same: bool)
    ensures
        same == (word@ == keyword@),
{
    *word == String::from_str(keyword)
}

/// The words from `from` on, with a space between each two.
fn join_from(words: &Vec<String>, from: usize) -> (text: String)
    requires
        from <= words.len(),
    ensures
        text@ == joined(texts(words@).skip(from as int)),
{
    let ghost rest = texts(words@).skip(from as int);
    let mut text = String::new();
    let mut i: usize = from;
    while i < words.len()
        invariant
            from <= i <= words.len(),
            rest == texts(words@).skip(from as int),
            text@ == joined(rest.take(i - from)),
        decreases words.len() - i,
    {
        proof {
            reveal_strlit(" ");
            let longer = rest.take(i - from + 1);
            assert(longer.drop_last() =~= rest.take(i - from));
            assert(longer.last() == words@[i as int]@);
            assert(" "@ =~= seq![' ']);
        }
        if i > from {
            text.append(" ");
        }
        text.append(words[i].as_str());
        proof {
            let longer = rest.take(i - from + 1);
            if i == from {
                assert(longer.len() == 1);
                assert(text@ =~= longer[0]);
            }
        }
        i += 1;
    }
    assert(rest.take(i - from) =~= rest);
    text
}

/// The input that `line` asks for, or nothing if the line is no command.
/// `placed` is the number of ships placed so far while a board is put
/// together, and nothing at any other time.
pub fn parse_command(line: &str, placed: Option<usize>) -> (input: Option<UiInput>)
    ensures
        match input {
            Some(found) => found.command() == command_of(split(line@), placed) && command_of(
                split(line@),
                placed,
            ) is Some,
            None => command_of(split(line@), placed) is None,
        },
{
    let words = split_words(line);
    proof {
        lemma_split_has_a_word(line@);
        assert(forall|i: int| 0 <= i < words.len() ==> texts(words@)[i] == words@[i]@);
    }
    if reads(&words[0], "clear") {
        return Some(UiInput::ResetBoard);
    }
    if words.len() < 3 {
        return None;
    }
    if reads(&words[0], "create") {
        return Some(UiInput::HostGame { addr: words[1].clone(), passwd: words[2].clone() });
    }
    if reads(&words[0], "join") {
        return Some(UiInput::JoinGame { addr: words[1].clone(), passwd: words[2].clone() });
    }
    if reads(&words[0], "msg") {
        return Some(UiInput::SendMessage(words[1].clone(), join_from(&words, 2)));
    }
    if reads(&words[0], "shoot") {
        return match (parse_number(words[1].as_str()), parse_number(words[2].as_str())) {
            (Some(x), Some(y)) => Some(UiInput::Shoot(x, y)),
            _ => None,
        };
    }
    if reads(&words[0], "put") && words.len() == 4 {
        return match (placed, parse_number(words[1].as_str()), parse_number(words[2].as_str())) {
            (Some(count), Some(x), Some(y)) => {
                if count < SHIP_COUNT {
                    let direction = if reads(&words[3], "down") {
                        Direction::Vertical
                    } else {
                        Direction::Horizontal
                    };
                    Some(UiInput::PutShip(Ship { x, y, size: ship_size(count), direction }))
                } else {
                    None
                }
            },
            _ => None,
        };
    }
    None
}

/// A picture made of characters: rows of equal width.
pub struct Screen(pub Vec<Vec<char>>);

impl View for Screen {
    type V = Seq<Seq<char>>;

    open spec fn view(&self) -> Seq<Seq<char>> {
        Seq::new(self.0.len() as nat, |y: int| self.0[y]@)
    }
}

/// The width of the rows `rows`: that of the first, and nothing if there is
/// none.
pub open spec fn width_of(rows: Seq<Seq<char>>) -> int {
    if rows.len() == 0 {
        0
    } else {
        rows[0].len() as int
    }
}

/// Whether the rows `rows` are equally wide.
pub open spec fn even(rows: Seq<Seq<char>>) -> bool {
    forall|y: int| 0 <= y < rows.len() ==> (#[trigger] rows[y]).len() == width_of(rows)
}

/// Whether the rectangle `r` lies within the rows `rows`.
pub open spec fn within(r: Rectangle, rows: Seq<Seq<char>>) -> bool {
    &&& 0 <= r.0.0
    &&& r.1.0 <= width_of(rows)
    &&& 0 <= r.0.1
    &&& r.1.1 <= rows.len()
}

/// Whether `after` has the rows and columns of `before`, both equally wide.
pub open spec fn same_size(before: Seq<Seq<char>>, after: Seq<Seq<char>>) -> bool {
    &&& after.len() == before.len()
    &&& width_of(after) == width_of(before)
    &&& even(before)
    &&& even(after)
}

/// Whether `after` is `before` with `c` in every cell of `r`.
pub open spec fn painted(before: Seq<Seq<char>>, after: Seq<Seq<char>>, r: Rectangle, c: char) -> bool {
    &&& same_size(before, after)
    &&& forall|x: int, y: int|
        0 <= y < after.len() && 0 <= x < width_of(after) ==> (#[trigger] after[y][x]) == if r.covers(
            x,
            y,
        ) {
            c
        } else {
            before[y][x]
        }
}

impl Screen {
    /// Whether every row is as wide as the first.
    pub open spec fn wf(self) -> bool {
        even(self@)
    }

    /// A picture of `y` rows of `x` blanks.
    pub fn new(x: usize, y: usize) -> (screen: Screen)
        ensures
            screen@.len() == y,
            screen.wf(),
            y > 0 ==> width_of(screen@) == x,
            forall|row: int, column: int|
                0 <= row < y && 0 <= column < x ==> (#[trigger] screen@[row][column]) == ' ',
    {
        let mut rows: Vec<Vec<char>> = Vec::new();
        let mut j: usize = 0;
        while j < y
            invariant
                j <= y,
                rows.len() == j,
                forall|row: int| 0 <= row < j ==> (#[trigger] rows[row]).len() == x,
                forall|row: int, column: int|
                    0 <= row < j && 0 <= column < x ==> (#[trigger] rows[row][column]) == ' ',
            decreases y - j,
        {
            let mut line: Vec<char> = Vec::new();
            let mut i: usize = 0;
            while i < x
                invariant
                    i <= x,
                    line.len() == i,
                    forall|column: int| 0 <= column < i ==> line[column] == ' ',
                decreases x - i,
            {
                line.push(' ');
                i += 1;
            }
            rows.push(line);
            j += 1;
        }
        Screen(rows)
    }

    /// Writes `c` into the cell in column `x` of row `y`.
    pub fn put(&mut self, x: usize, y: usize, c: char)
        requires
            y < old(self)@.len(),
            x < old(self)@[y as int].len(),
        ensures
            final(self)@ == old(self)@.update(y as int, old(self)@[y as int].update(x as int, c)),
    {
        self.0[y][x] = c;
        assert(self@ =~= old(self)@.update(y as int, old(self)@[y as int].update(x as int, c)));
    }

    /// Writes `c` into every cell of the rectangle `r`.
    pub fn draw(&mut self, r: Rectangle, c: char)
        requires
            old(self).wf(),
            within(r, old(self)@),
        ensures
            painted(old(self)@, final(self)@, r, c),
    {
        let (i1, i2) = r.as_interval_pair();
        if i1.0 >= i1.1 || i2.0 >= i2.1 {
            return ;
        }
        let ghost width = width_of(self@);
        let x0 = i1.0 as usize;
        let x1 = i1.1 as usize;
        let y0 = i2.0 as usize;
        let y1 = i2.1 as usize;
        let mut y: usize = y0;
        while y < y1
            invariant
                y0 <= y <= y1,
                x0 < x1 <= width,
                y1 <= self@.len(),
                x0 == r.0.0,
                x1 == r.1.0,
                y0 == r.0.1,
                y1 == r.1.1,
                same_size(old(self)@, self@),
                width == width_of(self@),
                forall|cx: int, cy: int|
                    0 <= cy < self@.len() && 0 <= cx < width ==> (#[trigger] self@[cy][cx]) == if x0
                        <= cx < x1 && y0 <= cy < y {
                        c
                    } else {
                        old(self)@[cy][cx]
                    },
            decreases y1 - y,
        {
            let mut x: usize = x0;
            while x < x1
                invariant
                    y0 <= y < y1,
                    x0 <= x <= x1,
                    x1 <= width,
                    y1 <= self@.len(),
                    same_size(old(self)@, self@),
                    width == width_of(self@),
                    forall|cx: int, cy: int|
                        0 <= cy < self@.len() && 0 <= cx < width ==> (#[trigger] self@[cy][cx])
                            == if (x0 <= cx < x1 && y0 <= cy < y) || (cy == y && x0 <= cx < x) {
                            c
                        } else {
                            old(self)@[cy][cx]
                        },
                decreases x1 - x,
            {
                assert(self@[y as int].len() == width);
                self.put(x, y, c);
                x += 1;
            }
            y += 1;
        }
    }

    /// Writes `#` into every cell of `ship`, on a board whose corner is at
    /// `offset`.
    pub fn draw_ship(&mut self, ship: Ship, offset: Point)
        requires
            old(self).wf(),
            ship.fits(),
            frame_fits(offset, old(self)@),
        ensures
            same_size(old(self)@, final(self)@),
            forall|x: int, y: int|
                0 <= y < final(self)@.len() && 0 <= x < width_of(final(self)@) ==> (
                #[trigger] final(self)@[y][x]) == if ship.occupies(x - offset.0, y - offset.1) {
                    '#'
                } else {
                    old(self)@[y][x]
                },
    {
        let r = ship.to_rectangle();
        let moved = r.grown(Rectangle(offset, offset));
        assert forall|x: int, y: int| moved.covers(x, y) == ship.occupies(
            x - offset.0,
            y - offset.1,
        ) by {
            assert(moved.covers(x, y) == r.covers(x - offset.0, y - offset.1));
        }
        self.draw(moved, '#');
    }

    /// Draws a board whose corner is at `offset`: a frame of twelve by
    /// twelve characters, water inside it, and the ships on the water.
    pub fn draw_board(&mut self, ships: &Vec<Ship>, offset: Point)
        requires
            old(self).wf(),
            forall|k: int| 0 <= k < ships.len() ==> (#[trigger] ships[k]).fits(),
            frame_fits(offset, old(self)@),
        ensures
            same_size(old(self)@, final(self)@),
            forall|x: int, y: int|
                0 <= y < final(self)@.len() && 0 <= x < width_of(final(self)@) ==> (
                #[trigger] final(self)@[y][x]) == if in_frame(x - offset.0, y - offset.1) {
                    board_glyph(ships@, x - offset.0, y - offset.1)
                } else {
                    old(self)@[y][x]
                },
    {
        self.draw(Rectangle(offset, offset.offset(12, 1)), '-');
        self.draw(Rectangle(offset.offset(0, 11), offset.offset(12, 12)), '-');
        self.draw(Rectangle(offset.offset(0, 1), offset.offset(1, 11)), '|');
        self.draw(Rectangle(offset.offset(11, 1), offset.offset(12, 11)), '|');
        self.draw(Rectangle(offset.offset(1, 1), offset.offset(11, 11)), '~');
        let ghost framed = self@;
        assert forall|x: int, y: int|
            0 <= y < framed.len() && 0 <= x < width_of(framed) implies (#[trigger] framed[y][x])
            == if in_frame(x - offset.0, y - offset.1) {
            board_glyph(Seq::<Ship>::empty(), x - offset.0, y - offset.1)
        } else {
            old(self)@[y][x]
        } by {}
        let mut k: usize = 0;
        while k < ships.len()
            invariant
                k <= ships.len(),
                forall|j: int| 0 <= j < ships.len() ==> (#[trigger] ships[j]).fits(),
                frame_fits(offset, self@),
                same_size(old(self)@, self@),
                forall|x: int, y: int|
                    0 <= y < self@.len() && 0 <= x < width_of(self@) ==> (#[trigger] self@[y][x])
                        == if in_frame(x - offset.0, y - offset.1) {
                        board_glyph(ships@.take(k as int), x - offset.0, y - offset.1)
                    } else {
                        old(self)@[y][x]
                    },
            decreases ships.len() - k,
        {
            let ship = ships[k];
            self.draw_ship(ship, offset);
            proof {
                let shorter = ships@.take(k as int);
                let longer = ships@.take(k as int + 1);
                assert forall|dx: int, dy: int| in_frame(dx, dy) implies board_glyph(longer, dx, dy)
                    == if ship.occupies(dx, dy) {
                    '#'
                } else {
                    board_glyph(shorter, dx, dy)
                } by {
                    ship.lemma_occupies_is_box(dx, dy);
                    if covered(shorter, dx, dy) {
                        let j = choose|j: int|
                            0 <= j < shorter.len() && (#[trigger] shorter[j]).occupies(dx, dy);
                        assert(longer[j].occupies(dx, dy));
                    }
                    if ship.occupies(dx, dy) {
                        assert(longer[k as int].occupies(dx, dy));
                    }
                    if covered(longer, dx, dy) {
                        let j = choose|j: int|
                            0 <= j < longer.len() && (#[trigger] longer[j]).occupies(dx, dy);
                        if j < k {
                            assert(shorter[j].occupies(dx, dy));
                        }
                    }
                }
            }
            k += 1;
        }
        assert(ships@.take(k as int) =~= ships@);
    }

    /// Marks the shots `shots` that lie on the grid, in their order, on a
    /// board whose corner is at `offset`: a miss with `X`, a hit with `*`.
    pub fn draw_shots(&mut self, shots: &Vec<(u8, u8, FieldState)>, offset: Point)
        requires
            old(self).wf(),
            frame_fits(offset, old(self)@),
        ensures
            same_size(old(self)@, final(self)@),
            forall|x: int, y: int|
                0 <= y < final(self)@.len() && 0 <= x < width_of(final(self)@) ==> (
                #[trigger] final(self)@[y][x]) == if on_grid(x - offset.0, y - offset.1) {
                    shot_glyph(shots@, x - offset.0, y - offset.1, old(self)@[y][x])
                } else {
                    old(self)@[y][x]
                },
    {
        let mut k: usize = 0;
        while k < shots.len()
            invariant
                k <= shots.len(),
                frame_fits(offset, self@),
                same_size(old(self)@, self@),
                forall|x: int, y: int|
                    0 <= y < self@.len() && 0 <= x < width_of(self@) ==> (#[trigger] self@[y][x])
                        == if on_grid(x - offset.0, y - offset.1) {
                        shot_glyph(shots@.take(k as int), x - offset.0, y - offset.1, old(self)@[y][x])
                    } else {
                        old(self)@[y][x]
                    },
            decreases shots.len() - k,
        {
            let (x, y, state) = shots[k];
            proof {
                let longer = shots@.take(k as int + 1);
                assert(longer.drop_last() =~= shots@.take(k as int));
                assert(longer.last() == shots@[k as int]);
            }
            if 1 <= x && x <= GRID_SIDE && 1 <= y && y <= GRID_SIDE {
                let mark = match state {
                    FieldState::Empty => 'X',
                    FieldState::Occupied => '*',
                };
                self.draw(Rectangle::cell(offset.offset(x as i8, y as i8)), mark);
            }
            k += 1;
        }
        assert(shots@.take(k as int) =~= shots@);
    }

    /// The picture as text: each row followed by a line break.
    pub fn to_string(self) -> (text: String)
        ensures
            text@ == text_of(self@),
    {
        let mut text = String::new();
        let mut y: usize = 0;
        proof {
            reveal_strlit("\n");
            assert(self@.take(0) =~= Seq::<Seq<char>>::empty());
        }
        while y < self.0.len()
            invariant
                y <= self.0.len(),
                text@ == text_of(self@.take(y as int)),
                "\n"@ == seq!['\n'],
            decreases self.0.len() - y,
        {
            proof {
                let longer = self@.take(y as int + 1);
                assert(longer.drop_last() =~= self@.take(y as int));
                assert(longer.last() == self.0[y as int]@);
            }
            let row = collect_chars(&self.0[y]);
            text.append(row.as_str());
            text.append("\n");
            y += 1;
        }
        assert(self@.take(y as int) =~= self@);
        text
    }
}

/// Whether the frame of a board whose corner is at `offset` lies within the
/// rows `rows`.
pub open spec fn frame_fits(offset: Point, rows: Seq<Seq<char>>) -> bool {
    &&& 0 <= offset.0
    &&& 0 <= offset.1
    &&& offset.0 + FRAME_SIDE <= width_of(rows)
    &&& offset.1 + FRAME_SIDE <= rows.len()
    &&& offset.0 + FRAME_SIDE <= i8::MAX
    &&& offset.1 + FRAME_SIDE <= i8::MAX
}

/// The number of characters along a side of a board's frame: the ten cells
/// and a border on either side.
pub const FRAME_SIDE: i8 = 12;

/// Whether the cell `(dx, dy)`, counted from the corner of a board's frame,
/// lies within the frame.
pub open spec fn in_frame(dx: int, dy: int) -> bool {
    0 <= dx < FRAME_SIDE && 0 <= dy < FRAME_SIDE
}

/// Whether some ship of `ships` covers the cell `(x, y)`.
pub open spec fn covered(ships: Seq<Ship>, x: int, y: int) -> bool {
    exists|k: int| 0 <= k < ships.len() && (#[trigger] ships[k]).occupies(x, y)
}

/// What a board with the ships `ships` shows in the cell `(dx, dy)` of its
/// frame: the border along the edges, a ship where one lies, and water
/// elsewhere.
pub open spec fn board_glyph(ships: Seq<Ship>, dx: int, dy: int) -> char {
    if dy == 0 || dy == FRAME_SIDE - 1 {
        '-'
    } else if dx == 0 || dx == FRAME_SIDE - 1 {
        '|'
    } else if covered(ships, dx, dy) {
        '#'
    } else {
        '~'
    }
}

/// What the cell `(x, y)` of the grid shows after the shots `shots` were
/// marked over `under`: the mark of the last shot at the cell, `X` for a
/// miss and `*` for a hit, or `under` if none was fired at it.
pub open spec fn shot_glyph(shots: Seq<(u8, u8, FieldState)>, x: int, y: int, under: char) -> char
    decreases shots.len(),
{
    if shots.len() == 0 {
        under
    } else if shots.last().0 == x && shots.last().1 == y {
        if shots.last().2 == FieldState::Empty {
            'X'
        } else {
            '*'
        }
    } else {
        shot_glyph(shots.drop_last(), x, y, under)
    }
}

/// The rows `rows` as text: each row followed by a line break.
pub open spec fn text_of(rows: Seq<Seq<char>>) -> Seq<char>
    decreases rows.len(),
{
    if rows.len() == 0 {
        Seq::<char>::empty()
    } else {
        text_of(rows.drop_last()) + rows.last() + seq!['\n']
    }
}

/// The characters `chars` as a string.
///
/// Calls `String::from_iter` of std. Trusted: the string has those
/// characters, in their order.
#[verifier::external_body]
fn collect_chars(chars: &Vec<char>) -> (text: String)
    ensures
        text@ == chars@,
{
    String::from_iter(chars.iter())
}

/// What the terminal shows in the main menu.
pub const MAIN_SCREEN: &'static str = "

Witamy w grze w statki!

Command list:
    Establishing connection:
        create address:port password => create game
        join address:port password => join game
        msg name info => send msg to the second player
    Creating board
        put x y (right/down) => put a ship on your board (coordinates in range from 1 to 10)
        clear => clear the board
    Main game:
        shoot x y => shoot at the position (x, y)
    Navigating:
        Ctrl-C => Interrupt
        Ctrl-D => Exit

";

/// What the terminal shows in the lobby.
pub const LOBBY_SCREEN: &'static str = "\n\nLobby\n";

/// Whether every ship of `ships` has a cell and lies on the grid.
pub fn fleet_fits(ships: &Vec<Ship>) -> (fitting: bool)
    ensures
        fitting == forall|k: int| 0 <= k < ships.len() ==> (#[trigger] ships[k]).fits(),
{
    let mut k: usize = 0;
    while k < ships.len()
        invariant
            k <= ships.len(),
            forall|j: int| 0 <= j < k ==> (#[trigger] ships[j]).fits(),
        decreases ships.len() - k,
    {
        if !ships[k].is_on_grid() {
            return false;
        }
        k += 1;
    }
    true
}

/// The picture of a board that is being put together: fifteen rows of
/// fifteen characters, with the board's frame three cells from the corner.
pub open spec fn construction_picture(ships: Seq<Ship>) -> Seq<Seq<char>> {
    Seq::new(
        15,
        |y: int|
            Seq::new(
                15,
                |x: int|
                    if in_frame(x - 3, y - 3) {
                        board_glyph(ships, x - 3, y - 3)
                    } else {
                        ' '
                    },
            ),
    )
}

/// What a board shows in a cell of its frame once the shots at it were
/// marked.
pub open spec fn marked_glyph(
    ships: Seq<Ship>,
    shots: Seq<(u8, u8, FieldState)>,
    dx: int,
    dy: int,
) -> char {
    if on_grid(dx, dy) {
        shot_glyph(shots, dx, dy, board_glyph(ships, dx, dy))
    } else {
        board_glyph(ships, dx, dy)
    }
}

/// The picture of a game: fifteen rows of thirty characters; on the left
/// our board with the other player's shots, on the right their board, of
/// which only our shots are known.
pub open spec fn game_picture(
    ships: Seq<Ship>,
    our_shots: Seq<(u8, u8, FieldState)>,
    their_shots: Seq<(u8, u8, FieldState)>,
) -> Seq<Seq<char>> {
    Seq::new(
        15,
        |y: int|
            Seq::new(
                30,
                |x: int|
                    if in_frame(x - 3, y - 3) {
                        marked_glyph(ships, their_shots, x - 3, y - 3)
                    } else if in_frame(x - 18, y - 3) {
                        marked_glyph(Seq::<Ship>::empty(), our_shots, x - 18, y - 3)
                    } else {
                        ' '
                    },
            ),
    )
}

/// The text that shows a board with the ships `ships` while it is put
/// together.
pub fn render_construction(ships: &Vec<Ship>) -> (text: String)
    requires
        forall|k: int| 0 <= k < ships.len() ==> (#[trigger] ships[k]).fits(),
    ensures
        text@ == text_of(construction_picture(ships@)),
{
    let mut screen = Screen::new(15, 15);
    screen.draw_board(ships, Point(3, 3));
    proof {
        let picture = construction_picture(ships@);
        assert forall|y: int| 0 <= y < 15 implies #[trigger] screen@[y] =~= picture[y] by {
            assert forall|x: int| 0 <= x < 15 implies screen@[y][x] == picture[y][x] by {}
        }
        assert(screen@ =~= picture);
    }
    screen.to_string()
}

/// The text that shows a game: our board with the ships `ships` and the
/// other player's shots, and beside it their board with our shots.
pub fn render_game(
    ships: &Vec<Ship>,
    our_shots: &Vec<(u8, u8, FieldState)>,
    their_shots: &Vec<(u8, u8, FieldState)>,
) -> (text: String)
    requires
        forall|k: int| 0 <= k < ships.len() ==> (#[trigger] ships[k]).fits(),
    ensures
        text@ == text_of(game_picture(ships@, our_shots@, their_shots@)),
{
    let mut screen = Screen::new(30, 15);
    screen.draw_board(ships, Point(3, 3));
    let none: Vec<Ship> = Vec::new();
    screen.draw_board(&none, Point(18, 3));
    screen.draw_shots(our_shots, Point(18, 3));
    screen.draw_shots(their_shots, Point(3, 3));
    proof {
        let picture = game_picture(ships@, our_shots@, their_shots@);
        assert(none@ =~= Seq::<Ship>::empty());
        assert forall|y: int| 0 <= y < 15 implies #[trigger] screen@[y] =~= picture[y] by {
            assert forall|x: int| 0 <= x < 30 implies screen@[y][x] == picture[y][x] by {}
        }
        assert(screen@ =~= picture);
    }
    screen.to_string()
}

} // verus!
