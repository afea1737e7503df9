use vstd::prelude::*;

use crate::errors::BotError;

verus! {

/// A square coordinate: file (`0`) and rank (`1`), each meaningful in 1..=8.
/// Values outside that range denote an off-board square.
#[derive(Copy, Clone, PartialEq, Eq, Structural, Debug)]
pub struct Position(pub i64, pub i64);

/// File letter of the coordinate notation, as 1..=8; 0 for any other character.
pub open spec fn file_index(c: char) -> int {
    if c == 'a' {
        1
    } else if c == 'b' {
        2
    } else if c == 'c' {
        3
    } else if c == 'd' {
        4
    } else if c == 'e' {
        5
    } else if c == 'f' {
        6
    } else if c == 'g' {
        7
    } else if c == 'h' {
        8
    } else {
        0
    }
}

/// Rank digit of the coordinate notation, as 1..=8; 0 for any other character.
pub open spec fn rank_index(c: char) -> int {
    if c == '1' {
        1
    } else if c == '2' {
        2
    } else if c == '3' {
        3
    } else if c == '4' {
        4
    } else if c == '5' {
        5
    } else if c == '6' {
        6
    } else if c == '7' {
        7
    } else if c == '8' {
        8
    } else {
        0
    }
}

/// What parsing a two-character square such as "e2" yields: the file letter
/// and rank digit must both be in range, anything else is a malformed event.
pub open spec fn spec_parse_position(s: Seq<char>) -> Result<Position, BotError> {
    if s.len() == 2 && file_index(s[0]) != 0 && rank_index(s[1]) != 0 {
        Ok(Position(file_index(s[0]) as i64, rank_index(s[1]) as i64))
    } else {
        Err(BotError::MalformedEvent)
    }
}

/// What parsing a four-character move such as "e2e4" yields.
pub open spec fn spec_parse_move(s: Seq<char>) -> Result<Move, BotError> {
    if s.len() == 4 && file_index(s[0]) != 0 && rank_index(s[1]) != 0 && file_index(s[2]) != 0
        && rank_index(s[3]) != 0 {
        Ok(
            Move {
                a: Position(file_index(s[0]) as i64, rank_index(s[1]) as i64),
                b: Position(file_index(s[2]) as i64, rank_index(s[3]) as i64),
            },
        )
    } else {
        Err(BotError::MalformedEvent)
    }
}

/// The file letter for an in-range file number.
pub open spec fn spec_file_char(x: int) -> char {
    if x == 1 {
        'a'
    } else if x == 2 {
        'b'
    } else if x == 3 {
        'c'
    } else if x == 4 {
        'd'
    } else if x == 5 {
        'e'
    } else if x == 6 {
        'f'
    } else if x == 7 {
        'g'
    } else {
        'h'
    }
}

/// The rank digit for an in-range rank number.
pub open spec fn spec_rank_char(y: int) -> char {
    if y == 1 {
        '1'
    } else if y == 2 {
        '2'
    } else if y == 3 {
        '3'
    } else if y == 4 {
        '4'
    } else if y == 5 {
        '5'
    } else if y == 6 {
        '6'
    } else if y == 7 {
        '7'
    } else {
        '8'
    }
}

/// The four characters of a move's coordinate notation, e.g. "e2e4".
pub open spec fn spec_move_chars(m: Move) -> Seq<char> {
    seq![
        spec_file_char(m.a.0 as int),
        spec_rank_char(m.a.1 as int),
        spec_file_char(m.b.0 as int),
        spec_rank_char(m.b.1 as int),
    ]
}

impl Position {
    pub open spec fn spec_valid(&self) -> bool {
        1 <= self.0 <= 8 && 1 <= self.1 <= 8
    }

    /// Whether the square lies on the board.
    #[verifier::when_used_as_spec(spec_valid)]
    pub fn valid(&self) -> (r: bool)
        ensures
            r == self.spec_valid(),
    {
        self.0 >= 1 && self.0 <= 8 && self.1 >= 1 && self.1 <= 8
    }

    /// Offset arithmetic; the result may denote an off-board square.
    pub fn add(&self, x: i64, y: i64) -> (r: Position)
        requires
            i64::MIN <= self.0 + x <= i64::MAX,
            i64::MIN <= self.1 + y <= i64::MAX,
        ensures
            r.0 == self.0 + x,
            r.1 == self.1 + y,
    {
        Position(self.0 + x, self.1 + y)
    }

    /// Parses a square from its two-character coordinate notation.
    pub fn from_str(s: &str) -> (r: Result<Position, BotError>)
        ensures
            r == spec_parse_position(s@),
    {
        if s.unicode_len() != 2 {
            return Err(BotError::MalformedEvent);
        }
        let f = file_of(s.get_char(0));
        let k = rank_of(s.get_char(1));
        if f == 0 || k == 0 {
            Err(BotError::MalformedEvent)
        } else {
            Ok(Position(f, k))
        }
    }
}

/// Executable counterpart of `file_index`.
pub fn file_of(c: char) -> (r: i64)
    ensures
        r == file_index(c),
{
    if c == 'a' {
        1
    } else if c == 'b' {
        2
    } else if c == 'c' {
        3
    } else if c == 'd' {
        4
    } else if c == 'e' {
        5
    } else if c == 'f' {
        6
    } else if c == 'g' {
        7
    } else if c == 'h' {
        8
    } else {
        0
    }
}

/// Executable counterpart of `rank_index`.
pub fn rank_of(c: char) -> (r: i64)
    ensures
        r == rank_index(c),
{
    if c == '1' {
        1
    } else if c == '2' {
        2
    } else if c == '3' {
        3
    } else if c == '4' {
        4
    } else if c == '5' {
        5
    } else if c == '6' {
        6
    } else if c == '7' {
        7
    } else if c == '8' {
        8
    } else {
        0
    }
}

/// The rank of a square in the file-major scan order the board walks:
/// files outermost, ranks innermost, both ascending.
pub open spec fn scan_idx(p: Position) -> int {
    (p.0 - 1) * 8 + (p.1 - 1)
}

/// The rank of a move in the enumeration order: source square first in
/// scan order, then destination square.
pub open spec fn move_key(m: Move) -> int {
    scan_idx(m.a) * 64 + scan_idx(m.b)
}

/// An ordered pair of squares: where a piece moves from and to.
#[derive(Copy, Clone, PartialEq, Eq, Structural, Debug)]
pub struct Move {
    pub a: Position,
    pub b: Position,
}

impl Move {
    pub fn new(a: Position, b: Position) -> (m: Move)
        ensures
            m.a == a,
            m.b == b,
    {
        Move { a, b }
    }

    pub open spec fn spec_valid(&self) -> bool {
        self.a.spec_valid() && self.b.spec_valid()
    }

    /// Whether both endpoints lie on the board.
    #[verifier::when_used_as_spec(spec_valid)]
    pub fn valid(&self) -> (r: bool)
        ensures
            r == self.spec_valid(),
    {
        self.a.valid() && self.b.valid()
    }

    /// Parses a move from its four-character coordinate notation.
    pub fn from_str(s: &str) -> (r: Result<Move, BotError>)
        ensures
            r == spec_parse_move(s@),
    {
        if s.unicode_len() != 4 {
            return Err(BotError::MalformedEvent);
        }
        let fa = file_of(s.get_char(0));
        let ka = rank_of(s.get_char(1));
        let fb = file_of(s.get_char(2));
        let kb = rank_of(s.get_char(3));
        if fa == 0 || ka == 0 || fb == 0 || kb == 0 {
            Err(BotError::MalformedEvent)
        } else {
            Ok(Move { a: Position(fa, ka), b: Position(fb, kb) })
        }
    }

    /// The move's coordinate notation, e.g. "e2e4".
    pub fn text(&self) -> (r: String)
        requires
            self.spec_valid(),
        ensures
            r@ == spec_move_chars(*self),
    {
        let mut s = String::new();
        s.append(file_str(self.a.0));
        s.append(rank_str(self.a.1));
        s.append(file_str(self.b.0));
        s.append(rank_str(self.b.1));
        proof {
            assert(s@ =~= spec_move_chars(*self));
        }
        s
    }
}

/// The file letter of an in-range file number, as a one-character string.
pub fn file_str(x: i64) -> (r: &'static str)
    requires
        1 <= x <= 8,
    ensures
        r@ =~= seq![spec_file_char(x as int)],
{
    proof {
        reveal_strlit("a");
        reveal_strlit("b");
        reveal_strlit("c");
        reveal_strlit("d");
        reveal_strlit("e");
        reveal_strlit("f");
        reveal_strlit("g");
        reveal_strlit("h");
    }
    if x == 1 {
        "a"
    } else if x == 2 {
        "b"
    } else if x == 3 {
        "c"
    } else if x == 4 {
        "d"
    } else if x == 5 {
        "e"
    } else if x == 6 {
        "f"
    } else if x == 7 {
        "g"
    } else {
        "h"
    }
}

/// The rank digit of an in-range rank number, as a one-character string.
pub fn rank_str(y: i64) -> (r: &'static str)
    requires
        1 <= y <= 8,
    ensures
        r@ =~= seq![spec_rank_char(y as int)],
{
    proof {
        reveal_strlit("1");
        reveal_strlit("2");
        reveal_strlit("3");
        reveal_strlit("4");
        reveal_strlit("5");
        reveal_strlit("6");
        reveal_strlit("7");
        reveal_strlit("8");
    }
    if y == 1 {
        "1"
    } else if y == 2 {
        "2"
    } else if y == 3 {
        "3"
    } else if y == 4 {
        "4"
    } else if y == 5 {
        "5"
    } else if y == 6 {
        "6"
    } else if y == 7 {
        "7"
    } else {
        "8"
    }
}

} // verus!
