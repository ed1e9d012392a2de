//! Gaze directions, trigrams and the base-5 encoding of a trigram.

use vstd::prelude::*;
use vstd::string::*;

use crate::error::DecodeError;

verus! {

/// The gaze of one eye.
#[derive(Clone, Copy, PartialEq, Eq, Structural, Debug)]
pub enum Direction {
    Center,
    Left,
    Right,
    Up,
    Down,
}

/// The base-5 digit of a direction.
pub open spec fn digit_of(d: Direction) -> int {
    match d {
        Direction::Center => 0,
        Direction::Left => 1,
        Direction::Right => 2,
        Direction::Up => 3,
        Direction::Down => 4,
    }
}

/// The direction whose digit is `k` (for `0 <= k < 5`).
pub open spec fn direction_of_digit(k: int) -> Direction {
    if k == 0 {
        Direction::Center
    } else if k == 1 {
        Direction::Left
    } else if k == 2 {
        Direction::Right
    } else if k == 3 {
        Direction::Up
    } else {
        Direction::Down
    }
}

/// The one-letter symbol of a direction.
pub open spec fn symbol_of(d: Direction) -> char {
    match d {
        Direction::Center => 'c',
        Direction::Left => 'l',
        Direction::Right => 'r',
        Direction::Up => 'u',
        Direction::Down => 'd',
    }
}

/// The direction written by a symbol, if any.
pub open spec fn direction_of_symbol(c: char) -> Option<Direction> {
    if c == 'c' {
        Some(Direction::Center)
    } else if c == 'l' {
        Some(Direction::Left)
    } else if c == 'r' {
        Some(Direction::Right)
    } else if c == 'u' {
        Some(Direction::Up)
    } else if c == 'd' {
        Some(Direction::Down)
    } else {
        None
    }
}

impl Direction {
    /// The base-5 digit of this direction.
    pub fn digit(self) -> (r: u8)
        ensures
            r as int == digit_of(self),
    {
        match self {
            Direction::Center => 0,
            Direction::Left => 1,
            Direction::Right => 2,
            Direction::Up => 3,
            Direction::Down => 4,
        }
    }

    /// The direction of a base-5 digit.
    pub fn from_digit(k: u8) -> (r: Direction)
        requires
            k < 5,
        ensures
            r == direction_of_digit(k as int),
            digit_of(r) == k,
    {
        if k == 0 {
            Direction::Center
        } else if k == 1 {
            Direction::Left
        } else if k == 2 {
            Direction::Right
        } else if k == 3 {
            Direction::Up
        } else {
            Direction::Down
        }
    }

    /// The direction written by `c`, or `None` for any other character.
    pub fn from_symbol(c: char) -> (r: Option<Direction>)
        ensures
            r == direction_of_symbol(c),
    {
        if c == 'c' {
            Some(Direction::Center)
        } else if c == 'l' {
            Some(Direction::Left)
        } else if c == 'r' {
            Some(Direction::Right)
        } else if c == 'u' {
            Some(Direction::Up)
        } else if c == 'd' {
            Some(Direction::Down)
        } else {
            None
        }
    }
}

/// The three eyes of one icon, slot 0 to slot 2 from left to right.
#[derive(Clone, Copy, PartialEq, Eq, Structural, Debug)]
pub struct Trigram {
    pub first: Direction,
    pub second: Direction,
    pub third: Direction,
}

impl Trigram {
    /// The direction in slot `i` (for `0 <= i < 3`).
    pub open spec fn slot(self, i: int) -> Direction {
        if i == 0 {
            self.first
        } else if i == 1 {
            self.second
        } else {
            self.third
        }
    }

    /// The trigram whose three eyes gaze straight ahead.
    pub fn blank() -> (r: Trigram)
        ensures
            r == blank_trigram(),
    {
        Trigram { first: Direction::Center, second: Direction::Center, third: Direction::Center }
    }

    /// This trigram with slot `slot` set to `d`.
    pub fn with_slot(self, slot: usize, d: Direction) -> (r: Trigram)
        requires
            slot < 3,
        ensures
            r == self.set_slot(slot as int, d),
    {
        if slot == 0 {
            Trigram { first: d, ..self }
        } else if slot == 1 {
            Trigram { second: d, ..self }
        } else {
            Trigram { third: d, ..self }
        }
    }

    /// This trigram with slot `i` set to `d`.
    pub open spec fn set_slot(self, i: int, d: Direction) -> Trigram {
        if i == 0 {
            Trigram { first: d, ..self }
        } else if i == 1 {
            Trigram { second: d, ..self }
        } else {
            Trigram { third: d, ..self }
        }
    }

    /// The base-5 code of this trigram, slot 0 being the leading digit.
    pub fn code(self) -> (r: usize)
        ensures
            r as int == code_of(self),
            r < 125,
    {
        25 * (self.first.digit() as usize) + 5 * (self.second.digit() as usize) + (
        self.third.digit() as usize)
    }

    /// The trigram whose base-5 code is `code`.
    pub fn from_code(code: usize) -> (r: Trigram)
        requires
            code < 125,
        ensures
            r == trigram_of_code(code as int),
            code_of(r) == code,
    {
        let first = Direction::from_digit((code / 25) as u8);
        let second = Direction::from_digit(((code / 5) % 5) as u8);
        let third = Direction::from_digit((code % 5) as u8);
        Trigram { first, second, third }
    }

    /// The three-letter string of this trigram, such as `"clr"`.
    pub fn to_state(self) -> (r: String)
        ensures
            r@ == symbols_of(self),
    {
        let mut s = String::new();
        s.append(symbol_str(self.first));
        s.append(symbol_str(self.second));
        s.append(symbol_str(self.third));
        s
    }
}

/// The trigram with every eye centred.
pub open spec fn blank_trigram() -> Trigram {
    Trigram { first: Direction::Center, second: Direction::Center, third: Direction::Center }
}

/// The code of a trigram: its digits read as a base-5 numeral.
pub open spec fn code_of(t: Trigram) -> int {
    25 * digit_of(t.first) + 5 * digit_of(t.second) + digit_of(t.third)
}

/// The trigram of a code in `0..125`.
pub open spec fn trigram_of_code(code: int) -> Trigram {
    Trigram {
        first: direction_of_digit(code / 25),
        second: direction_of_digit((code / 5) % 5),
        third: direction_of_digit(code % 5),
    }
}

/// The three symbols that write a trigram.
pub open spec fn symbols_of(t: Trigram) -> Seq<char> {
    seq![symbol_of(t.first), symbol_of(t.second), symbol_of(t.third)]
}

/// Every character of `s` names a direction.
pub open spec fn symbols_known(s: Seq<char>) -> bool {
    forall|i: int| 0 <= i < s.len() ==> direction_of_symbol(#[trigger] s[i]) is Some
}

/// The code written by a trigram string, or why it writes none.
/// An unknown symbol anywhere in the string is reported before a wrong
/// length.
pub open spec fn state_code(s: Seq<char>) -> Result<int, DecodeError> {
    if !symbols_known(s) {
        Err(DecodeError::UnknownDirectionSymbol)
    } else if s.len() != 3 {
        Err(DecodeError::WrongTrigramLength)
    } else {
        Ok(
            25 * digit_of(direction_of_symbol(s[0])->0) + 5 * digit_of(
                direction_of_symbol(s[1])->0,
            ) + digit_of(direction_of_symbol(s[2])->0),
        )
    }
}

/// The three-letter string of the trigram with code `code`.
pub open spec fn code_symbols(code: int) -> Seq<char> {
    symbols_of(trigram_of_code(code))
}

/// The one-letter string of a direction.
fn symbol_str(d: Direction) -> (r: &'static str)
    ensures
        r@ == seq![symbol_of(d)],
{
    proof {
        reveal_strlit("c");
        reveal_strlit("l");
        reveal_strlit("r");
        reveal_strlit("u");
        reveal_strlit("d");
    }
    match d {
        Direction::Center => "c",
        Direction::Left => "l",
        Direction::Right => "r",
        Direction::Up => "u",
        Direction::Down => "d",
    }
}

/// Reads a trigram string such as `"clr"` as the base-5 numeral of its
/// directions' digits (`c`=0, `l`=1, `r`=2, `u`=3, `d`=4).
pub fn trigram_state_to_decimal(trigram_state: String) -> (r: Result<usize, DecodeError>)
    ensures
        r matches Ok(n) ==> state_code(trigram_state@) == Ok::<int, DecodeError>(n as int),
        r matches Err(e) ==> state_code(trigram_state@) == Err::<int, DecodeError>(e),
{
    let s = trigram_state.as_str();
    let n = s.unicode_len();
    let mut i: usize = 0;
    while i < n
        invariant
            s@ == trigram_state@,
            n == s@.len(),
            i <= n,
            forall|k: int| 0 <= k < i ==> direction_of_symbol(#[trigger] s@[k]) is Some,
        decreases n - i,
    {
        if Direction::from_symbol(s.get_char(i)).is_none() {
            assert(direction_of_symbol(trigram_state@[i as int]) is None);
            assert(!symbols_known(trigram_state@));
            return Err(DecodeError::UnknownDirectionSymbol);
        }
        i = i + 1;
    }
    if n != 3 {
        return Err(DecodeError::WrongTrigramLength);
    }
    let first = Direction::from_symbol(s.get_char(0));
    let second = Direction::from_symbol(s.get_char(1));
    let third = Direction::from_symbol(s.get_char(2));
    match (first, second, third) {
        (Some(a), Some(b), Some(c)) => Ok(Trigram { first: a, second: b, third: c }.code()),
        _ => Err(DecodeError::UnknownDirectionSymbol),
    }
}

/// Writes a code in `0..125` as its trigram string; the inverse of
/// [`trigram_state_to_decimal`].
pub fn decimal_to_trigram_state(code: usize) -> (r: String)
    requires
        code < 125,
    ensures
        r@ == code_symbols(code as int),
{
    Trigram::from_code(code).to_state()
}

/// Every trigram string reads as a code below 125, and writing that code
/// gives the string back.
pub proof fn state_round_trip(s: Seq<char>)
    requires
        s.len() == 3,
        forall|i: int| 0 <= i < 3 ==> direction_of_symbol(#[trigger] s[i]) is Some,
    ensures
        state_code(s) is Ok,
        0 <= state_code(s)->Ok_0 < 125,
        code_symbols(state_code(s)->Ok_0) == s,
{
    assert(direction_of_symbol(s[0]) is Some);
    assert(direction_of_symbol(s[1]) is Some);
    assert(direction_of_symbol(s[2]) is Some);
    let t = Trigram {
        first: direction_of_symbol(s[0])->0,
        second: direction_of_symbol(s[1])->0,
        third: direction_of_symbol(s[2])->0,
    };
    lemma_code_inverse(t);
    assert(code_symbols(state_code(s)->Ok_0) =~= s);
}

/// Every code below 125 is written by a trigram string that reads back as
/// the same code.
pub proof fn code_round_trip(code: int)
    requires
        0 <= code < 125,
    ensures
        code_symbols(code).len() == 3,
        state_code(code_symbols(code)) == Ok::<int, DecodeError>(code),
{
    let t = trigram_of_code(code);
    lemma_trigram_of_code(code);
    lemma_state_code_of_symbols(t);
}

/// The code of a trigram lies in `0..125` and names that trigram back.
pub proof fn lemma_code_inverse(t: Trigram)
    ensures
        0 <= code_of(t) < 125,
        trigram_of_code(code_of(t)) == t,
{
    let c = code_of(t);
    assert(c / 25 == digit_of(t.first));
    assert((c / 5) % 5 == digit_of(t.second));
    assert(c % 5 == digit_of(t.third));
}

/// A code in `0..125` names a trigram whose code it is.
pub proof fn lemma_trigram_of_code(code: int)
    requires
        0 <= code < 125,
    ensures
        code_of(trigram_of_code(code)) == code,
{
    assert(0 <= code / 25 < 5);
    assert(0 <= (code / 5) % 5 < 5);
    assert(25 * (code / 25) + 5 * ((code / 5) % 5) + code % 5 == code);
}

/// The string of a trigram reads back as the trigram's code.
pub proof fn lemma_state_code_of_symbols(t: Trigram)
    ensures
        state_code(symbols_of(t)) == Ok::<int, DecodeError>(code_of(t)),
{
    assert(direction_of_symbol(symbol_of(t.first)) == Some(t.first));
    assert(direction_of_symbol(symbol_of(t.second)) == Some(t.second));
    assert(direction_of_symbol(symbol_of(t.third)) == Some(t.third));
    assert(symbols_known(symbols_of(t)));
}

} // verus!
