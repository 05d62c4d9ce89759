use vstd::prelude::*;
use crate::text::{
    NumberError, dec_int, parse_int, split, trim, chars_of, split_chars, trim_chars,
    parse_int_chars, push_dec_int, push_char, views, lemma_parse_dec_int, lemma_trim_dec,
    lemma_split_join, lemma_split_single, lemma_dec_no_char,
};

verus! {

/// Why a text is not a position.
#[derive(Clone, Copy, Debug, PartialEq, Eq, Structural)]
pub enum PositionError {
    /// The text did not hold exactly two comma-separated fields.
    ParseLength,
    /// A field was not an `i32`.
    ParseI32(NumberError),
}

impl PositionError {
    /// The human-readable text of the error.
    pub fn message(&self) -> (r: String)
        ensures
            r@ == position_error_text(*self),
    {
        match self {
            PositionError::ParseLength => String::from_str(
                "The length of the raw split coma string wasn't two.",
            ),
            PositionError::ParseI32(_) => String::from_str(
                "Couldn't parse one of the numbers in the raw string.",
            ),
        }
    }
}

pub open spec fn position_error_text(e: PositionError) -> Seq<char> {
    match e {
        PositionError::ParseLength => "The length of the raw split coma string wasn't two."@,
        PositionError::ParseI32(_) => "Couldn't parse one of the numbers in the raw string."@,
    }
}

/// A cell of the canvas, by column `x` and row `y`, both from 0.
#[derive(Clone, Copy, Debug, PartialEq, Eq, Structural)]
pub struct Position {
    pub x: i32,
    pub y: i32,
}

/// The textual form `x,y`.
pub open spec fn position_text(p: Position) -> Seq<char> {
    dec_int(p.x as int) + seq![','] + dec_int(p.y as int)
}

/// Reads one coordinate, white space around it allowed.
pub open spec fn parse_coordinate(s: Seq<char>) -> Result<int, NumberError> {
    parse_int(trim(s), 10, i32::MIN as int, i32::MAX as int)
}

/// Reads the textual form `x,y`.
pub open spec fn parse_position(s: Seq<char>) -> Result<Position, PositionError> {
    let f = split(s, ',');
    if f.len() != 2 {
        Err(PositionError::ParseLength)
    } else {
        match parse_coordinate(f[0]) {
            Err(e) => Err(PositionError::ParseI32(e)),
            Ok(x) => match parse_coordinate(f[1]) {
                Err(e) => Err(PositionError::ParseI32(e)),
                Ok(y) => Ok(Position { x: x as i32, y: y as i32 }),
            },
        }
    }
}

fn parse_coordinate_chars(s: &Vec<char>) -> (r: Result<i32, NumberError>)
    ensures
        match parse_coordinate(s@) {
            Ok(v) => r == Ok::<i32, NumberError>(v as i32),
            Err(e) => r == Err::<i32, NumberError>(e),
        },
{
    let t = trim_chars(s);
    match parse_int_chars(&t, 10, i32::MIN as i64, i32::MAX as i64) {
        Ok(v) => Ok(v as i32),
        Err(e) => Err(e),
    }
}

impl Position {
    pub fn new(x: i32, y: i32) -> (r: Position)
        ensures
            r.x == x,
            r.y == y,
    {
        Position { x, y }
    }

    pub fn x(&self) -> (r: i32)
        ensures
            r == self.x,
    {
        self.x
    }

    pub fn y(&self) -> (r: i32)
        ensures
            r == self.y,
    {
        self.y
    }

    /// Reads the textual form `x,y`, each number an `i32` with white space
    /// allowed around it.
    pub fn parse(text: &str) -> (r: Result<Position, PositionError>)
        ensures
            r == parse_position(text@),
    {
        let chars = chars_of(text);
        Self::parse_chars(&chars)
    }

    pub(crate) fn parse_chars(chars: &Vec<char>) -> (r: Result<Position, PositionError>)
        ensures
            r == parse_position(chars@),
    {
        let fields = split_chars(chars, ',');
        assert(views(fields@)[0] == fields@[0]@);
        if fields.len() != 2 {
            return Err(PositionError::ParseLength);
        }
        assert(views(fields@)[1] == fields@[1]@);
        let x = match parse_coordinate_chars(&fields[0]) {
            Ok(v) => v,
            Err(e) => {
                return Err(PositionError::ParseI32(e));
            },
        };
        let y = match parse_coordinate_chars(&fields[1]) {
            Ok(v) => v,
            Err(e) => {
                return Err(PositionError::ParseI32(e));
            },
        };
        Ok(Position { x, y })
    }

    /// Appends the textual form `x,y` to `out`.
    pub(crate) fn push_text(&self, out: &mut String)
        ensures
            final(out)@ == old(out)@ + position_text(*self),
    {
        push_dec_int(out, self.x as i64);
        push_char(out, ',');
        push_dec_int(out, self.y as i64);
        assert(final(out)@ =~= old(out)@ + position_text(*self));
    }

    /// The textual form `x,y`.
    pub fn to_string(&self) -> (r: String)
        ensures
            r@ == position_text(*self),
    {
        let mut out = String::new();
        self.push_text(&mut out);
        assert(out@ =~= position_text(*self));
        out
    }
}

/// The textual form splits into the two numerals.
pub proof fn lemma_position_fields(p: Position)
    ensures
        split(position_text(p), ',') == seq![dec_int(p.x as int), dec_int(p.y as int)],
{
    lemma_dec_no_char(p.x as int, ',');
    lemma_dec_no_char(p.y as int, ',');
    lemma_split_join(dec_int(p.x as int), dec_int(p.y as int), ',');
    lemma_split_single(dec_int(p.x as int), ',');
    lemma_split_single(dec_int(p.y as int), ',');
    assert(seq![dec_int(p.x as int)] + seq![dec_int(p.y as int)] =~= seq![
        dec_int(p.x as int),
        dec_int(p.y as int),
    ]);
}

/// Every position reads back from its textual form.
pub proof fn lemma_position_round_trip(p: Position)
    ensures
        parse_position(position_text(p)) == Ok::<Position, PositionError>(p),
{
    lemma_position_fields(p);
    lemma_trim_dec(p.x as int);
    lemma_trim_dec(p.y as int);
    lemma_parse_dec_int(p.x as int, i32::MIN as int, i32::MAX as int);
    lemma_parse_dec_int(p.y as int, i32::MIN as int, i32::MAX as int);
}

} // verus!
