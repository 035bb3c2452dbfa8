//! The validated side length of the square board: an integer between 3
//! and 5, with parsing, default, and the list of allowed values.

use vstd::prelude::*;

use crate::errors::{NumberError, TicTacToeError};
use crate::text::{
    dec_string, dec_value, lemma_trimmed_idempotent, numeric, parse_number, trim_str, trimmed,
    u8_to_string,
};

verus! {

pub const MIN_VALUE: u8 = 3;

pub const MAX_VALUE: u8 = 5;

pub const DEFAULT_VALUE: u8 = 3;

/// A board side length that passed validation.
#[derive(Debug, PartialEq, Eq, Structural, Clone, Copy)]
pub struct BoardDimension(pub u8);

impl BoardDimension {
    /// The validity bound every constructed dimension satisfies.
    pub open spec fn wf(&self) -> bool {
        MIN_VALUE <= self.0 <= MAX_VALUE
    }

    pub fn get_value(&self) -> (r: u8)
        ensures
            r == self.0,
    {
        self.0
    }
}

/// The dimension a trimmed text stands for: the empty text yields the
/// default, a non-number is rejected, and a number outside 3 to 5 is
/// rejected naming the violated bound.
pub open spec fn dimension_of_text(t: Seq<char>) -> Result<u8, NumberError> {
    if t.len() == 0 {
        Ok(DEFAULT_VALUE)
    } else if !numeric(t) {
        Err(NumberError::NotANumber)
    } else if dec_value(t) < MIN_VALUE {
        Err(NumberError::BelowMinimum)
    } else if dec_value(t) > MAX_VALUE {
        Err(NumberError::AboveMaximum)
    } else {
        Ok(dec_value(t) as u8)
    }
}

/// The result of parsing a dimension text, surrounding whitespace
/// tolerated.
pub open spec fn dimension_result(s: Seq<char>) -> Result<u8, NumberError> {
    dimension_of_text(trimmed(s))
}

/// Re-parsing an already-trimmed dimension text yields the same result
/// as parsing the untrimmed original.
pub proof fn lemma_dimension_reparse_trimmed(s: Seq<char>)
    ensures
        dimension_result(trimmed(s)) == dimension_result(s),
{
    lemma_trimmed_idempotent(s);
}

/// The default board dimension.
pub fn get_default() -> (r: BoardDimension)
    ensures
        r.0 == DEFAULT_VALUE,
        r.wf(),
{
    BoardDimension(DEFAULT_VALUE)
}

/// The decimal strings of all allowed dimensions, in increasing order.
pub fn get_all_as_vec_str() -> (r: Vec<String>)
    ensures
        r@.len() == 3,
        forall|i: int| 0 <= i < 3 ==> (#[trigger] r@[i])@ == dec_string((MIN_VALUE + i) as nat),
{
    let mut v: Vec<String> = Vec::new();
    let mut i: u8 = MIN_VALUE;
    while i <= MAX_VALUE
        invariant
            MIN_VALUE <= i <= MAX_VALUE + 1,
            v@.len() == i - MIN_VALUE,
            forall|j: int|
                0 <= j < v@.len() ==> (#[trigger] v@[j])@ == dec_string((MIN_VALUE + j) as nat),
        decreases MAX_VALUE + 1 - i,
    {
        v.push(u8_to_string(i));
        i = i + 1;
    }
    v
}

/// Parses a board dimension. The input is trimmed; the empty text yields
/// the default dimension; a rejection names the offending raw input or the
/// violated bound.
pub fn parse(s: &str) -> (r: Result<BoardDimension, TicTacToeError>)
    ensures
        r is Ok <==> dimension_result(s@) is Ok,
        r matches Ok(d) ==> dimension_result(s@) == Ok::<u8, NumberError>(d.0) && d.wf(),
        r matches Err(e) ==> e matches TicTacToeError::InvalidBoardDimension { kind, text }
            && dimension_result(s@) == Err::<u8, NumberError>(kind) && text@ == s@,
{
    let t = trim_str(s);
    if t.unicode_len() == 0 {
        return Ok(BoardDimension(DEFAULT_VALUE));
    }
    let val = match parse_number(t) {
        Some(v) => v,
        None => {
            return Err(
                TicTacToeError::InvalidBoardDimension {
                    kind: NumberError::NotANumber,
                    text: String::from_str(s),
                },
            );
        },
    };
    if val < MIN_VALUE {
        return Err(
            TicTacToeError::InvalidBoardDimension {
                kind: NumberError::BelowMinimum,
                text: String::from_str(s),
            },
        );
    }
    if val > MAX_VALUE {
        return Err(
            TicTacToeError::InvalidBoardDimension {
                kind: NumberError::AboveMaximum,
                text: String::from_str(s),
            },
        );
    }
    Ok(BoardDimension(val))
}

} // verus!
