//! A validated move: a 1-based linear board position, kept together with
//! the dimension it was validated against, and its translation to
//! zero-based row and column indices.

use vstd::prelude::*;

use vstd::arithmetic::div_mod::{lemma_mod_division_less_than_divisor, lemma_multiply_divide_lt};

use crate::board_dimension::BoardDimension;
use crate::errors::{NumberError, TicTacToeError};
use crate::text::{dec_value, lemma_trimmed_idempotent, numeric, parse_number, trim_str, trimmed};

verus! {

/// A move that passed validation against a board dimension.
#[derive(Debug, PartialEq, Eq, Structural, Clone, Copy)]
pub struct BoardMove {
    pub value: u8,
    pub board_dimension: BoardDimension,
}

/// The largest playable position of a board: its cell count.
pub open spec fn max_position(n: u8) -> int {
    n * n
}

/// The move a trimmed text stands for on a board of side length `n`: a
/// non-number is rejected, and a position outside 1 to N squared is
/// rejected naming the violated bound.
pub open spec fn move_of_text(n: u8, t: Seq<char>) -> Result<u8, NumberError> {
    if !numeric(t) {
        Err(NumberError::NotANumber)
    } else if dec_value(t) < 1 {
        Err(NumberError::BelowMinimum)
    } else if dec_value(t) > max_position(n) {
        Err(NumberError::AboveMaximum)
    } else {
        Ok(dec_value(t) as u8)
    }
}

/// The result of parsing a move text, surrounding whitespace tolerated.
pub open spec fn move_result(n: u8, s: Seq<char>) -> Result<u8, NumberError> {
    move_of_text(n, trimmed(s))
}

/// Re-parsing an already-trimmed move text yields the same result as
/// parsing the untrimmed original.
pub proof fn lemma_move_reparse_trimmed(n: u8, s: Seq<char>)
    ensures
        move_result(n, trimmed(s)) == move_result(n, s),
{
    lemma_trimmed_idempotent(s);
}

/// The zero-based row of a 1-based position, row-major.
pub open spec fn row_of(value: u8, n: u8) -> int {
    (value - 1) as int / n as int
}

/// The zero-based column of a 1-based position, row-major.
pub open spec fn col_of(value: u8, n: u8) -> int {
    (value - 1) as int % n as int
}

impl BoardMove {
    /// The validity bound every parsed move satisfies.
    pub open spec fn wf(&self) -> bool {
        &&& self.board_dimension.wf()
        &&& 1 <= self.value <= max_position(self.board_dimension.0)
    }

    /// The zero-based (row, column) indices of the move, row-major.
    pub fn get_indices(&self) -> (rc: (u8, u8))
        requires
            self.wf(),
        ensures
            rc.0 as int == row_of(self.value, self.board_dimension.0),
            rc.1 as int == col_of(self.value, self.board_dimension.0),
            rc.0 < self.board_dimension.0,
            rc.1 < self.board_dimension.0,
    {
        let n = self.board_dimension.get_value();
        proof {
            lemma_multiply_divide_lt((self.value - 1) as int, n as int, n as int);
            lemma_mod_division_less_than_divisor((self.value - 1) as int, n as int);
        }
        ((self.value - 1) / n, (self.value - 1) % n)
    }
}

/// Parses a move against a board dimension. The input is trimmed; a
/// rejection names the offending raw input or the violated bound.
pub fn parse(board_dimension: &BoardDimension, s: &str) -> (r: Result<BoardMove, TicTacToeError>)
    requires
        board_dimension.wf(),
    ensures
        r is Ok <==> move_result(board_dimension.0, s@) is Ok,
        r matches Ok(m) ==> move_result(board_dimension.0, s@) == Ok::<u8, NumberError>(m.value)
            && m.board_dimension == *board_dimension && m.wf(),
        r matches Err(e) ==> e matches TicTacToeError::InvalidMove { kind, text, max }
            && move_result(board_dimension.0, s@) == Err::<u8, NumberError>(kind) && text@ == s@
            && max as int == max_position(board_dimension.0),
{
    let t = trim_str(s);
    let n = board_dimension.get_value();
    proof {
        assert(n as int * n as int <= 25) by (nonlinear_arith)
            requires
                n <= 5,
        ;
    }
    let max_value = n * n;
    let val = match parse_number(t) {
        Some(v) => v,
        None => {
            return Err(
                TicTacToeError::InvalidMove {
                    kind: NumberError::NotANumber,
                    text: String::from_str(s),
                    max: max_value,
                },
            );
        },
    };
    if val < 1 {
        return Err(
            TicTacToeError::InvalidMove {
                kind: NumberError::BelowMinimum,
                text: String::from_str(s),
                max: max_value,
            },
        );
    }
    if val > max_value {
        return Err(
            TicTacToeError::InvalidMove {
                kind: NumberError::AboveMaximum,
                text: String::from_str(s),
                max: max_value,
            },
        );
    }
    Ok(BoardMove { value: val, board_dimension: *board_dimension })
}

} // verus!
