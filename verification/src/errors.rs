//! The validation failures the engine reports. Every failure is local and
//! recoverable, carries the offending raw input where there is one, and
//! renders as a human-readable message.

use vstd::prelude::*;

use crate::player_mark::{mark_text, PlayerMark};
use crate::text::{dec_string, u8_to_string};

verus! {

/// How a numeric field failed to validate.
#[derive(Debug, PartialEq, Eq, Structural, Clone, Copy)]
pub enum NumberError {
    NotANumber,
    BelowMinimum,
    AboveMaximum,
}

/// A validation failure of the game engine.
#[derive(Debug, PartialEq, Eq)]
pub enum TicTacToeError {
    /// The text does not name a player mark.
    InvalidPlayerMark { text: String },
    /// The board-dimension text is not a number or is out of range.
    InvalidBoardDimension { kind: NumberError, text: String },
    /// More than two comma-separated settings fields were given.
    TooManySettings { text: String },
    /// The move text is not a number or is out of range; `max` is the
    /// largest playable position on the board the move was checked against.
    InvalidMove { kind: NumberError, text: String, max: u8 },
    /// The move targets a cell already holding `mark`.
    CellOccupied { text: String, mark: PlayerMark },
    /// A move was attempted after the game reached its terminal state.
    GameAlreadyFinished,
}

/// The human-readable message of a failure.
pub open spec fn message_text(e: &TicTacToeError) -> Seq<char> {
    match e {
        TicTacToeError::InvalidPlayerMark { text } => "Player Mark '"@ + text@
            + "' is not recognized"@,
        TicTacToeError::InvalidBoardDimension { kind, text } => match kind {
            NumberError::NotANumber => "Board Dimension '"@ + text@ + "' is not a number"@,
            NumberError::BelowMinimum => "Board Dimension can not be less than 3"@,
            NumberError::AboveMaximum => "Board Dimension can not be greater than 5"@,
        },
        TicTacToeError::TooManySettings { text } => "More than 2 settings provided: '"@ + text@
            + "'"@,
        TicTacToeError::InvalidMove { kind, text, max } => match kind {
            NumberError::NotANumber => "Move '"@ + text@ + "' is not a number"@,
            NumberError::BelowMinimum => "Move can not be less than 1"@,
            NumberError::AboveMaximum => "Move can not be greater than "@ + dec_string(
                *max as nat,
            ),
        },
        TicTacToeError::CellOccupied { text, mark } => "Cell "@ + text@
            + " is already filled with '"@ + mark_text(*mark) + "'"@,
        TicTacToeError::GameAlreadyFinished => "Game is finished, you can not play a move"@,
    }
}

impl TicTacToeError {
    /// Renders the failure as its human-readable message, identifying the
    /// offending raw input and the violated constraint.
    pub fn message(&self) -> (r: String)
        ensures
            r@ == message_text(self),
    {
        match self {
            TicTacToeError::InvalidPlayerMark { text } => {
                let mut r = String::from_str("Player Mark '");
                r.append(text.as_str());
                r.append("' is not recognized");
                r
            },
            TicTacToeError::InvalidBoardDimension { kind, text } => match kind {
                NumberError::NotANumber => {
                    let mut r = String::from_str("Board Dimension '");
                    r.append(text.as_str());
                    r.append("' is not a number");
                    r
                },
                NumberError::BelowMinimum => String::from_str(
                    "Board Dimension can not be less than 3",
                ),
                NumberError::AboveMaximum => String::from_str(
                    "Board Dimension can not be greater than 5",
                ),
            },
            TicTacToeError::TooManySettings { text } => {
                let mut r = String::from_str("More than 2 settings provided: '");
                r.append(text.as_str());
                r.append("'");
                r
            },
            TicTacToeError::InvalidMove { kind, text, max } => match kind {
                NumberError::NotANumber => {
                    let mut r = String::from_str("Move '");
                    r.append(text.as_str());
                    r.append("' is not a number");
                    r
                },
                NumberError::BelowMinimum => String::from_str("Move can not be less than 1"),
                NumberError::AboveMaximum => {
                    let mut r = String::from_str("Move can not be greater than ");
                    let m = u8_to_string(*max);
                    r.append(m.as_str());
                    r
                },
            },
            TicTacToeError::CellOccupied { text, mark } => {
                let mut r = String::from_str("Cell ");
                r.append(text.as_str());
                r.append(" is already filled with '");
                let m = mark.as_string();
                r.append(m.as_str());
                r.append("'");
                r
            },
            TicTacToeError::GameAlreadyFinished => String::from_str(
                "Game is finished, you can not play a move",
            ),
        }
    }
}

} // verus!
