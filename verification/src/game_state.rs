//! The immutable snapshot of a game handed to the calling layer: cell
//! texts, the player next on move, and the finished flag with its result.

use vstd::prelude::*;

verus! {

/// A snapshot of a game. Each cell text is either the occupying mark's
/// display letter or the decimal 1-based position of the still-empty
/// cell; the result text is empty while the game is unfinished.
#[derive(Debug, PartialEq, Eq)]
pub struct GameState {
    pub board: Vec<Vec<String>>,
    pub next_on_move: String,
    pub finished: bool,
    pub result: String,
}

} // verus!
