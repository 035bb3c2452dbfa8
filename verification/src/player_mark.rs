//! The identity of a player: the mark X or O, with parsing, default, and
//! the list of allowed display forms.

use vstd::prelude::*;

use crate::errors::TicTacToeError;
use crate::text::{lemma_trimmed_idempotent, trim_str, trimmed};

verus! {

#[derive(Debug, PartialEq, Eq, Structural, Clone, Copy)]
pub enum PlayerMark {
    X,
    O,
}

/// The display form of a mark: the exact uppercase letter.
pub open spec fn mark_text(m: PlayerMark) -> Seq<char> {
    match m {
        PlayerMark::X => seq!['X'],
        PlayerMark::O => seq!['O'],
    }
}

/// The mark of the other player.
pub open spec fn other_mark(m: PlayerMark) -> PlayerMark {
    match m {
        PlayerMark::X => PlayerMark::O,
        PlayerMark::O => PlayerMark::X,
    }
}

/// The mark a trimmed text stands for: the empty text yields the default
/// mark X, and a single letter x or o of either case names its mark.
pub open spec fn mark_of_text(t: Seq<char>) -> Option<PlayerMark> {
    if t.len() == 0 {
        Some(PlayerMark::X)
    } else if t.len() == 1 && (t[0] == 'x' || t[0] == 'X') {
        Some(PlayerMark::X)
    } else if t.len() == 1 && (t[0] == 'o' || t[0] == 'O') {
        Some(PlayerMark::O)
    } else {
        None
    }
}

/// The result of parsing a player-mark text, surrounding whitespace
/// tolerated.
pub open spec fn mark_result(s: Seq<char>) -> Option<PlayerMark> {
    mark_of_text(trimmed(s))
}

impl PlayerMark {
    /// The display form as an owned string.
    pub fn as_string(&self) -> (r: String)
        ensures
            r@ == mark_text(*self),
    {
        match self {
            PlayerMark::X => {
                let r = String::from_str("X");
                proof {
                    reveal_strlit("X");
                    assert(r@ =~= seq!['X']);
                }
                r
            },
            PlayerMark::O => {
                let r = String::from_str("O");
                proof {
                    reveal_strlit("O");
                    assert(r@ =~= seq!['O']);
                }
                r
            },
        }
    }

    /// The mark of the other player.
    pub fn other(&self) -> (r: PlayerMark)
        ensures
            r == other_mark(*self),
    {
        match self {
            PlayerMark::X => PlayerMark::O,
            PlayerMark::O => PlayerMark::X,
        }
    }
}

/// The default first player.
pub fn get_default() -> (r: PlayerMark)
    ensures
        r == PlayerMark::X,
{
    PlayerMark::X
}

/// The display forms of all marks, in declaration order.
pub fn get_all_as_vec_str() -> (r: Vec<String>)
    ensures
        r@.len() == 2,
        r@[0]@ == mark_text(PlayerMark::X),
        r@[1]@ == mark_text(PlayerMark::O),
{
    let mut v: Vec<String> = Vec::new();
    v.push(PlayerMark::X.as_string());
    v.push(PlayerMark::O.as_string());
    v
}

/// Parsing a mark is case-insensitive and tolerates surrounding
/// whitespace: a text that trims to the single letter x or o of either
/// case yields that mark, a text that trims to nothing yields the default
/// mark X, and every other text is rejected.
pub proof fn lemma_mark_parse_case_insensitive(s: Seq<char>)
    ensures
        trimmed(s).len() == 0 ==> mark_result(s) == Some(PlayerMark::X),
        trimmed(s).len() == 1 && (trimmed(s)[0] == 'x' || trimmed(s)[0] == 'X') ==> mark_result(s)
            == Some(PlayerMark::X),
        trimmed(s).len() == 1 && (trimmed(s)[0] == 'o' || trimmed(s)[0] == 'O') ==> mark_result(s)
            == Some(PlayerMark::O),
        mark_result(s) is Some ==> trimmed(s).len() <= 1,
{
}

/// Re-parsing an already-trimmed mark text yields the same result as
/// parsing the untrimmed original.
pub proof fn lemma_mark_reparse_trimmed(s: Seq<char>)
    ensures
        mark_result(trimmed(s)) == mark_result(s),
{
    lemma_trimmed_idempotent(s);
}

/// Parses a player mark. The input is trimmed; the empty text yields the
/// default mark X; the letters x and o match regardless of case; any other
/// text is rejected, naming the offending raw input.
pub fn parse(s: &str) -> (r: Result<PlayerMark, TicTacToeError>)
    ensures
        r is Ok <==> mark_result(s@) is Some,
        r matches Ok(m) ==> mark_result(s@) == Some(m),
        r matches Err(e) ==> e matches TicTacToeError::InvalidPlayerMark { text } && text@ == s@,
{
    let t = trim_str(s);
    let n = t.unicode_len();
    if n == 0 {
        return Ok(PlayerMark::X);
    }
    if n == 1 {
        let c = t.get_char(0);
        if c == 'x' || c == 'X' {
            return Ok(PlayerMark::X);
        }
        if c == 'o' || c == 'O' {
            return Ok(PlayerMark::O);
        }
    }
    Err(TicTacToeError::InvalidPlayerMark { text: String::from_str(s) })
}

} // verus!
