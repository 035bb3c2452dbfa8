//! The parsed pair of game settings: first player and board dimension,
//! read from one comma-separated text with defaulting rules.

use vstd::prelude::*;

use crate::board_dimension;
use crate::board_dimension::{dimension_of_text, BoardDimension, DEFAULT_VALUE};
use crate::errors::{NumberError, TicTacToeError};
use crate::player_mark;
use crate::player_mark::{mark_of_text, PlayerMark};
use crate::text::{lemma_trimmed_idempotent, trim_str, trimmed};

verus! {

/// The settings a new game is constructed from.
#[derive(Debug, PartialEq, Eq, Structural, Clone, Copy)]
pub struct Settings {
    pub first_player: PlayerMark,
    pub board_dimension: BoardDimension,
}

/// Which part of a settings text failed to validate.
pub enum SettingsIssue {
    Mark,
    Dimension(NumberError),
    TooMany,
}

/// The number of commas in a sequence.
pub open spec fn comma_count(s: Seq<char>) -> nat
    decreases s.len(),
{
    if s.len() == 0 {
        0
    } else {
        comma_count(s.drop_last()) + if s.last() == ',' {
            1nat
        } else {
            0nat
        }
    }
}

/// The index of the first comma of a sequence holding one.
pub open spec fn first_comma(s: Seq<char>) -> int
    decreases s.len(),
{
    if s.len() == 0 {
        0
    } else if s[0] == ',' {
        0
    } else {
        1 + first_comma(s.drop_first())
    }
}

/// The first comma-separated field of a trimmed settings text.
pub open spec fn settings_field1(t: Seq<char>) -> Seq<char> {
    if comma_count(t) == 0 {
        t
    } else {
        t.subrange(0, first_comma(t))
    }
}

/// The second comma-separated field of a trimmed settings text.
pub open spec fn settings_field2(t: Seq<char>) -> Seq<char> {
    t.subrange(first_comma(t) + 1, t.len() as int)
}

/// The settings a trimmed text stands for: the empty text yields both
/// defaults, one field names the first player, two fields name the first
/// player and the board dimension, and more than two fields are rejected.
pub open spec fn settings_of_text(t: Seq<char>) -> Result<(PlayerMark, u8), SettingsIssue> {
    if t.len() == 0 {
        Ok((PlayerMark::X, DEFAULT_VALUE))
    } else if comma_count(t) >= 2 {
        Err(SettingsIssue::TooMany)
    } else if comma_count(t) == 0 {
        match mark_of_text(trimmed(t)) {
            Some(m) => Ok((m, DEFAULT_VALUE)),
            None => Err(SettingsIssue::Mark),
        }
    } else {
        match mark_of_text(trimmed(settings_field1(t))) {
            None => Err(SettingsIssue::Mark),
            Some(m) => match dimension_of_text(trimmed(settings_field2(t))) {
                Err(k) => Err(SettingsIssue::Dimension(k)),
                Ok(v) => Ok((m, v)),
            },
        }
    }
}

/// The result of parsing a settings text, surrounding whitespace
/// tolerated.
pub open spec fn settings_result(s: Seq<char>) -> Result<(PlayerMark, u8), SettingsIssue> {
    settings_of_text(trimmed(s))
}

/// Re-parsing an already-trimmed settings text yields the same result
/// as parsing the untrimmed original.
pub proof fn lemma_settings_reparse_trimmed(s: Seq<char>)
    ensures
        settings_result(trimmed(s)) == settings_result(s),
{
    lemma_trimmed_idempotent(s);
}

proof fn lemma_first_comma_at(s: Seq<char>, p: int)
    requires
        0 <= p < s.len(),
        s[p] == ',',
        forall|j: int| 0 <= j < p ==> s[j] != ',',
    ensures
        first_comma(s) == p,
    decreases p,
{
    if p > 0 {
        lemma_first_comma_at(s.drop_first(), p - 1);
    }
}

/// Parses a settings text. The whole input is trimmed, then split on
/// commas; each field tolerates its own surrounding whitespace. A
/// rejection names the offending raw field or the violated bound.
pub fn parse(s: &str) -> (r: Result<Settings, TicTacToeError>)
    ensures
        r is Ok <==> settings_result(s@) is Ok,
        r matches Ok(st) ==> settings_result(s@) matches Ok(p) && st.first_player == p.0
            && st.board_dimension.0 == p.1 && st.board_dimension.wf(),
        r matches Err(e) ==> match e {
            TicTacToeError::InvalidPlayerMark { text } => settings_result(s@) == Err::<
                (PlayerMark, u8),
                SettingsIssue,
            >(SettingsIssue::Mark) && text@ == settings_field1(trimmed(s@)),
            TicTacToeError::InvalidBoardDimension { kind, text } => settings_result(s@) == Err::<
                (PlayerMark, u8),
                SettingsIssue,
            >(SettingsIssue::Dimension(kind)) && text@ == settings_field2(trimmed(s@)),
            TicTacToeError::TooManySettings { text } => settings_result(s@) == Err::<
                (PlayerMark, u8),
                SettingsIssue,
            >(SettingsIssue::TooMany) && text@ == s@,
            _ => false,
        },
{
    let t = trim_str(s);
    let len = t.unicode_len();
    if len == 0 {
        return Ok(
            Settings {
                first_player: player_mark::get_default(),
                board_dimension: board_dimension::get_default(),
            },
        );
    }
    let mut i: usize = 0;
    let mut cnt: usize = 0;
    let mut first: usize = 0;
    while i < len
        invariant
            0 <= i <= len,
            len == t@.len(),
            cnt <= i,
            cnt == comma_count(t@.take(i as int)),
            cnt == 0 ==> forall|j: int| 0 <= j < i ==> t@[j] != ',',
            cnt > 0 ==> first < i && t@[first as int] == ',' && (forall|j: int|
                0 <= j < first ==> t@[j] != ','),
        decreases len - i,
    {
        proof {
            assert(t@.take(i + 1).drop_last() =~= t@.take(i as int));
            assert(t@.take(i + 1).last() == t@[i as int]);
        }
        let c = t.get_char(i);
        if c == ',' {
            if cnt == 0 {
                first = i;
            }
            cnt = cnt + 1;
        }
        i = i + 1;
    }
    proof {
        assert(t@.take(len as int) =~= t@);
    }
    if cnt == 0 {
        let fp = match player_mark::parse(t) {
            Ok(m) => m,
            Err(e) => {
                return Err(e);
            },
        };
        return Ok(Settings { first_player: fp, board_dimension: board_dimension::get_default() });
    }
    if cnt >= 2 {
        return Err(TicTacToeError::TooManySettings { text: String::from_str(s) });
    }
    proof {
        lemma_first_comma_at(t@, first as int);
    }
    let f1 = t.substring_char(0, first);
    let f2 = t.substring_char(first + 1, len);
    let fp = match player_mark::parse(f1) {
        Ok(m) => m,
        Err(e) => {
            return Err(e);
        },
    };
    let bd = match board_dimension::parse(f2) {
        Ok(d) => d,
        Err(e) => {
            return Err(e);
        },
    };
    Ok(Settings { first_player: fp, board_dimension: bd })
}

} // verus!
