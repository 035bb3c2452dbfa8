//! The orchestrating state machine: a board, the player next on move,
//! and the finished flag with its result, advanced one validated move at
//! a time until the game reaches its terminal state.

use vstd::prelude::*;

use crate::board::Board;
use crate::board_move;
use crate::board_move::{col_of, max_position, move_result, row_of};
use crate::cell_value::CellValue;
use crate::errors::TicTacToeError;
use crate::game_state::GameState;
use crate::player_mark::{mark_text, other_mark, PlayerMark};
use crate::settings;
use crate::settings::{settings_field1, settings_field2, settings_result, SettingsIssue};
use crate::state_calculation::{calculate_result, lemma_empty_board_unfinished, outcome_finished, result_text};
use crate::text::{dec_string, trimmed, u8_to_string};

verus! {

/// One game in progress or finished.
#[derive(Debug)]
pub struct Game {
    pub board: Board,
    pub next_on_move: PlayerMark,
    pub finished: bool,
    pub result: Option<String>,
}

/// The new board differs from the old in exactly one cell, which went
/// from empty to holding the mark.
pub open spec fn moved_board(old_b: &Board, new_b: &Board, row: int, col: int, m: PlayerMark) -> bool {
    &&& new_b.dimension == old_b.dimension
    &&& new_b.wf()
    &&& old_b.cell(row, col) is None
    &&& new_b.cell(row, col) == Some(m)
    &&& forall|i: int, j: int|
        0 <= i < old_b.dim() && 0 <= j < old_b.dim() && !(i == row && j == col)
            ==> #[trigger] new_b.cell(i, j) == old_b.cell(i, j)
}

/// The text shown for one cell of a snapshot: the occupying mark's
/// display letter, or the decimal 1-based position of an empty cell.
pub open spec fn cell_text(b: &Board, i: int, j: int) -> Seq<char> {
    match b.cell(i, j) {
        Some(m) => mark_text(m),
        None => dec_string((i * b.dim() + j + 1) as nat),
    }
}

/// The snapshot faithfully projects the game: board texts cell by cell,
/// the next player's display letter, the finished flag, and the result
/// text (empty while there is none).
pub open spec fn snapshot_matches(g: &Game, st: &GameState) -> bool {
    &&& st.board@.len() == g.board.dim()
    &&& forall|i: int| 0 <= i < g.board.dim() ==> (#[trigger] st.board@[i])@.len() == g.board.dim()
    &&& forall|i: int, j: int|
        0 <= i < g.board.dim() && 0 <= j < g.board.dim() ==> (#[trigger] st.board@[i]@[j])@
            == cell_text(&g.board, i, j)
    &&& st.next_on_move@ == mark_text(g.next_on_move)
    &&& st.finished == g.finished
    &&& (g.result is None ==> st.result@ == Seq::<char>::empty())
    &&& (g.result matches Some(s) ==> st.result@ == s@)
}

impl Game {
    /// The invariant every reachable game satisfies: a well-formed board,
    /// and a finished flag and result that agree with what the result
    /// calculation derives from the board.
    pub open spec fn wf(&self) -> bool {
        &&& self.board.wf()
        &&& self.finished == outcome_finished(&self.board)
        &&& (self.result is Some <==> result_text(&self.board) is Some)
        &&& (self.result matches Some(s) ==> result_text(&self.board) matches Some(q) && s@ == q)
    }

    /// A freshly constructed game: an empty board of side length `n`,
    /// the configured first player on move, and no result yet.
    pub open spec fn is_fresh(&self, first: PlayerMark, n: u8) -> bool {
        &&& self.board.dim() == n
        &&& self.board.all_empty()
        &&& self.next_on_move == first
        &&& !self.finished
        &&& self.result is None
    }

    /// Constructs a game from a settings text, propagating its parse
    /// failures; a new game starts unfinished on an empty board.
    pub fn new(settings_str: &str) -> (r: Result<Game, TicTacToeError>)
        ensures
            r is Ok <==> settings_result(settings_str@) is Ok,
            r matches Ok(g) ==> settings_result(settings_str@) matches Ok(p) && g.wf()
                && g.is_fresh(p.0, p.1),
            r matches Err(e) ==> match e {
                TicTacToeError::InvalidPlayerMark { text } => settings_result(settings_str@)
                    == Err::<(PlayerMark, u8), SettingsIssue>(SettingsIssue::Mark) && text@
                    == settings_field1(trimmed(settings_str@)),
                TicTacToeError::InvalidBoardDimension { kind, text } => settings_result(
                    settings_str@,
                ) == Err::<(PlayerMark, u8), SettingsIssue>(SettingsIssue::Dimension(kind)) && text@
                    == settings_field2(trimmed(settings_str@)),
                TicTacToeError::TooManySettings { text } => settings_result(settings_str@) == Err::<
                    (PlayerMark, u8),
                    SettingsIssue,
                >(SettingsIssue::TooMany) && text@ == settings_str@,
                _ => false,
            },
    {
        let st = match settings::parse(settings_str) {
            Ok(st) => st,
            Err(e) => {
                return Err(e);
            },
        };
        let board = Board::new(st.board_dimension);
        proof {
            lemma_empty_board_unfinished(&board);
        }
        Ok(Game { board, next_on_move: st.first_player, finished: false, result: None })
    }

    /// Applies one move. A finished game rejects every move and stays
    /// unchanged; a rejected move leaves the game unchanged; an accepted
    /// move occupies exactly one empty cell with the mark of the player
    /// on move, passes the turn to the other player, and re-derives the
    /// finished flag and result from the whole board.
    pub fn play_move(&mut self, move_str: &str) -> (r: Result<(), TicTacToeError>)
        requires
            old(self).wf(),
        ensures
            final(self).wf(),
            r is Err ==> *final(self) == *old(self),
            old(self).finished ==> r == Err::<(), TicTacToeError>(
                TicTacToeError::GameAlreadyFinished,
            ),
            !old(self).finished ==> ({
                let n = old(self).board.dimension.0;
                match move_result(n, move_str@) {
                    Err(k) => r matches Err(e) && e matches TicTacToeError::InvalidMove {
                        kind,
                        text,
                        max,
                    } && kind == k && text@ == move_str@ && max as int == max_position(n),
                    Ok(v) => ({
                        let row = row_of(v, n);
                        let col = col_of(v, n);
                        match old(self).board.cell(row, col) {
                            Some(occ) => r matches Err(e) && e
                                matches TicTacToeError::CellOccupied { text, mark } && text@
                                == move_str@ && mark == occ,
                            None => r is Ok && moved_board(
                                &old(self).board,
                                &final(self).board,
                                row,
                                col,
                                old(self).next_on_move,
                            ) && final(self).next_on_move == other_mark(old(self).next_on_move)
                                && final(self).finished == outcome_finished(&final(self).board),
                        }
                    }),
                }
            }),
    {
        if self.finished {
            return Err(TicTacToeError::GameAlreadyFinished);
        }
        let bm = match board_move::parse(&self.board.dimension, move_str) {
            Ok(m) => m,
            Err(e) => {
                return Err(e);
            },
        };
        let (row_idx, col_idx) = bm.get_indices();
        let row_idx = row_idx as usize;
        let col_idx = col_idx as usize;

        match self.board.cells[row_idx][col_idx].get_value() {
            Some(pm) => {
                let occupying = *pm;
                return Err(
                    TicTacToeError::CellOccupied {
                        text: String::from_str(move_str),
                        mark: occupying,
                    },
                );
            },
            None => {},
        };

        let mark = self.next_on_move;
        self.board.cells[row_idx][col_idx] = CellValue::new(Some(mark));

        self.next_on_move = mark.other();

        let (finished, result) = calculate_result(&self.board);
        self.finished = finished;
        self.result = result;

        Ok(())
    }

    /// Produces the immutable snapshot of the game described by
    /// `snapshot_matches`, without mutating it.
    pub fn export_state(&self) -> (st: GameState)
        requires
            self.wf(),
        ensures
            snapshot_matches(self, &st),
    {
        let n = self.board.dimension.get_value();
        let mut bd: Vec<Vec<String>> = Vec::new();
        let mut i: u8 = 0;
        while i < n
            invariant
                self.wf(),
                n == self.board.dim(),
                0 <= i <= n,
                bd@.len() == i,
                forall|a: int| 0 <= a < i ==> (#[trigger] bd@[a])@.len() == n,
                forall|a: int, b: int|
                    0 <= a < i && 0 <= b < n ==> (#[trigger] bd@[a]@[b])@ == cell_text(
                        &self.board,
                        a,
                        b,
                    ),
            decreases n - i,
        {
            let mut row_vec: Vec<String> = Vec::new();
            let mut j: u8 = 0;
            while j < n
                invariant
                    self.wf(),
                    n == self.board.dim(),
                    i < n,
                    0 <= j <= n,
                    row_vec@.len() == j,
                    forall|b: int|
                        0 <= b < j ==> (#[trigger] row_vec@[b])@ == cell_text(
                            &self.board,
                            i as int,
                            b,
                        ),
                decreases n - j,
            {
                proof {
                    assert(i as int * n as int <= 20) by (nonlinear_arith)
                        requires
                            i <= 4,
                            n <= 5,
                    ;
                }
                let s = match self.board.cells[i as usize][j as usize].get_value() {
                    Some(m) => m.as_string(),
                    None => u8_to_string(i * n + j + 1),
                };
                row_vec.push(s);
                j = j + 1;
            }
            bd.push(row_vec);
            i = i + 1;
        }
        let result_str = match &self.result {
            None => String::new(),
            Some(res) => res.clone(),
        };
        GameState {
            board: bd,
            next_on_move: self.next_on_move.as_string(),
            finished: self.finished,
            result: result_str,
        }
    }
}

/// An accepted move changes exactly one cell of the snapshot: the played
/// cell's text goes from its decimal position to the mark's letter, and
/// every other cell keeps its text.
pub proof fn lemma_move_changes_one_cell_text(
    g1: &Game,
    st1: &GameState,
    g2: &Game,
    st2: &GameState,
    row: int,
    col: int,
    m: PlayerMark,
)
    requires
        0 <= row < g1.board.dim(),
        0 <= col < g1.board.dim(),
        moved_board(&g1.board, &g2.board, row, col, m),
        snapshot_matches(g1, st1),
        snapshot_matches(g2, st2),
    ensures
        st1.board@[row]@[col]@ == dec_string((row * g1.board.dim() + col + 1) as nat),
        st2.board@[row]@[col]@ == mark_text(m),
        forall|i: int, j: int|
            0 <= i < g1.board.dim() && 0 <= j < g1.board.dim() && !(i == row && j == col)
                ==> (#[trigger] st2.board@[i]@[j])@ == st1.board@[i]@[j]@,
{
    assert forall|i: int, j: int|
        0 <= i < g1.board.dim() && 0 <= j < g1.board.dim() && !(i == row && j == col) implies (
    #[trigger] st2.board@[i]@[j])@ == st1.board@[i]@[j]@ by {
        assert(g2.board.cell(i, j) == g1.board.cell(i, j));
        assert(st1.board@[i]@[j]@ == cell_text(&g1.board, i, j));
        assert(st2.board@[i]@[j]@ == cell_text(&g2.board, i, j));
    }
}

/// A freshly constructed game's snapshot shows the decimal positions 1
/// through N squared in row-major order, the configured first player on
/// move, an unfinished flag, and an empty result.
pub proof fn lemma_fresh_game_snapshot(g: &Game, st: &GameState, first: PlayerMark, n: u8)
    requires
        g.is_fresh(first, n),
        snapshot_matches(g, st),
    ensures
        forall|i: int, j: int|
            0 <= i < n && 0 <= j < n ==> (#[trigger] st.board@[i]@[j])@ == dec_string(
                (i * n + j + 1) as nat,
            ),
        st.next_on_move@ == mark_text(first),
        !st.finished,
        st.result@ == Seq::<char>::empty(),
{
    assert forall|i: int, j: int| 0 <= i < n && 0 <= j < n implies (#[trigger] st.board@[i]@[j])@
        == dec_string((i * n + j + 1) as nat) by {
        assert(g.board.cell(i, j) is None);
        assert(st.board@[i]@[j]@ == cell_text(&g.board, i, j));
    }
}

} // verus!
