//! Win and tie detection: a pure full re-scan of the board after every
//! move, checking rows, then columns, then the two diagonals, and last
//! whether every cell is occupied.

use vstd::prelude::*;

use crate::board::Board;
use crate::player_mark::{mark_text, PlayerMark};

verus! {

/// Every cell of a row holds the mark.
pub open spec fn row_uniform(b: &Board, r: int, m: PlayerMark) -> bool {
    forall|c: int| 0 <= c < b.dim() ==> #[trigger] b.cell(r, c) == Some(m)
}

/// Every cell of a column holds the mark.
pub open spec fn col_uniform(b: &Board, c: int, m: PlayerMark) -> bool {
    forall|r: int| 0 <= r < b.dim() ==> #[trigger] b.cell(r, c) == Some(m)
}

/// Every cell of the top-left to bottom-right diagonal holds the mark.
pub open spec fn left_diag_uniform(b: &Board, m: PlayerMark) -> bool {
    forall|i: int| 0 <= i < b.dim() ==> #[trigger] b.cell(i, i) == Some(m)
}

/// Every cell of the top-right to bottom-left diagonal holds the mark.
pub open spec fn right_diag_uniform(b: &Board, m: PlayerMark) -> bool {
    forall|i: int| 0 <= i < b.dim() ==> #[trigger] b.cell(i, b.dim() - 1 - i) == Some(m)
}

/// The winner among the rows from index `r` down, in index order, X
/// checked before O on each row.
pub open spec fn row_winner_from(b: &Board, r: int) -> Option<PlayerMark>
    decreases b.dim() - r,
{
    if r < 0 || r >= b.dim() {
        None
    } else if row_uniform(b, r, PlayerMark::X) {
        Some(PlayerMark::X)
    } else if row_uniform(b, r, PlayerMark::O) {
        Some(PlayerMark::O)
    } else {
        row_winner_from(b, r + 1)
    }
}

/// The winner among the columns from index `c` down, in index order, X
/// checked before O on each column.
pub open spec fn col_winner_from(b: &Board, c: int) -> Option<PlayerMark>
    decreases b.dim() - c,
{
    if c < 0 || c >= b.dim() {
        None
    } else if col_uniform(b, c, PlayerMark::X) {
        Some(PlayerMark::X)
    } else if col_uniform(b, c, PlayerMark::O) {
        Some(PlayerMark::O)
    } else {
        col_winner_from(b, c + 1)
    }
}

/// The winner among the diagonals: X checked on both diagonals before O
/// is checked on either.
pub open spec fn diag_winner(b: &Board) -> Option<PlayerMark> {
    if left_diag_uniform(b, PlayerMark::X) {
        Some(PlayerMark::X)
    } else if right_diag_uniform(b, PlayerMark::X) {
        Some(PlayerMark::X)
    } else if left_diag_uniform(b, PlayerMark::O) {
        Some(PlayerMark::O)
    } else if right_diag_uniform(b, PlayerMark::O) {
        Some(PlayerMark::O)
    } else {
        None
    }
}

/// The winner of a board under the fixed evaluation order: rows in index
/// order, then columns in index order, then the diagonals.
pub open spec fn winner(b: &Board) -> Option<PlayerMark> {
    if row_winner_from(b, 0) is Some {
        row_winner_from(b, 0)
    } else if col_winner_from(b, 0) is Some {
        col_winner_from(b, 0)
    } else {
        diag_winner(b)
    }
}

/// Every cell of the board is occupied.
pub open spec fn board_full(b: &Board) -> bool {
    forall|r: int, c: int|
        0 <= r < b.dim() && 0 <= c < b.dim() ==> #[trigger] b.cell(r, c) is Some
}

/// Whether the board is in a terminal position: a winner or a full board.
pub open spec fn outcome_finished(b: &Board) -> bool {
    winner(b) is Some || board_full(b)
}

/// The display text of a tied game.
pub open spec fn tied_text() -> Seq<char> {
    seq!['T', 'i', 'e', 'd']
}

/// The result text of a board: the winning mark's display form, the tie
/// text on a full board without a winner, and nothing otherwise.
pub open spec fn result_text(b: &Board) -> Option<Seq<char>> {
    match winner(b) {
        Some(m) => Some(mark_text(m)),
        None => if board_full(b) {
            Some(tied_text())
        } else {
            None
        },
    }
}

proof fn lemma_row_winner_from_none(b: &Board, r: int)
    requires
        b.wf(),
        b.all_empty(),
        0 <= r,
    ensures
        row_winner_from(b, r) is None,
    decreases b.dim() - r,
{
    if r < b.dim() {
        assert(b.cell(r, 0) is None);
        assert(!row_uniform(b, r, PlayerMark::X));
        assert(!row_uniform(b, r, PlayerMark::O));
        lemma_row_winner_from_none(b, r + 1);
    }
}

proof fn lemma_col_winner_from_none(b: &Board, c: int)
    requires
        b.wf(),
        b.all_empty(),
        0 <= c,
    ensures
        col_winner_from(b, c) is None,
    decreases b.dim() - c,
{
    if c < b.dim() {
        assert(b.cell(0, c) is None);
        assert(!col_uniform(b, c, PlayerMark::X));
        assert(!col_uniform(b, c, PlayerMark::O));
        lemma_col_winner_from_none(b, c + 1);
    }
}

/// A board with every cell empty is not yet decided: no winner, not
/// full, no result.
pub proof fn lemma_empty_board_unfinished(b: &Board)
    requires
        b.wf(),
        b.all_empty(),
    ensures
        winner(b) is None,
        !board_full(b),
        !outcome_finished(b),
        result_text(b) is None,
{
    lemma_row_winner_from_none(b, 0);
    lemma_col_winner_from_none(b, 0);
    assert(b.cell(0, 0) is None);
    assert(!left_diag_uniform(b, PlayerMark::X));
    assert(!left_diag_uniform(b, PlayerMark::O));
    assert(!right_diag_uniform(b, PlayerMark::X)) by {
        assert(b.cell(0, b.dim() - 1 - 0) is None);
    }
    assert(!right_diag_uniform(b, PlayerMark::O)) by {
        assert(b.cell(0, b.dim() - 1 - 0) is None);
    }
    assert(!board_full(b));
}

fn row_all(b: &Board, r: usize, m: PlayerMark) -> (res: bool)
    requires
        b.wf(),
        r < b.dim(),
    ensures
        res == row_uniform(b, r as int, m),
{
    let n = b.dimension.get_value() as usize;
    let mut c: usize = 0;
    while c < n
        invariant
            b.wf(),
            r < b.dim(),
            n == b.dim(),
            0 <= c <= n,
            forall|j: int| 0 <= j < c ==> #[trigger] b.cell(r as int, j) == Some(m),
        decreases n - c,
    {
        let hit = match b.cells[r][c].0 {
            Some(mm) => mm == m,
            None => false,
        };
        if !hit {
            assert(!(b.cell(r as int, c as int) == Some(m)));
            return false;
        }
        c = c + 1;
    }
    true
}

fn col_all(b: &Board, c: usize, m: PlayerMark) -> (res: bool)
    requires
        b.wf(),
        c < b.dim(),
    ensures
        res == col_uniform(b, c as int, m),
{
    let n = b.dimension.get_value() as usize;
    let mut r: usize = 0;
    while r < n
        invariant
            b.wf(),
            c < b.dim(),
            n == b.dim(),
            0 <= r <= n,
            forall|j: int| 0 <= j < r ==> #[trigger] b.cell(j, c as int) == Some(m),
        decreases n - r,
    {
        let hit = match b.cells[r][c].0 {
            Some(mm) => mm == m,
            None => false,
        };
        if !hit {
            assert(!(b.cell(r as int, c as int) == Some(m)));
            return false;
        }
        r = r + 1;
    }
    true
}

fn left_diag_all(b: &Board, m: PlayerMark) -> (res: bool)
    requires
        b.wf(),
    ensures
        res == left_diag_uniform(b, m),
{
    let n = b.dimension.get_value() as usize;
    let mut i: usize = 0;
    while i < n
        invariant
            b.wf(),
            n == b.dim(),
            0 <= i <= n,
            forall|j: int| 0 <= j < i ==> #[trigger] b.cell(j, j) == Some(m),
        decreases n - i,
    {
        let hit = match b.cells[i][i].0 {
            Some(mm) => mm == m,
            None => false,
        };
        if !hit {
            assert(!(b.cell(i as int, i as int) == Some(m)));
            return false;
        }
        i = i + 1;
    }
    true
}

fn right_diag_all(b: &Board, m: PlayerMark) -> (res: bool)
    requires
        b.wf(),
    ensures
        res == right_diag_uniform(b, m),
{
    let n = b.dimension.get_value() as usize;
    let mut i: usize = 0;
    while i < n
        invariant
            b.wf(),
            n == b.dim(),
            0 <= i <= n,
            forall|j: int| 0 <= j < i ==> #[trigger] b.cell(j, b.dim() - 1 - j) == Some(m),
        decreases n - i,
    {
        let hit = match b.cells[i][n - 1 - i].0 {
            Some(mm) => mm == m,
            None => false,
        };
        if !hit {
            assert(!(b.cell(i as int, b.dim() - 1 - i) == Some(m)));
            return false;
        }
        i = i + 1;
    }
    true
}

fn board_is_full(b: &Board) -> (res: bool)
    requires
        b.wf(),
    ensures
        res == board_full(b),
{
    let n = b.dimension.get_value() as usize;
    let mut r: usize = 0;
    while r < n
        invariant
            b.wf(),
            n == b.dim(),
            0 <= r <= n,
            forall|i: int, j: int|
                0 <= i < r && 0 <= j < n ==> #[trigger] b.cell(i, j) is Some,
        decreases n - r,
    {
        let mut c: usize = 0;
        while c < n
            invariant
                b.wf(),
                n == b.dim(),
                r < n,
                0 <= c <= n,
                forall|j: int| 0 <= j < c ==> #[trigger] b.cell(r as int, j) is Some,
            decreases n - c,
        {
            if b.cells[r][c].0.is_none() {
                assert(!(b.cell(r as int, c as int) is Some));
                return false;
            }
            c = c + 1;
        }
        r = r + 1;
    }
    true
}

/// Inspects a board and yields whether the game is finished together
/// with the result text: the winning mark's display form found under the
/// fixed evaluation order, or the tie text once every cell is occupied.
pub fn calculate_result(board: &Board) -> (r: (bool, Option<String>))
    requires
        board.wf(),
    ensures
        r.0 == outcome_finished(board),
        r.1 is Some <==> result_text(board) is Some,
        r.1 matches Some(st) ==> result_text(board) matches Some(q) && st@ == q,
{
    let n = board.dimension.get_value() as usize;

    let mut row: usize = 0;
    while row < n
        invariant
            board.wf(),
            n == board.dim(),
            0 <= row <= n,
            row_winner_from(board, 0) == row_winner_from(board, row as int),
        decreases n - row,
    {
        if row_all(board, row, PlayerMark::X) {
            return (true, Some(PlayerMark::X.as_string()));
        }
        if row_all(board, row, PlayerMark::O) {
            return (true, Some(PlayerMark::O.as_string()));
        }
        row = row + 1;
    }
    assert(row_winner_from(board, 0) is None);

    let mut col: usize = 0;
    while col < n
        invariant
            board.wf(),
            n == board.dim(),
            0 <= col <= n,
            row_winner_from(board, 0) is None,
            col_winner_from(board, 0) == col_winner_from(board, col as int),
        decreases n - col,
    {
        if col_all(board, col, PlayerMark::X) {
            return (true, Some(PlayerMark::X.as_string()));
        }
        if col_all(board, col, PlayerMark::O) {
            return (true, Some(PlayerMark::O.as_string()));
        }
        col = col + 1;
    }
    assert(col_winner_from(board, 0) is None);

    if left_diag_all(board, PlayerMark::X) {
        return (true, Some(PlayerMark::X.as_string()));
    }
    if right_diag_all(board, PlayerMark::X) {
        return (true, Some(PlayerMark::X.as_string()));
    }
    if left_diag_all(board, PlayerMark::O) {
        return (true, Some(PlayerMark::O.as_string()));
    }
    if right_diag_all(board, PlayerMark::O) {
        return (true, Some(PlayerMark::O.as_string()));
    }

    if board_is_full(board) {
        let t = String::from_str("Tied");
        proof {
            reveal_strlit("Tied");
            assert(t@ =~= tied_text());
        }
        return (true, Some(t));
    }

    (false, None)
}

} // verus!
