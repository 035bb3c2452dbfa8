//! The square grid of cells together with its validated dimension.

use vstd::prelude::*;

use crate::board_dimension::BoardDimension;
use crate::cell_value::CellValue;
use crate::player_mark::PlayerMark;

verus! {

/// An N-by-N grid of cells, row-major, owned by one game.
#[derive(Debug)]
pub struct Board {
    pub dimension: BoardDimension,
    pub cells: Vec<Vec<CellValue>>,
}

impl Board {
    /// The side length.
    pub open spec fn dim(&self) -> int {
        self.dimension.0 as int
    }

    /// The grid always matches the dimension: N rows of N cells each.
    pub open spec fn wf(&self) -> bool {
        &&& self.dimension.wf()
        &&& self.cells@.len() == self.dim()
        &&& forall|r: int| 0 <= r < self.dim() ==> (#[trigger] self.cells@[r])@.len() == self.dim()
    }

    /// The mark occupying a cell, if any.
    pub open spec fn cell(&self, r: int, c: int) -> Option<PlayerMark> {
        self.cells@[r]@[c].0
    }

    /// Every cell of the board is empty.
    pub open spec fn all_empty(&self) -> bool {
        forall|r: int, c: int|
            0 <= r < self.dim() && 0 <= c < self.dim() ==> #[trigger] self.cell(r, c) is None
    }

    /// Allocates an N-by-N grid with every cell empty.
    pub fn new(dimension: BoardDimension) -> (b: Board)
        requires
            dimension.wf(),
        ensures
            b.wf(),
            b.dimension == dimension,
            b.all_empty(),
    {
        let n = dimension.get_value() as usize;
        let mut cells: Vec<Vec<CellValue>> = Vec::new();
        let mut r: usize = 0;
        while r < n
            invariant
                0 <= r <= n,
                cells@.len() == r,
                forall|i: int| 0 <= i < r ==> (#[trigger] cells@[i])@.len() == n,
                forall|i: int, j: int|
                    0 <= i < r && 0 <= j < n ==> (#[trigger] cells@[i]@[j]).0 is None,
            decreases n - r,
        {
            let mut row: Vec<CellValue> = Vec::new();
            let mut c: usize = 0;
            while c < n
                invariant
                    0 <= c <= n,
                    row@.len() == c,
                    forall|j: int| 0 <= j < c ==> (#[trigger] row@[j]).0 is None,
                decreases n - c,
            {
                row.push(CellValue::new(None));
                c = c + 1;
            }
            cells.push(row);
            r = r + 1;
        }
        Board { dimension, cells }
    }
}

} // verus!
