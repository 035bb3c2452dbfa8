//! A single board cell: empty until a player occupies it with a mark.

use vstd::prelude::*;

use crate::player_mark::PlayerMark;

verus! {

/// The content of one grid position.
#[derive(Debug, Clone, Copy, PartialEq)]
pub struct CellValue(pub Option<PlayerMark>);

impl CellValue {
    pub fn new(val: Option<PlayerMark>) -> (r: CellValue)
        ensures
            r.0 == val,
    {
        CellValue(val)
    }

    pub fn get_value(&self) -> (r: &Option<PlayerMark>)
        ensures
            *r == self.0,
    {
        &self.0
    }

    pub fn set_value(&mut self, val: Option<PlayerMark>)
        ensures
            final(self).0 == val,
    {
        self.0 = val;
    }
}

} // verus!
