//! The fixed feed of rule descriptors the calling layer uses to present
//! the two settings: each rule's name, its allowed values joined with
//! commas, and its default value.

use vstd::prelude::*;

use crate::board_dimension;
use crate::player_mark;
use crate::player_mark::{mark_text, PlayerMark};
use crate::text::{dec_string, join_comma, joined_with_commas};

verus! {

/// One rule descriptor of the settings feed.
#[derive(Debug, PartialEq, Eq)]
pub struct SettingRule {
    pub name: String,
    pub allowed_values: String,
    pub default_value: String,
}

/// The two rule descriptors, in their fixed order: first player, then
/// board size, each with its allowed values and default.
pub fn get_game_settings_rules() -> (r: Vec<SettingRule>)
    ensures
        r@.len() == 2,
        r@[0].name@ == "First Player"@,
        r@[0].allowed_values@ == "X,O"@,
        r@[0].default_value@ == "X"@,
        r@[1].name@ == "Board Size"@,
        r@[1].allowed_values@ == "3,4,5"@,
        r@[1].default_value@ == "3"@,
{
    let marks = player_mark::get_all_as_vec_str();
    let allowed_marks = join_comma(&marks);
    proof {
        let elems = Seq::new(marks@.len(), |i: int| marks@[i]@);
        assert(elems =~= seq![mark_text(PlayerMark::X), mark_text(PlayerMark::O)]);
        assert(elems.drop_last() =~= seq![mark_text(PlayerMark::X)]);
        assert(joined_with_commas(elems.drop_last()) == mark_text(PlayerMark::X));
        assert(joined_with_commas(elems) == joined_with_commas(elems.drop_last()) + seq![',']
            + elems.last());
        reveal_strlit("X,O");
        assert(allowed_marks@ =~= "X,O"@);
    }
    let default_mark = player_mark::get_default().as_string();
    proof {
        reveal_strlit("X");
        assert(default_mark@ =~= "X"@);
    }

    let dims = board_dimension::get_all_as_vec_str();
    let allowed_dims = join_comma(&dims);
    proof {
        let elems = Seq::new(dims@.len(), |i: int| dims@[i]@);
        assert(elems =~= seq![dec_string(3), dec_string(4), dec_string(5)]);
        assert(dec_string(3) =~= seq!['3']);
        assert(dec_string(4) =~= seq!['4']);
        assert(dec_string(5) =~= seq!['5']);
        assert(elems.drop_last() =~= seq![dec_string(3), dec_string(4)]);
        assert(elems.drop_last().drop_last() =~= seq![dec_string(3)]);
        assert(joined_with_commas(elems.drop_last().drop_last()) == dec_string(3));
        assert(joined_with_commas(elems.drop_last()) == joined_with_commas(
            elems.drop_last().drop_last(),
        ) + seq![','] + elems.drop_last().last());
        assert(joined_with_commas(elems) == joined_with_commas(elems.drop_last()) + seq![',']
            + elems.last());
        reveal_strlit("3,4,5");
        assert(allowed_dims@ =~= "3,4,5"@);
    }
    let default_dim = crate::text::u8_to_string(board_dimension::get_default().get_value());
    proof {
        assert(dec_string(3) =~= seq!['3']);
        reveal_strlit("3");
        assert(default_dim@ =~= "3"@);
    }

    let mut rules: Vec<SettingRule> = Vec::new();
    rules.push(
        SettingRule {
            name: String::from_str("First Player"),
            allowed_values: allowed_marks,
            default_value: default_mark,
        },
    );
    rules.push(
        SettingRule {
            name: String::from_str("Board Size"),
            allowed_values: allowed_dims,
            default_value: default_dim,
        },
    );
    rules
}

} // verus!
