use tic_tac_toe::board_dimension;
use tic_tac_toe::board_move;
use tic_tac_toe::game::Game;
use tic_tac_toe::player_mark;
use tic_tac_toe::player_mark::PlayerMark;
use tic_tac_toe::settings;

#[test]
fn test_dimension_parse_round_trip() {
    for text in ["3", "4", "5"] {
        let parsed = board_dimension::parse(text).unwrap();
        assert_eq!(parsed.get_value().to_string(), text);
    }
}

#[test]
fn test_dimension_parse_overflowing_number_is_rejected() {
    let e = board_dimension::parse("256").unwrap_err();
    assert_eq!(e.message(), "Board Dimension '256' is not a number");
}

#[test]
fn test_mark_parse_case_insensitive() {
    assert_eq!(player_mark::parse("X").unwrap(), PlayerMark::X);
    assert_eq!(player_mark::parse(" x\t").unwrap(), PlayerMark::X);
    assert_eq!(player_mark::parse("o").unwrap(), PlayerMark::O);
    assert_eq!(player_mark::parse("O").unwrap(), PlayerMark::O);
    assert!(player_mark::parse("xx").is_err());
}

#[test]
fn test_reparse_trimmed_settings_same_result() {
    assert_eq!(settings::parse(" x , 4 ").unwrap(), settings::parse("x , 4").unwrap());
    assert_eq!(settings::parse("\t o \t").unwrap(), settings::parse("o").unwrap());
}

#[test]
fn test_reparse_trimmed_move_same_result() {
    let d = board_dimension::parse("3").unwrap();
    let a = board_move::parse(&d, " 7 ").unwrap();
    let b = board_move::parse(&d, "7").unwrap();
    assert_eq!(a.value, b.value);
}

#[test]
fn test_settings_with_empty_second_field_defaults_dimension() {
    let s = settings::parse("o,").unwrap();
    assert_eq!(s.first_player, PlayerMark::O);
    assert_eq!(s.board_dimension.get_value(), 3);
}

#[test]
fn test_settings_two_commas_rejected() {
    let e = settings::parse("x,,").unwrap_err();
    assert_eq!(e.message(), "More than 2 settings provided: 'x,,'");
}

#[test]
fn test_settings_dimension_below_minimum() {
    let e = settings::parse("x, 2").unwrap_err();
    assert_eq!(e.message(), "Board Dimension can not be less than 3");
}

#[test]
fn test_move_zero_and_above_board_fail_bounds() {
    let mut g = Game::new("x,3").unwrap();
    let e = g.play_move("0").unwrap_err();
    assert_eq!(e.message(), "Move can not be less than 1");
    let e = g.play_move("10").unwrap_err();
    assert_eq!(e.message(), "Move can not be greater than 9");
    // the bounds themselves are playable on an empty board
    g.play_move("1").unwrap();
    g.play_move("9").unwrap();
}

#[test]
fn test_move_double_zero_fails_lower_bound() {
    let mut g = Game::new("x,3").unwrap();
    let e = g.play_move("00").unwrap_err();
    assert_eq!(e.message(), "Move can not be less than 1");
}

#[test]
fn test_first_player_o_scenario_leaves_expected_cells() {
    let mut g = Game::new("o,3").unwrap();
    g.play_move("1").unwrap();
    g.play_move("5").unwrap();
    g.play_move("9").unwrap();

    let st = g.export_state();
    let flat: Vec<String> = st.board.into_iter().flatten().collect();
    assert_eq!(flat, vec!["O", "2", "3", "4", "X", "6", "7", "8", "O"]);
    assert_eq!(st.next_on_move, "X");
    assert_eq!(st.finished, false);
}

#[test]
fn test_accepted_move_changes_exactly_one_cell_and_toggles_turn() {
    let mut g = Game::new("x,3").unwrap();
    let before = g.export_state();
    g.play_move(" 5 ").unwrap();
    let after = g.export_state();

    let mut changed = 0;
    for r in 0..3 {
        for c in 0..3 {
            if before.board[r][c] != after.board[r][c] {
                changed += 1;
                assert_eq!(before.board[r][c], "5");
                assert_eq!(after.board[r][c], "X");
            }
        }
    }
    assert_eq!(changed, 1);
    assert_eq!(before.next_on_move, "X");
    assert_eq!(after.next_on_move, "O");
}

#[test]
fn test_occupied_cell_rejected_and_game_unchanged() {
    let mut g = Game::new("x,3").unwrap();
    g.play_move("5").unwrap();
    let before = g.export_state();
    let e = g.play_move(" 5").unwrap_err();
    assert_eq!(e.message(), "Cell  5 is already filled with 'X'");
    assert_eq!(before, g.export_state());
}

#[test]
fn test_column_win_detected() {
    let mut g = Game::new("x,3").unwrap();
    // X takes column 0: positions 1, 4, 7
    g.play_move("1").unwrap();
    g.play_move("2").unwrap();
    g.play_move("4").unwrap();
    g.play_move("3").unwrap();
    g.play_move("7").unwrap();

    let st = g.export_state();
    assert_eq!(st.finished, true);
    assert_eq!(st.result, "X");
}

#[test]
fn test_left_diagonal_win_detected() {
    let mut g = Game::new("o,3").unwrap();
    // O takes the left diagonal: positions 1, 5, 9
    g.play_move("1").unwrap();
    g.play_move("2").unwrap();
    g.play_move("5").unwrap();
    g.play_move("3").unwrap();
    g.play_move("9").unwrap();

    let st = g.export_state();
    assert_eq!(st.finished, true);
    assert_eq!(st.result, "O");
}

#[test]
fn test_five_by_five_fresh_board_positions() {
    let g = Game::new(" x , 5 ").unwrap();
    let st = g.export_state();
    assert_eq!(st.board.len(), 5);
    for r in 0..5 {
        assert_eq!(st.board[r].len(), 5);
        for c in 0..5 {
            assert_eq!(st.board[r][c], (r * 5 + c + 1).to_string());
        }
    }
    assert_eq!(st.next_on_move, "X");
    assert_eq!(st.finished, false);
    assert_eq!(st.result, "");
}

#[test]
fn test_five_by_five_row_win() {
    let mut g = Game::new("x,5").unwrap();
    // X takes row 0 (1..5), O answers in row 1 (6..9)
    g.play_move("1").unwrap();
    g.play_move("6").unwrap();
    g.play_move("2").unwrap();
    g.play_move("7").unwrap();
    g.play_move("3").unwrap();
    g.play_move("8").unwrap();
    g.play_move("4").unwrap();
    g.play_move("9").unwrap();
    g.play_move("5").unwrap();

    let st = g.export_state();
    assert_eq!(st.finished, true);
    assert_eq!(st.result, "X");
}
