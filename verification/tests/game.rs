use tic_tac_toe::game::Game;
use tic_tac_toe::game_state::GameState;
use tic_tac_toe::setting_rules::get_game_settings_rules;

fn board_strings(rows: &[&[&str]]) -> Vec<Vec<String>> {
    rows.iter()
        .map(|r| r.iter().map(|s| s.to_string()).collect())
        .collect()
}

fn state(rows: &[&[&str]], next_on_move: &str, finished: bool, result: &str) -> GameState {
    GameState {
        board: board_strings(rows),
        next_on_move: next_on_move.to_string(),
        finished,
        result: result.to_string(),
    }
}

#[test]
fn test_new_state() {
    let g = Game::new(" o , 3 ").unwrap();

    let state_expected = state(
        &[&["1", "2", "3"], &["4", "5", "6"], &["7", "8", "9"]],
        "O",
        false,
        "",
    );

    assert_eq!(state_expected, g.export_state());
}

#[test]
fn test_play_moves_state() {
    let mut g = Game::new(" x , 3 ").unwrap();
    g.play_move("1").unwrap();
    g.play_move("5").unwrap();
    g.play_move("9").unwrap();

    let state_expected = state(
        &[&["X", "2", "3"], &["4", "O", "6"], &["7", "8", "X"]],
        "O",
        false,
        "",
    );

    assert_eq!(state_expected, g.export_state());
}

#[test]
fn test_restart_state() {
    let mut g = Game::new(" o , 3 ").unwrap();
    g.play_move("1").unwrap();
    g.play_move("5").unwrap();
    g.play_move("9").unwrap();

    g = Game::new(" o , 3 ").unwrap();

    let state_expected = state(
        &[&["1", "2", "3"], &["4", "5", "6"], &["7", "8", "9"]],
        "O",
        false,
        "",
    );

    assert_eq!(state_expected, g.export_state());
}

#[test]
fn test_detect_finished_winner_x() {
    let mut g = Game::new(" x , 3 ").unwrap();
    // X wins on row 0
    g.play_move("1").unwrap();
    g.play_move("4").unwrap();
    g.play_move("2").unwrap();
    g.play_move("5").unwrap();
    g.play_move("3").unwrap();

    let st = g.export_state();
    assert_eq!(st.finished, true);
    assert_eq!(st.result, "X");
}

#[test]
fn test_detect_finished_winner_o() {
    let mut g = Game::new(" x , 3 ").unwrap();
    // O wins on right diagonal
    g.play_move("1").unwrap();
    g.play_move("3").unwrap();
    g.play_move("2").unwrap();
    g.play_move("5").unwrap();
    g.play_move("4").unwrap();
    g.play_move("7").unwrap();

    let st = g.export_state();
    assert_eq!(st.finished, true);
    assert_eq!(st.result, "O");
}

#[test]
fn test_detect_finished_tied() {
    let mut g = Game::new("O,3").unwrap();
    g.play_move("5").unwrap();
    g.play_move("3").unwrap();
    g.play_move("7").unwrap();
    g.play_move("1").unwrap();
    g.play_move("2").unwrap();
    g.play_move("8").unwrap();
    g.play_move("4").unwrap();
    g.play_move("6").unwrap();
    g.play_move("9").unwrap();

    let st = g.export_state();
    assert_eq!(st.finished, true);
    assert_eq!(st.result, "Tied");
}

#[test]
fn test_play_move_after_finished_winner_x() {
    let mut g = Game::new(" x , 3 ").unwrap();
    g.play_move("1").unwrap();
    g.play_move("4").unwrap();
    g.play_move("2").unwrap();
    g.play_move("5").unwrap();
    g.play_move("3").unwrap();

    let before = g.export_state();
    let e = g.play_move("6").unwrap_err();
    assert_eq!(e.message(), "Game is finished, you can not play a move");
    assert_eq!(before, g.export_state());
}

#[test]
fn test_play_move_after_finished_winner_o() {
    let mut g = Game::new(" x , 4 ").unwrap();
    g.play_move("2").unwrap();
    g.play_move("1").unwrap();
    g.play_move("7").unwrap();
    g.play_move("6").unwrap();
    g.play_move("12").unwrap();
    g.play_move("11").unwrap();
    g.play_move("13").unwrap();
    g.play_move("16").unwrap();

    let st = g.export_state();
    assert_eq!(st.finished, true);
    assert_eq!(st.result, "O");

    let e = g.play_move("5").unwrap_err();
    assert_eq!(e.message(), "Game is finished, you can not play a move");
}

#[test]
fn test_play_move_after_finished_tied() {
    let mut g = Game::new("O,3").unwrap();
    g.play_move("5").unwrap();
    g.play_move("3").unwrap();
    g.play_move("7").unwrap();
    g.play_move("1").unwrap();
    g.play_move("2").unwrap();
    g.play_move("8").unwrap();
    g.play_move("4").unwrap();
    g.play_move("6").unwrap();
    g.play_move("9").unwrap();

    let before = g.export_state();
    let e = g.play_move("1").unwrap_err();
    assert_eq!(e.message(), "Game is finished, you can not play a move");
    assert_eq!(before, g.export_state());
}

#[test]
fn test_get_game_settings_rules() {
    let rules = get_game_settings_rules();
    assert_eq!(rules.len(), 2);
    assert_eq!(rules[0].name, "First Player");
    assert_eq!(rules[0].allowed_values, "X,O");
    assert_eq!(rules[0].default_value, "X");
    assert_eq!(rules[1].name, "Board Size");
    assert_eq!(rules[1].allowed_values, "3,4,5");
    assert_eq!(rules[1].default_value, "3");
}
