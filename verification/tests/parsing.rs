use tic_tac_toe::board_dimension;
use tic_tac_toe::board_dimension::{DEFAULT_VALUE, MAX_VALUE, MIN_VALUE};
use tic_tac_toe::board_move;
use tic_tac_toe::player_mark;
use tic_tac_toe::player_mark::PlayerMark;
use tic_tac_toe::settings::{parse, Settings};

#[test]
fn settings_test_parse_empty_return_default() {
    let default_settings = Settings {
        first_player: player_mark::get_default(),
        board_dimension: board_dimension::get_default(),
    };
    assert_eq!(parse("").unwrap(), default_settings);
    assert_eq!(parse(" ").unwrap(), default_settings);
    assert_eq!(parse("\t").unwrap(), default_settings);
}

#[test]
fn test_parse_one_argument_success() {
    assert_eq!(
        parse("x").unwrap(),
        Settings {
            first_player: PlayerMark::X,
            board_dimension: board_dimension::get_default(),
        }
    );
    assert_eq!(
        parse(" O ").unwrap(),
        Settings {
            first_player: PlayerMark::O,
            board_dimension: board_dimension::get_default(),
        }
    );
}

#[test]
fn test_parse_one_argument_failure() {
    let e = parse("abc").unwrap_err();
    assert_eq!(e.message(), "Player Mark 'abc' is not recognized");
}

#[test]
fn test_parse_two_arguments_success() {
    assert_eq!(
        parse(" x , 4 ").unwrap(),
        Settings {
            first_player: PlayerMark::X,
            board_dimension: board_dimension::parse("4").unwrap(),
        }
    );
}

#[test]
fn test_parse_two_arguments_wrong_player_mark() {
    let e = parse("abc, 4").unwrap_err();
    assert_eq!(e.message(), "Player Mark 'abc' is not recognized");
}

#[test]
fn test_parse_two_arguments_board_dimension_not_a_number() {
    let e = parse("x,4m").unwrap_err();
    assert_eq!(e.message(), "Board Dimension '4m' is not a number");
}

#[test]
fn test_parse_two_arguments_board_dimension_greater_than_max() {
    let e = parse("x, 44").unwrap_err();
    assert_eq!(e.message(), "Board Dimension can not be greater than 5");
}

#[test]
fn test_parse_three_arguments() {
    let e = parse("X,4,O").unwrap_err();
    assert_eq!(e.message(), "More than 2 settings provided: 'X,4,O'");
}

#[test]
fn board_dimension_test_parse_empty_return_default() {
    assert_eq!(board_dimension::parse("").unwrap().get_value(), DEFAULT_VALUE);
    assert_eq!(board_dimension::parse(" ").unwrap().get_value(), DEFAULT_VALUE);
    assert_eq!(board_dimension::parse("\t").unwrap().get_value(), DEFAULT_VALUE);
}

#[test]
fn board_dimension_test_parse_not_a_number() {
    let e = board_dimension::parse(" a1 ").unwrap_err();
    assert_eq!(e.message(), "Board Dimension ' a1 ' is not a number");
}

#[test]
fn board_dimension_test_parse_less_than_min() {
    let e = board_dimension::parse((MIN_VALUE - 1).to_string().as_str()).unwrap_err();
    assert_eq!(e.message(), "Board Dimension can not be less than 3");
}

#[test]
fn board_dimension_test_parse_greater_than_max() {
    let e = board_dimension::parse((MAX_VALUE + 1).to_string().as_str()).unwrap_err();
    assert_eq!(e.message(), "Board Dimension can not be greater than 5");
}

#[test]
fn test_parse_convert_min_value() {
    let bd = board_dimension::parse(MIN_VALUE.to_string().as_str())
        .unwrap()
        .get_value();
    assert_eq!(bd, MIN_VALUE);
}

#[test]
fn test_parse_convert_max_value() {
    let bd = board_dimension::parse(MAX_VALUE.to_string().as_str())
        .unwrap()
        .get_value();
    assert_eq!(bd, MAX_VALUE);
}

#[test]
fn board_dimension_test_business_rules() {
    assert_eq!(MIN_VALUE, 3);
    assert_eq!(MAX_VALUE, 5);
    assert_eq!(DEFAULT_VALUE, 3);
}

#[test]
fn test_get_indices() {
    let board_dimension = board_dimension::parse("3").unwrap();

    let board_move = board_move::parse(&board_dimension, "3").unwrap();
    let (row_idx, col_idx) = board_move.get_indices();
    assert_eq!(row_idx, 0);
    assert_eq!(col_idx, 2);

    let board_move = board_move::parse(&board_dimension, "7").unwrap();
    let (row_idx, col_idx) = board_move.get_indices();
    assert_eq!(row_idx, 2);
    assert_eq!(col_idx, 0);

    let board_move = board_move::parse(&board_dimension, "9").unwrap();
    let (row_idx, col_idx) = board_move.get_indices();
    assert_eq!(row_idx, 2);
    assert_eq!(col_idx, 2);
}

#[test]
fn test_parse_empty() {
    let board_dimension = board_dimension::parse("3").unwrap();
    let e = board_move::parse(&board_dimension, "").unwrap_err();
    assert_eq!(e.message(), "Move '' is not a number");
}

#[test]
fn test_parse_spaces_only() {
    let board_dimension = board_dimension::parse("3").unwrap();
    let e = board_move::parse(&board_dimension, " \t ").unwrap_err();
    assert_eq!(e.message(), "Move ' \t ' is not a number");
}

#[test]
fn board_move_test_parse_not_a_number() {
    let board_dimension = board_dimension::parse("3").unwrap();
    let e = board_move::parse(&board_dimension, "abc").unwrap_err();
    assert_eq!(e.message(), "Move 'abc' is not a number");
}

#[test]
fn board_move_test_parse_less_than_min() {
    let board_dimension = board_dimension::parse("3").unwrap();
    let e = board_move::parse(&board_dimension, "0 ").unwrap_err();
    assert_eq!(e.message(), "Move can not be less than 1");
}

#[test]
fn board_move_test_parse_greater_than_max() {
    let board_dimension = board_dimension::parse("4").unwrap();
    let e = board_move::parse(&board_dimension, " 100").unwrap_err();
    assert_eq!(e.message(), "Move can not be greater than 16");
}

#[test]
fn test_parse_success() {
    let num = 7;
    let board_dimension = board_dimension::parse("3").unwrap();
    let board_move = board_move::parse(&board_dimension, num.to_string().as_str()).unwrap();
    assert_eq!(board_move.value, num);
}

#[test]
fn player_mark_test_parse_empty_return_default() {
    assert_eq!(player_mark::parse("").unwrap(), player_mark::get_default());
    assert_eq!(player_mark::parse(" ").unwrap(), player_mark::get_default());
    assert_eq!(player_mark::parse("\t").unwrap(), player_mark::get_default());
}

#[test]
fn test_parse_lower_x_return_x() {
    assert_eq!(player_mark::parse("x").unwrap(), PlayerMark::X);
}

#[test]
fn test_parse_o_with_spaces_return_o() {
    assert_eq!(player_mark::parse(" O ").unwrap(), PlayerMark::O);
}

#[test]
fn test_parse_wrong_string() {
    let e = player_mark::parse(" abc ").unwrap_err();
    assert_eq!(e.message(), "Player Mark ' abc ' is not recognized");
}

#[test]
fn player_mark_test_business_rules() {
    assert_eq!(player_mark::get_default(), PlayerMark::X);
}
