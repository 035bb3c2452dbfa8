//! A turn-based two-player grid game engine: it validates configuration,
//! tracks board state, accepts moves, and determines game-end conditions
//! (win or tie) on an N-by-N board with N between 3 and 5.

pub mod board;
pub mod board_dimension;
pub mod board_move;
pub mod cell_value;
pub mod errors;
pub mod game;
pub mod game_state;
pub mod player_mark;
pub mod setting_rules;
pub mod settings;
pub mod state_calculation;
pub mod text;
