pub mod board_rep;
pub mod evaluate;
pub mod piece_square_tables;
pub mod rules;
pub mod search;
pub mod ui_state;
