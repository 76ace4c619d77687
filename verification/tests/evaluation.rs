use std::str::FromStr;

use chess_engine::evaluate::{
    check_special_endgame, count_pieces, evaluate_board, evaluate_squares, mirror_index,
    piece_square_value, piece_value,
};
use chess_engine::ui_state::{piece_to_index, PiecesAndColors};

fn empty_codes() -> Vec<(u8, bool)> {
    vec![(0u8, false); 64]
}

#[test]
fn piece_values_are_the_classic_centipawns() {
    assert_eq!(piece_value(1), 100);
    assert_eq!(piece_value(2), 320);
    assert_eq!(piece_value(3), 330);
    assert_eq!(piece_value(4), 500);
    assert_eq!(piece_value(5), 900);
    assert_eq!(piece_value(6), 20000);
    assert_eq!(piece_value(0), 0);
}

#[test]
fn mirror_index_flips_the_board_vertically() {
    assert_eq!(mirror_index(0), 63);
    assert_eq!(mirror_index(63), 0);
    assert_eq!(mirror_index(4), 59);
    assert_eq!(mirror_index(28), 35);
}

#[test]
fn piece_to_index_orders_sprites_white_before_black() {
    assert_eq!(piece_to_index(&PiecesAndColors::WhitePawn), 0);
    assert_eq!(piece_to_index(&PiecesAndColors::BlackPawn), 1);
    assert_eq!(piece_to_index(&PiecesAndColors::WhiteBishop), 2);
    assert_eq!(piece_to_index(&PiecesAndColors::BlackBishop), 3);
    assert_eq!(piece_to_index(&PiecesAndColors::WhiteKnight), 4);
    assert_eq!(piece_to_index(&PiecesAndColors::BlackKnight), 5);
    assert_eq!(piece_to_index(&PiecesAndColors::WhiteRook), 6);
    assert_eq!(piece_to_index(&PiecesAndColors::BlackRook), 7);
    assert_eq!(piece_to_index(&PiecesAndColors::WhiteQueen), 8);
    assert_eq!(piece_to_index(&PiecesAndColors::BlackQueen), 9);
    assert_eq!(piece_to_index(&PiecesAndColors::WhiteKing), 10);
    assert_eq!(piece_to_index(&PiecesAndColors::BlackKing), 11);
}

#[test]
fn starting_position_is_balanced() {
    let board = chess::Board::default();
    assert_eq!(evaluate_board(&board), 0);
}

#[test]
fn lone_pawn_scores_material_plus_table() {
    // Ke1, Pe2 against ke8: kings cancel, the e2 pawn is worth 100 - 20.
    let board = chess::Board::from_str("4k3/8/8/8/8/8/4P3/4K3 w - - 0 1").unwrap();
    assert_eq!(evaluate_board(&board), 80);
}

#[test]
fn mirrored_counterpart_negates_the_score() {
    // The counterpart maps each piece from square i to square 63 - i and
    // swaps the colours: Ke1, Pe2, ke8 becomes kd8, pd7, Kd1.
    let board = chess::Board::from_str("4k3/8/8/8/8/8/4P3/4K3 w - - 0 1").unwrap();
    let mirrored = chess::Board::from_str("3k4/3p4/8/8/8/8/8/3K4 w - - 0 1").unwrap();
    assert_eq!(evaluate_board(&board), 80);
    assert_eq!(evaluate_board(&mirrored), -80);
}

#[test]
fn evaluate_squares_on_hand_built_boards() {
    let codes = empty_codes();
    assert_eq!(evaluate_squares(&codes), 0);

    // A single white pawn on e2 (index 12): 100 - 20 from the pawn table.
    let mut codes = empty_codes();
    codes[12] = (1, false);
    assert_eq!(evaluate_squares(&codes), 80);

    // The same pawn as Black on e7 (index 52) reads the mirrored entry.
    let mut codes = empty_codes();
    codes[52] = (1, true);
    assert_eq!(evaluate_squares(&codes), -80);
}

#[test]
fn count_pieces_counts_one_side_only() {
    let mut codes = empty_codes();
    codes[0] = (4, false); // white rook a1
    codes[3] = (5, false); // white queen d1
    codes[57] = (2, true); // black knight b8
    assert_eq!(count_pieces(&codes, false), 2);
    assert_eq!(count_pieces(&codes, true), 1);
}

#[test]
fn endgame_condition_follows_queens_and_heavy_pieces() {
    // Kings and pawns only: endgame.
    let mut codes = empty_codes();
    codes[4] = (6, false);
    codes[60] = (6, true);
    codes[12] = (1, false);
    codes[52] = (1, true);
    assert!(check_special_endgame(&codes));

    // One queen and nothing else heavy still counts as endgame.
    codes[3] = (5, false);
    assert!(check_special_endgame(&codes));

    // A queen beside a rook tips the side into the midgame.
    codes[0] = (4, false);
    assert!(!check_special_endgame(&codes));
}

#[test]
fn king_table_switches_between_phases() {
    // The white king on e1 (index 4) reads 0 from the midgame table and
    // -30 from the endgame table.
    assert_eq!(piece_square_value(6, 4, false, false), 0);
    assert_eq!(piece_square_value(6, 4, false, true), -30);
    // On g1 (index 6) the two tables even disagree about the sign.
    assert_eq!(piece_square_value(6, 6, false, false), 30);
    assert_eq!(piece_square_value(6, 6, false, true), -30);
}

#[test]
fn queen_presence_switches_the_king_table() {
    // Ra1, Kg1 against ke8 with no queens: both kings read the endgame
    // table (g1 gives -30, e8 gives -30), so the rook's 500 is all.
    let endgame = chess::Board::from_str("4k3/8/8/8/8/8/8/R5K1 w - - 0 1").unwrap();
    assert_eq!(evaluate_board(&endgame), 500);

    // The same position with a white queen on b1: the white side now has
    // a queen beside another heavy piece, so both kings read the midgame
    // table (g1 gives +30, e8 gives 0) and the queen adds 900 - 10.
    let midgame = chess::Board::from_str("4k3/8/8/8/8/8/8/RQ4K1 w - - 0 1").unwrap();
    assert_eq!(evaluate_board(&midgame), 1420);
}
