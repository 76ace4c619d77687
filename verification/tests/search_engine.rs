use std::str::FromStr;
use std::time::Duration;

use chess_engine::evaluate::evaluate_board;
use chess_engine::search::best_move;

fn run(
    pruning: bool,
    board: &chess::Board,
    depth: u32,
    maximizing: bool,
) -> (i32, Option<chess::ChessMove>, u64) {
    let mut count: u64 = 0;
    let mut elapsed: Duration = Duration::ZERO;
    let (score, mv) = best_move(&pruning, board, depth, maximizing, &mut count, &mut elapsed);
    (score, mv, count)
}

#[test]
fn depth_zero_returns_the_evaluation_and_no_move() {
    let board = chess::Board::default();
    for pruning in [false, true] {
        let (score, mv, count) = run(pruning, &board, 0, true);
        assert_eq!(score, evaluate_board(&board));
        assert_eq!(mv, None);
        assert_eq!(count, 1);
    }
}

#[test]
fn checkmate_short_circuits_to_one_node() {
    // The fool's mate: White stands checkmated, so any depth evaluates
    // the position itself and visits exactly one node.
    let board =
        chess::Board::from_str("rnb1kbnr/pppp1ppp/8/4p3/6Pq/5P2/PPPPP2P/RNBQKBNR w KQkq - 1 3")
            .unwrap();
    let baseline = run(false, &board, 0, true);
    for pruning in [false, true] {
        let (score, mv, count) = run(pruning, &board, 3, true);
        assert_eq!(score, baseline.0);
        assert_eq!(mv, None);
        assert_eq!(count, 1);
    }
}

#[test]
fn depth_one_from_the_start_scores_the_chosen_reply() {
    // At depth 1 the score of the chosen move is exactly the evaluation
    // of the position it leads to, and no capture is available, so the
    // score stays a small positional gain (a knight reaching f3 or c3).
    let board = chess::Board::default();
    for pruning in [false, true] {
        let (score, mv, _) = run(pruning, &board, 1, true);
        let mv = mv.expect("the starting position has legal moves");
        let child = board.make_move_new(mv);
        assert_eq!(score, evaluate_board(&child));
        assert_eq!(score, 50);
        assert!(score.abs() < 100);
    }
}

#[test]
fn free_queen_is_captured_at_depth_one() {
    // Black's queen on d5 hangs to the e4 pawn; taking it must win about
    // a queen's worth over the standing evaluation.
    let board = chess::Board::from_str("k7/8/8/3q4/4P3/8/8/K7 w - - 0 1").unwrap();
    let before = evaluate_board(&board);
    let capture = chess::ChessMove::new(chess::Square::E4, chess::Square::D5, None);
    for pruning in [false, true] {
        let (score, mv, _) = run(pruning, &board, 1, true);
        assert_eq!(mv, Some(capture));
        assert!(score - before >= 900);
        assert_eq!(score, 125);
    }
}

#[test]
fn pruning_changes_neither_score_nor_move() {
    let positions = [
        chess::Board::default(),
        chess::Board::from_str("r1bqkbnr/pppp1ppp/2n5/4p3/2B1P3/5N2/PPPP1PPP/RNBQK2R b KQkq - 3 3")
            .unwrap(),
        chess::Board::from_str("k7/8/8/3q4/4P3/8/8/K7 w - - 0 1").unwrap(),
    ];
    for board in positions {
        let maximizing = board.side_to_move() == chess::Color::White;
        for depth in 0..4u32 {
            let plain = run(false, &board, depth, maximizing);
            let pruned = run(true, &board, depth, maximizing);
            assert_eq!(pruned.0, plain.0);
            assert_eq!(pruned.1, plain.1);
            assert!(pruned.2 <= plain.2);
        }
    }
}

#[test]
fn plain_walk_counts_every_node_once() {
    // Without pruning the node count from the start is the sum of the
    // move counts at each level: 1, then 20 replies, then 400, then 8902.
    let board = chess::Board::default();
    assert_eq!(run(false, &board, 0, true).2, 1);
    assert_eq!(run(false, &board, 1, true).2, 21);
    assert_eq!(run(false, &board, 2, true).2, 421);
    assert_eq!(run(false, &board, 3, true).2, 9323);
}

#[test]
fn deepening_never_lowers_the_plain_node_count() {
    let board =
        chess::Board::from_str("r1bqkbnr/pppp1ppp/2n5/4p3/2B1P3/5N2/PPPP1PPP/RNBQK2R b KQkq - 3 3")
            .unwrap();
    let mut previous: u64 = 0;
    for depth in 0..4u32 {
        let nodes = run(false, &board, depth, false).2;
        assert!(nodes >= previous);
        previous = nodes;
    }
}
