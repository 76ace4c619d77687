use vstd::prelude::*;

verus! {

// The boundary to the rules engine of the `chess` crate. The engine owns
// the board representation, legal-move enumeration, move application and
// game-status detection; this module gives each of those a name or a thin
// wrapper whose contract states what the crate's source shows, and
// everything above it is verified against those contracts alone.

#[verifier::external_type_specification]
#[verifier::external_body]
pub struct ExBoard(chess::Board);

#[verifier::external_type_specification]
#[verifier::external_body]
pub struct ExChessMove(chess::ChessMove);

#[verifier::external_type_specification]
#[verifier::external_body]
pub struct ExInstant(std::time::Instant);

/// What a position holds: for each of the 64 squares, rank-major from a1,
/// the piece code and colour flag of `crate::board_rep`.
pub uninterp spec fn squares_of(board: chess::Board) -> Seq<(u8, bool)>;

/// The legal moves of a position, in the order `chess::MoveGen` yields
/// them: a pure, deterministic function of the position alone.
pub uninterp spec fn moves_of(board: chess::Board) -> Seq<chess::ChessMove>;

/// The position reached by playing one legal move: the pure result of
/// `chess::Board::make_move_new`, a function of its two arguments alone.
pub uninterp spec fn child_of(board: chess::Board, mv: chess::ChessMove) -> chess::Board;

/// Relies on chess::Board::piece_on and chess::Board::color_on: the piece
/// and colour standing on the square with the given rank-major index. An
/// empty square reads as code 0 with the colour flag false, since color_on
/// answers None there.
#[verifier::external_body]
pub(crate) fn square_piece(board: &chess::Board, index: u8) -> (r: (u8, bool))
    requires
        index < 64,
    ensures
        r == squares_of(*board)[index as int],
{
    let sq = chess::ALL_SQUARES[index as usize];
    let code: u8 = match board.piece_on(sq) {
        None => 0,
        Some(chess::Piece::Pawn) => 1,
        Some(chess::Piece::Knight) => 2,
        Some(chess::Piece::Bishop) => 3,
        Some(chess::Piece::Rook) => 4,
        Some(chess::Piece::Queen) => 5,
        Some(chess::Piece::King) => 6,
    };
    (code, board.color_on(sq) == Some(chess::Color::Black))
}

/// Relies on chess::MoveGen::new_legal: every legal move of the position,
/// yielded in the generator's deterministic order.
#[verifier::external_body]
pub(crate) fn legal_move_list(board: &chess::Board) -> (r: Vec<chess::ChessMove>)
    ensures
        r@ == moves_of(*board),
{
    chess::MoveGen::new_legal(board).collect()
}

/// Relies on chess::Board::make_move_new: applying a move yields the
/// successor position and leaves the given one untouched. The move must be
/// legal, since make_move_new may panic on one that is not.
#[verifier::external_body]
pub(crate) fn apply_move(board: &chess::Board, mv: chess::ChessMove) -> (r: chess::Board)
    requires
        moves_of(*board).contains(mv),
    ensures
        r == child_of(*board, mv),
{
    board.make_move_new(mv)
}

/// Relies on chess::Board::status, whose source derives the status from
/// MoveGen::new_legal alone: the game is ongoing exactly when the position
/// has at least one legal move.
#[verifier::external_body]
pub(crate) fn board_ongoing(board: &chess::Board) -> (r: bool)
    ensures
        r == (moves_of(*board).len() > 0),
{
    board.status() == chess::BoardStatus::Ongoing
}

/// Relies on std::time::Instant::now. Nothing is promised of the clock.
#[verifier::external_body]
pub(crate) fn clock_now() -> std::time::Instant {
    std::time::Instant::now()
}

/// Relies on std::time::Instant::elapsed. Nothing is promised of the
/// measured span.
#[verifier::external_body]
pub(crate) fn elapsed_since(start: &std::time::Instant) -> std::time::Duration {
    start.elapsed()
}

} // verus!
