use vstd::prelude::*;

verus! {

/// States of the turn-handling state machine that drives the interplay
/// between the human player and the engine.
pub enum TurnStates {
    PieceSelection,
    SquareSelection,
    OpponentMoves,
    Checkmate,
    Stalemate,
}

/// Every piece kind of either colour, as the presentation layer keeps its
/// sprites.
pub enum PiecesAndColors {
    WhitePawn,
    WhiteBishop,
    WhiteKnight,
    WhiteRook,
    WhiteQueen,
    WhiteKing,
    BlackPawn,
    BlackBishop,
    BlackKnight,
    BlackRook,
    BlackQueen,
    BlackKing,
}

/// Where a piece's sprite stands in the presentation layer's image list:
/// the pieces in value order, White before Black at each step.
pub open spec fn spec_piece_index(bb_type: PiecesAndColors) -> int {
    match bb_type {
        PiecesAndColors::WhitePawn => 0,
        PiecesAndColors::BlackPawn => 1,
        PiecesAndColors::WhiteBishop => 2,
        PiecesAndColors::BlackBishop => 3,
        PiecesAndColors::WhiteKnight => 4,
        PiecesAndColors::BlackKnight => 5,
        PiecesAndColors::WhiteRook => 6,
        PiecesAndColors::BlackRook => 7,
        PiecesAndColors::WhiteQueen => 8,
        PiecesAndColors::BlackQueen => 9,
        PiecesAndColors::WhiteKing => 10,
        PiecesAndColors::BlackKing => 11,
    }
}

/// The index of a piece's sprite in the presentation layer's image list.
pub fn piece_to_index(bb_type: &PiecesAndColors) -> (r: usize)
    ensures
        r == spec_piece_index(*bb_type),
        r < 12,
{
    match bb_type {
        PiecesAndColors::WhitePawn => 0,
        PiecesAndColors::BlackPawn => 1,
        PiecesAndColors::WhiteBishop => 2,
        PiecesAndColors::BlackBishop => 3,
        PiecesAndColors::WhiteKnight => 4,
        PiecesAndColors::BlackKnight => 5,
        PiecesAndColors::WhiteRook => 6,
        PiecesAndColors::BlackRook => 7,
        PiecesAndColors::WhiteQueen => 8,
        PiecesAndColors::BlackQueen => 9,
        PiecesAndColors::WhiteKing => 10,
        PiecesAndColors::BlackKing => 11,
    }
}

} // verus!
