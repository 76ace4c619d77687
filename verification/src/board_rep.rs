use vstd::prelude::*;

verus! {

// A square of the board model is a pair: a piece code and a colour flag
// (true for Black). Code 0 is an empty square, whose colour flag is false.
pub const EMPTY_CODE: u8 = 0;
pub const PAWN_CODE: u8 = 1;
pub const KNIGHT_CODE: u8 = 2;
pub const BISHOP_CODE: u8 = 3;
pub const ROOK_CODE: u8 = 4;
pub const QUEEN_CODE: u8 = 5;
pub const KING_CODE: u8 = 6;

/// One square of the counterpart position: the same piece with its colour
/// swapped; an empty square stays empty.
pub open spec fn flip_square(c: (u8, bool)) -> (u8, bool) {
    if c.0 == EMPTY_CODE {
        (EMPTY_CODE, false)
    } else {
        (c.0, !c.1)
    }
}

/// The mirrored, colour-swapped counterpart of a board: the piece standing
/// on square `63 - i` moves to square `i` and changes colour. `63 - i` is
/// the same index map the piece-square tables use for Black's lookups.
pub open spec fn mirror_board(s: Seq<(u8, bool)>) -> Seq<(u8, bool)> {
    Seq::new(64, |i: int| flip_square(s[63 - i]))
}

} // verus!
