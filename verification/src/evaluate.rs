use vstd::prelude::*;
use crate::board_rep::{
    PAWN_CODE, KNIGHT_CODE, BISHOP_CODE, ROOK_CODE, QUEEN_CODE, KING_CODE, flip_square,
    mirror_board,
};
use crate::piece_square_tables::{
    PAWN_PST, KNIGHT_PST, BISHOP_PST, ROOK_PST, QUEEN_PST, MG_KING_PST, EG_KING_PST, spec_pst,
};
use crate::rules::{squares_of, square_piece};

verus! {

// The static evaluator: material plus positional bonus for every piece on
// the board, positive for White and negative for Black, in centipawns.

/// Material worth of a piece code, in centipawns; codes that name no piece
/// are worth nothing.
pub open spec fn spec_piece_value(piece: u8) -> int {
    if piece == PAWN_CODE {
        100
    } else if piece == KNIGHT_CODE {
        320
    } else if piece == BISHOP_CODE {
        330
    } else if piece == ROOK_CODE {
        500
    } else if piece == QUEEN_CODE {
        900
    } else if piece == KING_CODE {
        20000
    } else {
        0
    }
}

/// How many of the first `n` squares hold exactly the given piece of the
/// given colour.
pub open spec fn count_upto(s: Seq<(u8, bool)>, piece: u8, black: bool, n: int) -> int
    decreases n,
{
    if n <= 0 {
        0
    } else {
        count_upto(s, piece, black, n - 1) + if s[n - 1] == (piece, black) {
            1int
        } else {
            0int
        }
    }
}

/// One side's knights, bishops, rooks and queens together.
pub open spec fn heavy_count(s: Seq<(u8, bool)>, black: bool) -> int {
    count_upto(s, KNIGHT_CODE, black, 64) + count_upto(s, BISHOP_CODE, black, 64)
        + count_upto(s, ROOK_CODE, black, 64) + count_upto(s, QUEEN_CODE, black, 64)
}

/// One side has reached the endgame when it keeps no queen, or exactly one
/// queen and no other piece beyond king and pawns.
pub open spec fn spec_color_endgame(s: Seq<(u8, bool)>, black: bool) -> bool {
    let queens = count_upto(s, QUEEN_CODE, black, 64);
    queens == 0 || (queens == 1 && heavy_count(s, black) <= 1)
}

/// The endgame king table is consulted once both sides independently
/// satisfy the endgame condition.
pub open spec fn spec_is_endgame(s: Seq<(u8, bool)>) -> bool {
    spec_color_endgame(s, false) && spec_color_endgame(s, true)
}

/// The positional bonus of a piece on a square: White reads the table at
/// the square's own index, Black at the vertically mirrored index.
pub open spec fn spec_square_bonus(piece: u8, index: int, black: bool, endgame: bool) -> int {
    if black {
        spec_pst(piece, 63 - index, endgame)
    } else {
        spec_pst(piece, index, endgame)
    }
}

/// What one square adds to the evaluation: material plus positional bonus,
/// negated for Black; empty squares and codes that name no piece add zero.
pub open spec fn spec_contribution(s: Seq<(u8, bool)>, i: int) -> int {
    let piece = s[i].0;
    let black = s[i].1;
    if 1 <= piece <= 6 {
        let v = spec_piece_value(piece) + spec_square_bonus(piece, i, black, spec_is_endgame(s));
        if black {
            -v
        } else {
            v
        }
    } else {
        0
    }
}

/// The evaluation summed over the first `n` squares.
pub open spec fn eval_upto(s: Seq<(u8, bool)>, n: int) -> int
    decreases n,
{
    if n <= 0 {
        0
    } else {
        eval_upto(s, n - 1) + spec_contribution(s, n - 1)
    }
}

/// The full evaluation of a position: the sum over all 64 squares.
pub open spec fn spec_evaluate(s: Seq<(u8, bool)>) -> int {
    eval_upto(s, 64)
}

/// No evaluation leaves this many centipawns: 64 squares, each worth at
/// most a king plus the largest bonus an `i8` table entry can hold.
pub const MAX_EVAL: i32 = 1288192;

pub proof fn lemma_contribution_bounded(s: Seq<(u8, bool)>, i: int)
    ensures
        -20128 <= spec_contribution(s, i) <= 20128,
{
}

pub proof fn lemma_eval_upto_bounded(s: Seq<(u8, bool)>, n: int)
    requires
        n >= 0,
    ensures
        -20128 * n <= eval_upto(s, n),
        eval_upto(s, n) <= 20128 * n,
    decreases n,
{
    if n > 0 {
        lemma_eval_upto_bounded(s, n - 1);
        lemma_contribution_bounded(s, n - 1);
    }
}

/// The evaluation of any board model stays strictly inside the pruning
/// sentinels.
pub proof fn lemma_evaluate_bounded(s: Seq<(u8, bool)>)
    ensures
        -MAX_EVAL <= spec_evaluate(s) <= MAX_EVAL,
{
    lemma_eval_upto_bounded(s, 64);
}

/// Vertical mirror of a board square index (rank-major, 0..64): the index
/// from which a black piece reads a white-perspective piece-square table.
pub fn mirror_index(index: usize) -> (r: usize)
    requires
        index < 64,
    ensures
        r == 63 - index,
{
    63 - index
}

/// Material worth of a piece code, in centipawns.
pub fn piece_value(piece: u8) -> (r: i32)
    ensures
        r as int == spec_piece_value(piece),
{
    if piece == PAWN_CODE {
        100
    } else if piece == KNIGHT_CODE {
        320
    } else if piece == BISHOP_CODE {
        330
    } else if piece == ROOK_CODE {
        500
    } else if piece == QUEEN_CODE {
        900
    } else if piece == KING_CODE {
        20000
    } else {
        0
    }
}

/// Positional bonus of a piece on a square, read from the White-perspective
/// tables, with Black looking up the vertically mirrored square and the
/// king switching tables with the game phase.
pub fn piece_square_value(piece: u8, index: usize, black: bool, endgame: bool) -> (r: i32)
    requires
        index < 64,
    ensures
        r as int == spec_square_bonus(piece, index as int, black, endgame),
        -128 <= r <= 128,
{
    let idx: usize = if black {
        mirror_index(index)
    } else {
        index
    };
    if piece == PAWN_CODE {
        PAWN_PST[idx] as i32
    } else if piece == KNIGHT_CODE {
        KNIGHT_PST[idx] as i32
    } else if piece == BISHOP_CODE {
        BISHOP_PST[idx] as i32
    } else if piece == ROOK_CODE {
        ROOK_PST[idx] as i32
    } else if piece == QUEEN_CODE {
        QUEEN_PST[idx] as i32
    } else if piece == KING_CODE {
        if endgame {
            EG_KING_PST[idx] as i32
        } else {
            MG_KING_PST[idx] as i32
        }
    } else {
        0
    }
}

/// How many squares of a board model hold exactly the given piece of the
/// given colour.
pub fn count_code(codes: &Vec<(u8, bool)>, piece: u8, black: bool) -> (r: u32)
    requires
        codes@.len() == 64,
    ensures
        r as int == count_upto(codes@, piece, black, 64),
        r <= 64,
{
    let mut c: u32 = 0;
    let mut i: usize = 0;
    while i < 64
        invariant
            codes@.len() == 64,
            i <= 64,
            c as int == count_upto(codes@, piece, black, i as int),
            c <= i,
        decreases 64 - i,
    {
        let sq: (u8, bool) = codes[i];
        if sq.0 == piece && sq.1 == black {
            c = c + 1;
        }
        i = i + 1;
    }
    c
}

/// One side's knights, bishops, rooks and queens together.
pub fn count_pieces(codes: &Vec<(u8, bool)>, black: bool) -> (r: u32)
    requires
        codes@.len() == 64,
    ensures
        r as int == heavy_count(codes@, black),
{
    let knights = count_code(codes, KNIGHT_CODE, black);
    let bishops = count_code(codes, BISHOP_CODE, black);
    let rooks = count_code(codes, ROOK_CODE, black);
    let queens = count_code(codes, QUEEN_CODE, black);
    knights + bishops + rooks + queens
}

/// Whether the position has reached the endgame that switches the king to
/// its endgame table.
pub fn check_special_endgame(codes: &Vec<(u8, bool)>) -> (r: bool)
    requires
        codes@.len() == 64,
    ensures
        r == spec_is_endgame(codes@),
{
    let white_queens = count_code(codes, QUEEN_CODE, false);
    let black_queens = count_code(codes, QUEEN_CODE, true);
    let white_count = count_pieces(codes, false);
    let black_count = count_pieces(codes, true);
    let white_condition = white_queens == 0 || (white_queens == 1 && white_count <= 1);
    let black_condition = black_queens == 0 || (black_queens == 1 && black_count <= 1);
    white_condition && black_condition
}

/// The full evaluation of a board model: material and positional bonus of
/// every piece, positive for White, negative for Black.
pub fn evaluate_squares(codes: &Vec<(u8, bool)>) -> (r: i32)
    requires
        codes@.len() == 64,
    ensures
        r as int == spec_evaluate(codes@),
        -MAX_EVAL <= r <= MAX_EVAL,
{
    let endgame = check_special_endgame(codes);
    let mut total: i32 = 0;
    let mut i: usize = 0;
    while i < 64
        invariant
            codes@.len() == 64,
            i <= 64,
            endgame == spec_is_endgame(codes@),
            total as int == eval_upto(codes@, i as int),
            -20128 * (i as int) <= total as int <= 20128 * (i as int),
        decreases 64 - i,
    {
        let sq: (u8, bool) = codes[i];
        if 1 <= sq.0 && sq.0 <= 6 {
            let v = piece_value(sq.0) + piece_square_value(sq.0, i, sq.1, endgame);
            if sq.1 {
                total = total - v;
            } else {
                total = total + v;
            }
        }
        i = i + 1;
    }
    total
}

/// Two board models that agree on all 64 squares count every piece alike.
proof fn lemma_count_agree(s: Seq<(u8, bool)>, t: Seq<(u8, bool)>, piece: u8, black: bool, n: int)
    requires
        n <= 64,
        forall|j: int| 0 <= j < 64 ==> s[j] == t[j],
    ensures
        count_upto(s, piece, black, n) == count_upto(t, piece, black, n),
    decreases n,
{
    if n > 0 {
        lemma_count_agree(s, t, piece, black, n - 1);
    }
}

/// Two board models that agree on all 64 squares evaluate alike.
pub proof fn lemma_evaluate_agree(s: Seq<(u8, bool)>, t: Seq<(u8, bool)>)
    requires
        forall|j: int| 0 <= j < 64 ==> s[j] == t[j],
    ensures
        spec_evaluate(s) == spec_evaluate(t),
{
    assert forall|piece: u8, black: bool|
        count_upto(s, piece, black, 64) == count_upto(t, piece, black, 64) by {
        lemma_count_agree(s, t, piece, black, 64);
    }
    lemma_eval_upto_agree(s, t, 64);
}

proof fn lemma_eval_upto_agree(s: Seq<(u8, bool)>, t: Seq<(u8, bool)>, n: int)
    requires
        n <= 64,
        forall|j: int| 0 <= j < 64 ==> s[j] == t[j],
        spec_is_endgame(s) == spec_is_endgame(t),
    ensures
        eval_upto(s, n) == eval_upto(t, n),
    decreases n,
{
    if n > 0 {
        lemma_eval_upto_agree(s, t, n - 1);
    }
}

/// How many of the squares from `n` up to 63 hold exactly the given piece
/// of the given colour.
spec fn count_from(s: Seq<(u8, bool)>, piece: u8, black: bool, n: int) -> int
    decreases 64 - n,
{
    if n >= 64 {
        0
    } else {
        (if s[n] == (piece, black) {
            1int
        } else {
            0int
        }) + count_from(s, piece, black, n + 1)
    }
}

proof fn lemma_count_split(s: Seq<(u8, bool)>, piece: u8, black: bool, n: int)
    requires
        0 <= n <= 64,
    ensures
        count_upto(s, piece, black, 64) == count_upto(s, piece, black, n) + count_from(
            s,
            piece,
            black,
            n,
        ),
    decreases 64 - n,
{
    if n < 64 {
        lemma_count_split(s, piece, black, n + 1);
    }
}

proof fn lemma_count_mirror_prefix(s: Seq<(u8, bool)>, piece: u8, black: bool, n: int)
    requires
        piece != 0,
        0 <= n <= 64,
    ensures
        count_upto(mirror_board(s), piece, black, n) == count_from(s, piece, !black, 64 - n),
    decreases n,
{
    if n > 0 {
        lemma_count_mirror_prefix(s, piece, black, n - 1);
        assert(mirror_board(s)[n - 1] == flip_square(s[64 - n]));
    }
}

/// Mirroring and colour-swapping a board swaps each side's piece counts.
proof fn lemma_count_mirror(s: Seq<(u8, bool)>, piece: u8, black: bool)
    requires
        piece != 0,
    ensures
        count_upto(mirror_board(s), piece, black, 64) == count_upto(s, piece, !black, 64),
{
    lemma_count_mirror_prefix(s, piece, black, 64);
    lemma_count_split(s, piece, !black, 0);
}

/// The endgame condition does not see which side is which, so it survives
/// the mirror.
proof fn lemma_endgame_mirror(s: Seq<(u8, bool)>)
    ensures
        spec_is_endgame(mirror_board(s)) == spec_is_endgame(s),
{
    let m = mirror_board(s);
    lemma_count_mirror(s, KNIGHT_CODE, false);
    lemma_count_mirror(s, KNIGHT_CODE, true);
    lemma_count_mirror(s, BISHOP_CODE, false);
    lemma_count_mirror(s, BISHOP_CODE, true);
    lemma_count_mirror(s, ROOK_CODE, false);
    lemma_count_mirror(s, ROOK_CODE, true);
    lemma_count_mirror(s, QUEEN_CODE, false);
    lemma_count_mirror(s, QUEEN_CODE, true);
    assert(spec_color_endgame(m, false) == spec_color_endgame(s, true));
    assert(spec_color_endgame(m, true) == spec_color_endgame(s, false));
}

/// What one mirrored square contributes is the exact negation of what the
/// square it came from contributed.
proof fn lemma_contribution_mirror(s: Seq<(u8, bool)>, i: int)
    requires
        0 <= i < 64,
    ensures
        spec_contribution(mirror_board(s), i) == -spec_contribution(s, 63 - i),
{
    lemma_endgame_mirror(s);
    assert(mirror_board(s)[i] == flip_square(s[63 - i]));
    assert(63 - (63 - i) == i);
}

/// The evaluation summed over the squares from `n` up to 63.
spec fn eval_from(s: Seq<(u8, bool)>, n: int) -> int
    decreases 64 - n,
{
    if n >= 64 {
        0
    } else {
        spec_contribution(s, n) + eval_from(s, n + 1)
    }
}

proof fn lemma_eval_split(s: Seq<(u8, bool)>, n: int)
    requires
        0 <= n <= 64,
    ensures
        eval_upto(s, 64) == eval_upto(s, n) + eval_from(s, n),
    decreases 64 - n,
{
    if n < 64 {
        lemma_eval_split(s, n + 1);
    }
}

proof fn lemma_eval_mirror_prefix(s: Seq<(u8, bool)>, n: int)
    requires
        0 <= n <= 64,
    ensures
        eval_upto(mirror_board(s), n) == -eval_from(s, 64 - n),
    decreases n,
{
    if n > 0 {
        lemma_eval_mirror_prefix(s, n - 1);
        lemma_contribution_mirror(s, n - 1);
    }
}

/// The evaluation is antisymmetric: mirroring every piece to its vertically
/// mirrored square and swapping the colours negates the score.
pub proof fn lemma_evaluate_antisymmetry(s: Seq<(u8, bool)>)
    ensures
        spec_evaluate(mirror_board(s)) == -spec_evaluate(s),
{
    lemma_eval_mirror_prefix(s, 64);
    lemma_eval_split(s, 0);
}

/// The evaluation of a position as the rules engine holds it.
pub fn evaluate_board(board: &chess::Board) -> (r: i32)
    ensures
        r as int == spec_evaluate(squares_of(*board)),
        -MAX_EVAL <= r <= MAX_EVAL,
{
    let mut codes: Vec<(u8, bool)> = Vec::new();
    let mut i: u8 = 0;
    while i < 64
        invariant
            codes@.len() == i as int,
            i <= 64,
            forall|j: int| 0 <= j < i ==> codes@[j] == squares_of(*board)[j],
        decreases 64 - i,
    {
        let sq = square_piece(board, i);
        codes.push(sq);
        i = i + 1;
    }
    let r = evaluate_squares(&codes);
    proof {
        lemma_evaluate_agree(codes@, squares_of(*board));
    }
    r
}

} // verus!
