use vstd::prelude::*;
use crate::evaluate::{spec_evaluate, evaluate_board, MAX_EVAL, lemma_evaluate_bounded};
use crate::rules::{
    squares_of, moves_of, child_of, legal_move_list, apply_move, board_ongoing, clock_now,
    elapsed_since,
};

verus! {

// The search engine: a fixed-depth game-tree walk, as plain minimax and as
// the alpha-beta-pruned variant. `spec_search` pins down the score and the
// chosen move of the walk exactly; both executable variants are proved to
// return that same result from the root, so switching pruning on can only
// change how many nodes are visited, never what is played.

/// The starting score at a node: the worst value for the side to choose,
/// so that any real child score improves on it.
pub open spec fn sentinel(maximizing: bool) -> int {
    if maximizing {
        i32::MIN as int
    } else {
        i32::MAX as int
    }
}

/// Whether a child's score strictly improves on the best seen so far, from
/// the choosing side's point of view; ties keep the earlier move.
pub open spec fn improves(maximizing: bool, score: int, best: int) -> bool {
    if maximizing {
        score > best
    } else {
        score < best
    }
}

/// Score and chosen move of the bounded game-tree walk from a position: at
/// depth 0 or on a position without legal moves, the static evaluation and
/// no move; otherwise the best reply among all legal moves, each judged by
/// the walk one level deeper with the sides swapped.
pub open spec fn spec_search(board: chess::Board, depth: nat, maximizing: bool) -> (
    int,
    Option<chess::ChessMove>,
)
    decreases depth, 1int, 0int,
{
    if depth == 0 || moves_of(board).len() == 0 {
        (spec_evaluate(squares_of(board)), None)
    } else {
        spec_search_prefix(board, depth, maximizing, moves_of(board).len() as int)
    }
}

/// Best score among the first `n` legal moves of a position, and the first
/// move that attains it.
pub open spec fn spec_search_prefix(board: chess::Board, depth: nat, maximizing: bool, n: int) -> (
    int,
    Option<chess::ChessMove>,
)
    decreases depth, 0int, n,
{
    if depth == 0 || n <= 0 {
        (sentinel(maximizing), None)
    } else {
        let prev = spec_search_prefix(board, depth, maximizing, n - 1);
        let mv = moves_of(board)[n - 1];
        let child = spec_search(child_of(board, mv), (depth - 1) as nat, !maximizing).0;
        if improves(maximizing, child, prev.0) {
            (child, Some(mv))
        } else {
            prev
        }
    }
}

/// How many nodes the plain walk visits from a position: this node, plus
/// every node under every legal move when the depth allows children.
pub open spec fn spec_nodes(board: chess::Board, depth: nat) -> int
    decreases depth, 1int, 0int,
{
    if depth == 0 || moves_of(board).len() == 0 {
        1
    } else {
        1 + spec_nodes_prefix(board, depth, moves_of(board).len() as int)
    }
}

/// Nodes visited under the first `n` legal moves of a position.
pub open spec fn spec_nodes_prefix(board: chess::Board, depth: nat, n: int) -> int
    decreases depth, 0int, n,
{
    if depth == 0 || n <= 0 {
        0
    } else {
        spec_nodes_prefix(board, depth, n - 1) + spec_nodes(
            child_of(board, moves_of(board)[n - 1]),
            (depth - 1) as nat,
        )
    }
}

/// A node count clipped to what a 64-bit counter can hold.
pub open spec fn spec_sat(n: int) -> int {
    if n > u64::MAX {
        u64::MAX as int
    } else {
        n
    }
}

fn sat_add_u64(a: u64, b: u64) -> (r: u64)
    ensures
        r as int == spec_sat(a + b),
{
    if a <= u64::MAX - b {
        a + b
    } else {
        u64::MAX
    }
}

proof fn lemma_sat_compose(a: int, b: int)
    requires
        0 <= a,
        0 <= b,
    ensures
        spec_sat(spec_sat(a) + b) == spec_sat(a + b),
{
}

proof fn lemma_sat_monotone(a: int, b: int)
    requires
        a <= b,
    ensures
        spec_sat(a) <= spec_sat(b),
{
}

/// Every full node count is at least the one visit of the node itself.
pub proof fn lemma_nodes_pos(board: chess::Board, depth: nat)
    ensures
        spec_nodes(board, depth) >= 1,
    decreases depth, 1int, 0int,
{
    if !(depth == 0 || moves_of(board).len() == 0) {
        lemma_nodes_prefix_monotone(board, depth, 0, moves_of(board).len() as int);
    }
}

/// Visiting more children never lowers the count under a node.
pub proof fn lemma_nodes_prefix_monotone(board: chess::Board, depth: nat, i: int, j: int)
    requires
        0 <= i <= j,
    ensures
        spec_nodes_prefix(board, depth, i) <= spec_nodes_prefix(board, depth, j),
    decreases depth, 0int, j,
{
    if i < j && depth > 0 {
        lemma_nodes_prefix_monotone(board, depth, i, j - 1);
        lemma_nodes_pos(child_of(board, moves_of(board)[j - 1]), (depth - 1) as nat);
    }
}

/// Every value the walk returns is a static evaluation of some position,
/// so it stays strictly inside the pruning sentinels; and whenever the walk
/// has a child to look at, it chooses a move.
pub proof fn lemma_search_bounded(board: chess::Board, depth: nat, maximizing: bool)
    ensures
        -MAX_EVAL <= spec_search(board, depth, maximizing).0 <= MAX_EVAL,
    decreases depth, 1int, 0int,
{
    if depth == 0 || moves_of(board).len() == 0 {
        lemma_evaluate_bounded(squares_of(board));
    } else {
        lemma_search_prefix_props(board, depth, maximizing, moves_of(board).len() as int);
    }
}

/// After at least one child, the running best of the walk is a real, bounded
/// score and a move has been chosen.
pub proof fn lemma_search_prefix_props(board: chess::Board, depth: nat, maximizing: bool, n: int)
    requires
        depth >= 1,
        n >= 1,
    ensures
        -MAX_EVAL <= spec_search_prefix(board, depth, maximizing, n).0 <= MAX_EVAL,
        spec_search_prefix(board, depth, maximizing, n).1 is Some,
    decreases depth, 0int, n,
{
    lemma_search_bounded(child_of(board, moves_of(board)[n - 1]), (depth - 1) as nat, !maximizing);
    if n > 1 {
        lemma_search_prefix_props(board, depth, maximizing, n - 1);
    } else {
        assert(spec_search_prefix(board, depth, maximizing, 0) == (
            sentinel(maximizing),
            None::<chess::ChessMove>,
        ));
    }
}

/// Plain minimax: walk every legal move to the full depth, keeping the best
/// score for the side to choose and the first move that attains it.
fn minimax(board: &chess::Board, depth: u32, maximizing: bool, count: &mut u64) -> (r: (
    i32,
    Option<chess::ChessMove>,
))
    ensures
        r.0 as int == spec_search(*board, depth as nat, maximizing).0,
        r.1 == spec_search(*board, depth as nat, maximizing).1,
        *final(count) as int == spec_sat(*old(count) + spec_nodes(*board, depth as nat)),
    decreases depth,
{
    let ghost c0: int = *count as int;
    *count = sat_add_u64(*count, 1);

    if depth == 0 || !board_ongoing(board) {
        return (evaluate_board(board), None);
    }

    let moves = legal_move_list(board);
    let mut best_move: Option<chess::ChessMove> = None;
    let mut best_score: i32 = if maximizing {
        i32::MIN
    } else {
        i32::MAX
    };

    let mut i: usize = 0;
    while i < moves.len()
        invariant
            depth >= 1,
            moves@ == moves_of(*board),
            moves@.len() >= 1,
            i <= moves@.len(),
            best_score as int == spec_search_prefix(*board, depth as nat, maximizing, i as int).0,
            best_move == spec_search_prefix(*board, depth as nat, maximizing, i as int).1,
            *count as int == spec_sat(c0 + 1 + spec_nodes_prefix(*board, depth as nat, i as int)),
            c0 >= 0,
        decreases moves@.len() - i,
    {
        let mv = moves[i];
        assert(moves_of(*board).contains(mv)) by {
            assert(moves_of(*board)[i as int] == mv);
        }
        let child = apply_move(board, mv);
        proof {
            lemma_nodes_pos(child_of(*board, moves_of(*board)[i as int]), (depth - 1) as nat);
            lemma_nodes_prefix_monotone(*board, depth as nat, 0, i as int);
        }
        let (score, _) = minimax(&child, depth - 1, !maximizing, count);
        proof {
            lemma_sat_compose(
                c0 + 1 + spec_nodes_prefix(*board, depth as nat, i as int),
                spec_nodes(child_of(*board, moves_of(*board)[i as int]), (depth - 1) as nat),
            );
        }
        if maximizing {
            if score > best_score {
                best_score = score;
                best_move = Some(mv);
            }
        } else {
            if score < best_score {
                best_score = score;
                best_move = Some(mv);
            }
        }
        i = i + 1;
    }
    (best_score, best_move)
}

/// Looking at more children moves the running best only toward the
/// choosing side's favour.
proof fn lemma_prefix_value_monotone(
    board: chess::Board,
    depth: nat,
    maximizing: bool,
    i: int,
    j: int,
)
    requires
        0 <= i <= j,
    ensures
        maximizing ==> spec_search_prefix(board, depth, maximizing, i).0 <= spec_search_prefix(
            board,
            depth,
            maximizing,
            j,
        ).0,
        !maximizing ==> spec_search_prefix(board, depth, maximizing, i).0 >= spec_search_prefix(
            board,
            depth,
            maximizing,
            j,
        ).0,
    decreases j - i,
{
    if i < j {
        lemma_prefix_value_monotone(board, depth, maximizing, i, j - 1);
    }
}

/// Alpha-beta pruned minimax: the same walk as `minimax`, except that a
/// node stops looking at further children once the window `alpha..beta`
/// closes. With the window fully open — as the root always starts it — the
/// result equals the plain walk's, score and move alike; under a narrowed
/// window the returned score still brackets the plain walk's score from
/// the side on which it leaves the window.
fn minimax_alpha_beta(
    board: &chess::Board,
    depth: u32,
    alpha: i32,
    beta: i32,
    maximizing: bool,
    count: &mut u64,
) -> (r: (i32, Option<chess::ChessMove>))
    requires
        alpha < beta,
    ensures
        -MAX_EVAL <= r.0 <= MAX_EVAL,
        r.0 <= alpha ==> spec_search(*board, depth as nat, maximizing).0 <= r.0,
        alpha < r.0 && r.0 < beta ==> r.0 as int == spec_search(*board, depth as nat, maximizing).0,
        r.0 >= beta ==> spec_search(*board, depth as nat, maximizing).0 >= r.0,
        alpha == i32::MIN && beta == i32::MAX ==> r.0 as int == spec_search(
            *board,
            depth as nat,
            maximizing,
        ).0 && r.1 == spec_search(*board, depth as nat, maximizing).1,
        *final(count) as int <= spec_sat(*old(count) + spec_nodes(*board, depth as nat)),
        *final(count) as int >= spec_sat(*old(count) + 1),
    decreases depth,
{
    let ghost c0: int = *count as int;
    let ghost a0: int = alpha as int;
    let ghost b0: int = beta as int;
    *count = sat_add_u64(*count, 1);

    if depth == 0 || !board_ongoing(board) {
        return (evaluate_board(board), None);
    }

    let moves = legal_move_list(board);
    let mut alpha = alpha;
    let mut beta = beta;
    let mut best_move: Option<chess::ChessMove> = None;
    let mut best_score: i32 = if maximizing {
        i32::MIN
    } else {
        i32::MAX
    };

    let ghost n: int = moves@.len() as int;
    let mut i: usize = 0;
    while i < moves.len()
        invariant_except_break
            alpha < beta,
        invariant
            depth >= 1,
            moves@ == moves_of(*board),
            1 <= n && n == moves@.len(),
            i <= moves@.len(),
            c0 >= 0,
            a0 < b0,
            i32::MIN <= a0 <= i32::MAX && i32::MIN <= b0 <= i32::MAX,
            maximizing ==> beta as int == b0 && alpha as int == (if best_score as int > a0 {
                best_score as int
            } else {
                a0
            }),
            !maximizing ==> alpha as int == a0 && beta as int == (if (best_score as int) < b0 {
                best_score as int
            } else {
                b0
            }),
            i == 0 ==> best_score as int == sentinel(maximizing) && best_move is None,
            i >= 1 ==> -MAX_EVAL <= best_score <= MAX_EVAL,
            maximizing ==> ((best_score as int) < b0 ==> spec_search_prefix(
                *board,
                depth as nat,
                maximizing,
                i as int,
            ).0 <= best_score as int),
            maximizing ==> ((best_score as int) > a0 ==> spec_search_prefix(
                *board,
                depth as nat,
                maximizing,
                i as int,
            ).0 >= best_score as int),
            !maximizing ==> ((best_score as int) > a0 ==> spec_search_prefix(
                *board,
                depth as nat,
                maximizing,
                i as int,
            ).0 >= best_score as int),
            !maximizing ==> ((best_score as int) < b0 ==> spec_search_prefix(
                *board,
                depth as nat,
                maximizing,
                i as int,
            ).0 <= best_score as int),
            a0 == i32::MIN && b0 == i32::MAX ==> best_score as int == spec_search_prefix(
                *board,
                depth as nat,
                maximizing,
                i as int,
            ).0 && best_move == spec_search_prefix(*board, depth as nat, maximizing, i as int).1,
            *count as int <= spec_sat(c0 + 1 + spec_nodes_prefix(*board, depth as nat, i as int)),
            *count as int >= spec_sat(c0 + 1),
        ensures
            moves@ == moves_of(*board),
            1 <= n && n == moves@.len(),
            -MAX_EVAL <= best_score <= MAX_EVAL,
            (best_score as int) < b0 ==> spec_search_prefix(
                *board,
                depth as nat,
                maximizing,
                n,
            ).0 <= best_score as int,
            (best_score as int) > a0 ==> spec_search_prefix(
                *board,
                depth as nat,
                maximizing,
                n,
            ).0 >= best_score as int,
            a0 == i32::MIN && b0 == i32::MAX ==> best_score as int == spec_search_prefix(
                *board,
                depth as nat,
                maximizing,
                n,
            ).0 && best_move == spec_search_prefix(*board, depth as nat, maximizing, n).1,
            *count as int <= spec_sat(c0 + 1 + spec_nodes_prefix(*board, depth as nat, n)),
            *count as int >= spec_sat(c0 + 1),
        decreases moves@.len() - i,
    {
        let mv = moves[i];
        assert(moves_of(*board).contains(mv)) by {
            assert(moves_of(*board)[i as int] == mv);
        }
        let child = apply_move(board, mv);
        proof {
            lemma_nodes_pos(child_of(*board, moves_of(*board)[i as int]), (depth - 1) as nat);
            lemma_nodes_prefix_monotone(*board, depth as nat, 0, i as int);
            lemma_search_bounded(
                child_of(*board, moves_of(*board)[i as int]),
                (depth - 1) as nat,
                !maximizing,
            );
        }
        let ghost count_entry: int = *count as int;
        let (score, _) = minimax_alpha_beta(&child, depth - 1, alpha, beta, !maximizing, count);
        proof {
            lemma_sat_monotone(
                count_entry + spec_nodes(
                    child_of(*board, moves_of(*board)[i as int]),
                    (depth - 1) as nat,
                ),
                spec_sat(c0 + 1 + spec_nodes_prefix(*board, depth as nat, i as int)) + spec_nodes(
                    child_of(*board, moves_of(*board)[i as int]),
                    (depth - 1) as nat,
                ),
            );
            lemma_sat_compose(
                c0 + 1 + spec_nodes_prefix(*board, depth as nat, i as int),
                spec_nodes(child_of(*board, moves_of(*board)[i as int]), (depth - 1) as nat),
            );
        }
        if maximizing {
            if score > best_score {
                best_score = score;
                best_move = Some(mv);
            }
            if score > alpha {
                alpha = score;
            }
        } else {
            if score < best_score {
                best_score = score;
                best_move = Some(mv);
            }
            if score < beta {
                beta = score;
            }
        }
        i = i + 1;
        if beta <= alpha {
            proof {
                lemma_prefix_value_monotone(*board, depth as nat, maximizing, i as int, n);
                lemma_nodes_prefix_monotone(*board, depth as nat, i as int, n);
                lemma_sat_monotone(
                    c0 + 1 + spec_nodes_prefix(*board, depth as nat, i as int),
                    c0 + 1 + spec_nodes_prefix(*board, depth as nat, n),
                );
            }
            break ;
        }
    }
    (best_score, best_move)
}

/// The engine's entry point: reset the node counter, search from the root
/// with a fully open window — plain minimax or the alpha-beta variant, as
/// asked — and measure the wall time. Both variants return the same score
/// and the same move; pruning can only lower the number of visited nodes.
pub fn best_move(
    has_pruning: &bool,
    board: &chess::Board,
    depth: u32,
    maximizing: bool,
    count: &mut u64,
    time_elapsed: &mut std::time::Duration,
) -> (r: (i32, Option<chess::ChessMove>))
    ensures
        r.0 as int == spec_search(*board, depth as nat, maximizing).0,
        r.1 == spec_search(*board, depth as nat, maximizing).1,
        *final(count) as int <= spec_sat(spec_nodes(*board, depth as nat)),
        *final(count) >= 1,
        !*has_pruning ==> *final(count) as int == spec_sat(spec_nodes(*board, depth as nat)),
{
    let result: (i32, Option<chess::ChessMove>);
    let now = clock_now();

    proof {
        lemma_nodes_pos(*board, depth as nat);
    }
    *count = 0;

    if *has_pruning {
        result = minimax_alpha_beta(board, depth, i32::MIN, i32::MAX, maximizing, count);
    } else {
        result = minimax(board, depth, maximizing, count);
    }

    *time_elapsed = elapsed_since(&now);

    result
}

/// A move is chosen exactly when the walk may and can play one: positive
/// depth and at least one legal move.
pub proof fn lemma_search_has_move(board: chess::Board, depth: nat, maximizing: bool)
    ensures
        spec_search(board, depth, maximizing).1 is Some <==> (depth > 0 && moves_of(
            board,
        ).len() > 0),
{
    if depth > 0 && moves_of(board).len() > 0 {
        lemma_search_prefix_props(board, depth, maximizing, moves_of(board).len() as int);
    }
}

/// A zero depth bound returns the static evaluation and no move, whatever
/// the pruning flag or the side to choose.
pub proof fn lemma_depth_zero(board: chess::Board, maximizing: bool)
    ensures
        spec_search(board, 0, maximizing) == (
            spec_evaluate(squares_of(board)),
            None::<chess::ChessMove>,
        ),
{
}

/// A position without a legal move short-circuits: any depth returns the
/// depth-0 result, and the walk visits exactly one node.
pub proof fn lemma_terminal_short_circuit(board: chess::Board, depth: nat, maximizing: bool)
    requires
        moves_of(board).len() == 0,
    ensures
        spec_search(board, depth, maximizing) == spec_search(board, 0, maximizing),
        spec_nodes(board, depth) == 1,
{
}

/// Deepening the plain walk by one level never lowers the node count.
pub proof fn lemma_nodes_monotone(board: chess::Board, depth: nat)
    ensures
        spec_nodes(board, depth) <= spec_nodes(board, depth + 1),
    decreases depth, 1int, 0int,
{
    let n = moves_of(board).len() as int;
    if moves_of(board).len() == 0 {
    } else if depth == 0 {
        lemma_nodes_prefix_monotone(board, 1, 0, n);
    } else {
        lemma_nodes_prefix_monotone_depth(board, depth, n);
    }
}

proof fn lemma_nodes_prefix_monotone_depth(board: chess::Board, depth: nat, n: int)
    requires
        depth >= 1,
    ensures
        spec_nodes_prefix(board, depth, n) <= spec_nodes_prefix(board, depth + 1, n),
    decreases depth, 0int, n,
{
    if n > 0 {
        lemma_nodes_prefix_monotone_depth(board, depth, n - 1);
        lemma_nodes_monotone(child_of(board, moves_of(board)[n - 1]), (depth - 1) as nat);
    }
}

} // verus!
