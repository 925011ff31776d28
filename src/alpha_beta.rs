use vstd::prelude::*;

use std::time::Instant;

use crate::actions::handle_action;
use crate::clock::deadline_passed;
use crate::game::{evaluation, final_scores, lemma_score_bound, status, Evaluator, GameStatus};
use crate::primitives::{player_at, player_index, PlayerName};
use crate::queries::{self, legal_actions, legal_moves, offered};
use crate::round::{lemma_wins_bound, PlayPhaseAction, PlayPhaseData, RoundView};

verus! {

/// The search ran out of time.
#[derive(Clone, Copy, Debug, PartialEq, Eq, Structural)]
pub struct SearchTimeout;

/// Largest value a search can report, in absolute terms.
pub const VALUE_BOUND: i32 = 10000;

/// Returns true if `a` is an action the player to move in `v` may take.
pub open spec fn is_legal_move(v: RoundView, a: PlayPhaseAction) -> bool {
    exists|p: PlayerName| v.turn == Some(p) && offered(v, p, a) && v.can_perform(p, a)
}

/// The largest of three numbers.
pub open spec fn max3(a: int, b: int, c: int) -> int {
    if a >= b && a >= c {
        a
    } else if b >= c {
        b
    } else {
        c
    }
}

/// `p`'s final score minus the best final score among the other players.
pub open spec fn margin(v: RoundView, p: PlayerName) -> int {
    let s = final_scores(v);
    let i = player_index(p) as int;
    s[i] - max3(s[(i + 1) % 4], s[(i + 2) % 4], s[(i + 3) % 4])
}

/// The value of round `v` for `player` when searched `depth` moves deep:
/// a completed round is worth `player`'s score margin, a round at depth zero its
/// evaluation, and otherwise `player` takes the best and the others the worst
/// value for `player` over the legal moves.
pub open spec fn minimax(v: RoundView, depth: nat, player: PlayerName, e: Evaluator) -> int
    decreases depth, 0nat,
{
    if v.turn is None {
        margin(v, player)
    } else if depth == 0 {
        evaluation(e, v, player)
    } else {
        let t = v.turn.unwrap();
        fold_value(v, t, legal_moves(v, t), legal_moves(v, t).len(), (depth - 1) as nat, player, e)
    }
}

/// The best value for `player` (the worst when `t` is another player) of the
/// rounds reached by the first `n` moves of `moves`, each searched `d` deep.
pub open spec fn fold_value(
    v: RoundView,
    t: PlayerName,
    moves: Seq<PlayPhaseAction>,
    n: nat,
    d: nat,
    player: PlayerName,
    e: Evaluator,
) -> int
    decreases d, n,
{
    if n == 0 {
        if t == player {
            -VALUE_BOUND
        } else {
            VALUE_BOUND as int
        }
    } else {
        let prev = fold_value(v, t, moves, (n - 1) as nat, d, player, e);
        let x = minimax(v.step(t, moves[n - 1]), d, player, e);
        if t == player {
            if x > prev {
                x
            } else {
                prev
            }
        } else {
            if x < prev {
                x
            } else {
                prev
            }
        }
    }
}

/// A best value only improves as more moves are considered.
proof fn lemma_fold_monotone(
    v: RoundView,
    t: PlayerName,
    moves: Seq<PlayPhaseAction>,
    k: nat,
    n: nat,
    d: nat,
    player: PlayerName,
    e: Evaluator,
)
    requires
        k <= n,
    ensures
        t == player ==> fold_value(v, t, moves, k, d, player, e) <= fold_value(v, t, moves, n, d, player, e),
        t != player ==> fold_value(v, t, moves, k, d, player, e) >= fold_value(v, t, moves, n, d, player, e),
    decreases n,
{
    if k < n {
        lemma_fold_monotone(v, t, moves, k, (n - 1) as nat, d, player, e);
    }
}

/// One step of a maximizing node: after a child answers `x` for the window
/// `(max(alpha, value), beta)`, the running value keeps its meaning.
proof fn lemma_max_step(alpha: int, beta: int, value: int, fold: int, x: int, m: int)
    requires
        alpha < beta,
        (if alpha > value { alpha } else { value }) < beta,
        value > alpha ==> value == fold,
        value <= alpha ==> fold <= value,
        window_result(x, m, if alpha > value { alpha } else { value }, beta),
    ensures
        ({
            let v2 = if x > value { x } else { value };
            let f2 = if m > fold { m } else { fold };
            &&& (if alpha > v2 { alpha } else { v2 }) >= beta ==> v2 >= beta && f2 >= v2
            &&& (if alpha > v2 { alpha } else { v2 }) < beta ==> (v2 > alpha ==> v2 == f2) && (v2 <= alpha ==> f2 <= v2)
        }),
{
}

/// One step of a minimizing node: after a child answers `x` for the window
/// `(alpha, min(beta, value))`, the running value keeps its meaning.
proof fn lemma_min_step(alpha: int, beta: int, value: int, fold: int, x: int, m: int)
    requires
        alpha < beta,
        alpha < (if beta < value { beta } else { value }),
        value < beta ==> value == fold,
        value >= beta ==> fold >= value,
        window_result(x, m, alpha, if beta < value { beta } else { value }),
    ensures
        ({
            let v2 = if x < value { x } else { value };
            let f2 = if m < fold { m } else { fold };
            &&& alpha >= (if beta < v2 { beta } else { v2 }) ==> v2 <= alpha && f2 <= v2
            &&& alpha < (if beta < v2 { beta } else { v2 }) ==> (v2 < beta ==> v2 == f2) && (v2 >= beta ==> f2 >= v2)
        }),
{
}

/// `player`'s final score minus the best among the other players' scores.
pub fn score_margin(scores: &[i32; 4], player: PlayerName) -> (r: i32)
    requires
        forall|i: int| 0 <= i < 4 ==> 0 <= #[trigger] scores@[i] <= 2500,
    ensures
        r as int == scores@[player_index(player) as int] - max3(
            scores@[((player_index(player) + 1) % 4) as int] as int,
            scores@[((player_index(player) + 2) % 4) as int] as int,
            scores@[((player_index(player) + 3) % 4) as int] as int,
        ),
{
    let i = player.index() as usize;
    let o0 = scores[(i + 1) % 4];
    let o1 = scores[(i + 2) % 4];
    let o2 = scores[(i + 3) % 4];
    let best = if o0 >= o1 && o0 >= o2 {
        o0
    } else if o1 >= o2 {
        o1
    } else {
        o2
    };
    scores[i] - best
}

/// What a search with window `(alpha, beta)` tells about the true value `m`:
/// inside the window it is exact, at or below `alpha` it bounds `m` from above,
/// and at or above `beta` from below.
pub open spec fn window_result(x: int, m: int, alpha: int, beta: int) -> bool {
    &&& (alpha < x < beta ==> x == m)
    &&& (x <= alpha ==> m <= x)
    &&& (x >= beta ==> m >= x)
}

/// Depth-limited minimax with alpha-beta pruning from `player`'s point of view:
/// `player`'s moves take the maximum and the others' moves the minimum. A
/// completed round is worth `player`'s score margin, and a round at depth zero
/// is worth its evaluation. Fails once the clock reaches `deadline`.
pub fn negamax(
    state: &PlayPhaseData,
    depth: usize,
    alpha: i32,
    beta: i32,
    player: PlayerName,
    evaluator: Evaluator,
    deadline: &Instant,
) -> (r: Result<i32, SearchTimeout>)
    requires
        state@.wf(),
        alpha < beta,
        alpha < VALUE_BOUND,
        beta > -VALUE_BOUND,
    ensures
        r matches Ok(x) ==> -2500 <= x <= 2500 && window_result(
            x as int,
            minimax(state@, depth as nat, player, evaluator),
            alpha as int,
            beta as int,
        ),
    decreases depth,
{
    if deadline_passed(deadline) {
        return Err(SearchTimeout);
    }
    match status(state) {
        GameStatus::Completed { scores } => {
            proof {
                assert forall|i: int| 0 <= i < 4 implies scores@[i] as int == #[trigger] final_scores(state@)[i] by {
                    assert(scores@.map_values(|s: i32| s as int)[i] == scores@[i] as int);
                }
                assert forall|i: int| 0 <= i < 4 implies 0 <= #[trigger] scores@[i] <= 2500 by {
                    assert(scores@[i] as int == final_scores(state@)[i]);
                    lemma_score_bound(state@, player_at(i as nat));
                }
            }
            let x = score_margin(&scores, player);
            Ok(x)
        },
        GameStatus::InProgress { current_turn } => {
            if depth == 0 {
                proof {
                    lemma_wins_bound(state@.completed, player);
                    lemma_score_bound(state@, player);
                }
                return Ok(evaluator.evaluate(state, player));
            }
            let actions = legal_actions(state, current_turn);
            let ghost moves = actions@;
            let ghost d = (depth - 1) as nat;
            let maximizing = current_turn == player;
            proof {
                assert(minimax(state@, depth as nat, player, evaluator) == fold_value(state@, current_turn, moves, moves.len(), d, player, evaluator));
            }
            let mut value: i32 = if maximizing {
                -VALUE_BOUND
            } else {
                VALUE_BOUND
            };
            let mut a = if maximizing && alpha < value {
                value
            } else {
                alpha
            };
            let mut b = if !maximizing && beta > value {
                value
            } else {
                beta
            };
            proof {
                queries::lemma_playable_card_exists(state@, current_turn);
                let c = choose|c: crate::primitives::Card| #[trigger] state@.hand(current_turn).contains(c) && state@.can_play(current_turn, c);
                assert(actions@.contains(PlayPhaseAction::PlayCard(c)));
            }
            let mut i: usize = 0;
            while i < actions.len()
                invariant_except_break
                    a < b,
                    i == 0 ==> value as int == (if maximizing { -VALUE_BOUND } else { VALUE_BOUND as int }),
                    maximizing ==> (value > alpha ==> value == fold_value(state@, current_turn, moves, i as nat, d, player, evaluator)),
                    maximizing ==> (value <= alpha ==> fold_value(state@, current_turn, moves, i as nat, d, player, evaluator) <= value),
                    !maximizing ==> (value < beta ==> value == fold_value(state@, current_turn, moves, i as nat, d, player, evaluator)),
                    !maximizing ==> (value >= beta ==> fold_value(state@, current_turn, moves, i as nat, d, player, evaluator) >= value),
                invariant
                    state@.wf(),
                    state@.turn == Some(current_turn),
                    alpha < beta,
                    depth > 0,
                    d == depth - 1,
                    moves == actions@,
                    moves == legal_moves(state@, current_turn),
                    minimax(state@, depth as nat, player, evaluator) == fold_value(state@, current_turn, moves, moves.len(), d, player, evaluator),
                    maximizing == (current_turn == player),
                    i <= actions@.len(),
                    actions@.len() > 0,
                    alpha < VALUE_BOUND,
                    beta > -VALUE_BOUND,
                    -VALUE_BOUND <= value <= VALUE_BOUND,
                    i > 0 ==> -2500 <= value <= 2500,
                    maximizing ==> b == beta && a as int == (if alpha > value { alpha } else { value }),
                    !maximizing ==> a == alpha && b as int == (if beta < value { beta } else { value }),
                    forall|x: PlayPhaseAction| #[trigger] actions@.contains(x) ==> state@.can_perform(current_turn, x),
                ensures
                    -2500 <= value <= 2500,
                    window_result(value as int, minimax(state@, depth as nat, player, evaluator), alpha as int, beta as int),
                decreases actions@.len() - i,
            {
                let action = actions[i];
                assert(actions@.contains(action));
                let mut child = state.clone();
                handle_action(&mut child, current_turn, action);
                let x = match negamax(&child, depth - 1, a, b, player, evaluator, deadline) {
                    Ok(x) => x,
                    Err(e) => {
                        return Err(e);
                    },
                };
                let ghost m = minimax(state@.step(current_turn, moves[i as int]), d, player, evaluator);
                let ghost prev_value = value;
                let ghost prev_fold = fold_value(state@, current_turn, moves, i as nat, d, player, evaluator);
                let ghost a0 = a;
                let ghost b0 = b;
                proof {
                    assert(child@ == state@.step(current_turn, moves[i as int]));
                    assert(fold_value(state@, current_turn, moves, (i + 1) as nat, d, player, evaluator) == if maximizing {
                        if m > fold_value(state@, current_turn, moves, i as nat, d, player, evaluator) {
                            m
                        } else {
                            fold_value(state@, current_turn, moves, i as nat, d, player, evaluator)
                        }
                    } else {
                        if m < fold_value(state@, current_turn, moves, i as nat, d, player, evaluator) {
                            m
                        } else {
                            fold_value(state@, current_turn, moves, i as nat, d, player, evaluator)
                        }
                    });
                }
                if maximizing {
                    if x > value {
                        value = x;
                    }
                    if value > a {
                        a = value;
                    }
                } else {
                    if x < value {
                        value = x;
                    }
                    if value < b {
                        b = value;
                    }
                }
                proof {
                    let next_fold = fold_value(state@, current_turn, moves, (i + 1) as nat, d, player, evaluator);
                    if maximizing {
                        lemma_max_step(alpha as int, beta as int, prev_value as int, prev_fold, x as int, m);
                    } else {
                        lemma_min_step(alpha as int, beta as int, prev_value as int, prev_fold, x as int, m);
                    }
                }
                if a >= b {
                    proof {
                        let n = moves.len();
                        lemma_fold_monotone(state@, current_turn, moves, (i + 1) as nat, n, d, player, evaluator);
                    }
                    break;
                }
                i = i + 1;
            }
            Ok(value)
        },
    }
}

/// The value of the move `a` of the player to move in `v`, searched `depth` deep.
pub open spec fn move_value(v: RoundView, a: PlayPhaseAction, depth: nat, player: PlayerName, e: Evaluator) -> int {
    minimax(v.step(player, a), depth, player, e)
}

/// Returns true if `a` is the first legal move of `player` in `v` whose value at
/// `depth` is highest.
pub open spec fn best_first_move(v: RoundView, a: PlayPhaseAction, depth: nat, player: PlayerName, e: Evaluator) -> bool {
    let moves = legal_moves(v, player);
    exists|k: int|
        0 <= k < moves.len() && #[trigger] moves[k] == a && (forall|j: int|
            0 <= j < moves.len() ==> move_value(v, #[trigger] moves[j], depth, player, e) <= move_value(v, a, depth, player, e))
            && (forall|j: int| 0 <= j < k ==> move_value(v, #[trigger] moves[j], depth, player, e) < move_value(v, a, depth, player, e))
}

/// Searches every move of `player` to `depth` and returns the first move of
/// highest value.
pub fn search_root(
    state: &PlayPhaseData,
    depth: usize,
    player: PlayerName,
    evaluator: Evaluator,
    deadline: &Instant,
) -> (r: Result<PlayPhaseAction, SearchTimeout>)
    requires
        state@.wf(),
        state@.turn == Some(player),
        depth >= 1,
    ensures
        r matches Ok(a) ==> offered(state@, player, a) && state@.can_perform(player, a),
        r matches Ok(a) ==> best_first_move(state@, a, (depth - 1) as nat, player, evaluator),
{
    let actions = legal_actions(state, player);
    let ghost moves = actions@;
    let ghost d = (depth - 1) as nat;
    proof {
        queries::lemma_playable_card_exists(state@, player);
        let c = choose|c: crate::primitives::Card| #[trigger] state@.hand(player).contains(c) && state@.can_play(player, c);
        assert(actions@.contains(PlayPhaseAction::PlayCard(c)));
    }
    let mut best = actions[0];
    let mut best_k: usize = 0;
    assert(actions@.contains(best));
    let mut best_value: i32 = -VALUE_BOUND - 1;
    let beta: i32 = VALUE_BOUND + 1;
    let mut i: usize = 0;
    while i < actions.len()
        invariant
            state@.wf(),
            state@.turn == Some(player),
            depth >= 1,
            d == depth - 1,
            moves == actions@,
            moves == legal_moves(state@, player),
            beta == VALUE_BOUND + 1,
            i <= moves.len(),
            forall|x: PlayPhaseAction| #[trigger] actions@.contains(x) <==> (offered(state@, player, x) && state@.can_perform(player, x)),
            actions@.contains(best),
            i == 0 ==> best_value == -VALUE_BOUND - 1,
            i > 0 ==> {
                &&& -2500 <= best_value <= 2500
                &&& best_k < i
                &&& moves[best_k as int] == best
                &&& best_value == move_value(state@, best, d, player, evaluator)
                &&& forall|j: int| 0 <= j < i ==> move_value(state@, #[trigger] moves[j], d, player, evaluator) <= best_value
                &&& forall|j: int| 0 <= j < best_k ==> move_value(state@, #[trigger] moves[j], d, player, evaluator) < best_value
            },
        decreases actions@.len() - i,
    {
        let action = actions[i];
        assert(actions@.contains(action));
        let mut child = state.clone();
        handle_action(&mut child, player, action);
        assert(best_value < VALUE_BOUND);
        let x = match negamax(&child, depth - 1, best_value, beta, player, evaluator, deadline) {
            Ok(x) => x,
            Err(e) => {
                return Err(e);
            },
        };
        let ghost m = move_value(state@, moves[i as int], d, player, evaluator);
        let ghost old_best = best_value;
        proof {
            assert(child@ == state@.step(player, moves[i as int]));
            assert(m == minimax(child@, d, player, evaluator));
            assert(window_result(x as int, m, best_value as int, beta as int));
            assert(x < beta);
            if x > best_value {
                assert(x == m);
            } else {
                assert(m <= x);
            }
        }
        if x > best_value {
            best_value = x;
            best = action;
            best_k = i;
        }
        i = i + 1;
    }
    proof {
        assert(moves[best_k as int] == best);
    }
    Ok(best)
}

/// Iterative deepening: searches at depth 1, 2, ... up to `max_depth` and keeps
/// the best move of the deepest completed search. When the deadline passes it
/// returns the best move so far (the first legal move if no search completed),
/// or fails if `panic_on_search_timeout` is set.
pub fn pick_action(
    state: &PlayPhaseData,
    deadline: &Instant,
    panic_on_search_timeout: bool,
    max_depth: usize,
    evaluator: Evaluator,
) -> (r: Result<PlayPhaseAction, SearchTimeout>)
    requires
        state@.wf(),
        state@.turn is Some,
    ensures
        r matches Ok(a) ==> is_legal_move(state@, a),
        r matches Ok(a) ==> a == legal_moves(state@, state@.turn.unwrap())[0] || exists|d: nat|
            d < max_depth && #[trigger] best_first_move(state@, a, d, state@.turn.unwrap(), evaluator),
        r is Err ==> panic_on_search_timeout,
{
    let player = state.turn.unwrap();
    let actions = legal_actions(state, player);
    proof {
        queries::lemma_playable_card_exists(state@, player);
        let c = choose|c: crate::primitives::Card| #[trigger] state@.hand(player).contains(c) && state@.can_play(player, c);
        assert(actions@.contains(PlayPhaseAction::PlayCard(c)));
    }
    let mut best = actions[0];
    assert(actions@.contains(best));
    let mut depth: usize = 1;
    while depth <= max_depth
        invariant
            state@.wf(),
            state@.turn == Some(player),
            depth >= 1,
            offered(state@, player, best) && state@.can_perform(player, best),
            best == legal_moves(state@, player)[0] || exists|d: nat|
                d < max_depth && #[trigger] best_first_move(state@, best, d, player, evaluator),
        decreases max_depth + 1 - depth,
    {
        match search_root(state, depth, player, evaluator, deadline) {
            Ok(action) => {
                best = action;
                assert(best_first_move(state@, best, (depth - 1) as nat, player, evaluator));
            },
            Err(e) => {
                if panic_on_search_timeout {
                    return Err(e);
                } else {
                    return Ok(best);
                }
            },
        }
        if depth == usize::MAX {
            break;
        }
        depth = depth + 1;
    }
    Ok(best)
}

/// The first legal move of the player to move.
pub fn first_available_action(state: &PlayPhaseData) -> (r: PlayPhaseAction)
    requires
        state@.wf(),
        state@.turn is Some,
    ensures
        is_legal_move(state@, r),
        r == legal_moves(state@, state@.turn.unwrap())[0],
{
    let player = state.turn.unwrap();
    let actions = legal_actions(state, player);
    proof {
        queries::lemma_playable_card_exists(state@, player);
        let c = choose|c: crate::primitives::Card| #[trigger] state@.hand(player).contains(c) && state@.can_play(player, c);
        assert(actions@.contains(PlayPhaseAction::PlayCard(c)));
    }
    let a = actions[0];
    assert(actions@.contains(a));
    a
}

} // verus!
