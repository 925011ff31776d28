use vstd::prelude::*;

use crate::primitives::{player_index, PlayerName};
use crate::queries;
use crate::round::{wins, PlayPhaseData, RoundView};
use crate::scoring::{self, score_of};

verus! {

/// Where a round stands for a searching agent.
#[derive(Clone, Copy, Debug)]
pub enum GameStatus {
    InProgress { current_turn: PlayerName },
    /// Final scores in turn order: User, West, North, East.
    Completed { scores: [i32; 4] },
}

/// The final scores of a round in turn order.
pub open spec fn final_scores(v: RoundView) -> Seq<int> {
    seq![
        score_of(v, PlayerName::User) as int,
        score_of(v, PlayerName::West) as int,
        score_of(v, PlayerName::North) as int,
        score_of(v, PlayerName::East) as int,
    ]
}

/// A score never exceeds the largest contract reward.
pub proof fn lemma_score_bound(v: RoundView, p: PlayerName)
    ensures
        score_of(v, p) <= 2500,
{
}

/// The status of `data`: whose turn it is, or the final scores.
pub fn status(data: &PlayPhaseData) -> (r: GameStatus)
    ensures
        match r {
            GameStatus::InProgress { current_turn } => data@.turn == Some(current_turn),
            GameStatus::Completed { scores } => data@.turn is None && scores@.map_values(|s: i32| s as int)
                == final_scores(data@),
        },
{
    match queries::current_turn(data) {
        Some(p) => GameStatus::InProgress { current_turn: p },
        None => {
            proof {
                lemma_score_bound(data@, PlayerName::User);
                lemma_score_bound(data@, PlayerName::West);
                lemma_score_bound(data@, PlayerName::North);
                lemma_score_bound(data@, PlayerName::East);
            }
            let scores = [
                scoring::score(data, PlayerName::User).as_i32(),
                scoring::score(data, PlayerName::West).as_i32(),
                scoring::score(data, PlayerName::North).as_i32(),
                scoring::score(data, PlayerName::East).as_i32(),
            ];
            assert(scores@.map_values(|s: i32| s as int) =~= final_scores(data@));
            GameStatus::Completed { scores }
        },
    }
}

/// Returns true if `p`'s final score is at least every other player's.
pub open spec fn has_highest_score(v: RoundView, p: PlayerName) -> bool {
    forall|i: int| 0 <= i < 4 ==> #[trigger] final_scores(v)[i] <= final_scores(v)[player_index(p) as int]
}

/// Leaf value of a round for `p`: 1 for a win (the highest final score), -1 for
/// a loss, 0 while in progress.
pub open spec fn win_loss_value(v: RoundView, p: PlayerName) -> int {
    if v.turn is Some {
        0
    } else if has_highest_score(v, p) {
        1
    } else {
        -1
    }
}

/// Leaf value of a round for `p`: the final score once complete; while in
/// progress the tricks won, or -1 once `p` has won more than their contract.
pub open spec fn trick_value(v: RoundView, p: PlayerName) -> int {
    if v.turn is None {
        score_of(v, p) as int
    } else if wins(v.completed, p) > v.contracts.number(p) {
        -1
    } else {
        wins(v.completed, p) as int
    }
}

/// Leaf value of a round for `p`: the tricks won.
pub open spec fn max_tricks_value(v: RoundView, p: PlayerName) -> int {
    wins(v.completed, p) as int
}

/// Scores a round 1 for a win, -1 for a loss and 0 while in progress.
pub struct WinLossEvaluator;

impl WinLossEvaluator {
    pub fn evaluate(data: &PlayPhaseData, player: PlayerName) -> (r: i32)
        ensures
            r as int == win_loss_value(data@, player),
    {
        match status(data) {
            GameStatus::InProgress { .. } => 0,
            GameStatus::Completed { scores } => {
                let mine = scores[player.index() as usize];
                let mut i: usize = 0;
                while i < 4
                    invariant
                        i <= 4,
                        data@.turn is None,
                        scores@.map_values(|s: i32| s as int) == final_scores(data@),
                        mine as int == final_scores(data@)[player_index(player) as int],
                        forall|j: int| 0 <= j < i ==> #[trigger] final_scores(data@)[j] <= mine,
                    decreases 4 - i,
                {
                    assert(scores@.map_values(|s: i32| s as int)[i as int] == scores@[i as int] as int);
                    if scores[i] > mine {
                        assert(final_scores(data@)[i as int] > final_scores(data@)[player_index(player) as int]);
                        assert(!has_highest_score(data@, player));
                        return -1;
                    }
                    i = i + 1;
                }
                1
            },
        }
    }
}

/// Scores a round by the tricks won, discouraging tricks beyond the contract,
/// and by the final score once complete.
pub struct TrickEvaluator;

impl TrickEvaluator {
    pub fn evaluate(data: &PlayPhaseData, player: PlayerName) -> (r: i32)
        requires
            data@.completed.len() <= 13,
        ensures
            r as int == trick_value(data@, player),
    {
        match status(data) {
            GameStatus::InProgress { .. } => {
                let won = queries::tricks_won(data, player);
                proof {
                    crate::round::lemma_wins_bound(data@.completed, player);
                }
                if won > data.contracts.contract_number(player) {
                    -1
                } else {
                    won as i32
                }
            },
            GameStatus::Completed { scores } => {
                assert(scores@.map_values(|s: i32| s as int)[player_index(player) as int] == scores@[player_index(player) as int] as int);
                scores[player.index() as usize]
            },
        }
    }
}

/// Scores a round by the tricks won.
pub struct MaxTricksEvaluator;

impl MaxTricksEvaluator {
    pub fn evaluate(data: &PlayPhaseData, player: PlayerName) -> (r: i32)
        requires
            data@.completed.len() <= 13,
        ensures
            r as int == max_tricks_value(data@, player),
    {
        proof {
            crate::round::lemma_wins_bound(data@.completed, player);
        }
        queries::tricks_won(data, player) as i32
    }
}

/// The leaf evaluators used by the agents.
#[derive(Clone, Copy, Debug, PartialEq, Eq, Structural)]
pub enum Evaluator {
    WinLoss,
    Trick,
    MaxTricks,
}

/// The value `e` gives round `v` for player `p`.
pub open spec fn evaluation(e: Evaluator, v: RoundView, p: PlayerName) -> int {
    match e {
        Evaluator::WinLoss => win_loss_value(v, p),
        Evaluator::Trick => trick_value(v, p),
        Evaluator::MaxTricks => max_tricks_value(v, p),
    }
}

impl Evaluator {
    pub fn evaluate(&self, data: &PlayPhaseData, player: PlayerName) -> (r: i32)
        requires
            data@.completed.len() <= 13,
        ensures
            r as int == evaluation(*self, data@, player),
    {
        match self {
            Evaluator::WinLoss => WinLossEvaluator::evaluate(data, player),
            Evaluator::Trick => TrickEvaluator::evaluate(data, player),
            Evaluator::MaxTricks => MaxTricksEvaluator::evaluate(data, player),
        }
    }
}

} // verus!
