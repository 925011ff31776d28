use vstd::prelude::*;

use crate::primitives::PlayerName;
use crate::round::{wins, ContractNumber, PlayPhaseData, RoundView};
use crate::tricks;

verus! {

/// Reward given for completing a contract.
#[derive(Clone, Copy, Debug, PartialEq, Eq, Structural, Hash)]
pub struct Intel(pub u32);

impl Intel {
    /// The reward as a signed number.
    pub fn as_i32(&self) -> (r: i32)
        requires
            self.0 <= i32::MAX,
        ensures
            r as int == self.0 as int,
    {
        self.0 as i32
    }
}

/// The reward for a contract of `n` tricks.
pub open spec fn contract_reward(n: nat) -> u32 {
    if n == 0 {
        0
    } else if n == 1 {
        10
    } else if n == 2 {
        20
    } else if n == 3 {
        30
    } else if n == 4 {
        50
    } else if n == 5 {
        100
    } else if n == 6 {
        150
    } else if n == 7 {
        200
    } else if n == 8 {
        400
    } else if n == 9 {
        700
    } else if n == 10 {
        1000
    } else if n == 11 {
        1500
    } else if n == 12 {
        2000
    } else {
        2500
    }
}

/// Returns true if `p` has won at least their contract number of tricks.
pub open spec fn met(v: RoundView, p: PlayerName) -> bool {
    wins(v.completed, p) >= v.contracts.number(p)
}

/// The score of `p`: the reward of their contract if they met it, else zero.
pub open spec fn score_of(v: RoundView, p: PlayerName) -> u32 {
    if met(v, p) {
        contract_reward(v.contracts.number(p))
    } else {
        0
    }
}

/// The reward for a contract of `number` tricks.
pub fn contract_value(number: ContractNumber) -> (r: Intel)
    ensures
        r.0 == contract_reward(number as nat),
{
    match number {
        0 => Intel(0),
        1 => Intel(10),
        2 => Intel(20),
        3 => Intel(30),
        4 => Intel(50),
        5 => Intel(100),
        6 => Intel(150),
        7 => Intel(200),
        8 => Intel(400),
        9 => Intel(700),
        10 => Intel(1000),
        11 => Intel(1500),
        12 => Intel(2000),
        _ => Intel(2500),
    }
}

/// The score of `player`: the reward of their contract if they won at least
/// that many tricks, otherwise zero.
pub fn score(data: &PlayPhaseData, player: PlayerName) -> (r: Intel)
    ensures
        r.0 == score_of(data@, player),
{
    let contract = data.contracts.contract_number(player);
    if tricks::won(data, player) < contract {
        Intel(0)
    } else {
        contract_value(contract)
    }
}

/// Sum of the four players' scores.
pub open spec fn total_score(v: RoundView) -> int {
    score_of(v, PlayerName::User) + score_of(v, PlayerName::West) + score_of(v, PlayerName::North)
        + score_of(v, PlayerName::East)
}

/// Reward of `p`'s contract if they met it, else nothing.
pub open spec fn met_reward(v: RoundView, p: PlayerName) -> int {
    if met(v, p) {
        contract_reward(v.contracts.number(p)) as int
    } else {
        0
    }
}

/// At the end of a round the scores add up to the rewards of the contracts
/// that were met.
pub proof fn lemma_scores_are_met_rewards(v: RoundView)
    requires
        v.wf(),
        v.turn is None,
    ensures
        total_score(v) == met_reward(v, PlayerName::User) + met_reward(v, PlayerName::West)
            + met_reward(v, PlayerName::North) + met_reward(v, PlayerName::East),
{
}

} // verus!
