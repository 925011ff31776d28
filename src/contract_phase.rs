use vstd::prelude::*;

use crate::delegates::{ContractPhaseDelegates, PlayPhaseDelegates};
use crate::primitives::{PlayerName, Suit};
use crate::round::{
    is_deal, ContractNumber, Contracts, Hands, PlayPhaseData, ProgramData, Trick,
};
use crate::start_play_phase::{self, distinct_programs};

verus! {

/// Steps of the contract phase.
#[derive(Clone, Copy, Debug, PartialEq, Eq, Structural)]
pub enum ContractPhaseStep {
    AwaitingUserContact,
    AwaitingAgentContracts,
    ReadyToStart,
}

/// State of a round during the contract phase.
pub struct ContractPhaseData {
    /// Trump suit to use for this round.
    pub trump: Option<Suit>,
    /// Contract numbers set so far; zero for a player who has not chosen yet.
    pub contracts: Contracts,
    pub hands: Hands,
    /// Current step within the contract phase.
    pub step: ContractPhaseStep,
    /// Programs of the players in this round.
    pub programs: ProgramData<ContractPhaseDelegates>,
}

/// Actions taken during the contract phase.
#[derive(Clone, Copy, Debug, PartialEq, Eq, Structural)]
pub enum ContractPhaseAction {
    SetUserContract(ContractNumber),
    AcceptUserContract,
    SetAgentContracts { west: ContractNumber, north: ContractNumber, east: ContractNumber },
    StartPlayPhase,
}

/// An action of either phase of a round.
#[derive(Clone, Copy, Debug, PartialEq, Eq, Structural)]
pub enum GameAction {
    PlayAction(crate::round::PlayPhaseAction),
    ContractAction(ContractPhaseAction),
}

/// A round, in whichever phase it is.
pub enum RoundData {
    ContractPhase(ContractPhaseData),
    PlayPhase(PlayPhaseData),
}

impl ContractPhaseData {
    /// A dealt round whose players own programs without repeats.
    pub open spec fn wf(&self) -> bool {
        &&& is_deal(self.hands@)
        &&& distinct_programs(self.programs.all_programs@)
    }

    /// The play phase of this round with no program hooks installed, as used to
    /// estimate how many tricks a player can take.
    pub fn to_play_phase(self) -> (r: PlayPhaseData)
        requires
            self.wf(),
        ensures
            r@.wf(),
            r@.hands == self.hands@,
            r@.trump == self.trump,
            r@.contracts == self.contracts,
            r@.completed.len() == 0,
            r@.delegates.trick_winner.len() == 0,
            r@.delegates.must_follow_suit.len() == 0,
            forall|i: int| 0 <= i < 12 ==> #[trigger] r@.delegates.can_activate[i] is None,
    {
        let r = PlayPhaseData {
            current_trick: Trick::new(),
            turn: Some(PlayerName::User),
            completed_tricks: Vec::new(),
            trump: self.trump,
            contracts: self.contracts,
            hands: self.hands,
            programs: ProgramData {
                current_delegates: PlayPhaseDelegates::new(),
                program_state: [None, None, None, None, None, None, None, None, None, None, None, None],
                all_programs: self.programs.all_programs,
            },
        };
        proof {
            let v = r@;
            assert(v.completed =~= Seq::<(Seq<crate::round::PlayedCard>, PlayerName)>::empty());
            assert forall|c: crate::primitives::Card| #[trigger] v.card_count(c) == 1 by {
                assert(crate::round::holders(v.hands, c) == 1);
            }
            assert forall|p: PlayerName| #[trigger] v.hand(p).len() + v.completed.len() + (if v.played_in_trick(p) {
                1int
            } else {
                0int
            }) == 13 by {
                crate::primitives::lemma_seats(p, p, 0);
                assert(v.hands[crate::primitives::player_index(p) as int].len() == 13);
            }
            crate::card_set::lemma_card_set_finite(v.hands[0]);
            assert(v.hands[0].len() == 13);
            assert(v.hands[0] != Set::<crate::primitives::Card>::empty());
            r.programs.current_delegates.lemma_slots();
            assert(v.next_to_play() == Some(PlayerName::User));
        }
        r
    }
}

impl Clone for ContractPhaseData {
    fn clone(&self) -> (r: ContractPhaseData)
        ensures
            r.trump == self.trump,
            r.contracts == self.contracts,
            r.hands@ == self.hands@,
            r.step == self.step,
            r.programs.all_programs@ == self.programs.all_programs@,
            r.programs.program_state == self.programs.program_state,
    {
        ContractPhaseData {
            trump: self.trump,
            contracts: self.contracts,
            hands: self.hands.clone(),
            step: self.step,
            programs: ProgramData {
                current_delegates: ContractPhaseDelegates {},
                program_state: self.programs.program_state,
                all_programs: self.programs.all_programs.clone(),
            },
        }
    }
}

/// Returns true if `player` may take `action` now: only the user acts, and each
/// action belongs to one step.
pub open spec fn can_perform(data: &ContractPhaseData, player: PlayerName, action: ContractPhaseAction) -> bool {
    player == PlayerName::User && match action {
        ContractPhaseAction::AcceptUserContract => data.step == ContractPhaseStep::AwaitingUserContact,
        ContractPhaseAction::SetUserContract(_) => data.step == ContractPhaseStep::AwaitingUserContact,
        ContractPhaseAction::SetAgentContracts { .. } => data.step == ContractPhaseStep::AwaitingAgentContracts,
        ContractPhaseAction::StartPlayPhase => data.step == ContractPhaseStep::ReadyToStart,
    }
}

/// Returns true if `action` is currently legal for `player`.
pub fn can_perform_action(data: &ContractPhaseData, player: PlayerName, action: ContractPhaseAction) -> (r: bool)
    ensures
        r == can_perform(data, player, action),
{
    if player != PlayerName::User {
        return false;
    }
    match action {
        ContractPhaseAction::AcceptUserContract => data.step == ContractPhaseStep::AwaitingUserContact,
        ContractPhaseAction::SetUserContract(_) => data.step == ContractPhaseStep::AwaitingUserContact,
        ContractPhaseAction::SetAgentContracts { .. } => data.step == ContractPhaseStep::AwaitingAgentContracts,
        ContractPhaseAction::StartPlayPhase => data.step == ContractPhaseStep::ReadyToStart,
    }
}

/// Performs a legal contract-phase action; starting the play phase returns the
/// round in its new phase.
pub fn handle_action(data: &mut ContractPhaseData, player: PlayerName, action: ContractPhaseAction) -> (r: Option<RoundData>)
    requires
        old(data).wf(),
        can_perform(old(data), player, action),
    ensures
        final(data).wf(),
        final(data).trump == old(data).trump,
        final(data).hands@ == old(data).hands@,
        match action {
            ContractPhaseAction::SetUserContract(n) => r is None && final(data).step == old(data).step
                && forall|p: PlayerName| #[trigger] final(data).contracts.number(p) == if p == PlayerName::User { n as nat } else { old(data).contracts.number(p) },
            ContractPhaseAction::AcceptUserContract => r is None && final(data).step == ContractPhaseStep::AwaitingAgentContracts
                && final(data).contracts == old(data).contracts,
            ContractPhaseAction::SetAgentContracts { west, north, east } => r is None
                && final(data).step == ContractPhaseStep::ReadyToStart
                && final(data).contracts.number(PlayerName::User) == old(data).contracts.number(PlayerName::User)
                && final(data).contracts.number(PlayerName::West) == west
                && final(data).contracts.number(PlayerName::North) == north
                && final(data).contracts.number(PlayerName::East) == east,
            ContractPhaseAction::StartPlayPhase => r matches Some(RoundData::PlayPhase(play)) && {
                &&& play@.wf()
                &&& play@.hands == old(data).hands@
                &&& play@.contracts == old(data).contracts
                &&& play@.trump == old(data).trump
                &&& play@.turn == Some(PlayerName::User)
            },
        },
{
    match action {
        ContractPhaseAction::SetUserContract(number) => {
            *data.contracts.contract_number_mut(player) = number;
        },
        ContractPhaseAction::AcceptUserContract => {
            data.step = ContractPhaseStep::AwaitingAgentContracts;
        },
        ContractPhaseAction::SetAgentContracts { west, north, east } => {
            *data.contracts.contract_number_mut(PlayerName::West) = west;
            *data.contracts.contract_number_mut(PlayerName::North) = north;
            *data.contracts.contract_number_mut(PlayerName::East) = east;
            data.step = ContractPhaseStep::ReadyToStart;
        },
        ContractPhaseAction::StartPlayPhase => {
            return Some(RoundData::PlayPhase(start_play_phase::run(data.clone())));
        },
    }
    None
}

} // verus!
