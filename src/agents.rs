use vstd::prelude::*;

use rand::rngs::StdRng;
use std::time::Instant;

use crate::actions::handle_action;
use crate::alpha_beta::{self, first_available_action, is_legal_move, SearchTimeout};
use crate::clock;
use crate::game::Evaluator;
use crate::invariants::{
    first_move, legal_sequence, lemma_first_moves_push, lemma_replay_push, lemma_step_progress,
    moves_left, plays_first_moves, replay,
};
use crate::queries::legal_moves;
use crate::monte_carlo::{self, SearchTree};
use crate::primitives::PlayerName;
use crate::round::{PlayPhaseAction, PlayPhaseData};

verus! {

/// The agents that can play a seat.
#[derive(Clone, Copy, Debug, PartialEq, Eq, Structural, Hash)]
pub enum AgentName {
    AlphaBetaDepth10,
    AlphaBetaDepth13,
    Uct1,
    Uct1MaxTricks,
    Uct1Iterations250,
    FirstAvailableAction,
}

impl AgentName {
    /// The name under which the agent reports its moves.
    pub fn label(&self) -> &'static str {
        match self {
            AgentName::AlphaBetaDepth10 => "ALPHA_BETA_10",
            AgentName::AlphaBetaDepth13 => "ALPHA_BETA_13",
            AgentName::Uct1 => "UCT1",
            AgentName::Uct1MaxTricks => "UCT1_MAX_TRICKS",
            AgentName::Uct1Iterations250 => "UCT1_250",
            AgentName::FirstAvailableAction => "FIRST_AVAILABLE_ACTION",
        }
    }
}

/// Limits on one agent decision.
pub struct AgentConfig {
    /// The search stops once the clock reaches this instant.
    pub deadline: Instant,
    /// Whether reaching the deadline is an error rather than a cue to answer.
    pub panic_on_search_timeout: bool,
}

/// How much a matchup reports while it runs.
#[derive(Clone, Copy, Debug, PartialEq, Eq, Structural, Hash)]
pub enum Verbosity {
    /// No output.
    Quiet,
    /// A line per match.
    Matches,
    /// A line per move.
    Actions,
}

/// Settings of a matchup between two agents.
pub struct Args {
    /// Agent for the user's seat.
    pub user: AgentName,
    /// Agent for the three other seats.
    pub opponent: AgentName,
    /// Time for each move, in milliseconds.
    pub move_time: u64,
    /// Number of matches to run.
    pub matches: u64,
    pub verbosity: Verbosity,
    /// Whether a search that reaches its deadline is an error.
    pub panic_on_search_timeout: bool,
}

/// Asks agent `name` for the next move of the round `data`. Monte-Carlo agents
/// descend their tree along the children that `select` names.
pub fn pick_action<F: Fn(&SearchTree, usize) -> usize>(
    name: AgentName,
    config: &AgentConfig,
    data: &PlayPhaseData,
    rng: &mut StdRng,
    select: &F,
) -> (r: Result<PlayPhaseAction, SearchTimeout>)
    requires
        data@.wf(),
        data@.turn is Some,
        forall|t: &SearchTree, n: usize| #[trigger] select.requires((t, n)),
    ensures
        r matches Ok(a) ==> is_legal_move(data@, a),
        r is Err ==> config.panic_on_search_timeout,
        name == AgentName::FirstAvailableAction ==> r == Ok::<PlayPhaseAction, SearchTimeout>(
            legal_moves(data@, data@.turn.unwrap())[0],
        ),
{
    match name {
        AgentName::AlphaBetaDepth10 => alpha_beta::pick_action(
            data,
            &config.deadline,
            config.panic_on_search_timeout,
            10,
            Evaluator::Trick,
        ),
        AgentName::AlphaBetaDepth13 => alpha_beta::pick_action(
            data,
            &config.deadline,
            config.panic_on_search_timeout,
            13,
            Evaluator::Trick,
        ),
        AgentName::Uct1 => monte_carlo::search(
            data,
            &config.deadline,
            config.panic_on_search_timeout,
            None,
            Evaluator::Trick,
            rng,
            select,
        ),
        AgentName::Uct1MaxTricks => monte_carlo::search(
            data,
            &config.deadline,
            config.panic_on_search_timeout,
            None,
            Evaluator::MaxTricks,
            rng,
            select,
        ),
        AgentName::Uct1Iterations250 => monte_carlo::search(
            data,
            &config.deadline,
            config.panic_on_search_timeout,
            Some(250),
            Evaluator::Trick,
            rng,
            select,
        ),
        AgentName::FirstAvailableAction => Ok(first_available_action(data)),
    }
}

/// Plays the round `data` to its end: `user` plays the user's seat and
/// `opponent` the other three, each move with `move_time` milliseconds. Returns
/// the moves in order, or the timeout of a search that was not allowed to run out.
pub fn run_match<F: Fn(&SearchTree, usize) -> usize>(
    user: AgentName,
    opponent: AgentName,
    data: &mut PlayPhaseData,
    move_time: u64,
    panic_on_search_timeout: bool,
    rng: &mut StdRng,
    select: &F,
) -> (r: Result<Vec<(PlayerName, PlayPhaseAction)>, SearchTimeout>)
    requires
        old(data)@.wf(),
        forall|t: &SearchTree, n: usize| #[trigger] select.requires((t, n)),
    ensures
        final(data)@.wf(),
        r is Ok ==> final(data)@.turn is None,
        r matches Ok(m) ==> legal_sequence(old(data)@, m@) && replay(old(data)@, m@) == final(data)@,
        r is Err ==> panic_on_search_timeout,
        user == AgentName::FirstAvailableAction && opponent == AgentName::FirstAvailableAction ==> r is Ok,
        user == AgentName::FirstAvailableAction && opponent == AgentName::FirstAvailableAction ==> (
        r matches Ok(m) && plays_first_moves(old(data)@, m@)),
{
    let mut moves: Vec<(PlayerName, PlayPhaseAction)> = Vec::new();
    let ghost origin = data@;
    loop
        invariant
            data@.wf(),
            legal_sequence(origin, moves@),
            replay(origin, moves@) == data@,
            user == AgentName::FirstAvailableAction && opponent == AgentName::FirstAvailableAction
                ==> plays_first_moves(origin, moves@),
            forall|t: &SearchTree, n: usize| #[trigger] select.requires((t, n)),
        ensures
            data@.wf(),
            data@.turn is None,
            legal_sequence(origin, moves@),
            replay(origin, moves@) == data@,
            user == AgentName::FirstAvailableAction && opponent == AgentName::FirstAvailableAction
                ==> plays_first_moves(origin, moves@),
        decreases moves_left(data@),
    {
        match data.turn {
            None => {
                break;
            },
            Some(turn) => {
                let agent = if turn == PlayerName::User {
                    user
                } else {
                    opponent
                };
                let start = clock::now();
                let deadline = match clock::after_millis(&start, move_time) {
                    Some(d) => d,
                    None => start,
                };
                let config = AgentConfig { deadline, panic_on_search_timeout };
                let action = match pick_action(agent, &config, data, rng, select) {
                    Ok(a) => a,
                    Err(e) => {
                        return Err(e);
                    },
                };
                proof {
                    lemma_step_progress(data@, turn, action);
                    lemma_replay_push(origin, moves@, (turn, action));
                    lemma_first_moves_push(origin, moves@, (turn, action));
                }
                handle_action(data, turn, action);
                moves.push((turn, action));
            },
        }
    }
    Ok(moves)
}

/// Returns true if the four contracts may stand together: they must not add up
/// to the thirteen tricks of a round.
pub open spec fn contracts_allowed(user: nat, west: nat, north: nat, east: nat) -> bool {
    user + west + north + east != 13
}

/// Returns true if the four contracts do not add up to 13.
pub fn agent_contracts_allowed(user: usize, west: usize, north: usize, east: usize) -> (r: bool)
    requires
        user <= usize::MAX / 4 && west <= usize::MAX / 4 && north <= usize::MAX / 4 && east
            <= usize::MAX / 4,
    ensures
        r == contracts_allowed(user as nat, west as nat, north as nat, east as nat),
{
    user + west + north + east != 13
}

/// Nudges one agent contract according to a die `roll` in `1..=6`: West up or
/// down, North up or down, East up or down, never below zero.
pub fn vary_agent_contracts(west: usize, north: usize, east: usize, roll: u8) -> (r: (usize, usize, usize))
    requires
        1 <= roll <= 6,
        west < usize::MAX && north < usize::MAX && east < usize::MAX,
    ensures
        r == (match roll {
            1 => ((west + 1) as usize, north, east),
            2 => (if west > 0 { (west - 1) as usize } else { 0 }, north, east),
            3 => (west, (north + 1) as usize, east),
            4 => (west, if north > 0 { (north - 1) as usize } else { 0 }, east),
            5 => (west, north, (east + 1) as usize),
            _ => (west, north, if east > 0 { (east - 1) as usize } else { 0 }),
        }),
{
    match roll {
        1 => (west + 1, north, east),
        2 => (west.saturating_sub(1), north, east),
        3 => (west, north + 1, east),
        4 => (west, north.saturating_sub(1), east),
        5 => (west, north, east + 1),
        _ => (west, north, east.saturating_sub(1)),
    }
}

} // verus!
