//! Rules engine, program delegates and search agents for a four-player
//! trick-taking card game with per-player contracts.

/// Suits, ranks, cards and seats.
pub mod primitives;
/// Hands as 52-bit card sets.
pub mod card_set;
/// Program ids, states and the hook containers programs install into.
pub mod delegates;
/// The round's data and its model: hands, tricks, contracts, program state.
pub mod round;
/// Trick numbers, trick winners and card ordering.
pub mod tricks;
/// Activation conditions, effects and the hook dispatchers.
pub mod activation;
/// Follow-suit legality and playing a card.
pub mod cards;
/// Legal actions, turn and trick queries.
pub mod queries;
/// Applying an action to a round.
pub mod actions;
/// Contract rewards and scores.
pub mod scoring;
/// Facts that hold of every reachable round.
pub mod invariants;
/// The program registry: Starfall, Obsidian and Eviction.
pub mod programs;
/// The contract phase of a round.
pub mod contract_phase;
/// Installing program hooks and starting play.
pub mod start_play_phase;
/// Calls into rand.
pub mod random;
/// Dealing a new round.
pub mod new_round;
/// Calls into the system clock.
pub mod clock;
/// Round status and leaf evaluators for the agents.
pub mod game;
/// Alpha-beta search with iterative deepening.
pub mod alpha_beta;
/// Monte-Carlo tree search.
pub mod monte_carlo;
/// Agent dispatch and the matchup driver.
pub mod agents;
/// Bids of a number of tricks and a trump suit.
pub mod bidding;
