use std::time::{Duration, Instant};

use rand::rngs::StdRng;
use rand::SeedableRng;
use trick_engine::actions::handle_action;
use trick_engine::agents::{pick_action, run_match, AgentConfig, AgentName};
use trick_engine::alpha_beta::{self, negamax, SearchTimeout, VALUE_BOUND};
use trick_engine::contract_phase::{handle_action as handle_contract_action, ContractPhaseAction, ContractPhaseStep, RoundData};
use trick_engine::game::{status, Evaluator, GameStatus, MaxTricksEvaluator, TrickEvaluator, WinLossEvaluator};
use trick_engine::monte_carlo::{self, SearchTree};
use trick_engine::new_round::{create, create_play_phase, deal, new_deck};
use trick_engine::primitives::{Card, PlayerName};
use trick_engine::queries::{current_turn, legal_actions, tricks_won};
use trick_engine::round::{PlayPhaseAction, PlayPhaseData};
use trick_engine::scoring::score;

const PLAYERS: [PlayerName; 4] = [PlayerName::User, PlayerName::West, PlayerName::North, PlayerName::East];

fn first_child(tree: &SearchTree, node: usize) -> usize {
    tree.children(node)[0]
}

fn round(seed: u64) -> PlayPhaseData {
    create_play_phase(&mut StdRng::seed_from_u64(seed), 3)
}

fn past() -> Instant {
    Instant::now()
}

fn later() -> Instant {
    Instant::now() + Duration::from_secs(5)
}

fn is_legal(data: &PlayPhaseData, action: PlayPhaseAction) -> bool {
    let turn = current_turn(data).unwrap();
    legal_actions(data, turn).contains(&action)
}

fn play_out(user: AgentName, opponent: AgentName, seed: u64, millis: u64) -> (PlayPhaseData, Vec<(PlayerName, PlayPhaseAction)>) {
    let mut data = round(seed);
    let mut rng = StdRng::seed_from_u64(seed + 1);
    let moves = run_match(user, opponent, &mut data, millis, false, &mut rng, &first_child).unwrap();
    (data, moves)
}

#[test]
fn first_available_matches_are_deterministic() {
    let (a, moves_a) = play_out(AgentName::FirstAvailableAction, AgentName::FirstAvailableAction, 7, 1);
    let (b, moves_b) = play_out(AgentName::FirstAvailableAction, AgentName::FirstAvailableAction, 7, 1);
    assert_eq!(moves_a, moves_b);
    for p in PLAYERS {
        assert_eq!(score(&a, p), score(&b, p));
        assert_eq!(tricks_won(&a, p), tricks_won(&b, p));
    }
}

#[test]
fn finished_round_invariants() {
    let (data, moves) = play_out(AgentName::FirstAvailableAction, AgentName::FirstAvailableAction, 11, 1);
    assert_eq!(current_turn(&data), None);
    assert!(data.hands.all_empty());
    assert_eq!(data.completed_tricks.len(), 13);
    assert!(data.current_trick.cards.is_empty());
    let total: usize = PLAYERS.iter().map(|p| tricks_won(&data, *p)).sum();
    assert_eq!(total, 13);
    let mut seen = std::collections::HashSet::new();
    for t in &data.completed_tricks {
        assert_eq!(t.trick.cards.len(), 4);
        let players: std::collections::HashSet<_> = t.trick.cards.iter().map(|c| c.played_by).collect();
        assert_eq!(players.len(), 4);
        for c in &t.trick.cards {
            assert!(seen.insert(c.card));
        }
    }
    assert_eq!(seen.len(), 52);
    let plays = moves.iter().filter(|(_, a)| matches!(a, PlayPhaseAction::PlayCard(_))).count();
    assert_eq!(plays, 52);
    match status(&data) {
        GameStatus::Completed { scores } => {
            for (i, p) in PLAYERS.iter().enumerate() {
                assert_eq!(scores[i] as u32, score(&data, *p).0);
            }
        }
        GameStatus::InProgress { .. } => panic!("round should be over"),
    }
}

#[test]
fn cards_are_conserved_during_play() {
    let mut data = round(5);
    let mut steps = 0;
    while let Some(turn) = current_turn(&data) {
        let hand_total: usize = PLAYERS.iter().map(|p| data.hands.hand(*p).len()).sum();
        assert_eq!(hand_total + data.current_trick.cards.len() + 4 * data.completed_tricks.len(), 52);
        let action = alpha_beta::first_available_action(&data);
        handle_action(&mut data, turn, action);
        steps += 1;
    }
    assert!(steps >= 52);
}

#[test]
fn scenario_alpha_beta_match_completes() {
    let (data, moves) = play_out(AgentName::AlphaBetaDepth10, AgentName::AlphaBetaDepth10, 3, 1);
    assert_eq!(current_turn(&data), None);
    let plays = moves.iter().filter(|(_, a)| matches!(a, PlayPhaseAction::PlayCard(_))).count();
    assert_eq!(plays, 52);
}

#[test]
fn agents_answer_legally_past_the_deadline() {
    let data = round(21);
    let mut rng = StdRng::seed_from_u64(1);
    for name in [
        AgentName::AlphaBetaDepth10,
        AgentName::AlphaBetaDepth13,
        AgentName::Uct1,
        AgentName::Uct1MaxTricks,
        AgentName::Uct1Iterations250,
        AgentName::FirstAvailableAction,
    ] {
        let config = AgentConfig { deadline: past(), panic_on_search_timeout: false };
        let action = pick_action(name, &config, &data, &mut rng, &first_child).unwrap();
        assert!(is_legal(&data, action), "{:?}", name);
    }
}

#[test]
fn search_timeout_when_required() {
    let data = round(22);
    let mut rng = StdRng::seed_from_u64(2);
    let config = AgentConfig { deadline: past(), panic_on_search_timeout: true };
    assert_eq!(pick_action(AgentName::AlphaBetaDepth10, &config, &data, &mut rng, &first_child), Err(SearchTimeout));
    assert_eq!(pick_action(AgentName::Uct1, &config, &data, &mut rng, &first_child), Err(SearchTimeout));
}

#[test]
fn monte_carlo_with_iteration_cap_is_legal() {
    let data = round(23);
    let mut rng = StdRng::seed_from_u64(3);
    let action = monte_carlo::search(&data, &later(), true, Some(40), Evaluator::Trick, &mut rng, &first_child).unwrap();
    assert!(is_legal(&data, action));
}

#[test]
fn search_tree_expands_in_order() {
    let data = round(24);
    let turn = current_turn(&data).unwrap();
    let legal = legal_actions(&data, turn);
    let mut tree = SearchTree::new(data.clone());
    let child = tree.expand(0).unwrap();
    assert_eq!(child, 1);
    assert_eq!(tree.children(0), vec![1]);
    tree.backpropagate(child, 5);
    assert_eq!(tree.stats(child), (1, 5));
    assert_eq!(tree.stats(0), (1, 5));
    assert_eq!(tree.best_action(), Some(legal[0]));
    let mut rng = StdRng::seed_from_u64(4);
    let value = tree.playout(child, &mut rng, Evaluator::MaxTricks);
    assert!((0..=13).contains(&value));
}

#[test]
fn evaluators_on_a_finished_round() {
    let (data, _) = play_out(AgentName::FirstAvailableAction, AgentName::FirstAvailableAction, 9, 1);
    let best = PLAYERS.iter().map(|p| score(&data, *p).0).max().unwrap();
    for p in PLAYERS {
        assert_eq!(MaxTricksEvaluator::evaluate(&data, p), tricks_won(&data, p) as i32);
        assert_eq!(TrickEvaluator::evaluate(&data, p), score(&data, p).0 as i32);
        let expected = if score(&data, p).0 == best { 1 } else { -1 };
        assert_eq!(WinLossEvaluator::evaluate(&data, p), expected);
    }
    let fresh = round(9);
    assert_eq!(WinLossEvaluator::evaluate(&fresh, PlayerName::User), 0);
    assert_eq!(TrickEvaluator::evaluate(&fresh, PlayerName::User), 0);
}

#[test]
fn cloned_round_replays_identically() {
    let mut a = round(31);
    let mut b = a.clone();
    for _ in 0..30 {
        let turn = current_turn(&a).unwrap();
        let action = legal_actions(&a, turn)[legal_actions(&a, turn).len() - 1];
        handle_action(&mut a, turn, action);
        handle_action(&mut b, turn, action);
    }
    assert_eq!(a.turn, b.turn);
    assert_eq!(a.trump, b.trump);
    assert_eq!(a.completed_tricks.len(), b.completed_tricks.len());
    for (x, y) in a.completed_tricks.iter().zip(b.completed_tricks.iter()) {
        assert_eq!(x.winner, y.winner);
        assert_eq!(x.trick.cards, y.trick.cards);
    }
    assert_eq!(a.current_trick.cards, b.current_trick.cards);
    for p in PLAYERS {
        assert_eq!(a.hands.hand(p), b.hands.hand(p));
    }
}

#[test]
fn new_round_deals_a_shuffled_deck() {
    let mut rng = StdRng::seed_from_u64(99);
    let RoundData::ContractPhase(data) = create(&mut rng) else { panic!("expected the contract phase") };
    assert!(data.hands.is_valid_deal());
    assert_eq!(data.step, ContractPhaseStep::AwaitingUserContact);
    let deck = new_deck();
    let first: Vec<Card> = deck[26..39].to_vec();
    assert_ne!(data.hands.hand(PlayerName::User).cards(), first);
    let mut trumps = std::collections::HashSet::new();
    for seed in 0..40 {
        let RoundData::ContractPhase(d) = create(&mut StdRng::seed_from_u64(seed)) else { panic!() };
        trumps.insert(d.trump);
    }
    assert!(trumps.len() > 1);
}

#[test]
fn contract_phase_steps() {
    let mut rng = StdRng::seed_from_u64(5);
    let RoundData::ContractPhase(mut data) = create(&mut rng) else { panic!() };
    assert!(handle_contract_action(&mut data, PlayerName::User, ContractPhaseAction::SetUserContract(4)).is_none());
    assert_eq!(data.contracts.contract_number(PlayerName::User), 4);
    assert!(handle_contract_action(&mut data, PlayerName::User, ContractPhaseAction::AcceptUserContract).is_none());
    assert_eq!(data.step, ContractPhaseStep::AwaitingAgentContracts);
    let action = ContractPhaseAction::SetAgentContracts { west: 2, north: 3, east: 1 };
    assert!(handle_contract_action(&mut data, PlayerName::User, action).is_none());
    assert_eq!(data.step, ContractPhaseStep::ReadyToStart);
    assert_eq!(data.contracts.contract_number(PlayerName::North), 3);
    match handle_contract_action(&mut data, PlayerName::User, ContractPhaseAction::StartPlayPhase) {
        Some(RoundData::PlayPhase(play)) => {
            assert_eq!(current_turn(&play), Some(PlayerName::User));
            assert_eq!(play.contracts.contract_number(PlayerName::East), 1);
        }
        _ => panic!("expected the play phase"),
    }
}

#[test]
fn negamax_scores_a_finished_round_by_margin() {
    let (data, _) = play_out(AgentName::FirstAvailableAction, AgentName::FirstAvailableAction, 13, 1);
    let scores: Vec<i32> = PLAYERS.iter().map(|p| score(&data, *p).0 as i32).collect();
    for (i, p) in PLAYERS.iter().enumerate() {
        let others = (1..4).map(|k| scores[(i + k) % 4]).max().unwrap();
        let value = negamax(&data, 4, -VALUE_BOUND - 1, VALUE_BOUND + 1, *p, Evaluator::Trick, &later()).unwrap();
        assert_eq!(value, scores[i] - others);
    }
}

#[test]
fn negamax_at_depth_zero_is_the_evaluation() {
    let data = round(41);
    let value = negamax(&data, 0, -VALUE_BOUND - 1, VALUE_BOUND + 1, PlayerName::West, Evaluator::MaxTricks, &later()).unwrap();
    assert_eq!(value, 0);
    assert_eq!(negamax(&data, 2, -VALUE_BOUND - 1, VALUE_BOUND + 1, PlayerName::West, Evaluator::MaxTricks, &past()), Err(SearchTimeout));
}

#[test]
fn alpha_beta_picks_a_best_first_move() {
    let data = round(42);
    let turn = current_turn(&data).unwrap();
    let depth = 2;
    let choice = alpha_beta::search_root(&data, depth, turn, Evaluator::MaxTricks, &later()).unwrap();
    let legal = legal_actions(&data, turn);
    let value_of = |a: PlayPhaseAction| {
        let mut child = data.clone();
        handle_action(&mut child, turn, a);
        negamax(&child, depth - 1, -VALUE_BOUND - 1, VALUE_BOUND + 1, turn, Evaluator::MaxTricks, &later()).unwrap()
    };
    let best = legal.iter().map(|a| value_of(*a)).max().unwrap();
    let first_best = *legal.iter().find(|a| value_of(**a) == best).unwrap();
    assert_eq!(choice, first_best);
}

#[test]
fn deal_splits_the_deck_in_runs_of_thirteen() {
    let deck = new_deck();
    let RoundData::ContractPhase(data) = deal(&deck, Some(trick_engine::primitives::Suit::Hearts)) else { panic!() };
    assert_eq!(data.trump, Some(trick_engine::primitives::Suit::Hearts));
    assert_eq!(data.hands.hand(PlayerName::North).cards(), deck[0..13].to_vec());
    assert_eq!(data.hands.hand(PlayerName::East).cards(), deck[13..26].to_vec());
    assert_eq!(data.hands.hand(PlayerName::User).cards(), deck[26..39].to_vec());
    assert_eq!(data.hands.hand(PlayerName::West).cards(), deck[39..52].to_vec());
    assert_eq!(data.step, ContractPhaseStep::AwaitingUserContact);
}

#[test]
fn first_available_agent_succeeds_with_timeout_flag() {
    let mut data = round(17);
    let mut rng = StdRng::seed_from_u64(8);
    let config = AgentConfig { deadline: past(), panic_on_search_timeout: true };
    let turn = current_turn(&data).unwrap();
    let action = pick_action(AgentName::FirstAvailableAction, &config, &data, &mut rng, &first_child).unwrap();
    assert_eq!(action, legal_actions(&data, turn)[0]);
    let moves = run_match(AgentName::FirstAvailableAction, AgentName::FirstAvailableAction, &mut data, 0, true, &mut rng, &first_child).unwrap();
    assert!(moves.len() >= 52);
    assert_eq!(current_turn(&data), None);
}

#[test]
fn monte_carlo_without_iterations_answers_first_move() {
    let data = round(18);
    let turn = current_turn(&data).unwrap();
    let mut rng = StdRng::seed_from_u64(9);
    let action = monte_carlo::search(&data, &past(), true, Some(0), Evaluator::Trick, &mut rng, &first_child).unwrap();
    assert_eq!(action, legal_actions(&data, turn)[0]);
}
