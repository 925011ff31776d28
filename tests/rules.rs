use trick_engine::actions::handle_action;
use trick_engine::card_set::CardSet;
use trick_engine::contract_phase::{ContractPhaseData, ContractPhaseStep};
use trick_engine::delegates::{ContractPhaseDelegates, ProgramId, ProgramName};
use trick_engine::primitives::{Card, PlayerName, Rank, Suit};
use trick_engine::queries::{current_turn, legal_actions, met_contract, tricks_won};
use trick_engine::round::{
    CompletedTrick, Contracts, Hands, OwnedPrograms, PlayPhaseAction, PlayPhaseData, PlayedCard,
    ProgramData, Trick,
};
use trick_engine::scoring::{contract_value, score};
use trick_engine::start_play_phase;
use trick_engine::tricks;

use std::cmp::Ordering;
use PlayerName::{East, North, User, West};

const RANKS: [Rank; 13] = [
    Rank::Two,
    Rank::Three,
    Rank::Four,
    Rank::Five,
    Rank::Six,
    Rank::Seven,
    Rank::Eight,
    Rank::Nine,
    Rank::Ten,
    Rank::Jack,
    Rank::Queen,
    Rank::King,
    Rank::Ace,
];

fn card(suit: Suit, rank: Rank) -> Card {
    Card::new(suit, rank)
}

/// Cards of `suit` whose rank position lies in `from..to`.
fn run(suit: Suit, from: usize, to: usize) -> Vec<Card> {
    RANKS[from..to].iter().map(|r| card(suit, *r)).collect()
}

fn set(cards: Vec<Card>) -> CardSet {
    CardSet::from_cards(&cards)
}

fn start(
    user: Vec<Card>,
    west: Vec<Card>,
    north: Vec<Card>,
    east: Vec<Card>,
    trump: Option<Suit>,
    user_programs: Vec<ProgramName>,
) -> PlayPhaseData {
    let hands = Hands::new(set(north), set(east), set(user), set(west));
    assert!(hands.is_valid_deal());
    let mut contracts = Contracts::new();
    for p in [PlayerName::User, PlayerName::West, PlayerName::North, PlayerName::East] {
        *contracts.contract_number_mut(p) = 3;
    }
    let mut programs = OwnedPrograms::new();
    programs.user = user_programs;
    let data = ContractPhaseData {
        trump,
        contracts,
        hands,
        step: ContractPhaseStep::ReadyToStart,
        programs: ProgramData {
            current_delegates: ContractPhaseDelegates {},
            program_state: [None; 12],
            all_programs: programs,
        },
    };
    start_play_phase::run(data)
}

fn play(data: &mut PlayPhaseData, player: PlayerName, c: Card) {
    let action = PlayPhaseAction::PlayCard(c);
    assert!(legal_actions(data, player).contains(&action), "{:?} cannot play {:?}", player, c);
    handle_action(data, player, action);
}

fn activate(data: &mut PlayPhaseData, player: PlayerName, name: ProgramName) {
    let action = PlayPhaseAction::ActivateProgram(ProgramId::new(name, player));
    assert!(legal_actions(data, player).contains(&action));
    handle_action(data, player, action);
}

fn deal_a() -> (Vec<Card>, Vec<Card>, Vec<Card>, Vec<Card>) {
    let mut user = vec![card(Suit::Hearts, Rank::Two)];
    user.extend(run(Suit::Clubs, 1, 13));
    let west = run(Suit::Spades, 0, 13);
    let mut north = run(Suit::Hearts, 4, 13);
    north.extend(run(Suit::Diamonds, 0, 4));
    let mut east = run(Suit::Hearts, 1, 4);
    east.push(card(Suit::Clubs, Rank::Two));
    east.extend(run(Suit::Diamonds, 4, 13));
    (user, west, north, east)
}

#[test]
fn scenario_trick_winner_no_trump() {
    let (u, w, n, e) = deal_a();
    let mut data = start(u, w, n, e, None, vec![]);
    play(&mut data, PlayerName::User, card(Suit::Hearts, Rank::Two));
    play(&mut data, PlayerName::West, card(Suit::Spades, Rank::King));
    play(&mut data, PlayerName::North, card(Suit::Hearts, Rank::Ace));
    play(&mut data, PlayerName::East, card(Suit::Hearts, Rank::Five));
    assert_eq!(data.completed_tricks.len(), 1);
    assert_eq!(data.completed_tricks[0].winner, PlayerName::North);
    assert_eq!(current_turn(&data), Some(PlayerName::North));
}

#[test]
fn scenario_trump_beats_led_suit() {
    let mut user = vec![card(Suit::Hearts, Rank::Ace)];
    user.extend(run(Suit::Clubs, 1, 13));
    let west = run(Suit::Spades, 0, 13);
    let mut north = run(Suit::Hearts, 0, 12);
    north.push(card(Suit::Clubs, Rank::Two));
    let east = run(Suit::Diamonds, 0, 13);
    let mut data = start(user, west, north, east, Some(Suit::Spades), vec![]);
    play(&mut data, PlayerName::User, card(Suit::Hearts, Rank::Ace));
    play(&mut data, PlayerName::West, card(Suit::Spades, Rank::Two));
    play(&mut data, PlayerName::North, card(Suit::Hearts, Rank::King));
    play(&mut data, PlayerName::East, card(Suit::Diamonds, Rank::Three));
    assert_eq!(data.completed_tricks[0].winner, PlayerName::West);
}

fn deal_c() -> (Vec<Card>, Vec<Card>, Vec<Card>, Vec<Card>) {
    let mut user = vec![
        card(Suit::Hearts, Rank::Two),
        card(Suit::Spades, Rank::Ace),
        card(Suit::Clubs, Rank::Two),
    ];
    user.extend(run(Suit::Diamonds, 0, 10));
    let mut west = vec![card(Suit::Clubs, Rank::Three)];
    west.extend(run(Suit::Spades, 0, 12));
    let mut north = vec![card(Suit::Clubs, Rank::Four)];
    north.extend(run(Suit::Diamonds, 10, 13));
    north.extend(run(Suit::Clubs, 3, 12));
    let mut east = vec![card(Suit::Clubs, Rank::Ace)];
    east.extend(run(Suit::Hearts, 1, 13));
    (user, west, north, east)
}

fn first_trick_to_east(data: &mut PlayPhaseData) {
    play(data, PlayerName::User, card(Suit::Clubs, Rank::Two));
    play(data, PlayerName::West, card(Suit::Clubs, Rank::Three));
    play(data, PlayerName::North, card(Suit::Clubs, Rank::Four));
    play(data, PlayerName::East, card(Suit::Clubs, Rank::Ace));
    assert_eq!(data.completed_tricks[0].winner, PlayerName::East);
    play(data, PlayerName::East, card(Suit::Hearts, Rank::Three));
}

#[test]
fn scenario_must_follow_suit() {
    let (u, w, n, e) = deal_c();
    let mut data = start(u, w, n, e, None, vec![]);
    first_trick_to_east(&mut data);
    assert_eq!(current_turn(&data), Some(PlayerName::User));
    let legal = legal_actions(&data, PlayerName::User);
    assert_eq!(legal, vec![PlayPhaseAction::PlayCard(card(Suit::Hearts, Rank::Two))]);
}

#[test]
fn scenario_eviction_frees_off_suit_cards() {
    let (u, w, n, e) = deal_c();
    let mut data = start(u, w, n, e, None, vec![ProgramName::Eviction]);
    first_trick_to_east(&mut data);
    let before = legal_actions(&data, PlayerName::User);
    assert!(!before.contains(&PlayPhaseAction::PlayCard(card(Suit::Spades, Rank::Ace))));
    activate(&mut data, PlayerName::User, ProgramName::Eviction);
    let after = legal_actions(&data, PlayerName::User);
    assert!(after.contains(&PlayPhaseAction::PlayCard(card(Suit::Spades, Rank::Ace))));
    assert!(after.contains(&PlayPhaseAction::PlayCard(card(Suit::Hearts, Rank::Two))));
    // Activated once, it cannot be activated again.
    let id = ProgramId::new(ProgramName::Eviction, PlayerName::User);
    assert!(!after.contains(&PlayPhaseAction::ActivateProgram(id)));
    play(&mut data, PlayerName::User, card(Suit::Spades, Rank::Ace));
}

#[test]
fn scenario_starfall_override() {
    let mut user = vec![card(Suit::Clubs, Rank::Two)];
    user.extend(run(Suit::Diamonds, 0, 12));
    let mut west = vec![card(Suit::Clubs, Rank::King)];
    west.extend(run(Suit::Hearts, 0, 12));
    let mut north = vec![card(Suit::Clubs, Rank::Queen)];
    north.extend(run(Suit::Spades, 0, 12));
    let mut east = vec![
        card(Suit::Clubs, Rank::Ace),
        card(Suit::Diamonds, Rank::Ace),
        card(Suit::Hearts, Rank::Ace),
        card(Suit::Spades, Rank::Ace),
    ];
    east.extend(run(Suit::Clubs, 1, 10));
    let mut data = start(user, west, north, east, None, vec![ProgramName::Starfall]);
    activate(&mut data, PlayerName::User, ProgramName::Starfall);
    play(&mut data, PlayerName::User, card(Suit::Clubs, Rank::Two));
    play(&mut data, PlayerName::West, card(Suit::Clubs, Rank::King));
    play(&mut data, PlayerName::North, card(Suit::Clubs, Rank::Queen));
    play(&mut data, PlayerName::East, card(Suit::Clubs, Rank::Ace));
    assert_eq!(data.completed_tricks[0].winner, PlayerName::User);
    // The override holds for the activated trick only.
    play(&mut data, PlayerName::User, card(Suit::Diamonds, Rank::Two));
    play(&mut data, PlayerName::West, card(Suit::Hearts, Rank::Two));
    play(&mut data, PlayerName::North, card(Suit::Spades, Rank::Two));
    play(&mut data, PlayerName::East, card(Suit::Diamonds, Rank::Ace));
    assert_eq!(data.completed_tricks[1].winner, PlayerName::East);
}

#[test]
fn starfall_needs_the_lead() {
    let (u, w, n, e) = deal_c();
    let mut data = start(u, w, n, e, None, vec![ProgramName::Starfall]);
    let id = PlayPhaseAction::ActivateProgram(ProgramId::new(ProgramName::Starfall, PlayerName::User));
    assert!(legal_actions(&data, PlayerName::User).contains(&id));
    play(&mut data, PlayerName::User, card(Suit::Clubs, Rank::Two));
    play(&mut data, PlayerName::West, card(Suit::Clubs, Rank::Three));
    play(&mut data, PlayerName::North, card(Suit::Clubs, Rank::Four));
    play(&mut data, PlayerName::East, card(Suit::Clubs, Rank::Ace));
    play(&mut data, PlayerName::East, card(Suit::Hearts, Rank::Three));
    assert!(!legal_actions(&data, PlayerName::User).contains(&id));
}

#[test]
fn obsidian_makes_spades_trump() {
    let (u, w, n, e) = deal_a();
    let mut data = start(u, w, n, e, None, vec![ProgramName::Obsidian]);
    activate(&mut data, PlayerName::User, ProgramName::Obsidian);
    assert_eq!(data.trump, Some(Suit::Spades));
    play(&mut data, PlayerName::User, card(Suit::Hearts, Rank::Two));
    play(&mut data, PlayerName::West, card(Suit::Spades, Rank::Two));
    play(&mut data, PlayerName::North, card(Suit::Hearts, Rank::Ace));
    play(&mut data, PlayerName::East, card(Suit::Hearts, Rank::Five));
    assert_eq!(data.completed_tricks[0].winner, PlayerName::West);
}

#[test]
fn card_ordering_prefers_trump_then_led_suit() {
    let (u, w, n, e) = deal_a();
    let data = start(u, w, n, e, Some(Suit::Spades), vec![]);
    let two_spades = card(Suit::Spades, Rank::Two);
    let ace_hearts = card(Suit::Hearts, Rank::Ace);
    let king_clubs = card(Suit::Clubs, Rank::King);
    assert_eq!(tricks::card_ordering(&data, Suit::Hearts, two_spades, ace_hearts), Ordering::Greater);
    assert_eq!(tricks::card_ordering(&data, Suit::Hearts, king_clubs, ace_hearts), Ordering::Less);
    assert_eq!(tricks::card_ordering(&data, Suit::Hearts, ace_hearts, ace_hearts), Ordering::Equal);
}

#[test]
fn illegal_cards_are_not_offered() {
    let (u, w, n, e) = deal_a();
    let data = start(u, w, n, e, None, vec![]);
    // Not West's turn, and the card is not in the user's hand.
    assert!(legal_actions(&data, PlayerName::West).is_empty());
    assert!(!trick_engine::queries::can_perform_action(
        &data,
        PlayerName::User,
        PlayPhaseAction::PlayCard(card(Suit::Spades, Rank::Ace))
    ));
}

fn finished_round(winners: [PlayerName; 13]) -> PlayPhaseData {
    let (u, w, n, e) = deal_a();
    let mut data = start(u, w, n, e, None, vec![]);
    data.hands = Hands::new(CardSet::new(), CardSet::new(), CardSet::new(), CardSet::new());
    data.completed_tricks = winners
        .iter()
        .map(|p| CompletedTrick {
            trick: Trick { cards: vec![PlayedCard { played_by: *p, card: card(Suit::Clubs, Rank::Two) }] },
            winner: *p,
        })
        .collect();
    data.turn = None;
    data
}

#[test]
fn scenario_scoring() {
    let data = finished_round([
        User, User, User, West, West, West, West, North, North, North, East, East, East,
    ]);
    assert_eq!(tricks_won(&data, User), 3);
    assert_eq!(tricks_won(&data, West), 4);
    assert_eq!(score(&data, User).0, 30);
    assert_eq!(score(&data, North).0, 30);
    assert_eq!(score(&data, East).0, 30);
    // West won more than their contract, which still counts as meeting it.
    assert!(met_contract(&data, West));
    assert_eq!(score(&data, West).0, 30);
}

#[test]
fn missed_contract_scores_zero() {
    let data = finished_round([
        User, User, West, West, West, West, West, North, North, North, East, East, East,
    ]);
    assert!(!met_contract(&data, User));
    assert_eq!(score(&data, User).0, 0);
    let total: u32 = [User, West, North, East].iter().map(|p| score(&data, *p).0).sum();
    let met: u32 = [User, West, North, East]
        .iter()
        .filter(|p| met_contract(&data, **p))
        .map(|p| contract_value(data.contracts.contract_number(*p)).0)
        .sum();
    assert_eq!(total, met);
    assert_eq!(total, 90);
}

#[test]
fn contract_values() {
    let expected = [0, 10, 20, 30, 50, 100, 150, 200, 400, 700, 1000, 1500, 2000, 2500, 2500];
    for (n, v) in expected.iter().enumerate() {
        assert_eq!(contract_value(n).0, *v);
    }
    assert_eq!(contract_value(100).0, 2500);
    assert_eq!(contract_value(2000).as_i32(), 2500);
}
