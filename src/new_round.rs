use vstd::prelude::*;

use rand::rngs::StdRng;

use crate::card_set::{deck_seq, lemma_all_cards, CardSet};
use crate::contract_phase::{ContractPhaseData, ContractPhaseStep, RoundData};
use crate::delegates::{ContractPhaseDelegates, ProgramId, ProgramName};
use crate::primitives::{card_at, lemma_card_index, Card, PlayerName, Suit};
use crate::random::{choose_trump, shuffle_cards};
use crate::round::{holders, is_deal, ContractNumber, Contracts, Hands, OwnedPrograms, PlayPhaseData, ProgramData};
use crate::start_play_phase::{self, distinct_programs, hooks_of, owns};

verus! {

/// The 52 cards in card order.
pub fn new_deck() -> (r: Vec<Card>)
    ensures
        r@ == deck_seq(),
{
    let mut cards: Vec<Card> = Vec::new();
    let mut i: u8 = 0;
    while i < 52
        invariant
            i <= 52,
            cards@ == deck_seq().subrange(0, i as int),
        decreases 52 - i,
    {
        cards.push(Card::from_index(i));
        assert(deck_seq().subrange(0, i + 1) =~= deck_seq().subrange(0, i as int).push(card_at(i as nat)));
        i = i + 1;
    }
    assert(deck_seq().subrange(0, 52) =~= deck_seq());
    cards
}

/// The hand made of the 13 cards of `cards` that start at `start`.
fn build_hand(cards: &Vec<Card>, start: usize) -> (r: CardSet)
    requires
        start <= 39,
        start + 13 <= cards@.len(),
    ensures
        r@ == cards@.subrange(start as int, start + 13).to_set(),
{
    let mut hand = CardSet::new();
    let mut i: usize = start;
    assert(cards@.subrange(start as int, start as int).to_set() =~= Set::<Card>::empty());
    while i < start + 13
        invariant
            start <= i <= start + 13,
            start <= 39,
            start + 13 <= cards@.len(),
            hand@ == cards@.subrange(start as int, i as int).to_set(),
        decreases start + 13 - i,
    {
        hand.insert(cards[i]);
        proof {
            assert(cards@.subrange(start as int, i + 1) =~= cards@.subrange(start as int, i as int).push(cards@[i as int]));
            cards@.subrange(start as int, i as int).lemma_push_to_set_commute(cards@[i as int]);
        }
        i = i + 1;
    }
    hand
}

/// Splitting a permutation of the deck into four runs of 13 gives a deal.
proof fn lemma_chunks_deal(s: Seq<Card>)
    requires
        s.to_multiset() == deck_seq().to_multiset(),
    ensures
        s.len() == 52,
        is_deal(seq![
            s.subrange(26, 39).to_set(),
            s.subrange(39, 52).to_set(),
            s.subrange(0, 13).to_set(),
            s.subrange(13, 26).to_set(),
        ]),
{
    lemma_all_cards();
    deck_seq().lemma_multiset_has_no_duplicates();
    s.lemma_multiset_has_no_duplicates_conv();
    vstd::seq_lib::to_multiset_len(s);
    vstd::seq_lib::to_multiset_len(deck_seq());
    assert(s.len() == deck_seq().len());
    let chunk = |k: int| s.subrange(13 * k, 13 * k + 13);
    let hands = seq![chunk(2).to_set(), chunk(3).to_set(), chunk(0).to_set(), chunk(1).to_set()];
    assert(chunk(0) == s.subrange(0, 13));
    assert(chunk(1) == s.subrange(13, 26));
    assert(chunk(2) == s.subrange(26, 39));
    assert(chunk(3) == s.subrange(39, 52));
    assert forall|k: int| 0 <= k < 4 implies (#[trigger] chunk(k)).to_set().len() == 13 by {
        assert(chunk(k).no_duplicates());
        chunk(k).unique_seq_to_set();
    }
    assert forall|i: int| 0 <= i < 4 implies (#[trigger] hands[i]).len() == 13 by {
        if i == 0 { assert(hands[0] == chunk(2).to_set()); }
        if i == 1 { assert(hands[1] == chunk(3).to_set()); }
        if i == 2 { assert(hands[2] == chunk(0).to_set()); }
        if i == 3 { assert(hands[3] == chunk(1).to_set()); }
    }
    assert forall|c: Card| #[trigger] holders(hands, c) == 1 by {
        lemma_card_index(c);
        assert(deck_seq()[crate::primitives::card_index(c) as int] == c);
        assert(deck_seq().contains(c));
        vstd::seq_lib::to_multiset_contains(deck_seq(), c);
        vstd::seq_lib::to_multiset_contains(s, c);
        assert(s.contains(c));
        let j = choose|j: int| 0 <= j < s.len() && s[j] == c;
        let owner = j / 13;
        assert forall|k: int| 0 <= k < 4 implies (#[trigger] chunk(k)).to_set().contains(c) == (k == owner) by {
            if k == owner {
                assert(chunk(k)[j - 13 * k] == c);
            }
            if chunk(k).to_set().contains(c) {
                let ck = chunk(k);
                let m = choose|m: int| 0 <= m < 13 && #[trigger] ck[m] == c;
                assert(s[13 * k + m] == c);
            }
        }
    }
}

fn build_programs() -> (r: OwnedPrograms)
    ensures
        distinct_programs(r@),
        r@[0] == seq![ProgramName::Starfall, ProgramName::Obsidian, ProgramName::Eviction],
        r@[1].len() == 0 && r@[2].len() == 0 && r@[3].len() == 0,
{
    let r = OwnedPrograms {
        user: vec![ProgramName::Starfall, ProgramName::Obsidian, ProgramName::Eviction],
        west: Vec::new(),
        north: Vec::new(),
        east: Vec::new(),
    };
    proof {
        let u = r@[0];
        assert(u =~= seq![ProgramName::Starfall, ProgramName::Obsidian, ProgramName::Eviction]);
        assert forall|i: int, j: int| 0 <= i < u.len() && 0 <= j < u.len() && i != j implies #[trigger] u[i] != #[trigger] u[j] by {
        }
        assert(u.no_duplicates());
        assert(r@[1].no_duplicates() && r@[2].no_duplicates() && r@[3].no_duplicates());
    }
    r
}

/// The hands dealt from a deck in this order: the runs of 13 cards go to
/// North, East, the user and West in turn; listed in turn order.
pub open spec fn dealt_hands(cards: Seq<Card>) -> Seq<Set<Card>> {
    seq![
        cards.subrange(26, 39).to_set(),
        cards.subrange(39, 52).to_set(),
        cards.subrange(0, 13).to_set(),
        cards.subrange(13, 26).to_set(),
    ]
}

/// The facts of a freshly dealt round, apart from its hands and trump.
pub open spec fn fresh_round(data: &ContractPhaseData) -> bool {
    &&& is_deal(data.hands@)
    &&& distinct_programs(data.programs.all_programs@)
    &&& data.programs.all_programs@[0] == seq![ProgramName::Starfall, ProgramName::Obsidian, ProgramName::Eviction]
    &&& data.programs.all_programs@[1].len() == 0
    &&& data.programs.all_programs@[2].len() == 0
    &&& data.programs.all_programs@[3].len() == 0
    &&& data.step == ContractPhaseStep::AwaitingUserContact
    &&& forall|p: PlayerName| #[trigger] data.contracts.number(p) == 0
}

/// Deals the round whose deck, in dealing order, is `cards`, with trump
/// `trump`: each run of 13 cards forms a hand, the user owns Starfall, Obsidian
/// and Eviction, and the round waits for the user's contract.
pub fn deal(cards: &Vec<Card>, trump: Option<Suit>) -> (r: RoundData)
    requires
        cards@.to_multiset() == deck_seq().to_multiset(),
    ensures
        r matches RoundData::ContractPhase(data) && {
            &&& data.hands@ == dealt_hands(cards@)
            &&& data.trump == trump
            &&& fresh_round(&data)
        },
{
    proof {
        lemma_chunks_deal(cards@);
    }
    let north = build_hand(cards, 0);
    let east = build_hand(cards, 13);
    let south = build_hand(cards, 26);
    let west = build_hand(cards, 39);
    let hands = Hands::new(north, east, south, west);
    RoundData::ContractPhase(ContractPhaseData {
        trump,
        contracts: Contracts::new(),
        hands,
        step: ContractPhaseStep::AwaitingUserContact,
        programs: ProgramData {
            current_delegates: ContractPhaseDelegates {},
            program_state: [None, None, None, None, None, None, None, None, None, None, None, None],
            all_programs: build_programs(),
        },
    })
}

/// Deals a new round from a shuffled deck with trump drawn from no trump and
/// the four suits.
pub fn create(rng: &mut StdRng) -> (r: RoundData)
    ensures
        r matches RoundData::ContractPhase(data) && {
            &&& exists|cards: Seq<Card>|
                cards.to_multiset() == deck_seq().to_multiset() && data.hands@ == #[trigger] dealt_hands(cards)
            &&& fresh_round(&data)
        },
{
    let mut cards = new_deck();
    shuffle_cards(&mut cards, rng);
    let options = vec![None, Some(Suit::Clubs), Some(Suit::Diamonds), Some(Suit::Hearts), Some(Suit::Spades)];
    let trump = match choose_trump(&options, rng) {
        Some(t) => t,
        None => None,
    };
    deal(&cards, trump)
}

/// Deals a new round in which every player has the contract `contract` and
/// play has started.
pub fn create_play_phase(rng: &mut StdRng, contract: ContractNumber) -> (r: PlayPhaseData)
    ensures
        r@.wf(),
        r@.turn == Some(PlayerName::User),
        r@.trick.len() == 0,
        r@.completed.len() == 0,
        forall|p: PlayerName| #[trigger] r@.contracts.number(p) == contract,
        exists|cards: Seq<Card>|
            cards.to_multiset() == deck_seq().to_multiset() && r@.hands == #[trigger] dealt_hands(cards),
        r@.programs[0] == seq![ProgramName::Starfall, ProgramName::Obsidian, ProgramName::Eviction],
        r@.programs[1].len() == 0 && r@.programs[2].len() == 0 && r@.programs[3].len() == 0,
        forall|i: int| 0 <= i < 12 ==> #[trigger] r@.states[i] is None,
        hooks_of(&r.programs.current_delegates, |id: ProgramId| owns(r@.programs, id)),
{
    match create(rng) {
        RoundData::ContractPhase(mut data) => {
            *data.contracts.contract_number_mut(PlayerName::User) = contract;
            *data.contracts.contract_number_mut(PlayerName::West) = contract;
            *data.contracts.contract_number_mut(PlayerName::North) = contract;
            *data.contracts.contract_number_mut(PlayerName::East) = contract;
            start_play_phase::run(data)
        },
        RoundData::PlayPhase(data) => data,
    }
}

} // verus!
