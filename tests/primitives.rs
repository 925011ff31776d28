use trick_engine::agents::{agent_contracts_allowed, vary_agent_contracts};
use trick_engine::bidding::{Bid, BidNumber};
use trick_engine::card_set::CardSet;
use trick_engine::delegates::{ActivationState, Context, ProgramId, ProgramName, ProgramState};
use trick_engine::primitives::{Card, PlayerName, Rank, Suit};
use trick_engine::round::Trick;

#[test]
fn cards_know_suit_and_rank() {
    let c = Card::new(Suit::Hearts, Rank::Queen);
    assert_eq!(c, Card::QueenOfHearts);
    assert_eq!(c.suit(), Suit::Hearts);
    assert_eq!(c.rank(), Rank::Queen);
    assert_eq!(c.index(), 36);
    assert_eq!(Card::from_index(0), Card::TwoOfClubs);
    assert_eq!(Card::from_index(51), Card::AceOfSpades);
    for i in 0..52u8 {
        let c = Card::from_index(i);
        assert_eq!(c.index(), i);
        assert_eq!(Card::new(c.suit(), c.rank()), c);
    }
}

#[test]
fn turn_order() {
    assert_eq!(PlayerName::User.next(), PlayerName::West);
    assert_eq!(PlayerName::West.next(), PlayerName::North);
    assert_eq!(PlayerName::North.next(), PlayerName::East);
    assert_eq!(PlayerName::East.next(), PlayerName::User);
    assert!(PlayerName::User.is_user());
    assert!(!PlayerName::User.is_agent());
    assert!(PlayerName::East.is_agent());
}

#[test]
fn card_set_operations() {
    let mut s = CardSet::new();
    assert!(s.is_empty());
    assert_eq!(s.len(), 0);
    s.insert(Card::AceOfSpades);
    s.insert(Card::TwoOfClubs);
    s.insert(Card::AceOfSpades);
    assert_eq!(s.len(), 2);
    assert!(s.contains(Card::AceOfSpades));
    assert!(!s.contains(Card::KingOfSpades));
    assert_eq!(s.cards(), vec![Card::TwoOfClubs, Card::AceOfSpades]);
    s.remove(Card::TwoOfClubs);
    assert_eq!(s.cards(), vec![Card::AceOfSpades]);
    s.remove(Card::AceOfSpades);
    assert!(s.is_empty());
    let all: Vec<Card> = (0..52u8).map(Card::from_index).collect();
    let full = CardSet::from_cards(&all);
    assert_eq!(full.len(), 52);
    assert_eq!(full.cards(), all);
}

#[test]
fn bids() {
    assert_eq!(Bid::new(BidNumber::Six, Some(Suit::Clubs)), Bid::SixClubs);
    assert_eq!(Bid::new(BidNumber::Thirteen, None), Bid::ThirteenNoTrump);
    assert_eq!(Bid::NineHearts.suit(), Some(Suit::Hearts));
    assert_eq!(Bid::TenNoTrump.suit(), None);
    assert_eq!(Bid::ElevenSpades.bid_number(), BidNumber::Eleven);
    assert_eq!(BidNumber::Six.as_u32(), 6);
    assert_eq!(BidNumber::Thirteen.as_u32(), 13);
}

#[test]
fn contexts_and_states() {
    let id = ProgramId::new(ProgramName::Starfall, PlayerName::North);
    let mut context = Context::new(id, None);
    assert_eq!(context.owner(), PlayerName::North);
    assert!(!context.activated_for_trick(2));
    context.set_state(ProgramState::ActivatedForTrick(2));
    assert!(context.activated_for_trick(2));
    assert!(!context.activated_for_trick(3));
    assert!(ActivationState::CanActivate.can_activate());
    assert!(!ActivationState::CurrentlyActive.can_activate());
    assert!(!Trick::new().is_started());
}

#[test]
fn agent_contract_adjustment() {
    assert!(!agent_contracts_allowed(3, 3, 3, 4));
    assert!(agent_contracts_allowed(3, 3, 3, 3));
    assert_eq!(vary_agent_contracts(3, 3, 4, 1), (4, 3, 4));
    assert_eq!(vary_agent_contracts(0, 3, 4, 2), (0, 3, 4));
    assert_eq!(vary_agent_contracts(3, 3, 4, 4), (3, 2, 4));
    assert_eq!(vary_agent_contracts(3, 3, 4, 6), (3, 3, 3));
}
