use vstd::prelude::*;

use crate::card_set::lemma_card_set_finite;
use crate::delegates::{activated_for, program_slot, FollowSuitHook, PlayerTrickNumber, ProgramId, ProgramState};
use crate::primitives::{
    advance, card_index, card_rank, card_suit, lemma_card_index, lemma_seats, player_index, rank_index, seat_offset, Card, PlayerName, Rank, Suit,
};
use crate::round::{
    completed_count, completed_view, follow_fold, holders, is_full_trick, trick_count,
    CompletedTrick, PlayPhaseData, PlayedCard, RoundView, Trick,
};
use crate::tricks;

verus! {

/// The cards of suit `s` in `hand`.
pub open spec fn cards_of_suit(hand: Set<Card>, s: Suit) -> Set<Card> {
    hand.filter(|c: Card| card_suit(c) == s)
}

/// The cards of suit `s` in `hand` whose rank lies below position `k`.
pub open spec fn suit_below(hand: Set<Card>, s: Suit, k: nat) -> Set<Card> {
    hand.filter(|c: Card| card_suit(c) == s && rank_index(card_rank(c)) < k)
}

/// The number of cards of suit `suit` in the hand of `hand`.
pub fn suit_count(data: &PlayPhaseData, hand: PlayerName, suit: Suit) -> (r: usize)
    ensures
        r == cards_of_suit(data@.hand(hand), suit).len(),
{
    let cards = data.hands.hand(hand);
    let ghost h = data@.hand(hand);
    let mut count: usize = 0;
    let mut k: u8 = 0;
    proof {
        lemma_card_set_finite(suit_below(h, suit, 0));
        assert(suit_below(h, suit, 0) =~= Set::<Card>::empty());
    }
    while k < 13
        invariant
            k <= 13,
            cards@ == h,
            count == suit_below(h, suit, k as nat).len(),
            count <= k,
        decreases 13 - k,
    {
        let c = Card::new(suit, Rank::from_index(k));
        proof {
            lemma_card_set_finite(suit_below(h, suit, k as nat));
            lemma_card_index(c);
            assert forall|d: Card| #[trigger] suit_below(h, suit, (k + 1) as nat).contains(d) == (if h.contains(c) {
                suit_below(h, suit, k as nat).insert(c)
            } else {
                suit_below(h, suit, k as nat)
            }).contains(d) by {
                lemma_card_index(d);
                crate::primitives::lemma_card_index_injective(c, d);
                if card_suit(d) == suit && rank_index(card_rank(d)) == k {
                    assert(rank_index(card_rank(c)) == k);
                    assert(card_rank(d) == card_rank(c));
                    assert(card_index(d) == card_index(c));
                }
            }
        }
        if cards.contains(c) {
            assert(suit_below(h, suit, (k + 1) as nat) =~= suit_below(h, suit, k as nat).insert(c));
            count = count + 1;
        } else {
            assert(suit_below(h, suit, (k + 1) as nat) =~= suit_below(h, suit, k as nat));
        }
        k = k + 1;
    }
    proof {
        assert forall|d: Card| #[trigger] suit_below(h, suit, 13).contains(d) == cards_of_suit(h, suit).contains(d) by {
            lemma_card_index(d);
        }
        assert(suit_below(h, suit, 13) =~= cards_of_suit(h, suit));
    }
    count
}

/// A hand holds a card of suit `s` exactly when it has a positive number of them.
pub proof fn lemma_suit_count_positive(v: RoundView, p: PlayerName, s: Suit)
    ensures
        cards_of_suit(v.hand(p), s).len() > 0 <==> v.holds_suit(p, s),
{
    lemma_card_set_finite(cards_of_suit(v.hand(p), s));
    if v.holds_suit(p, s) {
        let c = choose|c: Card| #[trigger] v.hand(p).contains(c) && card_suit(c) == s;
        assert(cards_of_suit(v.hand(p), s).contains(c));
    } else {
        assert(cards_of_suit(v.hand(p), s) =~= Set::<Card>::empty());
    }
}

/// Returns true if `player` may play `card` now: it is their turn, they hold the
/// card, and they follow the led suit unless they cannot or a program exempts them.
pub fn can_play(data: &PlayPhaseData, player: PlayerName, card: Card) -> (r: bool)
    requires
        data@.states.len() == 12,
    ensures
        r == data@.can_play(player, card),
{
    let follows_suit = match tricks::suit(&data.current_trick) {
        Some(suit) => {
            proof {
                lemma_suit_count_positive(data@, player, suit);
            }
            suit == card.suit() || suit_count(data, player, suit) == 0
        },
        None => true,
    };
    let must_follow_suit = data.programs.current_delegates.must_follow_suit.run_query(
        data,
        &PlayerTrickNumber::new(player, tricks::current_number(data)),
        true,
    );
    data.is_turn(player) && data.hands.hand(player).contains(card) && (follows_suit
        || !must_follow_suit)
}

/// The player to play next: None once every hand is empty, else the leader of an
/// empty trick, else the seat after the last card played.
pub fn next_to_play(data: &PlayPhaseData) -> (r: Option<PlayerName>)
    ensures
        r == data@.next_to_play(),
{
    if data.hands.all_empty() {
        return None;
    }
    let n = data.current_trick.cards.len();
    if n == 0 {
        let k = data.completed_tricks.len();
        if k == 0 {
            Some(PlayerName::User)
        } else {
            Some(data.completed_tricks[k - 1].winner)
        }
    } else {
        Some(data.current_trick.cards[n - 1].played_by.next())
    }
}

proof fn lemma_trick_count_push(s: Seq<PlayedCard>, x: PlayedCard, c: Card)
    ensures
        trick_count(s.push(x), c) == trick_count(s, c) + (if x.card == c { 1nat } else { 0nat }),
{
    assert(s.push(x).drop_last() =~= s);
}

proof fn lemma_completed_count_push(
    t: Seq<(Seq<PlayedCard>, PlayerName)>,
    x: (Seq<PlayedCard>, PlayerName),
    c: Card,
)
    ensures
        completed_count(t.push(x), c) == completed_count(t, c) + trick_count(x.0, c),
{
    assert(t.push(x).drop_last() =~= t);
}

/// Facts about the seat whose turn it is in a well-formed round.
proof fn lemma_turn_seat(v: RoundView, p: PlayerName)
    requires
        v.wf(),
        v.turn == Some(p),
    ensures
        p == advance(v.leader(), v.trick.len()),
        seat_offset(v.leader(), p) == v.trick.len(),
        !v.played_in_trick(p),
        forall|q: PlayerName| q != p ==> seat_offset(v.leader(), q) != v.trick.len(),
{
    let lead = v.leader();
    let t = v.trick.len();
    lemma_seats(lead, p, t);
    if t > 0 {
        lemma_seats(lead, p, (t - 1) as nat);
        assert(v.trick[t - 1].played_by == advance(lead, (t - 1) as nat));
    }
    assert forall|q: PlayerName| q != p implies seat_offset(lead, q) != t by {
        lemma_seats(lead, q, seat_offset(lead, q));
    }
}

/// Removing `c` from the hand of `p` lowers the holder count of `c` alone.
proof fn lemma_holders_remove(hands: Seq<Set<Card>>, p: PlayerName, c: Card)
    requires
        hands.len() == 4,
    ensures
        forall|d: Card| #[trigger] holders(hands.update(player_index(p) as int, hands[player_index(p) as int].remove(c)), d)
            + (if d == c && hands[player_index(p) as int].contains(c) { 1nat } else { 0nat }) == holders(hands, d),
        forall|q: PlayerName| q != p ==> #[trigger] hands.update(player_index(p) as int, hands[player_index(p) as int].remove(c))[player_index(q) as int] == hands[player_index(q) as int],
{
    assert forall|q: PlayerName| q != p implies #[trigger] hands.update(player_index(p) as int, hands[player_index(p) as int].remove(c))[player_index(q) as int] == hands[player_index(q) as int] by {
        lemma_seats(p, q, 0);
    }
}

/// Playing a card to a trick that stays unfinished keeps a round well formed.
#[verifier::rlimit(50)]
proof fn lemma_play_card_wf_partial(v: RoundView, p: PlayerName, c: Card)
    requires
        v.wf(),
        v.can_play(p, c),
        v.trick.len() < 3,
    ensures
        v.play_card_step(p, c).wf(),
{
    let w = v.play_card_step(p, c);
    let lead = v.leader();
    let t = v.trick.len();
    let pc = PlayedCard { played_by: p, card: c };
    lemma_play_card_lead_records(v, p, c);
    lemma_turn_seat(v, p);
    lemma_holders_remove(v.hands, p, c);
    lemma_card_set_finite(v.hand(p));
    assert(w.trick == v.trick.push(pc));
    assert(w.completed == v.completed);
    assert forall|i: int| 0 <= i < w.trick.len() implies (#[trigger] w.trick[i]).played_by == advance(w.leader(), i as nat) by {
        if i < t {
            assert(w.trick[i] == v.trick[i]);
        }
    }
    assert forall|d: Card| #[trigger] w.card_count(d) == 1 by {
        lemma_trick_count_push(v.trick, pc, d);
        assert(v.card_count(d) == 1);
    }
    assert forall|q: PlayerName| #[trigger] w.hand(q).len() + w.completed.len() + (if w.played_in_trick(q) {
        1int
    } else {
        0int
    }) == 13 by {
        assert(v.hand(q).len() + v.completed.len() + (if v.played_in_trick(q) { 1int } else { 0int }) == 13);
    }
    let q3 = advance(lead, 3);
    lemma_seats(lead, q3, 3);
    assert(!w.played_in_trick(q3));
    assert(v.hand(p).len() > 0) by {
        assert(v.hand(p).contains(c));
    }
    assert(v.hand(p).len() + v.completed.len() == 13);
    assert(w.hand(q3).len() + w.completed.len() == 13);
    assert(w.hand(q3).len() > 0);
    assert(w.hands[player_index(q3) as int] != Set::<Card>::empty());
}

/// Playing the fourth card of a trick keeps a round well formed.
#[verifier::rlimit(50)]
proof fn lemma_play_card_wf_complete(v: RoundView, p: PlayerName, c: Card)
    requires
        v.wf(),
        v.can_play(p, c),
        v.trick.len() == 3,
    ensures
        v.play_card_step(p, c).wf(),
{
    let w = v.play_card_step(p, c);
    let lead = v.leader();
    let n = v.completed.len();
    let pc = PlayedCard { played_by: p, card: c };
    let cards = v.trick.push(pc);
    let win = v.trick_winner(cards);
    lemma_play_card_lead_records(v, p, c);
    lemma_turn_seat(v, p);
    lemma_holders_remove(v.hands, p, c);
    lemma_card_set_finite(v.hand(p));
    assert(w.trick.len() == 0);
    assert(w.completed == v.completed.push((cards, win)));
    assert(is_full_trick(cards)) by {
        lemma_seats(lead, lead, 0);
        assert forall|i: int| 0 <= i < 4 implies (#[trigger] cards[i]).played_by == advance(cards[0].played_by, i as nat) by {
            if i < 3 {
                assert(cards[i] == v.trick[i]);
            }
        }
    }
    assert forall|k: int| 0 <= k < w.completed.len() implies is_full_trick(#[trigger] w.completed[k].0) by {
        if k < n {
            assert(w.completed[k] == v.completed[k]);
        }
    }
    assert forall|d: Card| #[trigger] w.card_count(d) == 1 by {
        lemma_trick_count_push(v.trick, pc, d);
        lemma_completed_count_push(v.completed, (cards, win), d);
        assert(v.card_count(d) == 1);
    }
    assert forall|q: PlayerName| #[trigger] w.hand(q).len() + w.completed.len() + (if w.played_in_trick(q) {
        1int
    } else {
        0int
    }) == 13 by {
        assert(v.hand(q).len() + v.completed.len() + (if v.played_in_trick(q) { 1int } else { 0int }) == 13);
    }
}


/// Playing a card keeps the record of who led each trick.
proof fn lemma_play_card_lead_records(v: RoundView, p: PlayerName, c: Card)
    requires
        v.wf(),
        v.can_play(p, c),
    ensures
        v.play_card_step(p, c).lead_records_hold(),
{
    let w = v.play_card_step(p, c);
    let lead = v.leader();
    assert(w.states == v.states);
    assert(w.delegates == v.delegates);
    assert forall|i: nat, q: PlayerName| #[trigger] v.led_trick(q, i) implies w.led_trick(q, i) by {
        if v.trick.len() == 3 {
            let cards = v.trick.push(PlayedCard { played_by: p, card: c });
            assert(w.completed == v.completed.push((cards, v.trick_winner(cards))));
            if i < v.completed.len() {
                assert(w.completed[i as int] == v.completed[i as int]);
            } else {
                lemma_seats(lead, lead, 0);
                assert(cards[0] == v.trick[0]);
                assert(w.completed[i as int].0[0].played_by == lead);
            }
        } else {
            assert(w.completed == v.completed);
        }
    }
    assert forall|x: ProgramId, n: crate::delegates::TrickNumber|
        w.delegates.can_activate[program_slot(x)] == Some(crate::delegates::ActivationCheck::WithLead)
            && #[trigger] activated_for(w.state_of(x), n) implies w.led_trick(x.owner, n as nat) by {
        assert(activated_for(v.state_of(x), n));
        assert(v.led_trick(x.owner, n as nat));
    }
    assert forall|k: int|
        0 <= k < w.delegates.trick_winner.len() implies w.delegates.can_activate[program_slot(
            (#[trigger] w.delegates.trick_winner[k]).0,
        )] == Some(crate::delegates::ActivationCheck::WithLead) by {
        assert(v.delegates.trick_winner[k] == w.delegates.trick_winner[k]);
    }
}

/// Playing a legal card keeps a round well formed.
pub proof fn lemma_play_card_wf(v: RoundView, p: PlayerName, c: Card)
    requires
        v.wf(),
        v.can_play(p, c),
    ensures
        v.play_card_step(p, c).wf(),
{
    if v.trick.len() < 3 {
        lemma_play_card_wf_partial(v, p, c);
    } else {
        lemma_play_card_wf_complete(v, p, c);
    }
}

/// Plays `card` from the hand of `hand`. When the trick reaches four cards its
/// winner is resolved and it joins the completed tricks; then the turn moves on.
pub fn play_card(data: &mut PlayPhaseData, hand: PlayerName, card: Card)
    requires
        old(data)@.wf(),
        old(data)@.can_play(hand, card),
    ensures
        final(data)@ == old(data)@.play_card_step(hand, card),
        final(data)@.wf(),
{
    proof {
        lemma_play_card_wf(old(data)@, hand, card);
    }
    data.hands.hand_mut(hand).remove(card);
    data.current_trick.cards.push(PlayedCard { played_by: hand, card });
    if data.current_trick.cards.len() == 4 {
        let trick = data.current_trick.clone();
        let winner = tricks::winner(data, &trick);
        let ghost before = data.completed_tricks@;
        data.completed_tricks.push(CompletedTrick { trick, winner });
        proof {
            assert(data.completed_tricks@.map_values(|t: CompletedTrick| completed_view(t))
                =~= before.map_values(|t: CompletedTrick| completed_view(t)).push((data.current_trick.cards@, winner)));
        }
        data.current_trick = Trick::new();
    }
    data.turn = next_to_play(data);
    proof {
        let w = old(data)@.play_card_step(hand, card);
        assert(data@.hands =~= w.hands);
        assert(data@.trick =~= w.trick);
        assert(data@.completed =~= w.completed);
    }
}

/// Returns true if follow-suit hook `hook` exempts the player and trick in `arg`.
pub open spec fn exempts(
    states: Seq<Option<ProgramState>>,
    hook: (ProgramId, FollowSuitHook),
    arg: PlayerTrickNumber,
) -> bool {
    hook.0.owner == arg.player_name && activated_for(states[program_slot(hook.0)], arg.trick_number)
}

/// The follow-suit hooks answer false exactly when one of them exempts the
/// player, and otherwise pass the starting answer through.
pub proof fn lemma_follow_fold(
    states: Seq<Option<ProgramState>>,
    hooks: Seq<(ProgramId, FollowSuitHook)>,
    arg: PlayerTrickNumber,
    current: bool,
)
    ensures
        follow_fold(states, hooks, arg, current) == (current && !exists|k: int|
            0 <= k < hooks.len() && exempts(states, #[trigger] hooks[k], arg)),
    decreases hooks.len(),
{
    if hooks.len() > 0 {
        let rest = hooks.drop_last();
        lemma_follow_fold(states, rest, arg, current);
        if exists|k: int| 0 <= k < rest.len() && exempts(states, #[trigger] rest[k], arg) {
            let k = choose|k: int| 0 <= k < rest.len() && exempts(states, #[trigger] rest[k], arg);
            assert(hooks[k] == rest[k]);
        }
        if exists|k: int| 0 <= k < hooks.len() && exempts(states, #[trigger] hooks[k], arg) {
            let k = choose|k: int| 0 <= k < hooks.len() && exempts(states, #[trigger] hooks[k], arg);
            if k < hooks.len() - 1 {
                assert(rest[k] == hooks[k]);
            }
        }
    }
}

/// A player who holds the led suit and whom no follow-suit hook exempts may
/// only play cards of the led suit.
pub proof fn lemma_must_follow_led_suit(v: RoundView, p: PlayerName, c: Card)
    requires
        v.trick.len() > 0,
        v.holds_suit(p, v.led_suit()),
        !exists|k: int|
            0 <= k < v.delegates.must_follow_suit.len() && exempts(
                v.states,
                #[trigger] v.delegates.must_follow_suit[k],
                PlayerTrickNumber { player_name: p, trick_number: v.trick_number() as usize },
            ),
        v.can_play(p, c),
    ensures
        card_suit(c) == v.led_suit(),
{
    lemma_follow_fold(
        v.states,
        v.delegates.must_follow_suit,
        PlayerTrickNumber { player_name: p, trick_number: v.trick_number() as usize },
        true,
    );
}

/// With Eviction activated by `p` for the trick in play, `p` may play any card
/// of their hand on their turn, off-suit cards included.
pub proof fn lemma_eviction_frees_hand(v: RoundView, p: PlayerName, c: Card)
    requires
        exists|k: int|
            0 <= k < v.delegates.must_follow_suit.len() && (#[trigger] v.delegates.must_follow_suit[k]).0
                == (ProgramId { name: crate::delegates::ProgramName::Eviction, owner: p }),
        v.state_of(ProgramId { name: crate::delegates::ProgramName::Eviction, owner: p }) == Some(
            ProgramState::ActivatedForTrick(v.trick_number() as usize),
        ),
        v.is_turn(p),
        v.hand(p).contains(c),
    ensures
        v.can_play(p, c),
{
    let arg = PlayerTrickNumber { player_name: p, trick_number: v.trick_number() as usize };
    let hooks = v.delegates.must_follow_suit;
    let k = choose|k: int|
        0 <= k < hooks.len() && (#[trigger] hooks[k]).0 == (ProgramId {
            name: crate::delegates::ProgramName::Eviction,
            owner: p,
        });
    assert(exempts(v.states, hooks[k], arg));
    lemma_follow_fold(v.states, hooks, arg, true);
}

/// A lone Eviction hook exempts its owner on the trick it was activated for and
/// passes every other answer through.
pub proof fn lemma_lone_follow_hook(
    states: Seq<Option<ProgramState>>,
    id: ProgramId,
    arg: PlayerTrickNumber,
    current: bool,
)
    requires
        states.len() == 12,
    ensures
        follow_fold(states, seq![(id, FollowSuitHook::OwnerExemptOnActivatedTrick)], arg, current) == if arg.player_name
            == id.owner && states[program_slot(id)] == Some(ProgramState::ActivatedForTrick(arg.trick_number)) {
            false
        } else {
            current
        },
{
    let hooks = seq![(id, FollowSuitHook::OwnerExemptOnActivatedTrick)];
    crate::delegates::lemma_program_slot(id, id);
    assert(hooks.last() == (id, FollowSuitHook::OwnerExemptOnActivatedTrick));
    assert(hooks.drop_last() =~= Seq::<(ProgramId, FollowSuitHook)>::empty());
    assert(follow_fold(states, hooks.drop_last(), arg, current) == current);
    assert(follow_fold(states, hooks, arg, current) == crate::round::apply_follow_hook(
        FollowSuitHook::OwnerExemptOnActivatedTrick,
        crate::round::state_context(states, id),
        arg,
        current,
    ));
}

} // verus!
