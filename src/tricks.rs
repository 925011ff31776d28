use std::cmp::Ordering;

use vstd::prelude::*;

use crate::delegates::{
    activated_for, program_slot, ProgramId, ProgramState, QueryDelegateList, TrickNumber,
    TrickWinnerHook,
};
use crate::primitives::{card_index, card_suit, Card, PlayerName, Suit};
use crate::round::{
    beats, best_index, default_winner, winner_fold, wins, PlayPhaseData,
    PlayedCard, Trick,
};

verus! {

/// Returns true if the player `player_name` is currently able to lead a card.
pub fn has_lead(data: &PlayPhaseData, player_name: PlayerName) -> (r: bool)
    ensures
        r == data@.has_lead(player_name),
{
    if data.current_trick.cards.len() != 0 {
        return false;
    }
    let n = data.completed_tricks.len();
    let leader = if n == 0 {
        PlayerName::User
    } else {
        data.completed_tricks[n - 1].winner
    };
    leader == player_name
}

/// The number of the current trick. While waiting for a card to be led after a
/// trick is completed, this is the number of the next trick.
pub fn current_number(data: &PlayPhaseData) -> (r: TrickNumber)
    ensures
        r == data@.trick_number(),
{
    data.completed_tricks.len()
}

/// The number of tricks `player` has won so far.
pub fn won(data: &PlayPhaseData, player: PlayerName) -> (r: usize)
    ensures
        r == wins(data@.completed, player),
{
    let mut count: usize = 0;
    let mut i: usize = 0;
    while i < data.completed_tricks.len()
        invariant
            i <= data@.completed.len(),
            count == wins(data@.completed.subrange(0, i as int), player),
            count <= i,
        decreases data@.completed.len() - i,
    {
        if data.completed_tricks[i].winner == player {
            count = count + 1;
        }
        proof {
            assert(data@.completed.subrange(0, i + 1).drop_last() =~= data@.completed.subrange(0, i as int));
        }
        i = i + 1;
    }
    assert(data@.completed.subrange(0, data@.completed.len() as int) =~= data@.completed);
    count
}

/// Orders two cards played to a trick whose led suit is `trick_suit`: trump
/// beats non-trump, the led suit beats other suits, and otherwise the higher
/// card is greater.
pub fn card_ordering(data: &PlayPhaseData, trick_suit: Suit, left: Card, right: Card) -> (r: Ordering)
    ensures
        r == Ordering::Greater <==> beats(data.trump, trick_suit, left, right),
        r == Ordering::Less <==> beats(data.trump, trick_suit, right, left),
        r == Ordering::Equal <==> left == right,
{
    proof {
        crate::primitives::lemma_card_index_injective(left, right);
    }
    let ls = left.suit();
    let rs = right.suit();
    match data.trump {
        Some(trump) if ls != rs && ls == trump => {
            return Ordering::Greater;
        },
        Some(trump) if ls != rs && rs == trump => {
            return Ordering::Less;
        },
        _ => {},
    }
    if ls != rs && ls == trick_suit {
        Ordering::Greater
    } else if ls != rs && rs == trick_suit {
        Ordering::Less
    } else {
        let li = left.index();
        let ri = right.index();
        if li > ri {
            Ordering::Greater
        } else if li < ri {
            Ordering::Less
        } else {
            Ordering::Equal
        }
    }
}

/// The suit led to `trick`, or None if it is empty.
pub fn suit(trick: &Trick) -> (r: Option<Suit>)
    ensures
        r == (if trick.cards@.len() == 0 {
            None
        } else {
            Some(card_suit(trick.cards@[0].card))
        }),
{
    if trick.cards.len() == 0 {
        None
    } else {
        Some(trick.cards[0].card.suit())
    }
}

/// The seat holding the best card of a non-empty trick, before program hooks.
pub fn trick_winner(data: &PlayPhaseData, trick: &Trick) -> (r: PlayerName)
    requires
        trick.cards@.len() > 0,
    ensures
        r == default_winner(trick.cards@, data.trump),
{
    let cards = &trick.cards;
    let led = cards[0].card.suit();
    let mut best: usize = 0;
    let mut i: usize = 1;
    while i < cards.len()
        invariant
            1 <= i <= cards@.len(),
            led == card_suit(cards@[0].card),
            best as nat == best_index(cards@, data.trump, led, i as nat),
            best < i,
        decreases cards@.len() - i,
    {
        let ghost prev = best;
        let o = card_ordering(data, led, cards[best].card, cards[i].card);
        match o {
            Ordering::Greater => {},
            _ => {
                best = i;
            },
        }
        proof {
            let n = (i + 1) as nat;
            assert((n - 1) as nat == i as nat);
            assert(best_index(cards@, data.trump, led, n) == if beats(
                data.trump,
                led,
                cards@[prev as int].card,
                cards@[i as int].card,
            ) {
                prev as nat
            } else {
                i as nat
            });
        }
        i = i + 1;
    }
    cards[best].played_by
}

/// The player who wins `trick` as the current trick of `data`: the seat with the
/// best card, as overridden by the trick-winner hooks.
pub fn winner(data: &PlayPhaseData, trick: &Trick) -> (r: PlayerName)
    requires
        trick.cards@.len() > 0,
        data@.states.len() == 12,
    ensures
        r == data@.trick_winner(trick.cards@),
{
    let winner = trick_winner(data, trick);
    let number = current_number(data);
    data.programs.current_delegates.trick_winner.run_query(data, &number, winner)
}

impl QueryDelegateList<TrickWinnerHook> {
    /// Folds every registered trick-winner hook, in order, over `current`.
    pub fn run_query(&self, data: &PlayPhaseData, arg: &TrickNumber, current: PlayerName) -> (r:
        PlayerName)
        requires
            data@.states.len() == 12,
        ensures
            r == data@.winner_fold(self@, *arg, current),
    {
        let mut result = current;
        let mut i: usize = 0;
        while i < self.len()
            invariant
                i <= self@.len(),
                data@.states.len() == 12,
                result == data@.winner_fold(self@.subrange(0, i as int), *arg, current),
            decreases self@.len() - i,
        {
            let (program_id, function) = self.get(i);
            let context = data.get_context(program_id);
            result = function.apply(data, &context, arg, result);
            proof {
                assert(self@.subrange(0, i + 1).drop_last() =~= self@.subrange(0, i as int));
            }
            i = i + 1;
        }
        assert(self@.subrange(0, self@.len() as int) =~= self@);
        result
    }
}

/// Strength of a card on a trick: trump first, then the led suit, then card order.
pub open spec fn card_strength(trump: Option<Suit>, led: Suit, c: Card) -> int {
    (if trump == Some(card_suit(c)) { 200int } else { 0int }) + (if card_suit(c) == led {
        100int
    } else {
        0int
    }) + card_index(c)
}

/// One card beats another exactly when it is stronger.
pub proof fn lemma_beats_is_strength(trump: Option<Suit>, led: Suit, l: Card, r: Card)
    ensures
        beats(trump, led, l, r) <==> card_strength(trump, led, l) > card_strength(trump, led, r),
        card_strength(trump, led, l) == card_strength(trump, led, r) <==> l == r,
{
    crate::primitives::lemma_card_index(l);
    crate::primitives::lemma_card_index(r);
    crate::primitives::lemma_card_index_injective(l, r);
}

/// The best of the first `n` cards is at least as strong as each of them.
proof fn lemma_best_index_strongest(cards: Seq<PlayedCard>, trump: Option<Suit>, led: Suit, n: nat)
    requires
        1 <= n <= cards.len(),
    ensures
        best_index(cards, trump, led, n) < n,
        forall|i: int|
            0 <= i < n ==> card_strength(trump, led, (#[trigger] cards[i]).card) <= card_strength(
                trump,
                led,
                cards[best_index(cards, trump, led, n) as int].card,
            ),
    decreases n,
{
    if n > 1 {
        let b = best_index(cards, trump, led, (n - 1) as nat);
        lemma_best_index_strongest(cards, trump, led, (n - 1) as nat);
        lemma_beats_is_strength(trump, led, cards[b as int].card, cards[n - 1].card);
    }
}

/// With trump `trump` and led suit `led`, the default winner of a trick of
/// distinct cards is the unique seat holding the highest trump if any trump was
/// played, and otherwise the highest card of the led suit.
pub proof fn lemma_default_winner_highest(cards: Seq<PlayedCard>, trump: Option<Suit>)
    requires
        cards.len() > 0,
        forall|i: int, j: int|
            0 <= i < cards.len() && 0 <= j < cards.len() && i != j ==> (#[trigger] cards[i]).card
                != (#[trigger] cards[j]).card,
    ensures
        ({
            let led = card_suit(cards[0].card);
            let b = best_index(cards, trump, led, cards.len()) as int;
            let w = cards[b].card;
            &&& 0 <= b < cards.len()
            &&& default_winner(cards, trump) == cards[b].played_by
            &&& (exists|i: int| 0 <= i < cards.len() && Some(card_suit((#[trigger] cards[i]).card)) == trump)
                ==> {
                &&& Some(card_suit(w)) == trump
                &&& forall|i: int|
                    0 <= i < cards.len() && i != b && Some(card_suit((#[trigger] cards[i]).card))
                        == trump ==> card_index(cards[i].card) < card_index(w)
            }
            &&& !(exists|i: int| 0 <= i < cards.len() && Some(card_suit((#[trigger] cards[i]).card)) == trump)
                ==> {
                &&& card_suit(w) == led
                &&& forall|i: int|
                    0 <= i < cards.len() && i != b && card_suit((#[trigger] cards[i]).card) == led
                        ==> card_index(cards[i].card) < card_index(w)
            }
        }),
{
    let led = card_suit(cards[0].card);
    let n = cards.len();
    lemma_best_index_strongest(cards, trump, led, n);
    let b = best_index(cards, trump, led, n) as int;
    let w = cards[b].card;
    assert forall|i: int| 0 <= i < n && i != b implies card_strength(trump, led, (#[trigger] cards[i]).card)
        < card_strength(trump, led, w) by {
        lemma_beats_is_strength(trump, led, cards[i].card, w);
    }
    crate::primitives::lemma_card_index(w);
    crate::primitives::lemma_card_index(cards[0].card);
    assert forall|i: int| 0 <= i < n implies card_index((#[trigger] cards[i]).card) < 52 by {
        crate::primitives::lemma_card_index(cards[i].card);
    }
    if b != 0 {
        assert(card_strength(trump, led, cards[0].card) < card_strength(trump, led, w));
    }
}

/// If some trick-winner hook fires for trick `n` and every hook that fires
/// belongs to `owner`, the hooks name `owner` as the winner, whatever the
/// cards named before.
pub proof fn lemma_activated_owner_wins(
    states: Seq<Option<ProgramState>>,
    hooks: Seq<(ProgramId, TrickWinnerHook)>,
    n: TrickNumber,
    current: PlayerName,
    owner: PlayerName,
)
    requires
        exists|k: int|
            0 <= k < hooks.len() && activated_for(states[program_slot((#[trigger] hooks[k]).0)], n),
        forall|k: int|
            0 <= k < hooks.len() && activated_for(states[program_slot((#[trigger] hooks[k]).0)], n)
                ==> hooks[k].0.owner == owner,
    ensures
        winner_fold(states, hooks, n, current) == owner,
    decreases hooks.len(),
{
    let last = hooks.last();
    if activated_for(states[program_slot(last.0)], n) {
        assert(hooks[hooks.len() - 1] == last);
    } else {
        let rest = hooks.drop_last();
        let k = choose|k: int|
            0 <= k < hooks.len() && activated_for(states[program_slot((#[trigger] hooks[k]).0)], n);
        assert(k != hooks.len() - 1);
        assert(rest[k] == hooks[k]);
        assert forall|j: int|
            0 <= j < rest.len() && activated_for(states[program_slot((#[trigger] rest[j]).0)], n)
                implies rest[j].0.owner == owner by {
            assert(rest[j] == hooks[j]);
        }
        lemma_activated_owner_wins(states, rest, n, current, owner);
    }
}

/// With Starfall activated by `owner` for the trick in play (which only the
/// trick's leader can do), `owner` wins that trick whatever cards are played.
pub proof fn lemma_starfall_wins(v: crate::round::RoundView, owner: PlayerName, cards: Seq<PlayedCard>)
    requires
        v.wf(),
        exists|k: int|
            0 <= k < v.delegates.trick_winner.len() && (#[trigger] v.delegates.trick_winner[k]).0
                == (ProgramId { name: crate::delegates::ProgramName::Starfall, owner }),
        v.state_of(ProgramId { name: crate::delegates::ProgramName::Starfall, owner }) == Some(
            ProgramState::ActivatedForTrick(v.trick_number() as TrickNumber),
        ),
    ensures
        v.trick_winner(cards) == owner,
{
    let hooks = v.delegates.trick_winner;
    let n = v.trick_number() as TrickNumber;
    let id = ProgramId { name: crate::delegates::ProgramName::Starfall, owner };
    let k = choose|k: int| 0 <= k < hooks.len() && (#[trigger] hooks[k]).0 == id;
    assert(v.delegates.can_activate[program_slot(hooks[k].0)] == Some(crate::delegates::ActivationCheck::WithLead));
    assert(activated_for(v.state_of(id), n));
    assert(v.led_trick(owner, n as nat));
    assert forall|j: int|
        0 <= j < hooks.len() && activated_for(v.states[program_slot((#[trigger] hooks[j]).0)], n)
            implies hooks[j].0.owner == owner by {
        let x = hooks[j].0;
        assert(v.delegates.can_activate[program_slot(x)] == Some(crate::delegates::ActivationCheck::WithLead));
        assert(activated_for(v.state_of(x), n));
        assert(v.led_trick(x.owner, n as nat));
    }
    assert(activated_for(v.states[program_slot(hooks[k].0)], n));
    lemma_activated_owner_wins(v.states, hooks, n, default_winner(cards, v.trump), owner);
}

/// A card at some position of a sequence of played cards is counted there.
proof fn lemma_trick_count_at(s: Seq<PlayedCard>, i: int)
    requires
        0 <= i < s.len(),
    ensures
        crate::round::trick_count(s, s[i].card) >= 1,
    decreases s.len(),
{
    if i < s.len() - 1 {
        assert(s.drop_last()[i] == s[i]);
        lemma_trick_count_at(s.drop_last(), i);
    }
}

/// A sequence of played cards that counts every card at most once holds
/// distinct cards.
proof fn lemma_trick_count_distinct(s: Seq<PlayedCard>)
    requires
        forall|d: Card| #[trigger] crate::round::trick_count(s, d) <= 1,
    ensures
        forall|i: int, j: int| 0 <= i < s.len() && 0 <= j < s.len() && i != j ==> (#[trigger] s[i]).card != (#[trigger] s[j]).card,
    decreases s.len(),
{
    if s.len() > 0 {
        let t = s.drop_last();
        assert forall|d: Card| #[trigger] crate::round::trick_count(t, d) <= 1 by {
            assert(crate::round::trick_count(s, d) <= 1);
        }
        lemma_trick_count_distinct(t);
        assert forall|i: int, j: int| 0 <= i < s.len() && 0 <= j < s.len() && i != j implies (#[trigger] s[i]).card != (#[trigger] s[j]).card by {
            if i < s.len() - 1 && j < s.len() - 1 {
                assert(s[i] == t[i] && s[j] == t[j]);
            } else if i < s.len() - 1 {
                assert(s[i] == t[i]);
                lemma_trick_count_at(t, i);
                assert(crate::round::trick_count(s, s[j].card) <= 1);
            } else {
                assert(s[j] == t[j]);
                lemma_trick_count_at(t, j);
                assert(crate::round::trick_count(s, s[i].card) <= 1);
            }
        }
    }
}

/// In every reachable round, the trick completed by a legal fourth card goes by
/// default to the seat holding its highest trump, or its highest card of the
/// led suit when no trump was played.
pub proof fn lemma_completed_trick_goes_to_highest(v: crate::round::RoundView, p: PlayerName, c: Card)
    requires
        v.wf(),
        v.can_play(p, c),
        v.trick.len() == 3,
    ensures
        ({
            let cards = v.trick.push(PlayedCard { played_by: p, card: c });
            let led = card_suit(cards[0].card);
            let b = best_index(cards, v.trump, led, cards.len()) as int;
            let w = cards[b].card;
            &&& default_winner(cards, v.trump) == cards[b].played_by
            &&& (exists|i: int| 0 <= i < 4 && Some(card_suit((#[trigger] cards[i]).card)) == v.trump)
                ==> {
                &&& Some(card_suit(w)) == v.trump
                &&& forall|i: int| 0 <= i < 4 && i != b && Some(card_suit((#[trigger] cards[i]).card))
                    == v.trump ==> card_index(cards[i].card) < card_index(w)
            }
            &&& !(exists|i: int| 0 <= i < 4 && Some(card_suit((#[trigger] cards[i]).card)) == v.trump)
                ==> {
                &&& card_suit(w) == led
                &&& forall|i: int| 0 <= i < 4 && i != b && card_suit((#[trigger] cards[i]).card) == led
                    ==> card_index(cards[i].card) < card_index(w)
            }
        }),
{
    let cards = v.trick.push(PlayedCard { played_by: p, card: c });
    assert forall|d: Card| #[trigger] crate::round::trick_count(cards, d) <= 1 by {
        assert(v.card_count(d) == 1);
        assert(cards.drop_last() =~= v.trick);
        if d == c {
            assert(crate::round::holders(v.hands, c) >= 1) by {
                crate::primitives::lemma_seats(p, p, 0);
                assert(v.hands[crate::primitives::player_index(p) as int].contains(c));
            }
        }
    }
    lemma_trick_count_distinct(cards);
    lemma_default_winner_highest(cards, v.trump);
}

/// A lone Starfall hook names its owner for the trick it was activated for and
/// passes every other trick's winner through.
pub proof fn lemma_lone_winner_hook(
    states: Seq<Option<ProgramState>>,
    id: ProgramId,
    n: TrickNumber,
    current: PlayerName,
)
    requires
        states.len() == 12,
    ensures
        winner_fold(states, seq![(id, TrickWinnerHook::OwnerWinsActivatedTrick)], n, current) == if states[program_slot(id)] == Some(
            ProgramState::ActivatedForTrick(n),
        ) {
            id.owner
        } else {
            current
        },
{
    let hooks = seq![(id, TrickWinnerHook::OwnerWinsActivatedTrick)];
    crate::delegates::lemma_program_slot(id, id);
    assert(hooks.last() == (id, TrickWinnerHook::OwnerWinsActivatedTrick));
    assert(hooks.drop_last() =~= Seq::<(ProgramId, TrickWinnerHook)>::empty());
    assert(winner_fold(states, hooks.drop_last(), n, current) == current);
    assert(winner_fold(states, hooks, n, current) == crate::round::apply_winner_hook(
        TrickWinnerHook::OwnerWinsActivatedTrick,
        crate::round::state_context(states, id),
        n,
        current,
    ));
}

} // verus!
