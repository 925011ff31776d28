use vstd::multiset::Multiset;
use vstd::prelude::*;

use crate::card_set::{all_cards, lemma_all_cards, lemma_card_set_finite};
use crate::primitives::{advance, lemma_seats, player_at, Card, PlayerName};
use crate::delegates::ProgramState;
use crate::queries::legal_moves;
use crate::round::{
    all_hands_empty, completed_count, holders, trick_count, PlayPhaseAction, PlayedCard, RoundView,
};

verus! {

/// The sizes of the hands, the current trick and the completed tricks add up
/// to the deck.
pub proof fn lemma_card_totals(v: RoundView)
    requires
        v.wf(),
    ensures
        v.completed.len() + v.trick.len() <= 52,
        v.hand(PlayerName::User).len() + v.hand(PlayerName::West).len() + v.hand(
            PlayerName::North,
        ).len() + v.hand(PlayerName::East).len() + v.trick.len() + 4 * v.completed.len() == 52,
{
    let lead = v.leader();
    assert(v.hand(PlayerName::User).len() + v.completed.len() + (if v.played_in_trick(PlayerName::User) { 1int } else { 0int }) == 13);
    assert(v.hand(PlayerName::West).len() + v.completed.len() + (if v.played_in_trick(PlayerName::West) { 1int } else { 0int }) == 13);
    assert(v.hand(PlayerName::North).len() + v.completed.len() + (if v.played_in_trick(PlayerName::North) { 1int } else { 0int }) == 13);
    assert(v.hand(PlayerName::East).len() + v.completed.len() + (if v.played_in_trick(PlayerName::East) { 1int } else { 0int }) == 13);
}

/// The round is over (no one has the turn) exactly when every hand is empty,
/// which is exactly when all thirteen tricks are complete.
pub proof fn lemma_round_end(v: RoundView)
    requires
        v.wf(),
    ensures
        v.turn is None <==> all_hands_empty(v.hands),
        all_hands_empty(v.hands) <==> v.completed.len() == 13,
{
    let lead = v.leader();
    let last = advance(lead, 3);
    lemma_seats(lead, last, 3);
    assert(!v.played_in_trick(last));
    assert(v.hand(last).len() + v.completed.len() == 13);
    if all_hands_empty(v.hands) {
        assert(v.hands[crate::primitives::player_index(last) as int] == Set::<Card>::empty());
    }
    if v.completed.len() == 13 {
        assert forall|i: int| 0 <= i < 4 implies #[trigger] v.hands[i] == Set::<Card>::empty() by {
            let q = player_at(i as nat);
            lemma_seats(q, q, i as nat);
            assert(v.hand(q).len() + v.completed.len() + (if v.played_in_trick(q) { 1int } else { 0int }) == 13);
            lemma_card_set_finite(v.hands[i]);
            assert(v.hands[i].len() == 0);
        }
    }
}

/// Every completed trick holds four cards, played by four different players.
pub proof fn lemma_completed_tricks_distinct_players(v: RoundView)
    requires
        v.wf(),
    ensures
        forall|k: int| 0 <= k < v.completed.len() ==> (#[trigger] v.completed[k]).0.len() == 4,
        forall|k: int, i: int, j: int|
            0 <= k < v.completed.len() && 0 <= i < 4 && 0 <= j < 4 && i != j ==> (#[trigger] v.completed[k].0[i]).played_by != (#[trigger] v.completed[k].0[j]).played_by,
{
    assert forall|k: int, i: int, j: int|
        0 <= k < v.completed.len() && 0 <= i < 4 && 0 <= j < 4 && i != j implies (#[trigger] v.completed[k].0[i]).played_by != (#[trigger] v.completed[k].0[j]).played_by by {
        let cards = v.completed[k].0;
        assert(crate::round::is_full_trick(cards));
        let first = cards[0].played_by;
        assert(cards[i].played_by == advance(first, i as nat));
        assert(cards[j].played_by == advance(first, j as nat));
        lemma_seats(first, first, i as nat);
        lemma_seats(first, first, j as nat);
    }
}

/// The round reached from `v` by taking each move in turn.
pub open spec fn replay(v: RoundView, moves: Seq<(PlayerName, PlayPhaseAction)>) -> RoundView
    decreases moves.len(),
{
    if moves.len() == 0 {
        v
    } else {
        replay(v.step(moves[0].0, moves[0].1), moves.drop_first())
    }
}

/// Returns true if each move is legal in the round that the earlier moves reach.
pub open spec fn legal_sequence(v: RoundView, moves: Seq<(PlayerName, PlayPhaseAction)>) -> bool
    decreases moves.len(),
{
    moves.len() == 0 || (v.can_perform(moves[0].0, moves[0].1) && legal_sequence(
        v.step(moves[0].0, moves[0].1),
        moves.drop_first(),
    ))
}

/// Playing a legal sequence of moves on a round and on a copy of it gives the
/// same round: the rules depend on nothing but the round and the moves. Every
/// round along the way is well formed.
pub proof fn lemma_replay_deterministic(
    a: RoundView,
    b: RoundView,
    moves: Seq<(PlayerName, PlayPhaseAction)>,
)
    requires
        a == b,
        a.wf(),
        legal_sequence(a, moves),
    ensures
        replay(a, moves) == replay(b, moves),
        replay(a, moves).wf(),
    decreases moves.len(),
{
    if moves.len() > 0 {
        crate::actions::lemma_step_wf(a, moves[0].0, moves[0].1);
        lemma_replay_deterministic(
            a.step(moves[0].0, moves[0].1),
            b.step(moves[0].0, moves[0].1),
            moves.drop_first(),
        );
    }
}

/// Number of program slots with no recorded state.
pub open spec fn none_count(s: Seq<Option<ProgramState>>) -> nat
    decreases s.len(),
{
    if s.len() == 0 {
        0
    } else {
        none_count(s.drop_last()) + (if s.last() is None { 1nat } else { 0nat })
    }
}

/// An upper bound on the moves left in a round: cards still to be played plus
/// programs not yet activated.
pub open spec fn moves_left(v: RoundView) -> nat {
    (52 - v.trick.len() - 4 * v.completed.len()) as nat + none_count(v.states)
}

proof fn lemma_none_count_update(s: Seq<Option<ProgramState>>, i: int, x: ProgramState)
    requires
        0 <= i < s.len(),
        s[i] is None,
    ensures
        none_count(s.update(i, Some(x))) + 1 == none_count(s),
    decreases s.len(),
{
    let u = s.update(i, Some(x));
    if i == s.len() - 1 {
        assert(u.drop_last() =~= s.drop_last());
    } else {
        assert(u.drop_last() =~= s.drop_last().update(i, Some(x)));
        lemma_none_count_update(s.drop_last(), i, x);
    }
}

/// Every legal move brings a round closer to its end.
pub proof fn lemma_step_progress(v: RoundView, p: PlayerName, a: PlayPhaseAction)
    requires
        v.wf(),
        v.can_perform(p, a),
    ensures
        moves_left(v.step(p, a)) < moves_left(v),
{
    match a {
        PlayPhaseAction::PlayCard(c) => {
            let w = v.step(p, a);
            assert(w.states == v.states);
            if v.trick.len() < 3 {
                assert(w.trick.len() == v.trick.len() + 1);
                assert(w.completed.len() == v.completed.len());
            } else {
                assert(w.trick.len() == 0);
                assert(w.completed.len() == v.completed.len() + 1);
            }
            crate::actions::lemma_step_wf(v, p, a);
            lemma_card_totals(v);
            lemma_card_totals(w);
        },
        PlayPhaseAction::ActivateProgram(id) => {
            crate::actions::lemma_activate_wf(v, id);
            crate::delegates::lemma_program_slot(id, id);
            match v.delegates.activated[crate::delegates::program_slot(id)] {
                Some(crate::delegates::ActivationEffect::ActivateForCurrentTrick) => {
                    lemma_none_count_update(v.states, crate::delegates::program_slot(id), ProgramState::ActivatedForTrick(v.trick_number() as usize));
                },
                Some(crate::delegates::ActivationEffect::SpadesBecomeTrump) => {
                    lemma_none_count_update(v.states, crate::delegates::program_slot(id), ProgramState::Activated);
                },
                None => {},
            }
        },
    }
}

/// Replaying one more move continues from where the earlier moves led.
pub proof fn lemma_replay_push(
    v: RoundView,
    moves: Seq<(PlayerName, PlayPhaseAction)>,
    last: (PlayerName, PlayPhaseAction),
)
    ensures
        replay(v, moves.push(last)) == replay(v, moves).step(last.0, last.1),
        legal_sequence(v, moves.push(last)) == (legal_sequence(v, moves) && replay(v, moves).can_perform(last.0, last.1)),
    decreases moves.len(),
{
    let pushed = moves.push(last);
    if moves.len() > 0 {
        assert(pushed[0] == moves[0]);
        assert(pushed.drop_first() =~= moves.drop_first().push(last));
        lemma_replay_push(v.step(moves[0].0, moves[0].1), moves.drop_first(), last);
    } else {
        assert(pushed[0] == last);
        assert(pushed.drop_first() =~= Seq::<(PlayerName, PlayPhaseAction)>::empty());
        let w = v.step(last.0, last.1);
        assert(replay(w, pushed.drop_first()) == w);
        assert(legal_sequence(w, pushed.drop_first()));
    }
}

/// The completed tricks only grow: a legal move keeps every completed trick and
/// adds at most one.
pub proof fn lemma_completed_append_only(v: RoundView, p: PlayerName, a: PlayPhaseAction)
    requires
        v.wf(),
        v.can_perform(p, a),
    ensures
        v.step(p, a).completed.len() <= v.completed.len() + 1,
        v.step(p, a).completed.subrange(0, v.completed.len() as int) == v.completed,
{
    let w = v.step(p, a);
    match a {
        PlayPhaseAction::PlayCard(c) => {
            if v.trick.len() == 3 {
                let cards = v.trick.push(crate::round::PlayedCard { played_by: p, card: c });
                assert(w.completed == v.completed.push((cards, v.trick_winner(cards))));
            } else {
                assert(w.completed == v.completed);
            }
        },
        PlayPhaseAction::ActivateProgram(id) => {
            assert(w.completed == v.completed);
        },
    }
    assert(w.completed.subrange(0, v.completed.len() as int) =~= v.completed);
}

/// The cards of a sequence of played cards, with multiplicity.
pub open spec fn played_cards(s: Seq<PlayedCard>) -> Multiset<Card>
    decreases s.len(),
{
    if s.len() == 0 {
        Multiset::empty()
    } else {
        played_cards(s.drop_last()).insert(s.last().card)
    }
}

/// The cards of a sequence of completed tricks, with multiplicity.
pub open spec fn completed_cards(t: Seq<(Seq<PlayedCard>, PlayerName)>) -> Multiset<Card>
    decreases t.len(),
{
    if t.len() == 0 {
        Multiset::empty()
    } else {
        completed_cards(t.drop_last()).add(played_cards(t.last().0))
    }
}

/// Every card of a round, with multiplicity: the four hands, the current trick
/// and the completed tricks.
pub open spec fn round_cards(v: RoundView) -> Multiset<Card> {
    Multiset::from_set(v.hands[0]).add(Multiset::from_set(v.hands[1])).add(
        Multiset::from_set(v.hands[2]),
    ).add(Multiset::from_set(v.hands[3])).add(played_cards(v.trick)).add(
        completed_cards(v.completed),
    )
}

/// The 52-card deck: every card once.
pub open spec fn deck() -> Multiset<Card> {
    Multiset::from_set(all_cards())
}

proof fn lemma_from_set_count(h: Set<Card>, c: Card)
    ensures
        Multiset::from_set(h).count(c) == if h.contains(c) { 1nat } else { 0nat },
{
    broadcast use vstd::multiset::group_multiset_axioms;

    lemma_card_set_finite(h);
    let m = Map::<Card, nat>::new(|k: Card| h.contains(k), |k: Card| 1nat);
    assert(m.dom() =~= h);
}

proof fn lemma_played_cards_count(s: Seq<PlayedCard>, c: Card)
    ensures
        played_cards(s).count(c) == trick_count(s, c),
    decreases s.len(),
{
    broadcast use vstd::multiset::group_multiset_axioms;

    if s.len() > 0 {
        lemma_played_cards_count(s.drop_last(), c);
    }
}

proof fn lemma_completed_cards_count(t: Seq<(Seq<PlayedCard>, PlayerName)>, c: Card)
    ensures
        completed_cards(t).count(c) == completed_count(t, c),
    decreases t.len(),
{
    broadcast use vstd::multiset::group_multiset_axioms;

    if t.len() > 0 {
        lemma_completed_cards_count(t.drop_last(), c);
        lemma_played_cards_count(t.last().0, c);
    }
}

/// The hands, the current trick and the completed tricks of a reachable round
/// together hold exactly the 52-card deck.
pub proof fn lemma_round_holds_deck(v: RoundView)
    requires
        v.wf(),
    ensures
        round_cards(v) == deck(),
{
    broadcast use vstd::multiset::group_multiset_axioms;

    lemma_all_cards();
    assert forall|c: Card| #[trigger] round_cards(v).count(c) == deck().count(c) by {
        lemma_from_set_count(v.hands[0], c);
        lemma_from_set_count(v.hands[1], c);
        lemma_from_set_count(v.hands[2], c);
        lemma_from_set_count(v.hands[3], c);
        lemma_from_set_count(all_cards(), c);
        lemma_played_cards_count(v.trick, c);
        lemma_completed_cards_count(v.completed, c);
        assert(v.card_count(c) == 1);
    }
    assert(round_cards(v) =~= deck());
}

/// The move of the player to move that comes first among their legal moves.
pub open spec fn first_move(v: RoundView) -> (PlayerName, PlayPhaseAction) {
    (v.turn.unwrap(), legal_moves(v, v.turn.unwrap())[0])
}

/// Returns true if every move is made while the round is in progress and is
/// the first legal move of the player to move.
pub open spec fn plays_first_moves(v: RoundView, moves: Seq<(PlayerName, PlayPhaseAction)>) -> bool
    decreases moves.len(),
{
    moves.len() == 0 || (v.turn is Some && moves[0] == first_move(v) && plays_first_moves(
        v.step(moves[0].0, moves[0].1),
        moves.drop_first(),
    ))
}

/// Taking one more first move extends a sequence of first moves.
pub proof fn lemma_first_moves_push(
    v: RoundView,
    moves: Seq<(PlayerName, PlayPhaseAction)>,
    last: (PlayerName, PlayPhaseAction),
)
    ensures
        plays_first_moves(v, moves.push(last)) == (plays_first_moves(v, moves) && replay(v, moves).turn is Some
            && last == first_move(replay(v, moves))),
    decreases moves.len(),
{
    let pushed = moves.push(last);
    if moves.len() > 0 {
        assert(pushed[0] == moves[0]);
        assert(pushed.drop_first() =~= moves.drop_first().push(last));
        let w = v.step(moves[0].0, moves[0].1);
        lemma_first_moves_push(w, moves.drop_first(), last);
        assert(replay(v, moves) == replay(w, moves.drop_first()));
        assert(plays_first_moves(v, pushed) == (v.turn is Some && moves[0] == first_move(v)
            && plays_first_moves(w, moves.drop_first().push(last))));
        assert(plays_first_moves(v, moves) == (v.turn is Some && moves[0] == first_move(v)
            && plays_first_moves(w, moves.drop_first())));
    } else {
        assert(pushed[0] == last);
        assert(pushed.drop_first() =~= Seq::<(PlayerName, PlayPhaseAction)>::empty());
        let w = v.step(last.0, last.1);
        assert(plays_first_moves(w, pushed.drop_first()));
        assert(replay(v, moves) == v);
        assert(plays_first_moves(v, moves));
    }
}

/// Two players who always take their first legal move play a round out the
/// same way: from one round, two sequences of first moves that each end the
/// round are the same sequence, and so reach the same final round.
pub proof fn lemma_first_moves_deterministic(
    v: RoundView,
    a: Seq<(PlayerName, PlayPhaseAction)>,
    b: Seq<(PlayerName, PlayPhaseAction)>,
)
    requires
        plays_first_moves(v, a),
        plays_first_moves(v, b),
        replay(v, a).turn is None,
        replay(v, b).turn is None,
    ensures
        a == b,
        replay(v, a) == replay(v, b),
    decreases a.len(),
{
    if a.len() == 0 || b.len() == 0 {
        if a.len() == 0 {
            assert(replay(v, a) == v);
        }
        if b.len() == 0 {
            assert(replay(v, b) == v);
        }
        if a.len() > 0 {
            assert(v.turn is Some);
        }
        if b.len() > 0 {
            assert(v.turn is Some);
        }
        assert(a =~= b);
    } else {
        assert(a[0] == b[0]);
        lemma_first_moves_deterministic(v.step(a[0].0, a[0].1), a.drop_first(), b.drop_first());
        assert(a.len() == b.len());
        assert forall|i: int| 0 <= i < a.len() implies a[i] == b[i] by {
            if i > 0 {
                assert(a[i] == a.drop_first()[i - 1]);
                assert(b[i] == b.drop_first()[i - 1]);
            }
        }
        assert(a =~= b);
    }
}

} // verus!
