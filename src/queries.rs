use vstd::prelude::*;

use crate::cards;
use crate::card_set::cards_in_order;
use crate::delegates::{ProgramId, ProgramName};
use crate::primitives::{player_index, Card, PlayerName};
use crate::round::{wins, PlayPhaseAction, PlayPhaseData, RoundView};
use crate::tricks;

verus! {

/// Returns true if `a` is an action that `p` is offered at all: a card in their
/// hand, or a program they own.
pub open spec fn offered(v: RoundView, p: PlayerName, a: PlayPhaseAction) -> bool {
    match a {
        PlayPhaseAction::PlayCard(c) => v.hand(p).contains(c),
        PlayPhaseAction::ActivateProgram(id) => id.owner == p && v.programs[player_index(p) as int].contains(
            id.name,
        ),
    }
}

/// The actions `p` might take, in order: each card of their hand in card
/// order, then each program they own in ownership order.
pub open spec fn candidates(v: RoundView, p: PlayerName) -> Seq<PlayPhaseAction> {
    cards_in_order(v.hand(p), 52).map_values(|c: Card| PlayPhaseAction::PlayCard(c)) + v.programs[player_index(
        p,
    ) as int].map_values(|n: ProgramName| PlayPhaseAction::ActivateProgram(ProgramId { name: n, owner: p }))
}

/// The actions of `cands` that `p` may take now, in order.
pub open spec fn keep_legal(v: RoundView, p: PlayerName, cands: Seq<PlayPhaseAction>) -> Seq<
    PlayPhaseAction,
>
    decreases cands.len(),
{
    if cands.len() == 0 {
        Seq::empty()
    } else {
        let prev = keep_legal(v, p, cands.drop_last());
        if v.can_perform(p, cands.last()) {
            prev.push(cands.last())
        } else {
            prev
        }
    }
}

/// The legal actions of `p`, in enumeration order.
pub open spec fn legal_moves(v: RoundView, p: PlayerName) -> Seq<PlayPhaseAction> {
    keep_legal(v, p, candidates(v, p))
}

/// Returns true if `player` may take `action` now.
pub fn can_perform_action(data: &PlayPhaseData, player: PlayerName, action: PlayPhaseAction) -> (r:
    bool)
    requires
        data@.states.len() == 12,
    ensures
        r == data@.can_perform(player, action),
{
    match action {
        PlayPhaseAction::PlayCard(card) => cards::can_play(data, player, card),
        PlayPhaseAction::ActivateProgram(program) => program.owner == player
            && data.activation_state(program).can_activate(),
    }
}

/// The actions `player` can take now: the legal cards of their hand in card
/// order, then the activatable programs they own in ownership order.
pub fn legal_actions(data: &PlayPhaseData, player: PlayerName) -> (r: Vec<PlayPhaseAction>)
    requires
        data@.states.len() == 12,
        data@.programs.len() == 4,
    ensures
        r@ == legal_moves(data@, player),
        forall|a: PlayPhaseAction| #[trigger]
            r@.contains(a) <==> (offered(data@, player, a) && data@.can_perform(player, a)),
{
    let mut result: Vec<PlayPhaseAction> = Vec::new();
    let hand = data.hands.hand(player).cards();
    let ghost cands = candidates(data@, player);
    let mut i: usize = 0;
    while i < hand.len()
        invariant
            i <= hand@.len(),
            hand@ == cards_in_order(data@.hand(player), 52),
            cands == candidates(data@, player),
            result@ == keep_legal(data@, player, cands.subrange(0, i as int)),
            data@.states.len() == 12,
            forall|c: Card| #[trigger] hand@.contains(c) <==> data@.hand(player).contains(c),
            forall|a: PlayPhaseAction| #[trigger]
                result@.contains(a) <==> (exists|k: int|
                    0 <= k < i && a == PlayPhaseAction::PlayCard(#[trigger] hand@[k]))
                    && data@.can_perform(player, a),
        decreases hand@.len() - i,
    {
        let action = PlayPhaseAction::PlayCard(hand[i]);
        let ghost prev = result@;
        if can_perform_action(data, player, action) {
            result.push(action);
        }
        proof {
            assert(cands[i as int] == action);
            assert(cands.subrange(0, i + 1).drop_last() =~= cands.subrange(0, i as int));
            assert forall|a: PlayPhaseAction| #[trigger] result@.contains(a) <==> (exists|k: int|
                0 <= k < i + 1 && a == PlayPhaseAction::PlayCard(#[trigger] hand@[k]))
                && data@.can_perform(player, a) by {
                if result@.contains(a) && a != action {
                    let j = choose|j: int| 0 <= j < result@.len() && result@[j] == a;
                    assert(prev[j] == a);
                    assert(prev.contains(a));
                }
                if a == action && data@.can_perform(player, a) {
                    assert(result@[result@.len() - 1] == a);
                }
                if a != action && prev.contains(a) {
                    let j = choose|j: int| 0 <= j < prev.len() && prev[j] == a;
                    assert(result@[j] == a);
                }
                if a == action {
                    assert(a == PlayPhaseAction::PlayCard(hand@[i as int]));
                }
            }
        }
        i = i + 1;
    }
    let ghost cards_part = result@;
    let programs = data.programs.all_programs.for_player(player);
    let mut j: usize = 0;
    while j < programs.len()
        invariant
            j <= programs@.len(),
            hand@ == cards_in_order(data@.hand(player), 52),
            cands == candidates(data@, player),
            result@ == keep_legal(data@, player, cands.subrange(0, (hand@.len() + j) as int)),
            data@.states.len() == 12,
            programs@ == data@.programs[player_index(player) as int],
            forall|c: Card| #[trigger] hand@.contains(c) <==> data@.hand(player).contains(c),
            forall|a: PlayPhaseAction| #[trigger]
                cards_part.contains(a) <==> (exists|k: int|
                    0 <= k < hand@.len() && a == PlayPhaseAction::PlayCard(#[trigger] hand@[k]))
                    && data@.can_perform(player, a),
            forall|a: PlayPhaseAction| #[trigger]
                result@.contains(a) <==> (cards_part.contains(a) || ((exists|k: int|
                    0 <= k < j && a == PlayPhaseAction::ActivateProgram(
                        ProgramId { name: #[trigger] programs@[k], owner: player },
                    )) && data@.can_perform(player, a))),
        decreases programs@.len() - j,
    {
        let action = PlayPhaseAction::ActivateProgram(ProgramId::new(programs[j], player));
        let ghost prev = result@;
        if can_perform_action(data, player, action) {
            result.push(action);
        }
        proof {
            assert(cands[(hand@.len() + j) as int] == action);
            assert(cands.subrange(0, (hand@.len() + j + 1) as int).drop_last() =~= cands.subrange(0, (hand@.len() + j) as int));
            assert forall|a: PlayPhaseAction| #[trigger] result@.contains(a) <==> (cards_part.contains(a) || ((exists|k: int|
                0 <= k < j + 1 && a == PlayPhaseAction::ActivateProgram(
                    ProgramId { name: #[trigger] programs@[k], owner: player },
                )) && data@.can_perform(player, a))) by {
                if result@.contains(a) && a != action {
                    let m = choose|m: int| 0 <= m < result@.len() && result@[m] == a;
                    assert(prev[m] == a);
                    assert(prev.contains(a));
                }
                if a == action && data@.can_perform(player, a) {
                    assert(result@[result@.len() - 1] == a);
                }
                if a != action && prev.contains(a) {
                    let m = choose|m: int| 0 <= m < prev.len() && prev[m] == a;
                    assert(result@[m] == a);
                }
                if a == action {
                    assert(a == PlayPhaseAction::ActivateProgram(
                        ProgramId { name: programs@[j as int], owner: player },
                    ));
                }
            }
        }
        j = j + 1;
    }
    proof {
        assert(cands.subrange(0, (hand@.len() + programs@.len()) as int) =~= cands);
        assert forall|a: PlayPhaseAction| #[trigger] result@.contains(a) <==> (offered(data@, player, a)
            && data@.can_perform(player, a)) by {
            match a {
                PlayPhaseAction::PlayCard(c) => {
                    if data@.hand(player).contains(c) && data@.can_perform(player, a) {
                        assert(hand@.contains(c));
                        let k = choose|k: int| 0 <= k < hand@.len() && hand@[k] == c;
                        assert(a == PlayPhaseAction::PlayCard(hand@[k]));
                        assert(cards_part.contains(a));
                    }
                    if result@.contains(a) {
                        assert(cards_part.contains(a));
                        let k = choose|k: int|
                            0 <= k < hand@.len() && a == PlayPhaseAction::PlayCard(#[trigger] hand@[k]);
                        assert(hand@.contains(hand@[k]));
                    }
                },
                PlayPhaseAction::ActivateProgram(id) => {
                    if offered(data@, player, a) && data@.can_perform(player, a) {
                        let k = choose|k: int| 0 <= k < programs@.len() && programs@[k] == id.name;
                        assert(a == PlayPhaseAction::ActivateProgram(
                            ProgramId { name: programs@[k], owner: player },
                        ));
                    }
                    if result@.contains(a) {
                        if cards_part.contains(a) {
                            let k = choose|k: int|
                                0 <= k < hand@.len() && a == PlayPhaseAction::PlayCard(#[trigger] hand@[k]);
                        }
                        let k = choose|k: int|
                            0 <= k < j && a == PlayPhaseAction::ActivateProgram(
                                ProgramId { name: #[trigger] programs@[k], owner: player },
                            );
                        assert(programs@.contains(programs@[k]));
                    }
                },
            }
        }
    }
    result
}

/// The player whose turn it is, or None once the round has ended.
pub fn current_turn(data: &PlayPhaseData) -> (r: Option<PlayerName>)
    ensures
        r == data@.turn,
{
    data.turn
}

/// The number of tricks `player` has won so far.
pub fn tricks_won(data: &PlayPhaseData, player: PlayerName) -> (r: usize)
    ensures
        r == wins(data@.completed, player),
{
    tricks::won(data, player)
}

/// Returns true if `player` has won at least as many tricks as their contract.
pub fn met_contract(data: &PlayPhaseData, player: PlayerName) -> (r: bool)
    ensures
        r == (wins(data@.completed, player) >= data@.contracts.number(player)),
{
    tricks::won(data, player) >= data.contracts.contract_number(player)
}

/// In a well-formed round that is still in progress, the player to move holds a
/// card they may play.
pub proof fn lemma_playable_card_exists(v: RoundView, p: PlayerName)
    requires
        v.wf(),
        v.turn == Some(p),
    ensures
        exists|c: Card| #[trigger] v.hand(p).contains(c) && v.can_play(p, c),
{
    crate::invariants::lemma_round_end(v);
    let lead = v.leader();
    let t = v.trick.len();
    crate::primitives::lemma_seats(lead, p, t);
    if t > 0 {
        crate::primitives::lemma_seats(lead, p, (t - 1) as nat);
        assert(v.trick[t - 1].played_by == crate::primitives::advance(lead, (t - 1) as nat));
    }
    assert(!v.played_in_trick(p));
    assert(v.hand(p).len() + v.completed.len() == 13);
    assert(v.hand(p).len() > 0);
    if !exists|c: Card| v.hand(p).contains(c) {
        assert(v.hand(p) =~= Set::<Card>::empty());
    }
    let c = choose|c: Card| v.hand(p).contains(c);
    if t > 0 && v.holds_suit(p, v.led_suit()) {
        let d = choose|d: Card| #[trigger] v.hand(p).contains(d) && crate::primitives::card_suit(d) == v.led_suit();
        assert(v.can_play(p, d));
    } else {
        assert(v.can_play(p, c));
    }
}

} // verus!
