use vstd::prelude::*;

use crate::cards;
use crate::delegates::{
    activated_for, program_slot, ActivationCheck, ActivationState, ProgramId, TrickNumber,
};
use crate::primitives::PlayerName;
use crate::queries;
use crate::round::{PlayPhaseAction, PlayPhaseData, RoundView};

verus! {

/// Activating a program that may be activated keeps a round well formed.
pub proof fn lemma_activate_wf(v: RoundView, id: ProgramId)
    requires
        v.wf(),
        v.activation_state(id) == ActivationState::CanActivate,
    ensures
        v.activate_step(id).wf(),
        v.delegates.activated[program_slot(id)] is Some,
{
    crate::delegates::lemma_program_slot(id, id);
    let w = v.activate_step(id);
    assert(v.delegates.can_activate[program_slot(id)] is Some);
    assert(w.hands == v.hands && w.trick == v.trick && w.completed == v.completed);
    assert(forall|c| #[trigger] w.card_count(c) == v.card_count(c));
    assert(forall|p| #[trigger] w.played_in_trick(p) == v.played_in_trick(p));
    assert(w.next_to_play() == v.next_to_play());
    assert(w.leader() == v.leader());
    assert(forall|q: PlayerName| #[trigger] w.hand(q) == v.hand(q));
    assert(w.delegates == v.delegates);
    assert(w.states.len() == 12);
    assert forall|x: ProgramId, n: TrickNumber|
        w.delegates.can_activate[program_slot(x)] == Some(ActivationCheck::WithLead)
            && #[trigger] activated_for(w.state_of(x), n) implies w.led_trick(x.owner, n as nat) by {
        crate::delegates::lemma_program_slot(x, id);
        if x != id {
            assert(w.state_of(x) == v.state_of(x));
            assert(activated_for(v.state_of(x), n));
        } else {
            assert(v.check_holds(ActivationCheck::WithLead, v.context(id)));
        }
    }
    assert forall|k: int|
        0 <= k < w.delegates.trick_winner.len() implies w.delegates.can_activate[program_slot(
            (#[trigger] w.delegates.trick_winner[k]).0,
        )] == Some(ActivationCheck::WithLead) by {
        assert(v.delegates.trick_winner[k] == w.delegates.trick_winner[k]);
    }
}

/// Every legal action keeps a round well formed.
pub proof fn lemma_step_wf(v: RoundView, p: PlayerName, a: PlayPhaseAction)
    requires
        v.wf(),
        v.can_perform(p, a),
    ensures
        v.step(p, a).wf(),
{
    match a {
        PlayPhaseAction::PlayCard(c) => cards::lemma_play_card_wf(v, p, c),
        PlayPhaseAction::ActivateProgram(id) => lemma_activate_wf(v, id),
    }
}

/// Performs `action` for `player`. The action must be legal: callers filter
/// through [`queries::legal_actions`] or [`queries::can_perform_action`].
pub fn handle_action(data: &mut PlayPhaseData, player: PlayerName, action: PlayPhaseAction)
    requires
        old(data)@.wf(),
        old(data)@.can_perform(player, action),
    ensures
        final(data)@ == old(data)@.step(player, action),
        final(data)@.wf(),
{
    proof {
        lemma_step_wf(old(data)@, player, action);
    }
    match action {
        PlayPhaseAction::PlayCard(card) => cards::play_card(data, player, card),
        PlayPhaseAction::ActivateProgram(program) => data.activate(program),
    }
}

} // verus!
