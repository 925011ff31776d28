use vstd::prelude::*;

use crate::delegates::{
    activated_for, program_slot, ActivationCheck, ActivationEffect, ActivationState, ActiveCheck,
    Context, FollowSuitHook, PlayPhaseDelegates, PlayerTrickNumber, ProgramId, ProgramQuery, ProgramState, QueryDelegateList, TrickNumber, TrickWinnerHook,
};
use crate::primitives::{PlayerName, Suit};
use crate::round::{apply_follow_hook, apply_winner_hook, PlayPhaseData};
use crate::tricks;

verus! {

/// Activation condition: it is the owner's turn.
pub struct DuringTurn;

impl DuringTurn {
    pub fn can_activate(data: &PlayPhaseData, context: &Context) -> (r: bool)
        ensures
            r == data@.is_turn(context.id.owner),
    {
        data.is_turn(context.owner())
    }
}

/// Activation condition: the owner is about to lead a trick.
pub struct WithLead;

impl WithLead {
    pub fn can_activate(data: &PlayPhaseData, context: &Context) -> (r: bool)
        ensures
            r == data@.has_lead(context.id.owner),
    {
        tricks::has_lead(data, context.owner())
    }
}

impl ActivationCheck {
    /// Evaluates this condition for the program described by `context`.
    pub fn holds(&self, data: &PlayPhaseData, context: &Context) -> (r: bool)
        ensures
            r == data@.check_holds(*self, *context),
    {
        match self {
            ActivationCheck::DuringTurn => DuringTurn::can_activate(data, context),
            ActivationCheck::WithLead => WithLead::can_activate(data, context),
        }
    }
}

impl ActiveCheck {
    /// Evaluates this condition for the program described by `context`.
    pub fn holds(&self, data: &PlayPhaseData, context: &Context) -> (r: bool)
        ensures
            r == activated_for(context.state, data@.trick_number() as TrickNumber),
    {
        match self {
            ActiveCheck::ActivatedForCurrentTrick => context.activated_for_trick(
                tricks::current_number(data),
            ),
        }
    }
}

impl ActivationEffect {
    /// Applies this effect to the round, recording the new state in `context`.
    pub fn apply(&self, data: &mut PlayPhaseData, context: &mut Context)
        ensures
            final(context).id == old(context).id,
            final(context).state == Some(
                match self {
                    ActivationEffect::ActivateForCurrentTrick => ProgramState::ActivatedForTrick(
                        old(data)@.trick_number() as TrickNumber,
                    ),
                    ActivationEffect::SpadesBecomeTrump => ProgramState::Activated,
                },
            ),
            final(data)@ == (match self {
                ActivationEffect::ActivateForCurrentTrick => old(data)@,
                ActivationEffect::SpadesBecomeTrump => crate::round::RoundView {
                    trump: Some(Suit::Spades),
                    ..old(data)@
                },
            }),
    {
        match self {
            ActivationEffect::ActivateForCurrentTrick => {
                let n = tricks::current_number(data);
                context.set_state(ProgramState::ActivatedForTrick(n));
            },
            ActivationEffect::SpadesBecomeTrump => {
                data.trump = Some(Suit::Spades);
                context.set_state(ProgramState::Activated);
            },
        }
    }
}

impl TrickWinnerHook {
    /// The answer of this hook given the answer so far.
    pub fn apply(
        &self,
        data: &PlayPhaseData,
        context: &Context,
        number: &TrickNumber,
        current: PlayerName,
    ) -> (r: PlayerName)
        ensures
            r == apply_winner_hook(*self, *context, *number, current),
    {
        match self {
            TrickWinnerHook::OwnerWinsActivatedTrick => {
                if context.activated_for_trick(*number) {
                    context.id.owner
                } else {
                    current
                }
            },
        }
    }
}

impl FollowSuitHook {
    /// The answer of this hook given the answer so far.
    pub fn apply(
        &self,
        data: &PlayPhaseData,
        context: &Context,
        p: &PlayerTrickNumber,
        current: bool,
    ) -> (r: bool)
        ensures
            r == apply_follow_hook(*self, *context, *p, current),
    {
        match self {
            FollowSuitHook::OwnerExemptOnActivatedTrick => {
                if p.player_name == context.owner() && context.activated_for_trick(p.trick_number) {
                    false
                } else {
                    current
                }
            },
        }
    }
}

impl ProgramQuery<ActivationCheck> {
    /// The answer of the program's registered condition, or `current` if none is registered.
    pub fn run_query(&self, data: &PlayPhaseData, program_id: ProgramId, current: bool) -> (r:
        bool)
        requires
            data@.states.len() == 12,
        ensures
            r == match self@[program_slot(program_id)] {
                Some(check) => data@.check_holds(check, data@.context(program_id)),
                None => current,
            },
    {
        match self.registered(program_id) {
            Some(function) => {
                let context = data.get_context(program_id);
                function.holds(data, &context)
            },
            None => current,
        }
    }
}

impl ProgramQuery<ActiveCheck> {
    /// The answer of the program's registered condition, or `current` if none is registered.
    pub fn run_query(&self, data: &PlayPhaseData, program_id: ProgramId, current: bool) -> (r:
        bool)
        requires
            data@.states.len() == 12,
        ensures
            r == match self@[program_slot(program_id)] {
                Some(ActiveCheck::ActivatedForCurrentTrick) => activated_for(
                    data@.state_of(program_id),
                    data@.trick_number() as TrickNumber,
                ),
                None => current,
            },
    {
        match self.registered(program_id) {
            Some(function) => {
                let context = data.get_context(program_id);
                function.holds(data, &context)
            },
            None => current,
        }
    }
}

impl QueryDelegateList<FollowSuitHook> {
    /// Folds every registered follow-suit hook, in order, over `current`.
    pub fn run_query(&self, data: &PlayPhaseData, arg: &PlayerTrickNumber, current: bool) -> (r:
        bool)
        requires
            data@.states.len() == 12,
        ensures
            r == data@.follow_fold(self@, *arg, current),
    {
        let mut result = current;
        let mut i: usize = 0;
        while i < self.len()
            invariant
                i <= self@.len(),
                data@.states.len() == 12,
                result == data@.follow_fold(self@.subrange(0, i as int), *arg, current),
            decreases self@.len() - i,
        {
            let (program_id, function) = self.get(i);
            let context = data.get_context(program_id);
            result = function.apply(data, &context, arg, result);
            proof {
                assert(self@.subrange(0, i + 1).drop_last() =~= self@.subrange(0, i as int));
            }
            i = i + 1;
        }
        assert(self@.subrange(0, self@.len() as int) =~= self@);
        result
    }
}

/// Installs an activation condition for the program being set up.
pub fn can_activate(on: &mut PlayPhaseDelegates, check: ActivationCheck)
    ensures
        final(on)@ == old(on)@,
        final(on).can_activate.pending() == Some(check),
        final(on).currently_active.pending() == old(on).currently_active.pending(),
        final(on).activated.pending() == old(on).activated.pending(),
        final(on).trick_winner.pending() == old(on).trick_winner.pending(),
        final(on).must_follow_suit.pending() == old(on).must_follow_suit.pending(),
{
    on.can_activate.this(check);
}

/// Installs the hooks of a program that is activated for a single trick: its
/// activation condition, "active during the recorded trick", and recording the
/// current trick on activation.
pub fn activate_for_trick(on: &mut PlayPhaseDelegates, check: ActivationCheck)
    ensures
        final(on)@ == old(on)@,
        final(on).can_activate.pending() == Some(check),
        final(on).currently_active.pending() == Some(ActiveCheck::ActivatedForCurrentTrick),
        final(on).activated.pending() == Some(ActivationEffect::ActivateForCurrentTrick),
        final(on).trick_winner.pending() == old(on).trick_winner.pending(),
        final(on).must_follow_suit.pending() == old(on).must_follow_suit.pending(),
{
    can_activate(on, check);
    on.currently_active.this(ActiveCheck::ActivatedForCurrentTrick);
    on.activated.this(ActivationEffect::ActivateForCurrentTrick);
}

impl PlayPhaseData {
    /// Returns true if it is `turn`'s turn in the round.
    pub fn is_turn(&self, turn: PlayerName) -> (r: bool)
        ensures
            r == self@.is_turn(turn),
    {
        match self.turn {
            Some(p) => p == turn,
            None => false,
        }
    }

    /// The recorded state of program `id`.
    pub fn get_state(&self, id: ProgramId) -> (r: Option<ProgramState>)
        requires
            self@.states.len() == 12,
        ensures
            r == self@.state_of(id),
    {
        self.programs.program_state[id.slot()]
    }

    /// The context handed to the hooks of program `id`.
    pub fn get_context(&self, id: ProgramId) -> (r: Context)
        requires
            self@.states.len() == 12,
        ensures
            r == self@.context(id),
    {
        Context::new(id, self.get_state(id))
    }

    /// Records `state` for program `id`.
    pub fn set_state(&mut self, id: ProgramId, state: Option<ProgramState>)
        requires
            old(self)@.states.len() == 12,
        ensures
            final(self)@ == (crate::round::RoundView {
                states: old(self)@.states.update(program_slot(id), state),
                ..old(self)@
            }),
    {
        let slot = id.slot();
        self.programs.program_state[slot] = state;
        assert(self@.states =~= old(self)@.states.update(program_slot(id), state));
    }

    /// Returns true if program `program` reports that it can be activated.
    pub fn can_activate(&self, program: ProgramId) -> (r: bool)
        requires
            self@.states.len() == 12,
        ensures
            r == self@.can_activate(program),
    {
        self.programs.current_delegates.can_activate.run_query(self, program, false)
    }

    /// How program `program` is presented: not activatable, active now, already
    /// used, or ready to activate.
    pub fn activation_state(&self, program: ProgramId) -> (r: ActivationState)
        requires
            self@.states.len() == 12,
        ensures
            r == self@.activation_state(program),
    {
        if !self.can_activate(program) {
            ActivationState::CannotActivate
        } else if self.programs.current_delegates.currently_active.run_query(self, program, false) {
            ActivationState::CurrentlyActive
        } else if self.get_state(program).is_some() {
            ActivationState::PreviouslyActivated
        } else {
            ActivationState::CanActivate
        }
    }

    /// Runs the activation mutation of program `program` and records its new state.
    pub fn activate(&mut self, program: ProgramId)
        requires
            old(self)@.states.len() == 12,
            old(self)@.delegates.activated.len() == 12,
            old(self)@.delegates.activated[program_slot(program)] is Some,
        ensures
            final(self)@ == old(self)@.activate_step(program),
    {
        let function = self.programs.current_delegates.activated.get_mutation_fn(program);
        let mut context = Context::new(program, self.get_state(program));
        function.apply(self, &mut context);
        self.set_state(program, context.state);
        proof {
            crate::delegates::lemma_program_slot(program, program);
            assert(self@.states =~= old(self)@.activate_step(program).states);
        }
    }
}

} // verus!
