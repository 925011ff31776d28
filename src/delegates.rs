use vstd::prelude::*;

use crate::primitives::{player_index, PlayerName};

verus! {

/// Index of a trick within a round, counted from zero.
pub type TrickNumber = usize;

/// Number of program slots: one for each pair of program name and owner.
pub const PROGRAM_SLOTS: usize = 12;

/// Names of the programs that can modify the rules of a round.
#[derive(Clone, Copy, Debug, PartialEq, Eq, Structural, Hash)]
pub enum ProgramName {
    Starfall,
    Obsidian,
    Eviction,
}

/// Position of a program name in declaration order.
pub open spec fn program_index(n: ProgramName) -> nat {
    match n {
        ProgramName::Starfall => 0,
        ProgramName::Obsidian => 1,
        ProgramName::Eviction => 2,
    }
}

/// A program together with the player who owns it.
#[derive(Clone, Copy, Debug, PartialEq, Eq, Structural, Hash)]
pub struct ProgramId {
    pub name: ProgramName,
    pub owner: PlayerName,
}

/// The table slot of a program id: distinct ids get distinct slots below 12.
pub open spec fn program_slot(id: ProgramId) -> int {
    (4 * program_index(id.name) + player_index(id.owner)) as int
}

/// Distinct program ids have distinct slots.
pub proof fn lemma_program_slot(a: ProgramId, b: ProgramId)
    ensures
        0 <= program_slot(a) < 12,
        program_slot(a) == program_slot(b) <==> a == b,
{
}

impl ProgramId {
    pub fn new(name: ProgramName, owner: PlayerName) -> (r: ProgramId)
        ensures
            r == (ProgramId { name, owner }),
    {
        ProgramId { name, owner }
    }

    /// The table slot of this id.
    pub fn slot(&self) -> (r: usize)
        ensures
            r as int == program_slot(*self),
            r < PROGRAM_SLOTS,
    {
        let n: usize = match self.name {
            ProgramName::Starfall => 0,
            ProgramName::Obsidian => 1,
            ProgramName::Eviction => 2,
        };
        4 * n + self.owner.index() as usize
    }
}

/// Per-round state of a program that has been activated.
#[derive(Clone, Copy, Debug, PartialEq, Eq, Structural, Hash)]
pub enum ProgramState {
    ActivatedForTrick(TrickNumber),
    Activated,
}

/// How a program's activation is presented to a player.
#[derive(Clone, Copy, Debug, PartialEq, Eq, Structural, Hash)]
pub enum ActivationState {
    CannotActivate,
    CanActivate,
    CurrentlyActive,
    PreviouslyActivated,
}

impl ActivationState {
    /// Returns true if the program may be activated now.
    pub fn can_activate(&self) -> (r: bool)
        ensures
            r <==> *self == ActivationState::CanActivate,
    {
        *self == ActivationState::CanActivate
    }
}

/// What a hook knows about the program that installed it.
#[derive(Clone, Copy, Debug, PartialEq, Eq, Structural)]
pub struct Context {
    pub id: ProgramId,
    pub state: Option<ProgramState>,
}

/// Returns true if the state records an activation for trick `n`.
pub open spec fn activated_for(state: Option<ProgramState>, n: TrickNumber) -> bool {
    state == Some(ProgramState::ActivatedForTrick(n))
}

impl Context {
    pub fn new(id: ProgramId, state: Option<ProgramState>) -> (r: Context)
        ensures
            r == (Context { id, state }),
    {
        Context { id, state }
    }

    /// The player who owns the program.
    pub fn owner(&self) -> (r: PlayerName)
        ensures
            r == self.id.owner,
    {
        self.id.owner
    }

    pub fn set_state(&mut self, state: ProgramState)
        ensures
            *final(self) == (Context { id: old(self).id, state: Some(state) }),
    {
        self.state = Some(state);
    }

    /// Returns true if the program was activated for trick `trick_number`.
    pub fn activated_for_trick(&self, trick_number: TrickNumber) -> (r: bool)
        ensures
            r == activated_for(self.state, trick_number),
    {
        match self.state {
            Some(ProgramState::ActivatedForTrick(t)) => t == trick_number,
            _ => false,
        }
    }
}

/// Argument of the follow-suit query: a player on a given trick.
#[derive(Clone, Copy, Debug, PartialEq, Eq, Structural)]
pub struct PlayerTrickNumber {
    pub player_name: PlayerName,
    pub trick_number: TrickNumber,
}

impl PlayerTrickNumber {
    pub fn new(player_name: PlayerName, trick_number: TrickNumber) -> (r: PlayerTrickNumber)
        ensures
            r == (PlayerTrickNumber { player_name, trick_number }),
    {
        PlayerTrickNumber { player_name, trick_number }
    }
}

/// Condition under which a program may be activated.
#[derive(Clone, Copy, Debug, PartialEq, Eq, Structural)]
pub enum ActivationCheck {
    /// On the owner's turn.
    DuringTurn,
    /// When the owner is about to lead a trick.
    WithLead,
}

/// Condition under which a program counts as currently active.
#[derive(Clone, Copy, Debug, PartialEq, Eq, Structural)]
pub enum ActiveCheck {
    /// The program was activated for the trick now being played.
    ActivatedForCurrentTrick,
}

/// What activating a program does to the round.
#[derive(Clone, Copy, Debug, PartialEq, Eq, Structural)]
pub enum ActivationEffect {
    /// Record an activation for the trick now being played.
    ActivateForCurrentTrick,
    /// Make Spades the trump suit and record the activation.
    SpadesBecomeTrump,
}

/// A hook on the trick-winner query.
#[derive(Clone, Copy, Debug, PartialEq, Eq, Structural)]
pub enum TrickWinnerHook {
    /// The owner wins the trick the program was activated for.
    OwnerWinsActivatedTrick,
}

/// A hook on the must-follow-suit query.
#[derive(Clone, Copy, Debug, PartialEq, Eq, Structural)]
pub enum FollowSuitHook {
    /// The owner need not follow suit on the trick the program was activated for.
    OwnerExemptOnActivatedTrick,
}

/// A query answered by at most one function per program.
///
/// Installers call [`ProgramQuery::this`] without knowing the owner; the engine
/// then stamps the pending function with the owner's id.
pub struct ProgramQuery<F> {
    current: Option<F>,
    delegates: [Option<F>; 12],
}

impl<F> View for ProgramQuery<F> {
    type V = Seq<Option<F>>;

    /// The registered function of each program slot.
    closed spec fn view(&self) -> Seq<Option<F>> {
        self.delegates@
    }
}

impl<F> ProgramQuery<F> {
    /// There is one slot for each program id.
    pub proof fn lemma_slots(&self)
        ensures
            self@.len() == 12,
    {
    }
}

impl<F: Copy> ProgramQuery<F> {
    /// The function waiting to be stamped with an owner.
    pub closed spec fn pending(&self) -> Option<F> {
        self.current
    }

    /// A query with nothing registered.
    pub fn new() -> (r: ProgramQuery<F>)
        ensures
            r@ == Seq::<Option<F>>::new(12, |i: int| None::<F>),
            r.pending() == None::<F>,
    {
        let r = ProgramQuery {
            current: None,
            delegates: [None, None, None, None, None, None, None, None, None, None, None, None],
        };
        assert(r@ =~= Seq::<Option<F>>::new(12, |i: int| None::<F>));
        r
    }

    /// Installs `value` as the pending function.
    pub fn this(&mut self, value: F)
        ensures
            final(self)@ == old(self)@,
            final(self).pending() == Some(value),
    {
        self.current = Some(value);
    }

    /// Registers the pending function, if any, for program `id`.
    pub fn set_current_id(&mut self, id: ProgramId)
        requires
            old(self)@[program_slot(id)] is None,
        ensures
            final(self).pending() == None::<F>,
            final(self)@ == (match old(self).pending() {
                Some(f) => old(self)@.update(program_slot(id), Some(f)),
                None => old(self)@,
            }),
    {
        let slot = id.slot();
        match self.current {
            Some(f) => {
                self.delegates[slot] = Some(f);
            },
            None => {},
        }
        self.current = None;
    }

    /// The function registered for program `id`, if any.
    pub fn registered(&self, id: ProgramId) -> (r: Option<F>)
        ensures
            r == self@[program_slot(id)],
    {
        let slot = id.slot();
        self.delegates[slot]
    }
}

/// A mutation run by at most one function per program.
pub struct ProgramMutation<F> {
    current: Option<F>,
    delegates: [Option<F>; 12],
}

impl<F> View for ProgramMutation<F> {
    type V = Seq<Option<F>>;

    /// The registered function of each program slot.
    closed spec fn view(&self) -> Seq<Option<F>> {
        self.delegates@
    }
}

impl<F> ProgramMutation<F> {
    /// There is one slot for each program id.
    pub proof fn lemma_slots(&self)
        ensures
            self@.len() == 12,
    {
    }
}

impl<F: Copy> ProgramMutation<F> {
    /// The function waiting to be stamped with an owner.
    pub closed spec fn pending(&self) -> Option<F> {
        self.current
    }

    /// A mutation with nothing registered.
    pub fn new() -> (r: ProgramMutation<F>)
        ensures
            r@ == Seq::<Option<F>>::new(12, |i: int| None::<F>),
            r.pending() == None::<F>,
    {
        let r = ProgramMutation {
            current: None,
            delegates: [None, None, None, None, None, None, None, None, None, None, None, None],
        };
        assert(r@ =~= Seq::<Option<F>>::new(12, |i: int| None::<F>));
        r
    }

    /// Installs `value` as the pending function.
    pub fn this(&mut self, value: F)
        ensures
            final(self)@ == old(self)@,
            final(self).pending() == Some(value),
    {
        self.current = Some(value);
    }

    /// Registers the pending function, if any, for program `id`.
    pub fn set_current_id(&mut self, id: ProgramId)
        requires
            old(self)@[program_slot(id)] is None,
        ensures
            final(self).pending() == None::<F>,
            final(self)@ == (match old(self).pending() {
                Some(f) => old(self)@.update(program_slot(id), Some(f)),
                None => old(self)@,
            }),
    {
        let slot = id.slot();
        match self.current {
            Some(f) => {
                self.delegates[slot] = Some(f);
            },
            None => {},
        }
        self.current = None;
    }

    /// The function registered for program `id`.
    pub fn get_mutation_fn(&self, program_id: ProgramId) -> (r: F)
        requires
            self@[program_slot(program_id)] is Some,
        ensures
            Some(r) == self@[program_slot(program_id)],
    {
        let slot = program_id.slot();
        self.delegates[slot].unwrap()
    }
}

/// A query answered by folding over every registered function in order.
pub struct QueryDelegateList<F> {
    current: Vec<F>,
    delegates: Vec<(ProgramId, F)>,
}

impl<F> View for QueryDelegateList<F> {
    type V = Seq<(ProgramId, F)>;

    /// The registered functions with their owners, in registration order.
    closed spec fn view(&self) -> Seq<(ProgramId, F)> {
        self.delegates@
    }
}

impl<F: Copy> QueryDelegateList<F> {
    /// The functions waiting to be stamped with an owner.
    pub closed spec fn pending(&self) -> Seq<F> {
        self.current@
    }

    /// A list with nothing registered.
    pub fn new() -> (r: QueryDelegateList<F>)
        ensures
            r@ == Seq::<(ProgramId, F)>::empty(),
            r.pending() == Seq::<F>::empty(),
    {
        QueryDelegateList { current: Vec::new(), delegates: Vec::new() }
    }

    /// Adds `value` to the pending functions.
    pub fn queried(&mut self, value: F)
        ensures
            final(self)@ == old(self)@,
            final(self).pending() == old(self).pending().push(value),
    {
        self.current.push(value);
    }

    /// Registers every pending function, in order, for program `id`.
    pub fn set_current_id(&mut self, id: ProgramId)
        ensures
            final(self).pending() == Seq::<F>::empty(),
            final(self)@ == old(self)@ + old(self).pending().map_values(|f: F| (id, f)),
    {
        let mut i: usize = 0;
        while i < self.current.len()
            invariant
                i <= self.current@.len(),
                self.current@ == old(self).pending(),
                self.delegates@ == old(self)@ + old(self).pending().subrange(0, i as int).map_values(
                    |f: F| (id, f),
                ),
            decreases self.current@.len() - i,
        {
            let f = self.current[i];
            self.delegates.push((id, f));
            proof {
                assert(old(self).pending().subrange(0, i + 1).map_values(|f: F| (id, f))
                    =~= old(self).pending().subrange(0, i as int).map_values(|f: F| (id, f)).push(
                    (id, f),
                ));
            }
            i = i + 1;
        }
        assert(old(self).pending().subrange(0, old(self).pending().len() as int) =~= old(self).pending());
        self.current = Vec::new();
    }

    /// The number of registered functions.
    pub fn len(&self) -> (r: usize)
        ensures
            r == self@.len(),
    {
        self.delegates.len()
    }

    /// The registered function at position `i`, with its owner.
    pub fn get(&self, i: usize) -> (r: (ProgramId, F))
        requires
            i < self@.len(),
        ensures
            r == self@[i as int],
    {
        self.delegates[i]
    }
}

/// Functions that run when an event occurs.
pub struct EventDelegateList<T>(Vec<T>);

impl<T> View for EventDelegateList<T> {
    type V = Seq<T>;

    closed spec fn view(&self) -> Seq<T> {
        self.0@
    }
}

impl<T> EventDelegateList<T> {
    /// A list with nothing registered.
    pub fn new() -> (r: EventDelegateList<T>)
        ensures
            r@ == Seq::<T>::empty(),
    {
        EventDelegateList(Vec::new())
    }

    /// Registers `value`.
    pub fn on_event(&mut self, value: T)
        ensures
            final(self)@ == old(self)@.push(value),
    {
        self.0.push(value);
    }
}

/// Hooks installed for the contract phase; no program uses them yet.
pub struct ContractPhaseDelegates {}

/// Hooks installed for the run phase; no program uses them yet.
pub struct RunPhaseDelegates {}

/// The registered hooks of every kind, as seen by the rules.
pub struct DelegatesView {
    pub can_activate: Seq<Option<ActivationCheck>>,
    pub currently_active: Seq<Option<ActiveCheck>>,
    pub activated: Seq<Option<ActivationEffect>>,
    pub trick_winner: Seq<(ProgramId, TrickWinnerHook)>,
    pub must_follow_suit: Seq<(ProgramId, FollowSuitHook)>,
}

/// Every hook that programs install for the play phase.
pub struct PlayPhaseDelegates {
    pub can_activate: ProgramQuery<ActivationCheck>,
    pub currently_active: ProgramQuery<ActiveCheck>,
    pub activated: ProgramMutation<ActivationEffect>,
    pub trick_winner: QueryDelegateList<TrickWinnerHook>,
    pub must_follow_suit: QueryDelegateList<FollowSuitHook>,
}

impl View for PlayPhaseDelegates {
    type V = DelegatesView;

    open spec fn view(&self) -> DelegatesView {
        DelegatesView {
            can_activate: self.can_activate@,
            currently_active: self.currently_active@,
            activated: self.activated@,
            trick_winner: self.trick_winner@,
            must_follow_suit: self.must_follow_suit@,
        }
    }
}

impl PlayPhaseDelegates {
    /// The single-owner hooks have one slot for each program id.
    pub proof fn lemma_slots(&self)
        ensures
            self@.can_activate.len() == 12,
            self@.currently_active.len() == 12,
            self@.activated.len() == 12,
    {
        self.can_activate.lemma_slots();
        self.currently_active.lemma_slots();
        self.activated.lemma_slots();
    }

    /// Returns true if no installed function waits for an owner.
    pub open spec fn nothing_pending(&self) -> bool {
        &&& self.can_activate.pending() is None
        &&& self.currently_active.pending() is None
        &&& self.activated.pending() is None
        &&& self.trick_winner.pending().len() == 0
        &&& self.must_follow_suit.pending().len() == 0
    }

    /// No hooks at all.
    pub fn new() -> (r: PlayPhaseDelegates)
        ensures
            r.nothing_pending(),
            r@.can_activate == Seq::<Option<ActivationCheck>>::new(12, |i: int| None::<ActivationCheck>),
            r@.currently_active == Seq::<Option<ActiveCheck>>::new(12, |i: int| None::<ActiveCheck>),
            r@.activated == Seq::<Option<ActivationEffect>>::new(12, |i: int| None::<ActivationEffect>),
            r@.trick_winner.len() == 0,
            r@.must_follow_suit.len() == 0,
    {
        PlayPhaseDelegates {
            can_activate: ProgramQuery::new(),
            currently_active: ProgramQuery::new(),
            activated: ProgramMutation::new(),
            trick_winner: QueryDelegateList::new(),
            must_follow_suit: QueryDelegateList::new(),
        }
    }

    /// Stamps every pending hook with the owner `id`.
    pub fn set_current_id(&mut self, id: ProgramId)
        requires
            old(self)@.can_activate[program_slot(id)] is None,
            old(self)@.currently_active[program_slot(id)] is None,
            old(self)@.activated[program_slot(id)] is None,
        ensures
            final(self).nothing_pending(),
            final(self)@.can_activate == (match old(self).can_activate.pending() {
                Some(f) => old(self)@.can_activate.update(program_slot(id), Some(f)),
                None => old(self)@.can_activate,
            }),
            final(self)@.currently_active == (match old(self).currently_active.pending() {
                Some(f) => old(self)@.currently_active.update(program_slot(id), Some(f)),
                None => old(self)@.currently_active,
            }),
            final(self)@.activated == (match old(self).activated.pending() {
                Some(f) => old(self)@.activated.update(program_slot(id), Some(f)),
                None => old(self)@.activated,
            }),
            final(self)@.trick_winner == old(self)@.trick_winner + old(
                self,
            ).trick_winner.pending().map_values(|f: TrickWinnerHook| (id, f)),
            final(self)@.must_follow_suit == old(self)@.must_follow_suit + old(
                self,
            ).must_follow_suit.pending().map_values(|f: FollowSuitHook| (id, f)),
    {
        self.can_activate.set_current_id(id);
        self.currently_active.set_current_id(id);
        self.activated.set_current_id(id);
        self.trick_winner.set_current_id(id);
        self.must_follow_suit.set_current_id(id);
    }
}

/// A copy of a vector of copyable items.
pub fn copy_vec<T: Copy>(v: &Vec<T>) -> (r: Vec<T>)
    ensures
        r@ == v@,
{
    let mut r: Vec<T> = Vec::new();
    let mut i: usize = 0;
    while i < v.len()
        invariant
            i <= v@.len(),
            r@ == v@.subrange(0, i as int),
        decreases v@.len() - i,
    {
        r.push(v[i]);
        assert(v@.subrange(0, i + 1) =~= v@.subrange(0, i as int).push(v@[i as int]));
        i = i + 1;
    }
    assert(v@.subrange(0, v@.len() as int) =~= v@);
    r
}

impl<F: Copy> Clone for ProgramQuery<F> {
    fn clone(&self) -> (r: ProgramQuery<F>)
        ensures
            r@ == self@,
            r.pending() == self.pending(),
    {
        ProgramQuery { current: self.current, delegates: self.delegates }
    }
}

impl<F: Copy> Clone for ProgramMutation<F> {
    fn clone(&self) -> (r: ProgramMutation<F>)
        ensures
            r@ == self@,
            r.pending() == self.pending(),
    {
        ProgramMutation { current: self.current, delegates: self.delegates }
    }
}

impl<F: Copy> Clone for QueryDelegateList<F> {
    fn clone(&self) -> (r: QueryDelegateList<F>)
        ensures
            r@ == self@,
            r.pending() == self.pending(),
    {
        QueryDelegateList { current: copy_vec(&self.current), delegates: copy_vec(&self.delegates) }
    }
}

impl Clone for PlayPhaseDelegates {
    fn clone(&self) -> (r: PlayPhaseDelegates)
        ensures
            r@ == self@,
            r.nothing_pending() == self.nothing_pending(),
    {
        PlayPhaseDelegates {
            can_activate: self.can_activate.clone(),
            currently_active: self.currently_active.clone(),
            activated: self.activated.clone(),
            trick_winner: self.trick_winner.clone(),
            must_follow_suit: self.must_follow_suit.clone(),
        }
    }
}

} // verus!
