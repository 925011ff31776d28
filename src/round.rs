use vstd::prelude::*;

use crate::card_set::CardSet;
use crate::delegates::{
    copy_vec,
    activated_for, program_slot, ActivationCheck, ActivationEffect, ActivationState, ActiveCheck,
    Context, DelegatesView, FollowSuitHook, PlayPhaseDelegates, PlayerTrickNumber, ProgramId,
    ProgramName, ProgramState, TrickNumber, TrickWinnerHook,
};
use crate::primitives::{
    advance, card_index, card_suit, player_index, seat_offset, Card, PlayerName, Suit,
};

verus! {

/// A trick-count goal that a player commits to.
pub type ContractNumber = usize;

/// A card played to a trick.
#[derive(Clone, Copy, Debug, PartialEq, Eq, Structural)]
pub struct PlayedCard {
    /// Player who played this card.
    pub played_by: PlayerName,
    /// Card which was played.
    pub card: Card,
}

/// The cards played to a trick, in order.
pub struct Trick {
    pub cards: Vec<PlayedCard>,
}

impl Trick {
    /// A trick with no cards.
    pub fn new() -> (r: Trick)
        ensures
            r.cards@ == Seq::<PlayedCard>::empty(),
    {
        Trick { cards: Vec::new() }
    }

    /// Returns true if cards have started being played to this trick.
    pub fn is_started(&self) -> (r: bool)
        ensures
            r <==> self.cards@.len() > 0,
    {
        self.cards.len() > 0
    }
}

impl Clone for Trick {
    fn clone(&self) -> (r: Trick)
        ensures
            r.cards@ == self.cards@,
    {
        let mut cards: Vec<PlayedCard> = Vec::new();
        let mut i: usize = 0;
        while i < self.cards.len()
            invariant
                i <= self.cards@.len(),
                cards@ == self.cards@.subrange(0, i as int),
            decreases self.cards@.len() - i,
        {
            cards.push(self.cards[i]);
            assert(self.cards@.subrange(0, i + 1) =~= self.cards@.subrange(0, i as int).push(self.cards@[i as int]));
            i = i + 1;
        }
        assert(self.cards@.subrange(0, self.cards@.len() as int) =~= self.cards@);
        Trick { cards }
    }
}

/// A trick of four cards together with the player who won it.
pub struct CompletedTrick {
    /// Cards which were played in this trick.
    pub trick: Trick,
    /// Player who won this trick.
    pub winner: PlayerName,
}

/// The model of a completed trick: its cards and its winner.
pub open spec fn completed_view(t: CompletedTrick) -> (Seq<PlayedCard>, PlayerName) {
    (t.trick.cards@, t.winner)
}

impl Clone for CompletedTrick {
    fn clone(&self) -> (r: CompletedTrick)
        ensures
            completed_view(r) == completed_view(*self),
    {
        CompletedTrick { trick: self.trick.clone(), winner: self.winner }
    }
}

/// The four players' hands.
pub struct Hands {
    north: CardSet,
    east: CardSet,
    south: CardSet,
    west: CardSet,
}

impl View for Hands {
    type V = Seq<Set<Card>>;

    /// The hands in turn order: User, West, North, East.
    closed spec fn view(&self) -> Seq<Set<Card>> {
        seq![self.south@, self.west@, self.north@, self.east@]
    }
}

/// Number of hands among `hands` that hold `c`.
pub open spec fn holders(hands: Seq<Set<Card>>, c: Card) -> nat {
    (if hands[0].contains(c) { 1nat } else { 0nat }) + (if hands[1].contains(c) { 1nat } else { 0nat })
        + (if hands[2].contains(c) { 1nat } else { 0nat }) + (if hands[3].contains(c) { 1nat } else {
        0nat })
}

/// Four hands of 13 cards each that together hold every card once.
pub open spec fn is_deal(hands: Seq<Set<Card>>) -> bool {
    &&& hands.len() == 4
    &&& forall|i: int| 0 <= i < 4 ==> (#[trigger] hands[i]).len() == 13
    &&& forall|c: Card| #[trigger] holders(hands, c) == 1
}

impl Hands {
    /// Hands from the four seats' card sets; `south` is the user's.
    pub fn new(north: CardSet, east: CardSet, south: CardSet, west: CardSet) -> (r: Hands)
        ensures
            r@ == seq![south@, west@, north@, east@],
    {
        Hands { north, east, south, west }
    }

    pub fn hand(&self, identifier: PlayerName) -> (r: CardSet)
        ensures
            r@ == self@[player_index(identifier) as int],
            self@.len() == 4,
    {
        match identifier {
            PlayerName::North => self.north,
            PlayerName::East => self.east,
            PlayerName::User => self.south,
            PlayerName::West => self.west,
        }
    }

    pub fn hand_mut(&mut self, identifier: PlayerName) -> (r: &mut CardSet)
        ensures
            r@ == old(self)@[player_index(identifier) as int],
            final(self)@ == old(self)@.update(player_index(identifier) as int, final(r)@),
    {
        match identifier {
            PlayerName::North => &mut self.north,
            PlayerName::East => &mut self.east,
            PlayerName::User => &mut self.south,
            PlayerName::West => &mut self.west,
        }
    }

    /// Returns true if every hand is empty.
    pub fn all_empty(&self) -> (r: bool)
        ensures
            r <==> all_hands_empty(self@),
    {
        self.north.is_empty() && self.east.is_empty() && self.south.is_empty()
            && self.west.is_empty()
    }

    /// Returns true if the hands are a complete deal: 13 cards each, every card once.
    pub fn is_valid_deal(&self) -> (r: bool)
        ensures
            r == is_deal(self@),
    {
        if self.north.len() != 13 || self.east.len() != 13 || self.south.len() != 13
            || self.west.len() != 13 {
            return false;
        }
        let mut i: u8 = 0;
        while i < 52
            invariant
                i <= 52,
                self@.len() == 4,
                forall|j: int| 0 <= j < 4 ==> (#[trigger] self@[j]).len() == 13,
                forall|c: Card| card_index(c) < i ==> #[trigger] holders(self@, c) == 1,
            decreases 52 - i,
        {
            let c = Card::from_index(i);
            let n: u8 = (if self.south.contains(c) { 1u8 } else { 0u8 })
                + (if self.west.contains(c) { 1u8 } else { 0u8 })
                + (if self.north.contains(c) { 1u8 } else { 0u8 })
                + (if self.east.contains(c) { 1u8 } else { 0u8 });
            assert(n as nat == holders(self@, c));
            if n != 1 {
                return false;
            }
            proof {
                assert forall|d: Card| card_index(d) < i + 1 implies #[trigger] holders(self@, d) == 1 by {
                    crate::primitives::lemma_card_index_injective(c, d);
                }
            }
            i = i + 1;
        }
        proof {
            assert forall|c: Card| #[trigger] holders(self@, c) == 1 by {
                crate::primitives::lemma_card_index(c);
            }
        }
        true
    }
}

impl Clone for Hands {
    fn clone(&self) -> (r: Hands)
        ensures
            r@ == self@,
    {
        Hands { north: self.north, east: self.east, south: self.south, west: self.west }
    }
}

/// Returns true if all four hands are empty.
pub open spec fn all_hands_empty(hands: Seq<Set<Card>>) -> bool {
    forall|i: int| 0 <= i < 4 ==> #[trigger] hands[i] == Set::<Card>::empty()
}

/// The contract number each player has committed to.
#[derive(Clone, Copy, Debug, PartialEq, Eq, Structural)]
pub struct Contracts {
    user_contract: ContractNumber,
    west_contract: ContractNumber,
    north_contract: ContractNumber,
    east_contract: ContractNumber,
}

impl Contracts {
    /// The contract number of `player`.
    pub closed spec fn number(self, player: PlayerName) -> nat {
        match player {
            PlayerName::User => self.user_contract as nat,
            PlayerName::West => self.west_contract as nat,
            PlayerName::North => self.north_contract as nat,
            PlayerName::East => self.east_contract as nat,
        }
    }

    /// Every player's contract is zero.
    pub fn new() -> (r: Contracts)
        ensures
            forall|p: PlayerName| #[trigger] r.number(p) == 0,
    {
        Contracts { user_contract: 0, west_contract: 0, north_contract: 0, east_contract: 0 }
    }

    pub fn contract_number(&self, player: PlayerName) -> (r: ContractNumber)
        ensures
            r as nat == self.number(player),
    {
        match player {
            PlayerName::User => self.user_contract,
            PlayerName::West => self.west_contract,
            PlayerName::North => self.north_contract,
            PlayerName::East => self.east_contract,
        }
    }

    pub fn contract_number_mut(&mut self, player: PlayerName) -> (r: &mut ContractNumber)
        ensures
            *r as nat == old(self).number(player),
            forall|p: PlayerName| #[trigger]
                final(self).number(p) == if p == player {
                    *final(r) as nat
                } else {
                    old(self).number(p)
                },
    {
        match player {
            PlayerName::User => &mut self.user_contract,
            PlayerName::West => &mut self.west_contract,
            PlayerName::North => &mut self.north_contract,
            PlayerName::East => &mut self.east_contract,
        }
    }
}

impl Default for Contracts {
    fn default() -> (r: Contracts)
        ensures
            forall|p: PlayerName| #[trigger] r.number(p) == 0,
    {
        Contracts::new()
    }
}

/// The programs each player owns this round.
pub struct OwnedPrograms {
    pub user: Vec<ProgramName>,
    pub west: Vec<ProgramName>,
    pub north: Vec<ProgramName>,
    pub east: Vec<ProgramName>,
}

impl View for OwnedPrograms {
    type V = Seq<Seq<ProgramName>>;

    /// Each player's programs, in turn order.
    open spec fn view(&self) -> Seq<Seq<ProgramName>> {
        seq![self.user@, self.west@, self.north@, self.east@]
    }
}

impl OwnedPrograms {
    /// No player owns any program.
    pub fn new() -> (r: OwnedPrograms)
        ensures
            forall|i: int| 0 <= i < 4 ==> #[trigger] r@[i] == Seq::<ProgramName>::empty(),
    {
        OwnedPrograms { user: Vec::new(), west: Vec::new(), north: Vec::new(), east: Vec::new() }
    }

    /// The programs owned by `player`.
    pub fn for_player(&self, player: PlayerName) -> (r: &Vec<ProgramName>)
        ensures
            r@ == self@[player_index(player) as int],
    {
        match player {
            PlayerName::User => &self.user,
            PlayerName::West => &self.west,
            PlayerName::North => &self.north,
            PlayerName::East => &self.east,
        }
    }
}

/// Program hooks, per-program state and ownership for one phase of a round.
pub struct ProgramData<T> {
    pub current_delegates: T,
    pub program_state: [Option<ProgramState>; 12],
    pub all_programs: OwnedPrograms,
}

impl<T> ProgramData<T> {
    /// The programs owned by `player`.
    pub fn for_player(&self, player: PlayerName) -> (r: &Vec<ProgramName>)
        ensures
            r@ == self.all_programs@[player_index(player) as int],
    {
        self.all_programs.for_player(player)
    }
}

/// State of a round during the play phase.
pub struct PlayPhaseData {
    pub current_trick: Trick,
    /// Player who is next to play, or None if the round has ended.
    pub turn: Option<PlayerName>,
    pub completed_tricks: Vec<CompletedTrick>,
    pub trump: Option<Suit>,
    pub contracts: Contracts,
    pub hands: Hands,
    pub programs: ProgramData<PlayPhaseDelegates>,
}

/// An action a player can take during the play phase.
#[derive(Clone, Copy, Debug, PartialEq, Eq, Structural)]
pub enum PlayPhaseAction {
    PlayCard(Card),
    ActivateProgram(ProgramId),
}

impl Clone for OwnedPrograms {
    fn clone(&self) -> (r: OwnedPrograms)
        ensures
            r@ == self@,
    {
        OwnedPrograms {
            user: copy_vec(&self.user),
            west: copy_vec(&self.west),
            north: copy_vec(&self.north),
            east: copy_vec(&self.east),
        }
    }
}

impl Clone for PlayPhaseData {
    /// A copy of the round with the same model.
    fn clone(&self) -> (r: PlayPhaseData)
        ensures
            r@ == self@,
    {
        let mut completed: Vec<CompletedTrick> = Vec::new();
        let mut i: usize = 0;
        while i < self.completed_tricks.len()
            invariant
                i <= self.completed_tricks@.len(),
                completed@.map_values(|t: CompletedTrick| completed_view(t)) == self.completed_tricks@.map_values(
                    |t: CompletedTrick| completed_view(t),
                ).subrange(0, i as int),
            decreases self.completed_tricks@.len() - i,
        {
            let ghost before = completed@;
            completed.push(self.completed_tricks[i].clone());
            assert(completed@.map_values(|t: CompletedTrick| completed_view(t)) =~= before.map_values(
                |t: CompletedTrick| completed_view(t),
            ).push(completed_view(self.completed_tricks@[i as int])));
            assert(self.completed_tricks@.map_values(|t: CompletedTrick| completed_view(t)).subrange(0, i + 1)
                =~= self.completed_tricks@.map_values(|t: CompletedTrick| completed_view(t)).subrange(0, i as int).push(
                completed_view(self.completed_tricks@[i as int]),
            ));
            i = i + 1;
        }
        assert(self.completed_tricks@.map_values(|t: CompletedTrick| completed_view(t)).subrange(
            0,
            self.completed_tricks@.len() as int,
        ) =~= self.completed_tricks@.map_values(|t: CompletedTrick| completed_view(t)));
        let r = PlayPhaseData {
            current_trick: self.current_trick.clone(),
            turn: self.turn,
            completed_tricks: completed,
            trump: self.trump,
            contracts: self.contracts,
            hands: self.hands.clone(),
            programs: ProgramData {
                current_delegates: self.programs.current_delegates.clone(),
                program_state: self.programs.program_state,
                all_programs: self.programs.all_programs.clone(),
            },
        };
        r
    }
}

/// The model of a round in the play phase.
pub struct RoundView {
    /// Hands in turn order: User, West, North, East.
    pub hands: Seq<Set<Card>>,
    pub trick: Seq<PlayedCard>,
    /// Completed tricks in order, each with its winner.
    pub completed: Seq<(Seq<PlayedCard>, PlayerName)>,
    pub turn: Option<PlayerName>,
    pub trump: Option<Suit>,
    pub contracts: Contracts,
    /// Program state by program slot.
    pub states: Seq<Option<ProgramState>>,
    pub delegates: DelegatesView,
    /// Owned programs in turn order.
    pub programs: Seq<Seq<ProgramName>>,
}

impl View for PlayPhaseData {
    type V = RoundView;

    open spec fn view(&self) -> RoundView {
        RoundView {
            hands: self.hands@,
            trick: self.current_trick.cards@,
            completed: self.completed_tricks@.map_values(|t: CompletedTrick| completed_view(t)),
            turn: self.turn,
            trump: self.trump,
            contracts: self.contracts,
            states: self.programs.program_state@,
            delegates: self.programs.current_delegates@,
            programs: self.programs.all_programs@,
        }
    }
}

/// Number of times `c` occurs in a sequence of played cards.
pub open spec fn trick_count(s: Seq<PlayedCard>, c: Card) -> nat
    decreases s.len(),
{
    if s.len() == 0 {
        0
    } else {
        trick_count(s.drop_last(), c) + (if s.last().card == c { 1nat } else { 0nat })
    }
}

/// Number of times `c` occurs in a sequence of completed tricks.
pub open spec fn completed_count(t: Seq<(Seq<PlayedCard>, PlayerName)>, c: Card) -> nat
    decreases t.len(),
{
    if t.len() == 0 {
        0
    } else {
        completed_count(t.drop_last(), c) + trick_count(t.last().0, c)
    }
}

/// Number of completed tricks won by `p`.
pub open spec fn wins(t: Seq<(Seq<PlayedCard>, PlayerName)>, p: PlayerName) -> nat
    decreases t.len(),
{
    if t.len() == 0 {
        0
    } else {
        wins(t.drop_last(), p) + (if t.last().1 == p { 1nat } else { 0nat })
    }
}

/// No player wins more tricks than have been completed.
pub proof fn lemma_wins_bound(t: Seq<(Seq<PlayedCard>, PlayerName)>, p: PlayerName)
    ensures
        wins(t, p) <= t.len(),
    decreases t.len(),
{
    if t.len() > 0 {
        lemma_wins_bound(t.drop_last(), p);
    }
}

/// Returns true if `l` beats `r` on a trick with led suit `led` and trump `trump`:
/// trump beats non-trump, then the led suit beats other suits, then the higher card wins.
pub open spec fn beats(trump: Option<Suit>, led: Suit, l: Card, r: Card) -> bool {
    if card_suit(l) != card_suit(r) && trump == Some(card_suit(l)) {
        true
    } else if card_suit(l) != card_suit(r) && trump == Some(card_suit(r)) {
        false
    } else if card_suit(l) != card_suit(r) && card_suit(l) == led {
        true
    } else if card_suit(l) != card_suit(r) && card_suit(r) == led {
        false
    } else {
        card_index(l) > card_index(r)
    }
}

/// Position of the best of the first `n` cards; a later card replaces the best so far
/// unless the best so far beats it.
pub open spec fn best_index(cards: Seq<PlayedCard>, trump: Option<Suit>, led: Suit, n: nat) -> nat
    decreases n,
{
    if n <= 1 {
        0
    } else {
        let b = best_index(cards, trump, led, (n - 1) as nat);
        if beats(trump, led, cards[b as int].card, cards[n - 1].card) {
            b
        } else {
            (n - 1) as nat
        }
    }
}

/// The seat that wins a non-empty trick before any program hook is consulted.
pub open spec fn default_winner(cards: Seq<PlayedCard>, trump: Option<Suit>) -> PlayerName {
    cards[best_index(cards, trump, card_suit(cards[0].card), cards.len()) as int].played_by
}

/// Answer of one trick-winner hook given the answer so far.
pub open spec fn apply_winner_hook(
    hook: TrickWinnerHook,
    context: Context,
    n: TrickNumber,
    current: PlayerName,
) -> PlayerName {
    match hook {
        TrickWinnerHook::OwnerWinsActivatedTrick => if activated_for(context.state, n) {
            context.id.owner
        } else {
            current
        },
    }
}

/// Answer of one follow-suit hook given the answer so far.
pub open spec fn apply_follow_hook(
    hook: FollowSuitHook,
    context: Context,
    arg: PlayerTrickNumber,
    current: bool,
) -> bool {
    match hook {
        FollowSuitHook::OwnerExemptOnActivatedTrick => if arg.player_name == context.id.owner
            && activated_for(context.state, arg.trick_number) {
            false
        } else {
            current
        },
    }
}

/// The context of program `id` under the program states `states`.
pub open spec fn state_context(states: Seq<Option<ProgramState>>, id: ProgramId) -> Context {
    Context { id, state: states[program_slot(id)] }
}

/// Fold of trick-winner hooks over `current`, in registration order.
pub open spec fn winner_fold(
    states: Seq<Option<ProgramState>>,
    hooks: Seq<(ProgramId, TrickWinnerHook)>,
    n: TrickNumber,
    current: PlayerName,
) -> PlayerName
    decreases hooks.len(),
{
    if hooks.len() == 0 {
        current
    } else {
        apply_winner_hook(
            hooks.last().1,
            state_context(states, hooks.last().0),
            n,
            winner_fold(states, hooks.drop_last(), n, current),
        )
    }
}

/// Fold of follow-suit hooks over `current`, in registration order.
pub open spec fn follow_fold(
    states: Seq<Option<ProgramState>>,
    hooks: Seq<(ProgramId, FollowSuitHook)>,
    arg: PlayerTrickNumber,
    current: bool,
) -> bool
    decreases hooks.len(),
{
    if hooks.len() == 0 {
        current
    } else {
        apply_follow_hook(
            hooks.last().1,
            state_context(states, hooks.last().0),
            arg,
            follow_fold(states, hooks.drop_last(), arg, current),
        )
    }
}

impl RoundView {
    pub open spec fn hand(self, p: PlayerName) -> Set<Card> {
        self.hands[player_index(p) as int]
    }

    /// Number of the trick being played: the count of completed tricks.
    pub open spec fn trick_number(self) -> nat {
        self.completed.len()
    }

    /// The player who leads (or led) the current trick.
    pub open spec fn leader(self) -> PlayerName {
        if self.completed.len() == 0 {
            PlayerName::User
        } else {
            self.completed.last().1
        }
    }

    pub open spec fn state_of(self, id: ProgramId) -> Option<ProgramState> {
        self.states[program_slot(id)]
    }

    pub open spec fn context(self, id: ProgramId) -> Context {
        Context { id, state: self.state_of(id) }
    }

    pub open spec fn is_turn(self, p: PlayerName) -> bool {
        self.turn == Some(p)
    }

    /// Returns true if `p` is about to lead a trick.
    pub open spec fn has_lead(self, p: PlayerName) -> bool {
        self.trick.len() == 0 && self.leader() == p
    }

    pub open spec fn led_suit(self) -> Suit {
        card_suit(self.trick[0].card)
    }

    /// Returns true if `p` holds a card of suit `s`.
    pub open spec fn holds_suit(self, p: PlayerName, s: Suit) -> bool {
        exists|c: Card| #[trigger] self.hand(p).contains(c) && card_suit(c) == s
    }

    pub open spec fn check_holds(self, check: ActivationCheck, context: Context) -> bool {
        match check {
            ActivationCheck::DuringTurn => self.is_turn(context.id.owner),
            ActivationCheck::WithLead => self.has_lead(context.id.owner),
        }
    }

    /// Answer of the can-activate query for `id`; false when nothing is registered.
    pub open spec fn can_activate(self, id: ProgramId) -> bool {
        match self.delegates.can_activate[program_slot(id)] {
            Some(check) => self.check_holds(check, self.context(id)),
            None => false,
        }
    }

    /// Answer of the currently-active query for `id`; false when nothing is registered.
    pub open spec fn currently_active(self, id: ProgramId) -> bool {
        match self.delegates.currently_active[program_slot(id)] {
            Some(ActiveCheck::ActivatedForCurrentTrick) => activated_for(
                self.state_of(id),
                self.trick_number() as TrickNumber,
            ),
            None => false,
        }
    }

    pub open spec fn activation_state(self, id: ProgramId) -> ActivationState {
        if !self.can_activate(id) {
            ActivationState::CannotActivate
        } else if self.currently_active(id) {
            ActivationState::CurrentlyActive
        } else if self.state_of(id) is Some {
            ActivationState::PreviouslyActivated
        } else {
            ActivationState::CanActivate
        }
    }

    /// Fold of the trick-winner hooks over `current`, in registration order.
    pub open spec fn winner_fold(
        self,
        hooks: Seq<(ProgramId, TrickWinnerHook)>,
        n: TrickNumber,
        current: PlayerName,
    ) -> PlayerName {
        winner_fold(self.states, hooks, n, current)
    }

    /// Fold of the follow-suit hooks over `current`, in registration order.
    pub open spec fn follow_fold(
        self,
        hooks: Seq<(ProgramId, FollowSuitHook)>,
        arg: PlayerTrickNumber,
        current: bool,
    ) -> bool {
        follow_fold(self.states, hooks, arg, current)
    }

    /// Winner of the trick `cards` played as the current trick.
    pub open spec fn trick_winner(self, cards: Seq<PlayedCard>) -> PlayerName {
        self.winner_fold(
            self.delegates.trick_winner,
            self.trick_number() as TrickNumber,
            default_winner(cards, self.trump),
        )
    }

    /// Whether `p` must follow suit on the current trick.
    pub open spec fn must_follow_suit(self, p: PlayerName) -> bool {
        self.follow_fold(
            self.delegates.must_follow_suit,
            PlayerTrickNumber { player_name: p, trick_number: self.trick_number() as TrickNumber },
            true,
        )
    }

    /// Returns true if `p` may play `c` now.
    pub open spec fn can_play(self, p: PlayerName, c: Card) -> bool {
        &&& self.is_turn(p)
        &&& self.hand(p).contains(c)
        &&& (self.trick.len() == 0 || card_suit(c) == self.led_suit() || !self.holds_suit(
            p,
            self.led_suit(),
        ) || !self.must_follow_suit(p))
    }

    /// Returns true if `p` may take action `a` now.
    pub open spec fn can_perform(self, p: PlayerName, a: PlayPhaseAction) -> bool {
        match a {
            PlayPhaseAction::PlayCard(c) => self.can_play(p, c),
            PlayPhaseAction::ActivateProgram(id) => id.owner == p && self.activation_state(id)
                == ActivationState::CanActivate,
        }
    }

    /// The player to move: None once every hand is empty, else the leader of an
    /// empty trick, else the seat after the last card played.
    pub open spec fn next_to_play(self) -> Option<PlayerName> {
        if all_hands_empty(self.hands) {
            None
        } else if self.trick.len() == 0 {
            Some(self.leader())
        } else {
            Some(advance(self.trick.last().played_by, 1))
        }
    }

    /// The round after `p` plays `c`.
    pub open spec fn play_card_step(self, p: PlayerName, c: Card) -> RoundView {
        let hands = self.hands.update(player_index(p) as int, self.hand(p).remove(c));
        let cards = self.trick.push(PlayedCard { played_by: p, card: c });
        let moved = if cards.len() == 4 {
            RoundView {
                hands,
                trick: Seq::empty(),
                completed: self.completed.push((cards, self.trick_winner(cards))),
                ..self
            }
        } else {
            RoundView { hands, trick: cards, ..self }
        };
        RoundView { turn: moved.next_to_play(), ..moved }
    }

    /// The round after program `id` is activated.
    pub open spec fn activate_step(self, id: ProgramId) -> RoundView {
        match self.delegates.activated[program_slot(id)] {
            Some(ActivationEffect::ActivateForCurrentTrick) => RoundView {
                states: self.states.update(
                    program_slot(id),
                    Some(ProgramState::ActivatedForTrick(self.trick_number() as TrickNumber)),
                ),
                ..self
            },
            Some(ActivationEffect::SpadesBecomeTrump) => RoundView {
                trump: Some(Suit::Spades),
                states: self.states.update(program_slot(id), Some(ProgramState::Activated)),
                ..self
            },
            None => self,
        }
    }

    /// The round after `p` takes action `a`.
    pub open spec fn step(self, p: PlayerName, a: PlayPhaseAction) -> RoundView {
        match a {
            PlayPhaseAction::PlayCard(c) => self.play_card_step(p, c),
            PlayPhaseAction::ActivateProgram(id) => self.activate_step(id),
        }
    }

    /// Number of places that hold `c`: hands, the current trick and completed tricks.
    pub open spec fn card_count(self, c: Card) -> nat {
        holders(self.hands, c) + trick_count(self.trick, c) + completed_count(self.completed, c)
    }

    /// Returns true if `p` has played to the current trick.
    pub open spec fn played_in_trick(self, p: PlayerName) -> bool {
        seat_offset(self.leader(), p) < self.trick.len()
    }

    /// Every reachable round satisfies this.
    pub open spec fn wf(self) -> bool {
        &&& self.hands.len() == 4
        &&& self.states.len() == 12
        &&& self.delegates.can_activate.len() == 12
        &&& self.delegates.currently_active.len() == 12
        &&& self.delegates.activated.len() == 12
        &&& forall|i: int|
            0 <= i < 12 && (#[trigger] self.delegates.can_activate[i]) is Some
                ==> self.delegates.activated[i] is Some
        &&& self.trick.len() < 4
        &&& self.completed.len() <= 13
        &&& forall|i: int|
            0 <= i < self.trick.len() ==> (#[trigger] self.trick[i]).played_by == advance(
                self.leader(),
                i as nat,
            )
        &&& forall|k: int| 0 <= k < self.completed.len() ==> is_full_trick(#[trigger] self.completed[k].0)
        &&& forall|c: Card| #[trigger] self.card_count(c) == 1
        &&& forall|p: PlayerName|
            #[trigger] self.hand(p).len() + self.completed.len() + (if self.played_in_trick(p) {
                1int
            } else {
                0int
            }) == 13
        &&& self.turn == self.next_to_play()
        &&& self.lead_records_hold()
    }

    /// Returns true if `p` led trick `n`: the first card of a completed trick, or
    /// the lead of the trick in play.
    pub open spec fn led_trick(self, p: PlayerName, n: nat) -> bool {
        if n < self.completed.len() {
            self.completed[n as int].0[0].played_by == p
        } else {
            n == self.completed.len() && self.leader() == p
        }
    }

    /// A program activated on the lead was activated for a trick its owner led,
    /// and only such programs hook the trick winner.
    pub open spec fn lead_records_hold(self) -> bool {
        &&& forall|id: ProgramId, n: TrickNumber|
            self.delegates.can_activate[program_slot(id)] == Some(ActivationCheck::WithLead)
                && #[trigger] activated_for(self.state_of(id), n) ==> self.led_trick(id.owner, n as nat)
        &&& forall|k: int|
            0 <= k < self.delegates.trick_winner.len() ==> self.delegates.can_activate[program_slot(
                (#[trigger] self.delegates.trick_winner[k]).0,
            )] == Some(ActivationCheck::WithLead)
    }
}

/// Four cards played by the four seats in turn order.
pub open spec fn is_full_trick(cards: Seq<PlayedCard>) -> bool {
    &&& cards.len() == 4
    &&& forall|i: int| 0 <= i < 4 ==> (#[trigger] cards[i]).played_by == advance(cards[0].played_by, i as nat)
}

} // verus!
