use vstd::prelude::*;

use crate::activation;
use crate::delegates::{
    ActivationCheck, ActivationEffect, ActiveCheck, FollowSuitHook, PlayPhaseDelegates, ProgramName,
    TrickWinnerHook,
};

verus! {

/// The play-phase hooks a program installs.
#[derive(Clone, Copy, Debug, PartialEq, Eq, Structural)]
pub enum PlayPhaseSetup {
    /// Activatable when leading; the owner wins the trick it was activated for.
    Starfall,
    /// Activatable on the owner's turn; Spades become trump.
    Obsidian,
    /// Activatable on the owner's turn; the owner need not follow suit on that trick.
    Eviction,
}

/// A program: its name, its card text and its phase installers.
pub struct ProgramDefinition {
    pub name: ProgramName,
    pub text: &'static str,
    pub play_phase: Option<PlayPhaseSetup>,
}

/// What an installer leaves pending: an activation condition and an activation
/// effect always, and nothing else removed.
pub open spec fn installs(before: &PlayPhaseDelegates, after: &PlayPhaseDelegates) -> bool {
    &&& after@ == before@
    &&& after.can_activate.pending() is Some
    &&& after.activated.pending() is Some
    &&& after.currently_active.pending() is Some || after.currently_active.pending() == before.currently_active.pending()
    &&& after.trick_winner.pending().len() >= before.trick_winner.pending().len()
    &&& after.must_follow_suit.pending().len() >= before.must_follow_suit.pending().len()
}

impl PlayPhaseSetup {
    /// Installs this program's hooks, pending an owner.
    pub fn install(&self, on: &mut PlayPhaseDelegates)
        ensures
            installs(old(on), final(on)),
            *self == PlayPhaseSetup::Starfall ==> {
                &&& final(on).can_activate.pending() == Some(ActivationCheck::WithLead)
                &&& final(on).activated.pending() == Some(ActivationEffect::ActivateForCurrentTrick)
                &&& final(on).currently_active.pending() == Some(ActiveCheck::ActivatedForCurrentTrick)
                &&& final(on).trick_winner.pending() == old(on).trick_winner.pending().push(
                    TrickWinnerHook::OwnerWinsActivatedTrick,
                )
                &&& final(on).must_follow_suit.pending() == old(on).must_follow_suit.pending()
            },
            *self == PlayPhaseSetup::Obsidian ==> {
                &&& final(on).can_activate.pending() == Some(ActivationCheck::DuringTurn)
                &&& final(on).activated.pending() == Some(ActivationEffect::SpadesBecomeTrump)
                &&& final(on).currently_active.pending() == old(on).currently_active.pending()
                &&& final(on).trick_winner.pending() == old(on).trick_winner.pending()
                &&& final(on).must_follow_suit.pending() == old(on).must_follow_suit.pending()
            },
            *self == PlayPhaseSetup::Eviction ==> {
                &&& final(on).can_activate.pending() == Some(ActivationCheck::DuringTurn)
                &&& final(on).activated.pending() == Some(ActivationEffect::ActivateForCurrentTrick)
                &&& final(on).currently_active.pending() == Some(ActiveCheck::ActivatedForCurrentTrick)
                &&& final(on).trick_winner.pending() == old(on).trick_winner.pending()
                &&& final(on).must_follow_suit.pending() == old(on).must_follow_suit.pending().push(
                    FollowSuitHook::OwnerExemptOnActivatedTrick,
                )
            },
    {
        match self {
            PlayPhaseSetup::Starfall => {
                activation::activate_for_trick(on, ActivationCheck::WithLead);
                on.trick_winner.queried(TrickWinnerHook::OwnerWinsActivatedTrick);
            },
            PlayPhaseSetup::Obsidian => {
                activation::can_activate(on, ActivationCheck::DuringTurn);
                on.activated.this(ActivationEffect::SpadesBecomeTrump);
            },
            PlayPhaseSetup::Eviction => {
                activation::activate_for_trick(on, ActivationCheck::DuringTurn);
                on.must_follow_suit.queried(FollowSuitHook::OwnerExemptOnActivatedTrick);
            },
        }
    }
}

/// Starfall: win the trick you lead.
pub fn starfall() -> (r: ProgramDefinition)
    ensures
        r.name == ProgramName::Starfall,
        r.play_phase == Some(PlayPhaseSetup::Starfall),
{
    ProgramDefinition {
        name: ProgramName::Starfall,
        text: "Round: Win this trick.",
        play_phase: Some(PlayPhaseSetup::Starfall),
    }
}

/// Obsidian: change the trump suit to Spades.
pub fn obsidian() -> (r: ProgramDefinition)
    ensures
        r.name == ProgramName::Obsidian,
        r.play_phase == Some(PlayPhaseSetup::Obsidian),
{
    ProgramDefinition {
        name: ProgramName::Obsidian,
        text: "Round: Change the trump suit to Spades.",
        play_phase: Some(PlayPhaseSetup::Obsidian),
    }
}

/// Eviction: you need not follow suit this trick.
pub fn eviction() -> (r: ProgramDefinition)
    ensures
        r.name == ProgramName::Eviction,
        r.play_phase == Some(PlayPhaseSetup::Eviction),
{
    ProgramDefinition {
        name: ProgramName::Eviction,
        text: "Round: You do not need to follow suit this trick.",
        play_phase: Some(PlayPhaseSetup::Eviction),
    }
}

/// The setup installed by each program.
pub open spec fn setup_of(name: ProgramName) -> PlayPhaseSetup {
    match name {
        ProgramName::Starfall => PlayPhaseSetup::Starfall,
        ProgramName::Obsidian => PlayPhaseSetup::Obsidian,
        ProgramName::Eviction => PlayPhaseSetup::Eviction,
    }
}

/// The definition of the program named `name`.
pub fn get(name: ProgramName) -> (r: ProgramDefinition)
    ensures
        r.name == name,
        r.play_phase == Some(setup_of(name)),
{
    match name {
        ProgramName::Starfall => starfall(),
        ProgramName::Obsidian => obsidian(),
        ProgramName::Eviction => eviction(),
    }
}

} // verus!
