use vstd::prelude::*;

use crate::contract_phase::ContractPhaseData;
use crate::delegates::{
    program_slot, ActivationCheck, ActivationEffect, ActiveCheck, PlayPhaseDelegates, ProgramId,
    ProgramName,
};
use crate::primitives::{all_players, lemma_seats, player_at, player_index, PlayerName};
use crate::programs;
use crate::round::{is_deal, PlayPhaseData, ProgramData, Trick};

verus! {

/// The activation condition each program installs.
pub open spec fn check_of(name: ProgramName) -> ActivationCheck {
    match name {
        ProgramName::Starfall => ActivationCheck::WithLead,
        _ => ActivationCheck::DuringTurn,
    }
}

/// The activation effect each program installs.
pub open spec fn effect_of(name: ProgramName) -> ActivationEffect {
    match name {
        ProgramName::Obsidian => ActivationEffect::SpadesBecomeTrump,
        _ => ActivationEffect::ActivateForCurrentTrick,
    }
}

/// The currently-active condition each program installs.
pub open spec fn active_of(name: ProgramName) -> Option<ActiveCheck> {
    match name {
        ProgramName::Obsidian => None,
        _ => Some(ActiveCheck::ActivatedForCurrentTrick),
    }
}

/// Returns true if `owned` gives each player a list of programs without repeats.
pub open spec fn distinct_programs(owned: Seq<Seq<ProgramName>>) -> bool {
    &&& owned.len() == 4
    &&& forall|i: int| 0 <= i < 4 ==> (#[trigger] owned[i]).no_duplicates()
}

/// Returns true if the player of `id` owns the program of `id`.
pub open spec fn owns(owned: Seq<Seq<ProgramName>>, id: ProgramId) -> bool {
    owned[player_index(id.owner) as int].contains(id.name)
}

/// Returns true if the hooks of `id` have been installed once the programs of
/// the first `pi` players and the first `j` programs of player `pi` are done.
pub open spec fn installed(owned: Seq<Seq<ProgramName>>, pi: int, j: int, id: ProgramId) -> bool {
    ||| (player_index(id.owner) < pi && owns(owned, id))
    ||| (player_index(id.owner) == pi && owned[pi].subrange(0, j).contains(id.name))
}

/// Returns true if `delegates` holds exactly the hooks of the programs `done` marks.
pub open spec fn hooks_of(delegates: &PlayPhaseDelegates, done: spec_fn(ProgramId) -> bool) -> bool {
    &&& delegates.nothing_pending()
    &&& forall|id: ProgramId| #[trigger]
        delegates@.can_activate[program_slot(id)] == if done(id) {
            Some(check_of(id.name))
        } else {
            None
        }
    &&& forall|id: ProgramId| #[trigger]
        delegates@.activated[program_slot(id)] == if done(id) {
            Some(effect_of(id.name))
        } else {
            None
        }
    &&& forall|id: ProgramId| #[trigger]
        delegates@.currently_active[program_slot(id)] == if done(id) {
            active_of(id.name)
        } else {
            None
        }
    &&& forall|id: ProgramId|
        (exists|k: int| 0 <= k < delegates@.trick_winner.len() && (#[trigger] delegates@.trick_winner[k]).0 == id)
            <==> (done(id) && id.name == ProgramName::Starfall)
    &&& forall|id: ProgramId|
        (exists|k: int| 0 <= k < delegates@.must_follow_suit.len() && (#[trigger] delegates@.must_follow_suit[k]).0 == id)
            <==> (done(id) && id.name == ProgramName::Eviction)
}

/// Installs the hooks of program `name` owned by `player`.
fn install_program(
    delegates: &mut PlayPhaseDelegates,
    name: ProgramName,
    player: PlayerName,
    Ghost(done): Ghost<spec_fn(ProgramId) -> bool>,
)
    requires
        hooks_of(old(delegates), done),
        !done(ProgramId { name, owner: player }),
    ensures
        hooks_of(
            final(delegates),
            |id: ProgramId| done(id) || id == (ProgramId { name, owner: player }),
        ),
{
    let id = ProgramId::new(name, player);
    let definition = programs::get(name);
    let ghost before = *delegates;
    proof {
        delegates.lemma_slots();
    }
    match definition.play_phase {
        Some(setup) => {
            setup.install(delegates);
            delegates.set_current_id(id);
        },
        None => {},
    }
    let ghost now = |x: ProgramId| done(x) || x == id;
    proof {
        delegates.lemma_slots();
        assert forall|x: ProgramId| #[trigger] delegates@.can_activate[program_slot(x)] == if now(x) {
            Some(check_of(x.name))
        } else {
            None
        } by {
            crate::delegates::lemma_program_slot(x, id);
            assert(before@.can_activate[program_slot(x)] == if done(x) { Some(check_of(x.name)) } else { None });
        }
        assert forall|x: ProgramId| #[trigger] delegates@.activated[program_slot(x)] == if now(x) {
            Some(effect_of(x.name))
        } else {
            None
        } by {
            crate::delegates::lemma_program_slot(x, id);
            assert(before@.activated[program_slot(x)] == if done(x) { Some(effect_of(x.name)) } else { None });
        }
        assert forall|x: ProgramId| #[trigger] delegates@.currently_active[program_slot(x)] == if now(x) {
            active_of(x.name)
        } else {
            None
        } by {
            crate::delegates::lemma_program_slot(x, id);
            assert(before@.currently_active[program_slot(x)] == if done(x) { active_of(x.name) } else { None });
        }
        let tw = delegates@.trick_winner;
        let btw = before@.trick_winner;
        assert forall|x: ProgramId|
            (exists|k: int| 0 <= k < tw.len() && (#[trigger] tw[k]).0 == x) <==> (now(x) && x.name
                == ProgramName::Starfall) by {
            if name == ProgramName::Starfall {
                assert(tw[tw.len() - 1].0 == id);
                if exists|k: int| 0 <= k < tw.len() && (#[trigger] tw[k]).0 == x {
                    let k = choose|k: int| 0 <= k < tw.len() && (#[trigger] tw[k]).0 == x;
                    if k < btw.len() {
                        assert(btw[k] == tw[k]);
                    }
                }
                if done(x) && x.name == ProgramName::Starfall {
                    let k = choose|k: int| 0 <= k < btw.len() && (#[trigger] btw[k]).0 == x;
                    assert(tw[k] == btw[k]);
                }
            } else {
                assert(tw =~= btw);
            }
        }
        let mf = delegates@.must_follow_suit;
        let bmf = before@.must_follow_suit;
        assert forall|x: ProgramId|
            (exists|k: int| 0 <= k < mf.len() && (#[trigger] mf[k]).0 == x) <==> (now(x) && x.name
                == ProgramName::Eviction) by {
            if name == ProgramName::Eviction {
                assert(mf[mf.len() - 1].0 == id);
                if exists|k: int| 0 <= k < mf.len() && (#[trigger] mf[k]).0 == x {
                    let k = choose|k: int| 0 <= k < mf.len() && (#[trigger] mf[k]).0 == x;
                    if k < bmf.len() {
                        assert(bmf[k] == mf[k]);
                    }
                }
                if done(x) && x.name == ProgramName::Eviction {
                    let k = choose|k: int| 0 <= k < bmf.len() && (#[trigger] bmf[k]).0 == x;
                    assert(mf[k] == bmf[k]);
                }
            } else {
                assert(mf =~= bmf);
            }
        }
    }
}

/// Starts the play phase of a dealt round: every player's programs install
/// their hooks, in turn order and then in ownership order, and the user leads
/// the first trick.
pub fn run(data: ContractPhaseData) -> (r: PlayPhaseData)
    requires
        is_deal(data.hands@),
        distinct_programs(data.programs.all_programs@),
    ensures
        r@.wf(),
        r@.hands == data.hands@,
        r@.trick.len() == 0,
        r@.completed.len() == 0,
        r@.turn == Some(PlayerName::User),
        r@.trump == data.trump,
        r@.contracts == data.contracts,
        r@.programs == data.programs.all_programs@,
        forall|i: int| 0 <= i < 12 ==> #[trigger] r@.states[i] is None,
        hooks_of(&r.programs.current_delegates, |id: ProgramId| owns(data.programs.all_programs@, id)),
{
    let ghost owned = data.programs.all_programs@;
    let mut delegates = PlayPhaseDelegates::new();
    let players = all_players();
    proof {
        assert forall|id: ProgramId| !installed(owned, 0, 0, id) by {
            assert(owned[0].subrange(0, 0).len() == 0);
        }
        assert(hooks_of(&delegates, |id: ProgramId| installed(owned, 0, 0, id)));
    }
    let mut pi: usize = 0;
    while pi < 4
        invariant
            pi <= 4,
            owned == data.programs.all_programs@,
            distinct_programs(owned),
            players@.len() == 4,
            forall|i: int| 0 <= i < 4 ==> #[trigger] players@[i] == player_at(i as nat),
            hooks_of(&delegates, |id: ProgramId| installed(owned, pi as int, 0, id)),
        decreases 4 - pi,
    {
        let player = players[pi];
        proof {
            lemma_seats(player, player, pi as nat);
        }
        let list = data.programs.all_programs.for_player(player);
        let mut j: usize = 0;
        while j < list.len()
            invariant
                pi < 4,
                j <= list@.len(),
                list@ == owned[pi as int],
                player == player_at(pi as nat),
                player_index(player) == pi,
                owned == data.programs.all_programs@,
                distinct_programs(owned),
                players@.len() == 4,
                forall|i: int| 0 <= i < 4 ==> #[trigger] players@[i] == player_at(i as nat),
                hooks_of(&delegates, |id: ProgramId| installed(owned, pi as int, j as int, id)),
            decreases list@.len() - j,
        {
            let name = list[j];
            let ghost done = |id: ProgramId| installed(owned, pi as int, j as int, id);
            proof {
                assert(owned[pi as int].no_duplicates());
                if owned[pi as int].subrange(0, j as int).contains(name) {
                    let k = choose|k: int| 0 <= k < j && owned[pi as int].subrange(0, j as int)[k] == name;
                    assert(owned[pi as int][k] == owned[pi as int][j as int]);
                }
            }
            install_program(&mut delegates, name, player, Ghost(done));
            proof {
                let next = |id: ProgramId| installed(owned, pi as int, j + 1, id);
                let pre = owned[pi as int].subrange(0, j as int);
                let post = owned[pi as int].subrange(0, j + 1);
                assert(post =~= pre.push(name));
                assert forall|x: ProgramName| #[trigger] post.contains(x) == (pre.contains(x) || x == name) by {
                    if post.contains(x) && x != name {
                        let k = choose|k: int| 0 <= k < post.len() && post[k] == x;
                        assert(pre[k] == x);
                    }
                    if pre.contains(x) {
                        let k = choose|k: int| 0 <= k < pre.len() && pre[k] == x;
                        assert(post[k] == x);
                    }
                    if x == name {
                        assert(post[j as int] == x);
                    }
                }
                assert forall|id: ProgramId| #[trigger] next(id) == (done(id) || id == (ProgramId { name, owner: player })) by {
                    lemma_seats(id.owner, id.owner, 0);
                    if player_index(id.owner) == pi {
                        assert(player_at(player_index(id.owner)) == id.owner);
                        assert(id.owner == player);
                    }
                    if id.owner == player {
                        assert(player_index(id.owner) == pi);
                    }
                }
                assert(next =~= (|id: ProgramId| done(id) || id == (ProgramId { name, owner: player })));
            }
            j = j + 1;
        }
        proof {
            let a = |id: ProgramId| installed(owned, pi as int, j as int, id);
            let b = |id: ProgramId| installed(owned, pi + 1, 0, id);
            assert forall|id: ProgramId| #[trigger] a(id) == b(id) by {
                assert(owned[pi as int].subrange(0, j as int) =~= owned[pi as int]);
                assert(owned[pi + 1].subrange(0, 0).len() == 0) by {
                    if pi + 1 < 4 {
                    }
                };
                if pi + 1 < 4 {
                    assert(!owned[pi + 1].subrange(0, 0).contains(id.name));
                }
            }
            assert(a =~= b);
        }
        pi = pi + 1;
    }
    proof {
        let a = |id: ProgramId| installed(owned, 4, 0, id);
        let b = |id: ProgramId| owns(owned, id);
        assert forall|id: ProgramId| #[trigger] a(id) == b(id) by {
            lemma_seats(id.owner, id.owner, 0);
        }
        assert(a =~= b);
    }
    let r = PlayPhaseData {
        current_trick: Trick::new(),
        turn: Some(PlayerName::User),
        completed_tricks: Vec::new(),
        trump: data.trump,
        contracts: data.contracts,
        hands: data.hands,
        programs: ProgramData {
            current_delegates: delegates,
            program_state: [None, None, None, None, None, None, None, None, None, None, None, None],
            all_programs: data.programs.all_programs,
        },
    };
    proof {
        let v = r@;
        assert(v.completed =~= Seq::<(Seq<crate::round::PlayedCard>, PlayerName)>::empty());
        assert forall|c: crate::primitives::Card| #[trigger] v.card_count(c) == 1 by {
            assert(crate::round::holders(v.hands, c) == 1);
        }
        assert forall|p: PlayerName| #[trigger] v.hand(p).len() + v.completed.len() + (if v.played_in_trick(p) {
            1int
        } else {
            0int
        }) == 13 by {
            lemma_seats(p, p, 0);
            assert(v.hands[player_index(p) as int].len() == 13);
        }
        assert(v.hand(PlayerName::User).len() == 13);
        crate::card_set::lemma_card_set_finite(v.hand(PlayerName::User));
        assert(v.hands[0] != Set::<crate::primitives::Card>::empty());
        r.programs.current_delegates.lemma_slots();
        assert(v.states.len() == 12);
        assert(v.delegates.can_activate.len() == 12);
        assert(v.delegates.activated.len() == 12);
        assert(v.delegates.currently_active.len() == 12);
        assert(v.trick.len() == 0);
        assert(v.next_to_play() == Some(PlayerName::User));
        assert forall|i: int| 0 <= i < 12 && (#[trigger] v.delegates.can_activate[i]) is Some implies v.delegates.activated[i] is Some by {
            let id = ProgramId { name: if i / 4 == 0 { ProgramName::Starfall } else if i / 4 == 1 { ProgramName::Obsidian } else { ProgramName::Eviction }, owner: player_at((i % 4) as nat) };
            lemma_seats(id.owner, id.owner, (i % 4) as nat);
            assert(program_slot(id) == i);
        }
    }
    r
}

} // verus!
