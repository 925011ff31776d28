use vstd::prelude::*;

use rand::rngs::StdRng;

use std::time::Instant;

use crate::actions::handle_action;
use crate::alpha_beta::{first_available_action, is_legal_move, SearchTimeout};
use crate::clock::deadline_passed;
use crate::delegates::copy_vec;
use crate::game::{evaluation, Evaluator};
use crate::invariants::{legal_sequence, lemma_replay_push, lemma_step_progress, moves_left, replay};
use crate::primitives::PlayerName;
use crate::queries::{self, legal_actions, legal_moves};
use crate::random::random_index;
use crate::round::{PlayPhaseAction, PlayPhaseData, RoundView};

verus! {

/// A search tree held as an arena: node `i` is described by entry `i` of each
/// vector, and node 0 is the root.
pub struct SearchTree {
    /// Round at each node.
    states: Vec<PlayPhaseData>,
    /// Move that leads from the parent to each node; None at the root.
    actions: Vec<Option<PlayPhaseAction>>,
    /// Parent of each node; None at the root.
    parents: Vec<Option<usize>>,
    /// Visit count of each node.
    visits: Vec<u64>,
    /// Sum of the rewards, from the root player's view, of playouts through each node.
    rewards: Vec<i64>,
    /// Legal moves at each node in enumeration order; empty at a completed round.
    moves: Vec<Vec<PlayPhaseAction>>,
    /// How many of a node's moves have been expanded into children.
    expanded: Vec<usize>,
    /// Children of each node in expansion order.
    children: Vec<Vec<usize>>,
    /// The player who searches.
    root_player: PlayerName,
}

/// `a + b`, held to the range of `i64`.
pub open spec fn saturating_sum(a: i64, b: i64) -> i64 {
    if a + b > i64::MAX {
        i64::MAX
    } else if a + b < i64::MIN {
        i64::MIN
    } else {
        (a + b) as i64
    }
}

impl SearchTree {
    /// Number of nodes.
    pub closed spec fn size(&self) -> nat {
        self.states@.len()
    }

    /// The root round.
    pub closed spec fn root(&self) -> RoundView {
        self.states@[0]@
    }

    /// The player who searches.
    pub closed spec fn searcher(&self) -> PlayerName {
        self.root_player
    }

    /// The round at node `i`.
    pub closed spec fn round_at(&self, i: int) -> RoundView {
        self.states@[i]@
    }

    /// The move that leads to node `i`.
    pub closed spec fn action_at(&self, i: int) -> Option<PlayPhaseAction> {
        self.actions@[i]
    }

    /// The parent of node `i`.
    pub closed spec fn parent_of(&self, i: int) -> Option<usize> {
        self.parents@[i]
    }

    /// The visit count of node `i`.
    pub closed spec fn visits_of(&self, i: int) -> u64 {
        self.visits@[i]
    }

    /// The reward sum of node `i`.
    pub closed spec fn reward_of(&self, i: int) -> i64 {
        self.rewards@[i]
    }

    /// The children of node `i`, in expansion order.
    pub closed spec fn children_of(&self, i: int) -> Seq<usize> {
        self.children@[i]@
    }

    /// Returns true if every move at node `i` has a child.
    pub closed spec fn fully_expanded(&self, i: int) -> bool {
        self.expanded@[i] == self.moves@[i]@.len()
    }

    /// Returns true if `a` leads to the root child with the most visits, the
    /// earliest such child on a tie.
    pub open spec fn most_visited_move(&self, a: PlayPhaseAction) -> bool {
        exists|k: int|
            0 <= k < self.children_of(0).len() && {
                let c = #[trigger] self.children_of(0)[k] as int;
                &&& self.action_at(c) == Some(a)
                &&& forall|j: int| 0 <= j < self.children_of(0).len() ==> self.visits_of(
                    #[trigger] self.children_of(0)[j] as int,
                ) <= self.visits_of(c)
                &&& forall|j: int| 0 <= j < k ==> self.visits_of(
                    #[trigger] self.children_of(0)[j] as int,
                ) < self.visits_of(c)
            }
    }

    /// Returns true if node `i` lies on the path from `node` up to the root.
    pub open spec fn on_path(&self, node: int, i: int) -> bool
        decreases node,
    {
        node == i || (node > 0 && (self.parent_of(node) matches Some(p) && p < node && self.on_path(
            p as int,
            i,
        )))
    }

    /// Internal consistency of the arena.
    pub closed spec fn wf(&self) -> bool {
        let n = self.states@.len();
        &&& n >= 1
        &&& n < usize::MAX
        &&& self.actions@.len() == n
        &&& self.parents@.len() == n
        &&& self.visits@.len() == n
        &&& self.rewards@.len() == n
        &&& self.moves@.len() == n
        &&& self.expanded@.len() == n
        &&& self.children@.len() == n
        &&& self.parents@[0] is None
        &&& forall|i: int| 0 <= i < n ==> (#[trigger] self.states@[i])@.wf()
        &&& forall|i: int| 0 < i < n ==> ((#[trigger] self.parents@[i]) matches Some(p) && p < i)
        &&& forall|i: int, k: int|
            0 <= i < n && 0 <= k < self.moves@[i]@.len() ==> is_legal_move(
                self.states@[i]@,
                #[trigger] self.moves@[i]@[k],
            )
        &&& forall|i: int| 0 <= i < n ==> #[trigger] self.expanded@[i] <= self.moves@[i]@.len()
        &&& forall|i: int, k: int|
            0 <= i < n && 0 <= k < self.children@[i]@.len() ==> {
                let c = #[trigger] self.children@[i]@[k];
                &&& i < c < n
                &&& (self.actions@[c as int] matches Some(a) && is_legal_move(self.states@[i]@, a))
            }
    }

    /// A tree holding only the root round `state`.
    pub fn new(state: PlayPhaseData) -> (r: SearchTree)
        requires
            state@.wf(),
            state@.turn is Some,
        ensures
            r.wf(),
            r.size() == 1,
            r.root() == state@,
            Some(r.searcher()) == state@.turn,
    {
        let player = state.turn.unwrap();
        let moves = legal_actions(&state, player);
        let r = SearchTree {
            states: vec![state],
            actions: vec![None],
            parents: vec![None],
            visits: vec![0],
            rewards: vec![0],
            moves: vec![moves],
            expanded: vec![0],
            children: vec![Vec::new()],
            root_player: player,
        };
        proof {
            assert forall|i: int, k: int| 0 <= i < 1 && 0 <= k < r.moves@[i]@.len() implies is_legal_move(
                r.states@[i]@,
                #[trigger] r.moves@[i]@[k],
            ) by {
                assert(r.moves@[0]@.contains(r.moves@[0]@[k]));
            }
        }
        r
    }

    /// Number of nodes.
    pub fn len(&self) -> (r: usize)
        requires
            self.wf(),
        ensures
            r == self.size(),
    {
        self.states.len()
    }

    /// Visit count and reward sum of `node`.
    pub fn stats(&self, node: usize) -> (r: (u64, i64))
        requires
            self.wf(),
            node < self.size(),
        ensures
            r == (self.visits_of(node as int), self.reward_of(node as int)),
    {
        (self.visits[node], self.rewards[node])
    }

    /// The children of `node` in expansion order.
    pub fn children(&self, node: usize) -> (r: Vec<usize>)
        requires
            self.wf(),
            node < self.size(),
        ensures
            r@ == self.children_of(node as int),
            forall|k: int| 0 <= k < r@.len() ==> node < #[trigger] r@[k] < self.size(),
    {
        copy_vec(&self.children[node])
    }

    /// Returns true if the round at `node` is complete.
    pub fn is_terminal(&self, node: usize) -> (r: bool)
        requires
            self.wf(),
            node < self.size(),
        ensures
            r == self.round_at(node as int).turn is None,
    {
        self.states[node].turn.is_none()
    }

    /// Returns true if every move at `node` has a child.
    pub fn is_fully_expanded(&self, node: usize) -> (r: bool)
        requires
            self.wf(),
            node < self.size(),
        ensures
            r == self.fully_expanded(node as int),
    {
        self.expanded[node] == self.moves[node].len()
    }

    /// Adds a child for the next unexpanded move of `node`, in enumeration order,
    /// and returns it; returns None when every move already has a child.
    pub fn expand(&mut self, node: usize) -> (r: Option<usize>)
        requires
            old(self).wf(),
            node < old(self).size(),
        ensures
            final(self).wf(),
            final(self).root() == old(self).root(),
            final(self).searcher() == old(self).searcher(),
            r is None ==> final(self).size() == old(self).size() && forall|i: int| 0 <= i < old(self).size() ==> {
                &&& #[trigger] final(self).children_of(i) == old(self).children_of(i)
                &&& final(self).visits_of(i) == old(self).visits_of(i)
                &&& final(self).reward_of(i) == old(self).reward_of(i)
                &&& final(self).parent_of(i) == old(self).parent_of(i)
                &&& final(self).round_at(i) == old(self).round_at(i)
            },
            r is None && old(self).size() < usize::MAX - 1 ==> old(self).fully_expanded(node as int),
            r matches Some(c) ==> {
                &&& c == old(self).size()
                &&& final(self).size() == old(self).size() + 1
                &&& final(self).parent_of(c as int) == Some(node)
                &&& final(self).visits_of(c as int) == 0
                &&& final(self).reward_of(c as int) == 0
                &&& final(self).action_at(c as int) matches Some(a) && is_legal_move(old(self).round_at(node as int), a)
                &&& final(self).round_at(c as int) == old(self).round_at(node as int).step(
                    old(self).round_at(node as int).turn.unwrap(),
                    final(self).action_at(c as int).unwrap(),
                )
                &&& final(self).children_of(node as int) == old(self).children_of(node as int).push(c)
                &&& forall|i: int| 0 <= i < old(self).size() && i != node ==> {
                    &&& #[trigger] final(self).children_of(i) == old(self).children_of(i)
                    &&& final(self).visits_of(i) == old(self).visits_of(i)
                    &&& final(self).reward_of(i) == old(self).reward_of(i)
                    &&& final(self).parent_of(i) == old(self).parent_of(i)
                    &&& final(self).round_at(i) == old(self).round_at(i)
                }
                &&& final(self).visits_of(node as int) == old(self).visits_of(node as int)
                &&& final(self).reward_of(node as int) == old(self).reward_of(node as int)
                &&& final(self).parent_of(node as int) == old(self).parent_of(node as int)
                &&& final(self).round_at(node as int) == old(self).round_at(node as int)
            },
    {
        let n = self.states.len();
        if n >= usize::MAX - 1 {
            return None;
        }
        let e = self.expanded[node];
        if e >= self.moves[node].len() {
            return None;
        }
        let action = self.moves[node][e];
        proof {
            assert(is_legal_move(self.states@[node as int]@, action));
        }
        let mut child = self.states[node].clone();
        let turn = child.turn.unwrap();
        handle_action(&mut child, turn, action);
        let child_moves = match child.turn {
            Some(t) => legal_actions(&child, t),
            None => Vec::new(),
        };
        let mut kids = copy_vec(&self.children[node]);
        kids.push(n);
        let ghost old_self = *self;
        self.states.push(child);
        self.actions.push(Some(action));
        self.parents.push(Some(node));
        self.visits.push(0);
        self.rewards.push(0);
        self.moves.push(child_moves);
        self.expanded.push(0);
        self.children.push(Vec::new());
        self.expanded.set(node, e + 1);
        self.children.set(node, kids);
        proof {
            let m = n + 1;
            assert(self.states@[0] == old_self.states@[0]);
            assert forall|i: int| 0 <= i < m implies (#[trigger] self.states@[i])@.wf() by {
                if i < n {
                    assert(self.states@[i] == old_self.states@[i]);
                }
            }
            assert forall|i: int| 0 < i < m implies ((#[trigger] self.parents@[i]) matches Some(p) && p < i) by {
                if i < n {
                    assert(self.parents@[i] == old_self.parents@[i]);
                }
            }
            assert forall|i: int, k: int|
                0 <= i < m && 0 <= k < self.moves@[i]@.len() implies is_legal_move(
                self.states@[i]@,
                #[trigger] self.moves@[i]@[k],
            ) by {
                if i < n {
                    assert(self.moves@[i] == old_self.moves@[i]);
                    assert(self.states@[i] == old_self.states@[i]);
                } else {
                    let t = child@.turn.unwrap();
                    assert(self.moves@[i]@.contains(self.moves@[i]@[k]));
                }
            }
            assert forall|i: int| 0 <= i < m implies #[trigger] self.expanded@[i] <= self.moves@[i]@.len() by {
                if i < n {
                    assert(self.moves@[i] == old_self.moves@[i]);
                }
            }
            assert forall|i: int, k: int|
                0 <= i < m && 0 <= k < self.children@[i]@.len() implies {
                let c = #[trigger] self.children@[i]@[k];
                &&& i < c < m
                &&& (self.actions@[c as int] matches Some(a) && is_legal_move(self.states@[i]@, a))
            } by {
                if i < n && i != node {
                    assert(self.children@[i] == old_self.children@[i]);
                    assert(self.states@[i] == old_self.states@[i]);
                    let c = self.children@[i]@[k];
                    assert(self.actions@[c as int] == old_self.actions@[c as int]);
                } else if i == node {
                    assert(self.states@[i] == old_self.states@[i]);
                    if k < old_self.children@[i]@.len() {
                        assert(self.children@[i]@[k] == old_self.children@[i]@[k]);
                        let c = self.children@[i]@[k];
                        assert(self.actions@[c as int] == old_self.actions@[c as int]);
                    }
                }
            }
        }
        Some(n)
    }

    /// Adds one visit and `reward` to `node` and each of its ancestors.
    pub fn backpropagate(&mut self, node: usize, reward: i64)
        requires
            old(self).wf(),
            node < old(self).size(),
        ensures
            final(self).wf(),
            final(self).root() == old(self).root(),
            final(self).searcher() == old(self).searcher(),
            final(self).size() == old(self).size(),
            forall|i: int| 0 <= i < old(self).size() ==> {
                &&& #[trigger] final(self).visits_of(i) == if old(self).on_path(node as int, i) && old(self).visits_of(i) < u64::MAX {
                    (old(self).visits_of(i) + 1) as u64
                } else {
                    old(self).visits_of(i)
                }
                &&& final(self).reward_of(i) == if old(self).on_path(node as int, i) {
                    saturating_sum(old(self).reward_of(i), reward)
                } else {
                    old(self).reward_of(i)
                }
                &&& final(self).children_of(i) == old(self).children_of(i)
                &&& final(self).parent_of(i) == old(self).parent_of(i)
                &&& final(self).round_at(i) == old(self).round_at(i)
                &&& final(self).action_at(i) == old(self).action_at(i)
            },
    {
        let mut current = node;
        let mut done = false;
        let ghost before = *self;
        while !done
            invariant
                self.wf(),
                before.wf(),
                current < self.size(),
                node < self.size(),
                self.size() == before.size(),
                self.root() == before.root(),
                self.searcher() == before.searcher(),
                before.on_path(node as int, current as int),
                forall|i: int| 0 <= i < before.size() ==> {
                    &&& #[trigger] self.visits_of(i) == if before.on_path(node as int, i) && (done
                        || !before.on_path(current as int, i)) && before.visits_of(i) < u64::MAX {
                        (before.visits_of(i) + 1) as u64
                    } else {
                        before.visits_of(i)
                    }
                    &&& self.reward_of(i) == if before.on_path(node as int, i) && (done
                        || !before.on_path(current as int, i)) {
                        saturating_sum(before.reward_of(i), reward)
                    } else {
                        before.reward_of(i)
                    }
                    &&& self.children_of(i) == before.children_of(i)
                    &&& self.parent_of(i) == before.parent_of(i)
                    &&& self.round_at(i) == before.round_at(i)
                    &&& self.action_at(i) == before.action_at(i)
                },
            decreases (if done { 0 } else { current + 1 }),
        {
            let parent = self.parents[current];
            let ghost head = *self;
            proof {
                let _ = self.visits_of(current as int);
                assert(parent == before.parent_of(current as int));
            }
            let v = self.visits[current];
            if v < u64::MAX {
                self.visits.set(current, v + 1);
            }
            let w = self.rewards[current];
            let total = if reward >= 0 {
                if w <= i64::MAX - reward {
                    w + reward
                } else {
                    i64::MAX
                }
            } else {
                if w >= i64::MIN - reward {
                    w + reward
                } else {
                    i64::MIN
                }
            };
            self.rewards.set(current, total);
            match parent {
                Some(p) => {
                    proof {
                        assert(current > 0);
                        assert(p < current);
                        before.lemma_path_below(p as int);
                        assert(before.on_path(node as int, p as int)) by {
                            before.lemma_path_extend(node as int, current as int);
                        }
                        assert forall|i: int| 0 <= i < before.size() implies before.on_path(current as int, i) == (i == current || before.on_path(p as int, i)) by {
                        }
                        assert(!before.on_path(p as int, current as int));
                        assert forall|i: int| 0 <= i < before.size() implies {
                            &&& #[trigger] self.visits_of(i) == if before.on_path(node as int, i) && (false
                                || !before.on_path(p as int, i)) && before.visits_of(i) < u64::MAX {
                                (before.visits_of(i) + 1) as u64
                            } else {
                                before.visits_of(i)
                            }
                            &&& self.reward_of(i) == if before.on_path(node as int, i) && (false
                                || !before.on_path(p as int, i)) {
                                saturating_sum(before.reward_of(i), reward)
                            } else {
                                before.reward_of(i)
                            }
                            &&& self.children_of(i) == before.children_of(i)
                            &&& self.parent_of(i) == before.parent_of(i)
                            &&& self.round_at(i) == before.round_at(i)
                            &&& self.action_at(i) == before.action_at(i)
                        } by {
                            let _ = head.visits_of(i);
                        }
                    }
                    current = p;
                },
                None => {
                    proof {
                        assert(current == 0);
                        before.lemma_path_below(0);
                        assert forall|i: int| 0 <= i < before.size() implies {
                            &&& #[trigger] self.visits_of(i) == if before.on_path(node as int, i) && (true
                                || !before.on_path(current as int, i)) && before.visits_of(i) < u64::MAX {
                                (before.visits_of(i) + 1) as u64
                            } else {
                                before.visits_of(i)
                            }
                            &&& self.reward_of(i) == if before.on_path(node as int, i) && (true
                                || !before.on_path(current as int, i)) {
                                saturating_sum(before.reward_of(i), reward)
                            } else {
                                before.reward_of(i)
                            }
                            &&& self.children_of(i) == before.children_of(i)
                            &&& self.parent_of(i) == before.parent_of(i)
                            &&& self.round_at(i) == before.round_at(i)
                            &&& self.action_at(i) == before.action_at(i)
                        } by {
                            let _ = head.visits_of(i);
                            if i != 0 && before.on_path(current as int, i) {
                                assert(i <= 0);
                            }
                        }
                    }
                    done = true;
                },
            }
        }
    }

    /// A node on the path up from `node` lies at or below it.
    pub proof fn lemma_path_below(&self, node: int)
        ensures
            forall|i: int| #[trigger] self.on_path(node, i) ==> i <= node,
        decreases node,
    {
        if node > 0 && (self.parent_of(node) matches Some(p) && p < node) {
            let p = self.parent_of(node).unwrap() as int;
            self.lemma_path_below(p);
            assert forall|i: int| #[trigger] self.on_path(node, i) implies i <= node by {
                if node != i {
                    assert(self.on_path(p, i));
                }
            }
        } else {
            assert forall|i: int| #[trigger] self.on_path(node, i) implies i <= node by {
                assert(node == i);
            }
        }
    }

    /// The path up from `node` continues from each of its nodes to that node's parent.
    pub proof fn lemma_path_extend(&self, node: int, i: int)
        requires
            self.on_path(node, i),
            i > 0,
            self.parent_of(i) matches Some(p) && p < i,
        ensures
            self.on_path(node, self.parent_of(i).unwrap() as int),
        decreases node,
    {
        let q = self.parent_of(i).unwrap() as int;
        if node != i {
            let p = self.parent_of(node).unwrap() as int;
            assert(self.on_path(p, i));
            self.lemma_path_extend(p, i);
            assert(self.on_path(p, q));
        } else {
            assert(self.on_path(q, q));
        }
    }

    /// The move to the root child with the most visits, the earliest child on a
    /// tie; None while the root has no children.
    pub fn best_action(&self) -> (r: Option<PlayPhaseAction>)
        requires
            self.wf(),
        ensures
            r is None <==> self.children_of(0).len() == 0,
            r matches Some(a) ==> is_legal_move(self.root(), a),
            r matches Some(a) ==> self.most_visited_move(a),
    {
        let kids = &self.children[0];
        let mut best: Option<PlayPhaseAction> = None;
        let mut best_visits: u64 = 0;
        let mut best_k: usize = 0;
        let mut k: usize = 0;
        while k < kids.len()
            invariant
                self.wf(),
                kids@ == self.children_of(0),
                k <= kids@.len(),
                best is None <==> k == 0,
                best matches Some(a) ==> is_legal_move(self.root(), a),
                best is Some ==> {
                    &&& best_k < k
                    &&& self.action_at(kids@[best_k as int] as int) == best
                    &&& best_visits == self.visits_of(kids@[best_k as int] as int)
                    &&& forall|j: int| 0 <= j < k ==> self.visits_of(#[trigger] kids@[j] as int) <= best_visits
                    &&& forall|j: int| 0 <= j < best_k ==> self.visits_of(#[trigger] kids@[j] as int) < best_visits
                },
            decreases kids@.len() - k,
        {
            let c = kids[k];
            proof {
                assert(0 < c < self.size());
            }
            let v = self.visits[c];
            if best.is_none() || v > best_visits {
                best = self.actions[c];
                best_visits = v;
                best_k = k;
            }
            k = k + 1;
        }
        proof {
            if best is Some {
                let c = kids@[best_k as int];
                assert(self.children_of(0)[best_k as int] == c);
            }
        }
        best
    }

    /// Plays uniformly random legal moves from the round at `node` to the end of
    /// the round and returns the searcher's evaluation of the result.
    pub fn playout(&self, node: usize, rng: &mut StdRng, evaluator: Evaluator) -> (r: i32)
        requires
            self.wf(),
            node < self.size(),
        ensures
            exists|moves: Seq<(PlayerName, PlayPhaseAction)>|
                #![trigger replay(self.round_at(node as int), moves)]
                legal_sequence(self.round_at(node as int), moves) && replay(self.round_at(node as int), moves).turn is None
                    && r as int == evaluation(evaluator, replay(self.round_at(node as int), moves), self.searcher()),
    {
        let mut state = self.states[node].clone();
        let ghost origin = state@;
        let ghost mut moves = Seq::<(PlayerName, PlayPhaseAction)>::empty();
        assert(origin == self.round_at(node as int));
        loop
            invariant
                state@.wf(),
                legal_sequence(origin, moves),
                replay(origin, moves) == state@,
            ensures
                state@.wf(),
                state@.turn is None,
                legal_sequence(origin, moves),
                replay(origin, moves) == state@,
            decreases moves_left(state@),
        {
            match state.turn {
                None => {
                    break;
                },
                Some(turn) => {
                    let actions = legal_actions(&state, turn);
                    proof {
                        queries::lemma_playable_card_exists(state@, turn);
                        let c = choose|c: crate::primitives::Card| #[trigger] state@.hand(turn).contains(c) && state@.can_play(turn, c);
                        assert(actions@.contains(PlayPhaseAction::PlayCard(c)));
                    }
                    let i = random_index(rng, actions.len());
                    let action = actions[i];
                    assert(actions@.contains(action));
                    proof {
                        lemma_step_progress(state@, turn, action);
                        lemma_replay_push(origin, moves, (turn, action));
                    }
                    handle_action(&mut state, turn, action);
                    proof {
                        moves = moves.push((turn, action));
                    }
                },
            }
        }
        let r = evaluator.evaluate(&state, self.root_player);
        assert(legal_sequence(self.round_at(node as int), moves) && replay(self.round_at(node as int), moves).turn is None
            && r as int == evaluation(evaluator, replay(self.round_at(node as int), moves), self.searcher()));
        r
    }
}

/// Monte-Carlo tree search from the round `state` for the player to move.
/// Each iteration descends from the root through fully expanded nodes along the
/// children that `select` names, expands the next unexpanded move, plays a random
/// playout and adds the searcher's evaluation to every node on the path. The
/// search stops after `max_iterations` iterations, if given, or when the clock
/// reaches `deadline`; it then fails if `panic_on_search_timeout` is set and
/// otherwise returns the move to the most visited root child.
pub fn search<F: Fn(&SearchTree, usize) -> usize>(
    state: &PlayPhaseData,
    deadline: &Instant,
    panic_on_search_timeout: bool,
    max_iterations: Option<u64>,
    evaluator: Evaluator,
    rng: &mut StdRng,
    select: &F,
) -> (r: Result<PlayPhaseAction, SearchTimeout>)
    requires
        state@.wf(),
        state@.turn is Some,
        forall|t: &SearchTree, n: usize| #[trigger] select.requires((t, n)),
    ensures
        r matches Ok(a) ==> is_legal_move(state@, a),
        r matches Ok(a) ==> a == legal_moves(state@, state@.turn.unwrap())[0] || exists|t: SearchTree|
            t.wf() && t.root() == state@ && #[trigger] t.most_visited_move(a),
        r is Err ==> panic_on_search_timeout,
        max_iterations == Some(0u64) ==> r is Ok,
{
    let mut tree = SearchTree::new(state.clone());
    let cap: u64 = match max_iterations {
        Some(m) => m,
        None => u64::MAX,
    };
    let mut iterations: u64 = 0;
    while iterations < cap
        invariant
            tree.wf(),
            tree.root() == state@,
            cap == (match max_iterations {
                Some(m) => m,
                None => u64::MAX,
            }),
            forall|t: &SearchTree, n: usize| #[trigger] select.requires((t, n)),
        decreases cap - iterations,
    {
        if deadline_passed(deadline) {
            if panic_on_search_timeout {
                return Err(SearchTimeout);
            }
            break;
        }
        let mut node: usize = 0;
        loop
            invariant
                tree.wf(),
                node < tree.size(),
                forall|t: &SearchTree, n: usize| #[trigger] select.requires((t, n)),
            decreases tree.size() - node,
        {
            if !tree.is_fully_expanded(node) || tree.is_terminal(node) {
                break;
            }
            let kids = tree.children(node);
            let chosen = select(&tree, node);
            let mut found = false;
            let mut k: usize = 0;
            while k < kids.len()
                invariant
                    found ==> node < chosen < tree.size(),
                    forall|j: int| 0 <= j < kids@.len() ==> node < #[trigger] kids@[j] < tree.size(),
                decreases kids@.len() - k,
            {
                if kids[k] == chosen {
                    found = true;
                }
                k = k + 1;
            }
            if !found {
                break;
            }
            node = chosen;
        }
        let leaf = match tree.expand(node) {
            Some(c) => c,
            None => node,
        };
        let reward = tree.playout(leaf, rng, evaluator);
        tree.backpropagate(leaf, reward as i64);
        iterations = iterations + 1;
    }
    match tree.best_action() {
        Some(a) => {
            assert(tree.most_visited_move(a));
            Ok(a)
        },
        None => Ok(first_available_action(state)),
    }
}

} // verus!
