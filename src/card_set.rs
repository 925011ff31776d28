use vstd::prelude::*;

use crate::primitives::{card_at, card_index, lemma_card_at, lemma_card_index, Card};

verus! {

/// Mask of the 52 low bits, one for each card index.
pub const CARD_MASK: u64 = 0xF_FFFF_FFFF_FFFF;

/// Returns true if bit `i` of `bits` is set.
pub open spec fn has_bit(bits: u64, i: nat) -> bool {
    i < 64 && (bits >> (i as u64)) & 1u64 == 1u64
}

/// The set of every card.
pub open spec fn all_cards() -> Set<Card> {
    Set::new(|c: Card| true)
}

/// The cards whose index lies below `i`.
pub open spec fn cards_below(s: Set<Card>, i: nat) -> Set<Card> {
    s.filter(|c: Card| card_index(c) < i)
}

/// The cards of `h` whose index lies below `n`, in index order.
pub open spec fn cards_in_order(h: Set<Card>, n: nat) -> Seq<Card>
    decreases n,
{
    if n == 0 {
        Seq::empty()
    } else {
        let prev = cards_in_order(h, (n - 1) as nat);
        if h.contains(card_at((n - 1) as nat)) {
            prev.push(card_at((n - 1) as nat))
        } else {
            prev
        }
    }
}

/// The deck in index order.
pub open spec fn deck_seq() -> Seq<Card> {
    Seq::new(52, |i: int| card_at(i as nat))
}

/// The deck in index order holds every card once, so the set of all cards has 52 members.
pub proof fn lemma_all_cards()
    ensures
        all_cards().finite(),
        all_cards().len() == 52,
        deck_seq().to_set() == all_cards(),
        deck_seq().no_duplicates(),
{
    let d = deck_seq();
    assert forall|i: int, j: int| 0 <= i < d.len() && 0 <= j < d.len() && i != j implies #[trigger] d[i]
        != #[trigger] d[j] by {
        lemma_card_at(i as nat);
        lemma_card_at(j as nat);
    }
    assert(d.no_duplicates());
    assert forall|c: Card| #[trigger] all_cards().contains(c) implies d.to_set().contains(c) by {
        lemma_card_index(c);
        assert(d[card_index(c) as int] == c);
    }
    assert(d.to_set() =~= all_cards());
    d.unique_seq_to_set();
    vstd::seq_lib::seq_to_set_is_finite(d);
}

/// Every set of cards is finite, with at most 52 members.
pub proof fn lemma_card_set_finite(s: Set<Card>)
    ensures
        s.finite(),
        s.len() <= 52,
{
    lemma_all_cards();
    vstd::set_lib::lemma_len_subset(s, all_cards());
}

proof fn lemma_bit_insert(b: u64, i: u64, j: u64)
    requires
        i < 64,
        j < 64,
    ensures
        ((b | (1u64 << i)) >> j) & 1u64 == (if i == j { 1u64 } else { (b >> j) & 1u64 }),
{
    assert(((b | (1u64 << i)) >> j) & 1u64 == (if i == j { 1u64 } else { (b >> j) & 1u64 }))
        by (bit_vector)
        requires
            i < 64,
            j < 64,
    ;
}

proof fn lemma_bit_remove(b: u64, i: u64, j: u64)
    requires
        i < 64,
        j < 64,
    ensures
        ((b & !(1u64 << i)) >> j) & 1u64 == (if i == j { 0u64 } else { (b >> j) & 1u64 }),
{
    assert(((b & !(1u64 << i)) >> j) & 1u64 == (if i == j { 0u64 } else { (b >> j) & 1u64 }))
        by (bit_vector)
        requires
            i < 64,
            j < 64,
    ;
}

proof fn lemma_bit_zero(j: u64)
    requires
        j < 64,
    ensures
        (0u64 >> j) & 1u64 == 0u64,
{
    assert((0u64 >> j) & 1u64 == 0u64) by (bit_vector);
}

proof fn lemma_bit_masked(b: u64, j: u64)
    requires
        j < 64,
    ensures
        ((b & 0xF_FFFF_FFFF_FFFFu64) >> j) & 1u64 == 1u64 ==> j < 52 && (b >> j) & 1u64 == 1u64,
        (b & 0xF_FFFF_FFFF_FFFFu64) == 0u64 && j < 52 ==> (b >> j) & 1u64 == 0u64,
{
    assert(((b & 0xF_FFFF_FFFF_FFFFu64) >> j) & 1u64 == 1u64 ==> j < 52 && (b >> j) & 1u64 == 1u64)
        by (bit_vector)
        requires
            j < 64,
    ;
    assert((b & 0xF_FFFF_FFFF_FFFFu64) == 0u64 && j < 52 ==> (b >> j) & 1u64 == 0u64)
        by (bit_vector);
}

/// A set of cards held as a bitset: bit `i` is set when the card of index `i` is present.
#[derive(Clone, Copy, Debug, PartialEq, Eq, Structural, Hash)]
pub struct CardSet {
    bits: u64,
}

impl View for CardSet {
    type V = Set<Card>;

    closed spec fn view(&self) -> Set<Card> {
        Set::new(|c: Card| has_bit(self.bits, card_index(c)))
    }
}

impl CardSet {
    /// The empty set.
    pub fn new() -> (r: CardSet)
        ensures
            r@ == Set::<Card>::empty(),
    {
        let r = CardSet { bits: 0 };
        proof {
            assert forall|c: Card| !r@.contains(c) by {
                lemma_card_index(c);
                lemma_bit_zero(card_index(c) as u64);
            }
            assert(r@ =~= Set::<Card>::empty());
        }
        r
    }

    /// The set of the given cards.
    pub fn from_cards(cards: &Vec<Card>) -> (r: CardSet)
        ensures
            r@ == cards@.to_set(),
    {
        let mut r = CardSet::new();
        let mut i: usize = 0;
        while i < cards.len()
            invariant
                i <= cards@.len(),
                r@ == cards@.subrange(0, i as int).to_set(),
            decreases cards@.len() - i,
        {
            r.insert(cards[i]);
            proof {
                assert(cards@.subrange(0, i + 1) =~= cards@.subrange(0, i as int).push(cards@[i as int]));
                cards@.subrange(0, i as int).lemma_push_to_set_commute(cards@[i as int]);
            }
            i = i + 1;
        }
        assert(cards@.subrange(0, cards@.len() as int) =~= cards@);
        r
    }

    /// Returns true if `card` is in the set.
    pub fn contains(&self, card: Card) -> (r: bool)
        ensures
            r == self@.contains(card),
    {
        proof {
            lemma_card_index(card);
        }
        let i = card.index();
        (self.bits >> (i as u64)) & 1u64 == 1u64
    }

    /// Adds `card` to the set.
    pub fn insert(&mut self, card: Card)
        ensures
            final(self)@ == old(self)@.insert(card),
    {
        let i = card.index();
        let old_bits = self.bits;
        self.bits = self.bits | (1u64 << (i as u64));
        proof {
            assert forall|c: Card| #[trigger] final(self)@.contains(c) == old(self)@.insert(card).contains(c) by {
                lemma_card_index(c);
                lemma_bit_insert(old_bits, i as u64, card_index(c) as u64);
                crate::primitives::lemma_card_index_injective(c, card);
            }
            assert(final(self)@ =~= old(self)@.insert(card));
        }
    }

    /// Removes `card` from the set.
    pub fn remove(&mut self, card: Card)
        ensures
            final(self)@ == old(self)@.remove(card),
    {
        let i = card.index();
        let old_bits = self.bits;
        self.bits = self.bits & !(1u64 << (i as u64));
        proof {
            assert forall|c: Card| #[trigger] final(self)@.contains(c) == old(self)@.remove(card).contains(c) by {
                lemma_card_index(c);
                lemma_bit_remove(old_bits, i as u64, card_index(c) as u64);
                crate::primitives::lemma_card_index_injective(c, card);
            }
            assert(final(self)@ =~= old(self)@.remove(card));
        }
    }

    /// Returns true if the set has no cards.
    pub fn is_empty(&self) -> (r: bool)
        ensures
            r <==> self@ == Set::<Card>::empty(),
    {
        let m = self.bits & CARD_MASK;
        let z = m.trailing_zeros();
        proof {
            vstd::std_specs::bits::axiom_u64_trailing_zeros(m);
            if m == 0 {
                assert forall|c: Card| !self@.contains(c) by {
                    lemma_card_index(c);
                    lemma_bit_masked(self.bits, card_index(c) as u64);
                }
                assert(self@ =~= Set::<Card>::empty());
            } else {
                lemma_bit_masked(self.bits, z as u64);
                lemma_card_at(z as nat);
                assert(self@.contains(card_at(z as nat)));
            }
        }
        m == 0
    }

    /// The number of cards in the set.
    pub fn len(&self) -> (r: usize)
        ensures
            r == self@.len(),
            r <= 52,
    {
        let mut count: usize = 0;
        let mut i: u8 = 0;
        proof {
            lemma_card_set_finite(self@);
            assert(cards_below(self@, 0) =~= Set::<Card>::empty());
        }
        while i < 52
            invariant
                i <= 52,
                count == cards_below(self@, i as nat).len(),
                count <= i,
            decreases 52 - i,
        {
            let c = Card::from_index(i);
            proof {
                lemma_card_set_finite(cards_below(self@, i as nat));
                assert forall|d: Card| #[trigger] cards_below(self@, (i + 1) as nat).contains(d)
                    == (if self@.contains(c) { cards_below(self@, i as nat).insert(c) } else {
                    cards_below(self@, i as nat) }).contains(d) by {
                    lemma_card_index(d);
                    crate::primitives::lemma_card_index_injective(c, d);
                }
            }
            if self.contains(c) {
                assert(cards_below(self@, (i + 1) as nat) =~= cards_below(self@, i as nat).insert(c));
                count = count + 1;
            } else {
                assert(cards_below(self@, (i + 1) as nat) =~= cards_below(self@, i as nat));
            }
            i = i + 1;
        }
        proof {
            assert forall|d: Card| #[trigger] cards_below(self@, 52).contains(d) == self@.contains(d) by {
                lemma_card_index(d);
            }
            assert(cards_below(self@, 52) =~= self@);
        }
        count
    }

    /// The cards of the set in index order.
    pub fn cards(&self) -> (r: Vec<Card>)
        ensures
            r@ == cards_in_order(self@, 52),
            forall|c: Card| #[trigger] r@.contains(c) <==> self@.contains(c),
            forall|i: int, j: int|
                0 <= i < j < r@.len() ==> card_index(#[trigger] r@[i]) < card_index(#[trigger] r@[j]),
    {
        let mut r: Vec<Card> = Vec::new();
        let mut i: u8 = 0;
        while i < 52
            invariant
                i <= 52,
                r@ == cards_in_order(self@, i as nat),
                forall|c: Card| #[trigger] r@.contains(c) <==> (self@.contains(c) && card_index(c) < i),
                forall|k: int| 0 <= k < r@.len() ==> card_index(#[trigger] r@[k]) < i,
                forall|k: int, j: int|
                    0 <= k < j < r@.len() ==> card_index(#[trigger] r@[k]) < card_index(#[trigger] r@[j]),
            decreases 52 - i,
        {
            let c = Card::from_index(i);
            if self.contains(c) {
                let ghost prev = r@;
                r.push(c);
                proof {
                    assert forall|d: Card| #[trigger] r@.contains(d) <==> (self@.contains(d) && card_index(d) < i + 1) by {
                        crate::primitives::lemma_card_index_injective(c, d);
                        if r@.contains(d) && d != c {
                            let k = choose|k: int| 0 <= k < r@.len() && r@[k] == d;
                            assert(prev[k] == d);
                            assert(prev.contains(d));
                        }
                        if d != c && self@.contains(d) && card_index(d) < i + 1 {
                            assert(prev.contains(d));
                            let k = choose|k: int| 0 <= k < prev.len() && prev[k] == d;
                            assert(r@[k] == d);
                        }
                        if d == c {
                            assert(r@[r@.len() - 1] == c);
                        }
                    }
                }
            } else {
                proof {
                    assert forall|d: Card| #[trigger] r@.contains(d) <==> (self@.contains(d) && card_index(d) < i + 1) by {
                        crate::primitives::lemma_card_index_injective(c, d);
                    }
                }
            }
            i = i + 1;
        }
        proof {
            assert forall|c: Card| #[trigger] r@.contains(c) <==> self@.contains(c) by {
                lemma_card_index(c);
            }
        }
        r
    }
}

} // verus!
