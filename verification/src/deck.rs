use rand::Rng;
use rand::SeedableRng;
use rand_chacha::ChaCha8Rng;
use vstd::prelude::*;

use crate::cards::{Card, CardMask};

verus! {

broadcast use crate::cards::group_card_lemmas;

/// The seeded ChaCha generator that shuffles decks.
#[verifier::external_type_specification]
#[verifier::external_body]
pub struct ExChaCha8Rng(ChaCha8Rng);

pub type DeterministicRng = ChaCha8Rng;

/// The seed of the default generator.
pub const DEFAULT_RNG_SEED: u64 = 0x0ddc_0ffe_e15e_beef;

/// The 32-byte generator seed made from a 64-bit seed: its eight little-endian bytes,
/// then zeros.
pub open spec fn spec_expand_seed(seed: u64) -> Seq<u8> {
    Seq::new(32, |i: int| if i < 8 { ((seed as int / pow256(i)) % 256) as u8 } else { 0u8 })
}

/// 256 to the power `i`.
pub open spec fn pow256(i: int) -> int
    decreases i,
{
    if i <= 0 {
        1
    } else {
        256 * pow256(i - 1)
    }
}

pub fn expand_seed(seed: u64) -> (r: [u8; 32])
    ensures
        r@ == spec_expand_seed(seed),
{
    let mut bytes = [0u8; 32];
    let mut rest = seed;
    let mut i: usize = 0;
    while i < 8
        invariant
            i <= 8,
            rest as int == seed as int / pow256(i as int),
            forall|k: int| 0 <= k < i ==> bytes@[k] == ((seed as int / pow256(k)) % 256) as u8,
            forall|k: int| i <= k < 32 ==> bytes@[k] == 0u8,
            bytes@.len() == 32,
        decreases 8 - i,
    {
        bytes[i] = (rest % 256) as u8;
        proof {
            assert(pow256(i + 1) == 256 * pow256(i as int));
            assert(pow256(i as int) > 0) by {
                lemma_pow256_positive(i as int);
            }
            vstd::arithmetic::div_mod::lemma_div_denominator(seed as int, pow256(i as int), 256);
        }
        rest = rest / 256;
        i = i + 1;
    }
    proof {
        assert(bytes@ =~= spec_expand_seed(seed));
    }
    bytes
}

proof fn lemma_pow256_positive(i: int)
    ensures
        pow256(i) > 0,
    decreases i,
{
    if i > 0 {
        lemma_pow256_positive(i - 1);
    }
}

/// The ChaCha8 generator that a 32-byte seed sets up (its key is the seed, its stream
/// and position zero).
pub uninterp spec fn seeded_generator(seed: Seq<u8>) -> ChaCha8Rng;

/// Seeds a ChaCha8 generator (rand_core `SeedableRng::from_seed` of rand_chacha's
/// `ChaCha8Rng`). Claimed: the generator depends on the seed bytes alone.
#[verifier::external_body]
fn chacha_from_seed(seed: [u8; 32]) -> (r: ChaCha8Rng)
    ensures
        r == seeded_generator(seed@),
{
    ChaCha8Rng::from_seed(seed)
}

/// The generator for a 64-bit seed: the one seeded with the seed's little-endian bytes
/// followed by zeros, so equal seeds give equal streams.
pub fn rng_from_seed(seed: u64) -> (r: DeterministicRng)
    ensures
        r == seeded_generator(spec_expand_seed(seed)),
{
    chacha_from_seed(expand_seed(seed))
}

/// The generator for the default seed.
pub fn default_rng() -> (r: DeterministicRng)
    ensures
        r == seeded_generator(spec_expand_seed(DEFAULT_RNG_SEED)),
{
    rng_from_seed(DEFAULT_RNG_SEED)
}

/// What rand's `Rng::random_range(0..=high)` gives on a ChaCha8 generator in a given
/// state: the number drawn and the generator's state after the draw.
pub uninterp spec fn range_draw(rng: ChaCha8Rng, high: usize) -> (usize, ChaCha8Rng);

/// A number in `0..=high` drawn from the generator (rand `Rng::random_range`).
/// Claimed: the number is at most `high`, and the number and the generator's next
/// state depend on the generator's state and `high` alone (the generator is a
/// seeded ChaCha8 stream, which the draw reads and advances).
#[verifier::external_body]
fn random_index_up_to(rng: &mut ChaCha8Rng, high: usize) -> (r: usize)
    ensures
        r <= high,
        r == range_draw(*old(rng), high).0,
        *final(rng) == range_draw(*old(rng), high).1,
{
    rng.random_range(0..=high)
}

/// The 52 cards in deck order.
pub open spec fn standard_cards() -> Seq<Card> {
    Seq::new(52, |i: int| Card::spec_from_code(i))
}

/// Fisher-Yates from the back, from position `index - 1` down to position 1: each
/// position is swapped with one drawn from `0..=position`. The cards and the
/// generator's state at the end.
pub open spec fn shuffle_down(cards: Seq<Card>, rng: ChaCha8Rng, index: int) -> (Seq<Card>, ChaCha8Rng)
    decreases index,
{
    if index <= 1 {
        (cards, rng)
    } else {
        let i = index - 1;
        let (j, next) = range_draw(rng, i as usize);
        shuffle_down(cards.update(i, cards[j as int]).update(j as int, cards[i]), next, i)
    }
}

/// The order a shuffle of `cards` with a generator in state `rng` gives, and the
/// generator's state after it.
pub open spec fn fisher_yates(cards: Seq<Card>, rng: ChaCha8Rng) -> (Seq<Card>, ChaCha8Rng) {
    shuffle_down(cards, rng, cards.len() as int)
}

/// The cards, in deck order, that are not among `dead`: what is left to deal.
pub fn undealt_cards(dead: CardMask) -> (r: Vec<Card>)
    ensures
        r@ == standard_cards().filter(|c: Card| !dead@.contains(c.code())),
{
    let mut kept: Vec<Card> = Vec::new();
    let mut i: usize = 0;
    while i < 52
        invariant
            i <= 52,
            kept@ == standard_cards().take(i as int).filter(|c: Card| !dead@.contains(c.code())),
        decreases 52 - i,
    {
        match Card::from_index(i) {
            Some(card) => {
                proof {
                    crate::cards::lemma_card_of_code(card);
                    assert(standard_cards()[i as int] == card);
                }
                let hit = dead.contains(card);
                if !hit {
                    kept.push(card);
                }
                proof {
                    reveal_with_fuel(Seq::<_>::filter, 1);
                    assert(standard_cards().take(i + 1).drop_last() =~= standard_cards().take(i as int));
                    assert(standard_cards().take(i + 1).last() == card);
                }
            },
            None => {},
        }
        i = i + 1;
    }
    proof {
        assert(standard_cards().take(52) =~= standard_cards());
    }
    kept
}

/// A deck of cards, drawn from the back.
#[derive(Debug, Clone, PartialEq, Eq)]
pub struct Deck {
    cards: Vec<Card>,
}

impl View for Deck {
    type V = Seq<Card>;

    closed spec fn view(&self) -> Seq<Card> {
        self.cards@
    }
}

impl Deck {
    /// The 52 cards in deck order.
    pub fn standard() -> (r: Self)
        ensures
            r@.len() == 52,
            forall|i: int| 0 <= i < 52 ==> (#[trigger] r@[i]).code() == i,
            r@.no_duplicates(),
            r@ == standard_cards(),
    {
        let mut cards: Vec<Card> = Vec::new();
        let mut index: usize = 0;
        while index < 52
            invariant
                index <= 52,
                cards@.len() == index,
                forall|i: int| 0 <= i < index ==> (#[trigger] cards@[i]).code() == i,
            decreases 52 - index,
        {
            match Card::from_index(index) {
                Some(card) => cards.push(card),
                None => {},
            }
            index = index + 1;
        }
        proof {
            assert forall|i: int, j: int| 0 <= i < cards@.len() && 0 <= j < cards@.len() && i != j implies cards@[i]
                != cards@[j] by {
                assert(cards@[i].code() == i);
                assert(cards@[j].code() == j);
            }
            assert forall|i: int| 0 <= i < 52 implies cards@[i] == standard_cards()[i] by {
                crate::cards::lemma_card_of_code(cards@[i]);
            }
            assert(cards@ =~= standard_cards());
        }
        Deck { cards }
    }

    pub fn len(&self) -> (r: usize)
        ensures
            r == self@.len(),
    {
        self.cards.len()
    }

    pub fn is_empty(&self) -> (r: bool)
        ensures
            r == (self@.len() == 0),
    {
        self.cards.len() == 0
    }

    pub fn cards(&self) -> (r: &[Card])
        ensures
            r@ == self@,
    {
        self.cards.as_slice()
    }

    /// Shuffles the deck in place (Fisher-Yates from the back): the same cards, in an
    /// order that depends only on the generator's state.
    pub fn shuffle(&mut self, rng: &mut DeterministicRng)
        ensures
            final(self)@ == fisher_yates(old(self)@, *old(rng)).0,
            *final(rng) == fisher_yates(old(self)@, *old(rng)).1,
            final(self)@.to_multiset() == old(self)@.to_multiset(),
            final(self)@.len() == old(self)@.len(),
            old(self)@.no_duplicates() ==> final(self)@.no_duplicates(),
    {
        broadcast use vstd::multiset::group_multiset_properties;

        let mut index = self.cards.len();
        while index > 1
            invariant
                index <= self.cards@.len(),
                self.cards@.len() == old(self)@.len(),
                self.cards@.to_multiset() == old(self)@.to_multiset(),
                old(self)@.no_duplicates() ==> self.cards@.no_duplicates(),
                shuffle_down(self.cards@, *rng, index as int) == fisher_yates(old(self)@, *old(rng)),
            decreases index,
        {
            index = index - 1;
            let ghost r0 = *rng;
            let swap_index = random_index_up_to(rng, index);
            let a = self.cards[index];
            let b = self.cards[swap_index];
            let ghost s = self.cards@;
            self.cards.set(index, b);
            self.cards.set(swap_index, a);
            proof {
                let s1 = s.update(index as int, b);
                vstd::seq_lib::to_multiset_update(s, index as int, b);
                vstd::seq_lib::to_multiset_update(s1, swap_index as int, a);
                assert(s1[swap_index as int] == b);
                assert(self.cards@ == s1.update(swap_index as int, a));
                assert(s.contains(a));
                vstd::seq_lib::to_multiset_contains(s, a);
                let m = s.to_multiset();
                assert(m.count(a) > 0);
                assert(m.insert(b).remove(a).insert(a).remove(b) =~= m);
                assert(self.cards@.to_multiset() =~= s.to_multiset());
                assert(shuffle_down(s, r0, index + 1) == shuffle_down(self.cards@, *rng, index as int));
                let t = self.cards@;
                if s.no_duplicates() {
                    assert forall|i: int, j: int| 0 <= i < t.len() && 0 <= j < t.len() && i != j implies t[i]
                        != t[j] by {
                        let si = if i == index {
                            swap_index as int
                        } else if i == swap_index {
                            index as int
                        } else {
                            i
                        };
                        let sj = if j == index {
                            swap_index as int
                        } else if j == swap_index {
                            index as int
                        } else {
                            j
                        };
                        assert(t[i] == s[si]);
                        assert(t[j] == s[sj]);
                    }
                }
            }
        }
    }

    /// Removes every card of `dead_cards`, keeping the others in order.
    pub fn remove_dead_cards(&mut self, dead_cards: CardMask)
        ensures
            final(self)@ == old(self)@.filter(|c: Card| !dead_cards@.contains(c.code())),
    {
        let mut kept: Vec<Card> = Vec::new();
        let mut i: usize = 0;
        while i < self.cards.len()
            invariant
                i <= self.cards@.len(),
                self.cards@ == old(self)@,
                kept@ == old(self)@.take(i as int).filter(|c: Card| !dead_cards@.contains(c.code())),
            decreases self.cards@.len() - i,
        {
            let card = self.cards[i];
            if !dead_cards.contains(card) {
                kept.push(card);
            }
            proof {
                reveal_with_fuel(Seq::<_>::filter, 1);
                assert(old(self)@.take(i + 1).drop_last() =~= old(self)@.take(i as int));
            }
            i = i + 1;
        }
        proof {
            assert(old(self)@.take(old(self)@.len() as int) =~= old(self)@);
        }
        self.cards = kept;
    }

    /// Takes the last card, if any.
    pub fn draw(&mut self) -> (r: Option<Card>)
        ensures
            old(self)@.len() == 0 ==> r is None && final(self)@ == old(self)@,
            old(self)@.len() > 0 ==> r == Some(old(self)@.last()) && final(self)@
                == old(self)@.drop_last(),
    {
        self.cards.pop()
    }
}

} // verus!
