use vstd::prelude::*;

use crate::card_text::{hole_cards_text, push_card};
use crate::cards::{lemma_hole_cards_view_injective, Card, CardMask, HoleCards};
use crate::text::push_char;

verus! {

broadcast use crate::cards::group_card_lemmas;

/// A set of starting hands, kept in the order of their positions (see
/// `HoleCards::key`).
#[derive(Debug, Clone, PartialEq, Eq, Default)]
pub struct Range {
    combos: Vec<HoleCards>,
}

/// Hands in strictly increasing position order.
pub open spec fn sorted_by_key(s: Seq<HoleCards>) -> bool {
    forall|i: int, j: int| 0 <= i < j < s.len() ==> (#[trigger] s[i]).key() < (#[trigger] s[j]).key()
}

/// The cards of a sequence of hands.
pub open spec fn hands_of(s: Seq<HoleCards>) -> Set<(Card, Card)> {
    Set::new(|v: (Card, Card)| exists|k: int| 0 <= k < s.len() && (#[trigger] s[k])@ == v)
}

/// A hand's position determines the hand.
pub proof fn lemma_key_injective(a: HoleCards, b: HoleCards)
    ensures
        a.key() == b.key() <==> a == b,
{
    broadcast use lemma_hole_cards_view_injective;

    let (a0, a1) = a@;
    let (b0, b1) = b@;
    if a.key() == b.key() {
        assert(a0.code() == b0.code() && a1.code() == b1.code()) by (nonlinear_arith)
            requires
                a0.code() * 52 + a1.code() == b0.code() * 52 + b1.code(),
                0 <= a0.code() < 52,
                0 <= a1.code() < 52,
                0 <= b0.code() < 52,
                0 <= b1.code() < 52,
        ;
    }
}

impl View for Range {
    type V = Seq<HoleCards>;

    closed spec fn view(&self) -> Seq<HoleCards> {
        self.combos@
    }
}

/// The cards of the hands of a range, written `AsKd` and joined by commas.
pub open spec fn range_text(s: Seq<HoleCards>) -> Seq<char>
    decreases s.len(),
{
    if s.len() == 0 {
        seq![]
    } else if s.len() == 1 {
        hole_cards_text(s[0])
    } else {
        range_text(s.drop_last()) + seq![','] + hole_cards_text(s.last())
    }
}

/// Neither card of the hand is in the mask.
pub open spec fn avoids(h: HoleCards, dead: Set<int>) -> bool {
    !dead.contains(h@.0.code()) && !dead.contains(h@.1.code())
}

impl Range {
    pub open spec fn wf(&self) -> bool {
        &&& sorted_by_key(self@)
        &&& forall|k: int| 0 <= k < self@.len() ==> (#[trigger] self@[k]).is_ordered()
    }

    /// The hands of the range.
    pub open spec fn hands(&self) -> Set<(Card, Card)> {
        hands_of(self@)
    }

    pub fn empty() -> (r: Self)
        ensures
            r@ == Seq::<HoleCards>::empty(),
            r.wf(),
    {
        Range { combos: Vec::new() }
    }

    /// The range of the given hands.
    pub fn from_hole_cards(cards: &[HoleCards]) -> (r: Self)
        ensures
            r.wf(),
            r.hands() == hands_of(cards@),
    {
        let mut range = Range::empty();
        let mut i: usize = 0;
        while i < cards.len()
            invariant
                i <= cards@.len(),
                range.wf(),
                range.hands() == hands_of(cards@.take(i as int)),
            decreases cards@.len() - i,
        {
            range.insert(cards[i]);
            proof {
                assert(hands_of(cards@.take(i + 1)) =~= hands_of(cards@.take(i as int)).insert(
                    cards@[i as int]@,
                )) by {
                    assert forall|v: (Card, Card)| #[trigger] hands_of(cards@.take(i + 1)).contains(
                        v,
                    ) implies hands_of(cards@.take(i as int)).insert(cards@[i as int]@).contains(v) by {
                        let k = choose|k: int| 0 <= k < i + 1 && (#[trigger] cards@.take(i + 1)[k])@ == v;
                        if k < i {
                            assert(cards@.take(i as int)[k] == cards@.take(i + 1)[k]);
                        }
                    }
                    assert forall|v: (Card, Card)| hands_of(cards@.take(i as int)).insert(
                        cards@[i as int]@,
                    ).contains(v) implies #[trigger] hands_of(cards@.take(i + 1)).contains(v) by {
                        if v == cards@[i as int]@ {
                            assert(cards@.take(i + 1)[i as int] == cards@[i as int]);
                        } else {
                            let k = choose|k: int| 0 <= k < i && (#[trigger] cards@.take(i as int)[k])@ == v;
                            assert(cards@.take(i + 1)[k] == cards@.take(i as int)[k]);
                        }
                    }
                }
            }
            i = i + 1;
        }
        proof {
            assert(cards@.take(cards@.len() as int) =~= cards@);
        }
        range
    }

    /// Adds a hand; returns whether it was new.
    pub fn insert(&mut self, cards: HoleCards) -> (r: bool)
        requires
            old(self).wf(),
        ensures
            final(self).wf(),
            final(self).hands() == old(self).hands().insert(cards@),
            r == !old(self).hands().contains(cards@),
    {
        broadcast use lemma_hole_cards_view_injective;

        proof {
            use_type_invariant(&cards);
        }
        let key = cards.key_index();
        let mut pos: usize = 0;
        while pos < self.combos.len() && self.combos[pos].key_index() < key
            invariant
                pos <= self.combos@.len(),
                self.combos@ == old(self).combos@,
                old(self).wf(),
                sorted_by_key(self.combos@),
                forall|k: int| 0 <= k < pos ==> (#[trigger] self.combos@[k]).key() < key,
            decreases self.combos@.len() - pos,
        {
            pos = pos + 1;
        }
        if pos < self.combos.len() && self.combos[pos].key_index() == key {
            proof {
                lemma_key_injective(self.combos@[pos as int], cards);
                assert(self.combos@[pos as int]@ == cards@);
                assert(old(self).hands().contains(cards@));
                assert(old(self).hands().insert(cards@) =~= old(self).hands());
            }
            return false;
        }
        let ghost before = self.combos@;
        proof {
            assert forall|k: int| 0 <= k < before.len() implies (#[trigger] before[k]).key() != key by {
                if k >= pos {
                    assert(before[pos as int].key() > key);
                }
            }
        }
        self.combos.insert(pos, cards);
        proof {
            assert(self.combos@ == before.insert(pos as int, cards));
            assert forall|i: int, j: int| 0 <= i < j < self.combos@.len() implies (
            #[trigger] self.combos@[i]).key() < (#[trigger] self.combos@[j]).key() by {
                if pos < before.len() {
                    assert(before[pos as int].key() > key);
                }
            }
            assert(hands_of(self.combos@) =~= hands_of(before).insert(cards@)) by {
                assert forall|v: (Card, Card)| #[trigger] hands_of(self.combos@).contains(v) implies hands_of(
                    before,
                ).insert(cards@).contains(v) by {
                    let k = choose|k: int| 0 <= k < self.combos@.len() && (#[trigger] self.combos@[k])@
                        == v;
                    if k < pos {
                        assert(self.combos@[k] == before[k]);
                    } else if k > pos {
                        assert(self.combos@[k] == before[k - 1]);
                    }
                }
                assert forall|v: (Card, Card)| hands_of(before).insert(cards@).contains(v) implies #[trigger] hands_of(
                    self.combos@,
                ).contains(v) by {
                    if v == cards@ {
                        assert(self.combos@[pos as int] == cards);
                    } else {
                        let k = choose|k: int| 0 <= k < before.len() && (#[trigger] before[k])@ == v;
                        if k < pos {
                            assert(self.combos@[k] == before[k]);
                        } else {
                            assert(self.combos@[k + 1] == before[k]);
                        }
                    }
                }
            }
            if old(self).hands().contains(cards@) {
                let k = choose|k: int| 0 <= k < before.len() && (#[trigger] before[k])@ == cards@;
                lemma_key_injective(before[k], cards);
            }
        }
        true
    }

    pub fn len(&self) -> (r: usize)
        ensures
            r == self@.len(),
    {
        self.combos.len()
    }

    pub fn is_empty(&self) -> (r: bool)
        ensures
            r == (self@.len() == 0),
    {
        self.combos.len() == 0
    }

    pub fn contains(&self, cards: HoleCards) -> (r: bool)
        ensures
            r == self.hands().contains(cards@),
    {
        broadcast use lemma_hole_cards_view_injective;

        let mut i: usize = 0;
        while i < self.combos.len()
            invariant
                i <= self.combos@.len(),
                forall|k: int| 0 <= k < i ==> (#[trigger] self.combos@[k])@ != cards@,
            decreases self.combos@.len() - i,
        {
            proof {
                lemma_key_injective(self.combos@[i as int], cards);
            }
            if self.combos[i].key_index() == cards.key_index() {
                return true;
            }
            i = i + 1;
        }
        false
    }

    /// The hands, in order of their positions.
    pub fn combos(&self) -> (r: &[HoleCards])
        ensures
            r@ == self@,
    {
        self.combos.as_slice()
    }

    /// Iterates over the hands in order of their positions.
    pub fn iter(&self) -> (r: std::slice::Iter<'_, HoleCards>)
        ensures
            vstd::std_specs::slice::into_iter_elts(r) == self@,
            vstd::std_specs::iter::IteratorSpec::remaining(&r) == self@.as_ref(),
    {
        broadcast use vstd::std_specs::slice::axiom_spec_slice_iter;

        let r = self.combos.as_slice().iter();
        proof {
            assert(vstd::std_specs::iter::IteratorSpec::remaining(&r).unref() =~= self@);
        }
        r
    }

    /// The hands of the range that share no card with `dead_cards`.
    pub fn without_dead_cards(&self, dead_cards: CardMask) -> (r: Self)
        requires
            self.wf(),
        ensures
            r.wf(),
            r@ == self@.filter(|h: HoleCards| avoids(h, dead_cards@)),
            forall|k: int| 0 <= k < r@.len() ==> avoids(#[trigger] r@[k], dead_cards@),
    {
        let mut kept: Vec<HoleCards> = Vec::new();
        let mut i: usize = 0;
        while i < self.combos.len()
            invariant
                i <= self.combos@.len(),
                self.wf(),
                kept@ == self.combos@.take(i as int).filter(|h: HoleCards| avoids(h, dead_cards@)),
                forall|k: int| 0 <= k < kept@.len() ==> exists|m: int| 0 <= m < i && (#[trigger] kept@[k])
                    == self.combos@[m],
                sorted_by_key(kept@),
                forall|k: int, m: int| 0 <= k < kept@.len() && i <= m < self.combos@.len() ==> (#[trigger] kept@[k]).key()
                    < (#[trigger] self.combos@[m]).key(),
            decreases self.combos@.len() - i,
        {
            let h = self.combos[i];
            let m = h.mask();
            let hit = m.intersects(dead_cards);
            let ghost prev = kept@;
            if !hit {
                kept.push(h);
            }
            proof {
                reveal_with_fuel(Seq::<_>::filter, 1);
                assert(self.combos@.take(i + 1).drop_last() =~= self.combos@.take(i as int));
                if !hit {
                    assert(m@.contains(h@.0.code()));
                    assert(m@.contains(h@.1.code()));
                    assert(!dead_cards@.contains(h@.0.code()));
                    assert(!dead_cards@.contains(h@.1.code()));
                } else {
                    let w = choose|w: int| #[trigger] m@.contains(w) && dead_cards@.contains(w);
                    assert(!avoids(h, dead_cards@));
                }
                assert forall|k: int| 0 <= k < kept@.len() implies exists|mm: int| 0 <= mm < i + 1 && (
                #[trigger] kept@[k]) == self.combos@[mm] by {
                    if k < prev.len() {
                        let mm = choose|mm: int| 0 <= mm < i && (#[trigger] prev[k]) == self.combos@[mm];
                        assert(kept@[k] == prev[k]);
                    } else {
                        assert(kept@[k] == self.combos@[i as int]);
                    }
                }
            }
            i = i + 1;
        }
        proof {
            assert(self.combos@.take(self.combos@.len() as int) =~= self.combos@);
        }
        Range { combos: kept }
    }

    /// The hands written `AsKd` and joined by commas, in order of their positions.
    pub fn to_string(&self) -> (r: String)
        ensures
            r@ == range_text(self@),
    {
        let mut s = String::new();
        let mut i: usize = 0;
        while i < self.combos.len()
            invariant
                i <= self.combos@.len(),
                s@ == range_text(self.combos@.take(i as int)),
            decreases self.combos@.len() - i,
        {
            if i > 0 {
                push_char(&mut s, ',');
            }
            let h = self.combos[i];
            push_card(&mut s, h.first());
            push_card(&mut s, h.second());
            proof {
                assert(self.combos@.take(i + 1).drop_last() =~= self.combos@.take(i as int));
                if i == 0 {
                    assert(s@ =~= hole_cards_text(h));
                } else {
                    assert(s@ =~= range_text(self.combos@.take(i as int)) + seq![','] + hole_cards_text(h));
                }
            }
            i = i + 1;
        }
        proof {
            assert(self.combos@.take(self.combos@.len() as int) =~= self.combos@);
        }
        s
    }
}

} // verus!
