use std::cmp::Ordering;
use vstd::prelude::*;

use crate::cards::{Board, Card, CardMask, HoleCards, Rank};

verus! {

broadcast use crate::cards::group_card_lemmas;

// ---------------------------------------------------------------------------
// The mathematical model of a five-card poker hand.
// ---------------------------------------------------------------------------

/// How many of `cards` have the rank at position `r`.
pub open spec fn rank_count(cards: Seq<Card>, r: int) -> int
    decreases cards.len(),
{
    if cards.len() == 0 {
        0
    } else {
        rank_count(cards.drop_last(), r) + if cards.last().spec_rank().code() == r {
            1int
        } else {
            0int
        }
    }
}

/// How many of `cards` have the suit at position `s`.
pub open spec fn suit_count(cards: Seq<Card>, s: int) -> int
    decreases cards.len(),
{
    if cards.len() == 0 {
        0
    } else {
        suit_count(cards.drop_last(), s) + if cards.last().spec_suit().code() == s {
            1int
        } else {
            0int
        }
    }
}

/// The thirteen rank counts of a hand, indexed by rank position.
pub open spec fn counts_of(cards: Seq<Card>) -> Seq<int> {
    Seq::new(13, |r: int| rank_count(cards, r))
}

/// Five cards of one suit.
pub open spec fn is_flush(cards: Seq<Card>) -> bool {
    ||| suit_count(cards, 0) == 5
    ||| suit_count(cards, 1) == 5
    ||| suit_count(cards, 2) == 5
    ||| suit_count(cards, 3) == 5
}

/// The five ranks ending at `h` are all present.
pub open spec fn run_ends_at(counts: Seq<int>, h: int) -> bool {
    &&& 4 <= h < 13
    &&& counts[h - 4] > 0
    &&& counts[h - 3] > 0
    &&& counts[h - 2] > 0
    &&& counts[h - 1] > 0
    &&& counts[h] > 0
}

/// Ace, two, three, four and five are all present.
pub open spec fn is_wheel(counts: Seq<int>) -> bool {
    counts[12] > 0 && counts[0] > 0 && counts[1] > 0 && counts[2] > 0 && counts[3] > 0
}

/// The lowest rank at or above `h` at which a run of five ranks ends.
pub open spec fn first_run_end(counts: Seq<int>, h: int) -> Option<int>
    decreases 13 - h,
{
    if h >= 13 {
        None
    } else if run_ends_at(counts, h) {
        Some(h)
    } else {
        first_run_end(counts, h + 1)
    }
}

/// The top rank of a straight: five for the wheel, else the end of the lowest run of five.
pub open spec fn straight_high(counts: Seq<int>) -> Option<int> {
    if is_wheel(counts) {
        Some(3)
    } else {
        first_run_end(counts, 4)
    }
}

/// The ranks at position `k` or above that occur exactly `c` times, highest first.
pub open spec fn ranks_with_count(counts: Seq<int>, c: int, k: int) -> Seq<int>
    decreases 13 - k,
{
    if k >= 13 {
        seq![]
    } else if counts[k] == c {
        ranks_with_count(counts, c, k + 1) + seq![k]
    } else {
        ranks_with_count(counts, c, k + 1)
    }
}

/// The rank groups of size `c` up to five, largest groups first and higher ranks first
/// within a size, as (size, rank) pairs.
pub open spec fn groups_at_least(counts: Seq<int>, c: int) -> Seq<(int, int)>
    decreases 6 - c,
{
    if c > 5 {
        seq![]
    } else {
        groups_at_least(counts, c + 1) + ranks_with_count(counts, c, 0).map_values(
            |r: int| (c, r),
        )
    }
}

/// The rank groups of a hand, ordered by size and then by rank, both descending.
pub open spec fn groups(counts: Seq<int>) -> Seq<(int, int)> {
    groups_at_least(counts, 1)
}

/// The size of the `i`-th group, zero past the end.
pub open spec fn group_size(g: Seq<(int, int)>, i: int) -> int {
    if 0 <= i < g.len() {
        g[i].0
    } else {
        0
    }
}

/// The rank of the `i`-th group, the lowest rank past the end.
pub open spec fn group_rank(g: Seq<(int, int)>, i: int) -> int {
    if 0 <= i < g.len() {
        g[i].1
    } else {
        0
    }
}

/// `n` copies of the rank `k`.
pub open spec fn repeat_rank(k: int, n: int) -> Seq<int> {
    Seq::new(
        if n > 0 {
            n as nat
        } else {
            0nat
        },
        |i: int| k,
    )
}

/// Every rank at position `k` or above, repeated as often as it occurs, highest first.
pub open spec fn descending_ranks(counts: Seq<int>, k: int) -> Seq<int>
    decreases 13 - k,
{
    if k >= 13 {
        seq![]
    } else {
        descending_ranks(counts, k + 1) + repeat_rank(k, counts[k])
    }
}

/// Five tie-breaking ranks: the given ones first, then twos.
pub open spec fn fill_ties(ranks: Seq<int>) -> Seq<int> {
    Seq::new(5, |i: int| if i < ranks.len() { ranks[i] } else { 0 })
}

/// The value of a five-card hand: its category position (high card 0 up to straight
/// flush 8) and its five tie-breaking rank positions.
pub open spec fn five_value(cards: Seq<Card>) -> (int, Seq<int>) {
    let counts = counts_of(cards);
    let g = groups(counts);
    let flush = is_flush(cards);
    let straight = straight_high(counts);
    if flush && straight is Some {
        (8, fill_ties(seq![straight->0]))
    } else if group_size(g, 0) == 4 {
        (7, fill_ties(seq![group_rank(g, 0), group_rank(g, 1)]))
    } else if group_size(g, 0) == 3 && group_size(g, 1) == 2 {
        (6, fill_ties(seq![group_rank(g, 0), group_rank(g, 1)]))
    } else if flush {
        (5, fill_ties(descending_ranks(counts, 0)))
    } else if straight is Some {
        (4, fill_ties(seq![straight->0]))
    } else if group_size(g, 0) == 3 {
        (3, fill_ties(seq![group_rank(g, 0), group_rank(g, 1), group_rank(g, 2)]))
    } else if group_size(g, 0) == 2 && group_size(g, 1) == 2 {
        (2, fill_ties(seq![group_rank(g, 0), group_rank(g, 1), group_rank(g, 2)]))
    } else if group_size(g, 0) == 2 {
        (
            1,
            fill_ties(seq![group_rank(g, 0), group_rank(g, 1), group_rank(g, 2), group_rank(g, 3)]),
        )
    } else {
        (0, fill_ties(descending_ranks(counts, 0)))
    }
}

/// A single number that orders hand values: category first, then the tie-breakers
/// in turn (each a digit in base 13).
pub open spec fn value_score(v: (int, Seq<int>)) -> int {
    (((((v.0 * 13) + v.1[0]) * 13 + v.1[1]) * 13 + v.1[2]) * 13 + v.1[3]) * 13 + v.1[4]
}

/// The five cards left when positions `i` and `j` (with `i < j`) are set aside.
pub open spec fn without_two(cards: Seq<Card>, i: int, j: int) -> Seq<Card> {
    cards.remove(j).remove(i)
}

/// The best value among all five-card subsets of seven cards: it is the value of one
/// of them and at least as high as each of them.
pub open spec fn is_best_of_seven(cards: Seq<Card>, v: (int, Seq<int>)) -> bool {
    &&& exists|i: int, j: int|
        0 <= i < j < 7 && v == #[trigger] five_value(without_two(cards, i, j))
    &&& forall|i: int, j: int|
        0 <= i < j < 7 ==> value_score(#[trigger] five_value(without_two(cards, i, j)))
            <= value_score(v)
}

/// All positions hold different cards.
pub open spec fn all_distinct(cards: Seq<Card>) -> bool {
    forall|a: int, b: int| 0 <= a < b < cards.len() ==> cards[a] != cards[b]
}

/// The position of the first card that repeats an earlier one, if any.
pub open spec fn first_repeat(cards: Seq<Card>) -> Option<int>
    decreases cards.len(),
{
    if cards.len() == 0 {
        None
    } else {
        match first_repeat(cards.drop_last()) {
            Some(k) => Some(k),
            None => if cards.drop_last().contains(cards.last()) {
                Some(cards.len() - 1)
            } else {
                None
            },
        }
    }
}

// ---------------------------------------------------------------------------
// Hand categories and values.
// ---------------------------------------------------------------------------

#[derive(Debug, Clone, Copy, PartialEq, Eq, PartialOrd, Ord, Hash, Structural)]
pub enum HandCategory {
    HighCard,
    OnePair,
    TwoPair,
    ThreeOfAKind,
    Straight,
    Flush,
    FullHouse,
    FourOfAKind,
    StraightFlush,
}

impl HandCategory {
    /// The category's position in strength order (high card 0, straight flush 8).
    pub open spec fn code(self) -> int {
        match self {
            HandCategory::HighCard => 0,
            HandCategory::OnePair => 1,
            HandCategory::TwoPair => 2,
            HandCategory::ThreeOfAKind => 3,
            HandCategory::Straight => 4,
            HandCategory::Flush => 5,
            HandCategory::FullHouse => 6,
            HandCategory::FourOfAKind => 7,
            HandCategory::StraightFlush => 8,
        }
    }

    pub fn index(self) -> (r: u64)
        ensures
            r == self.code(),
    {
        match self {
            HandCategory::HighCard => 0,
            HandCategory::OnePair => 1,
            HandCategory::TwoPair => 2,
            HandCategory::ThreeOfAKind => 3,
            HandCategory::Straight => 4,
            HandCategory::Flush => 5,
            HandCategory::FullHouse => 6,
            HandCategory::FourOfAKind => 7,
            HandCategory::StraightFlush => 8,
        }
    }
}

/// The value of a five-card hand: a category and five tie-breaking ranks. Values are
/// ordered by category and then by the tie-breakers in turn.
#[derive(Debug, Clone, Copy, PartialEq, Eq, PartialOrd, Ord, Hash)]
pub struct HandRank {
    category: HandCategory,
    tiebreakers: [Rank; 5],
}

impl View for HandRank {
    type V = (int, Seq<int>);

    closed spec fn view(&self) -> (int, Seq<int>) {
        (self.category.code(), self.tiebreakers@.map_values(|r: Rank| r.code()))
    }
}

/// Two hand values are equal exactly when their models are.
pub broadcast proof fn lemma_hand_rank_view_injective(a: HandRank, b: HandRank)
    ensures
        (#[trigger] a@ == #[trigger] b@) <==> (a == b),
{
    if a@ == b@ {
        assert(a.category == b.category);
        assert forall|i: int| 0 <= i < 5 implies a.tiebreakers@[i] == b.tiebreakers@[i] by {
            assert(a@.1[i] == b@.1[i]);
        }
        assert(a.tiebreakers@ =~= b.tiebreakers@);
        vstd::array::axiom_array_ext_equal(a.tiebreakers, b.tiebreakers);
    }
}

impl HandRank {
    /// The tie-breakers' positions lie in `0..13`.
    pub broadcast proof fn lemma_well_formed(self)
        ensures
            #![trigger self@]
            0 <= self@.0 <= 8,
            self@.1.len() == 5,
            forall|i: int| 0 <= i < 5 ==> 0 <= #[trigger] self@.1[i] < 13,
    {
    }

    pub closed spec fn category_spec(self) -> HandCategory {
        self.category
    }

    pub closed spec fn ties_spec(self) -> Seq<Rank> {
        self.tiebreakers@
    }

    pub fn category(self) -> (r: HandCategory)
        ensures
            r.code() == self@.0,
            r == self.category_spec(),
    {
        self.category
    }

    pub fn tiebreakers(self) -> (r: [Rank; 5])
        ensures
            r@.map_values(|k: Rank| k.code()) == self@.1,
            r@ == self.ties_spec(),
    {
        self.tiebreakers
    }

    /// The value's position in strength order.
    pub fn score(self) -> (r: u64)
        ensures
            r == value_score(self@),
    {
        let t = self.tiebreakers;
        let c = self.category.index();
        ((((c * 13 + t[0].index() as u64) * 13 + t[1].index() as u64) * 13 + t[2].index() as u64)
            * 13 + t[3].index() as u64) * 13 + t[4].index() as u64
    }
}

proof fn lemma_digit(x: int, a: int, y: int, b: int)
    requires
        x * 13 + a == y * 13 + b,
        0 <= a < 13,
        0 <= b < 13,
    ensures
        a == b,
        x == y,
{
    assert(a == b) by (nonlinear_arith)
        requires
            x * 13 + a == y * 13 + b,
            0 <= a < 13,
            0 <= b < 13,
    ;
}

/// Scores order hand values: equal scores mean equal values.
pub proof fn lemma_score_injective(a: HandRank, b: HandRank)
    ensures
        value_score(a@) == value_score(b@) <==> a == b,
{
    broadcast use lemma_hand_rank_view_injective;

    a.lemma_well_formed();
    b.lemma_well_formed();
    if value_score(a@) == value_score(b@) {
        let (ac, at) = a@;
        let (bc, bt) = b@;
        lemma_digit(
            ((((ac * 13) + at[0]) * 13 + at[1]) * 13 + at[2]) * 13 + at[3],
            at[4],
            ((((bc * 13) + bt[0]) * 13 + bt[1]) * 13 + bt[2]) * 13 + bt[3],
            bt[4],
        );
        lemma_digit(
            (((ac * 13) + at[0]) * 13 + at[1]) * 13 + at[2],
            at[3],
            (((bc * 13) + bt[0]) * 13 + bt[1]) * 13 + bt[2],
            bt[3],
        );
        lemma_digit(((ac * 13) + at[0]) * 13 + at[1], at[2], ((bc * 13) + bt[0]) * 13 + bt[1], bt[2]);
        lemma_digit((ac * 13) + at[0], at[1], (bc * 13) + bt[0], bt[1]);
        lemma_digit(ac, at[0], bc, bt[0]);
        assert(at =~= bt);
    }
}


// ---------------------------------------------------------------------------
// Five-card evaluation.
// ---------------------------------------------------------------------------

/// A vector of small counts read as integers.
pub open spec fn as_ints(v: Seq<u8>) -> Seq<int> {
    Seq::new(v.len(), |i: int| v[i] as int)
}

/// A vector of positions read as integers.
pub open spec fn usizes_as_ints(v: Seq<usize>) -> Seq<int> {
    Seq::new(v.len(), |i: int| v[i] as int)
}

proof fn lemma_rank_count_bound(cards: Seq<Card>, r: int)
    ensures
        0 <= rank_count(cards, r) <= cards.len(),
    decreases cards.len(),
{
    if cards.len() > 0 {
        lemma_rank_count_bound(cards.drop_last(), r);
    }
}

proof fn lemma_suit_count_bound(cards: Seq<Card>, s: int)
    ensures
        0 <= suit_count(cards, s) <= cards.len(),
    decreases cards.len(),
{
    if cards.len() > 0 {
        lemma_suit_count_bound(cards.drop_last(), s);
    }
}

/// The rank at a position known to be valid.
fn rank_at(code: usize) -> (r: Rank)
    requires
        code < 13,
    ensures
        r.code() == code,
{
    match Rank::from_index(code) {
        Some(rank) => rank,
        None => Rank::Two,
    }
}

/// Counts how many cards carry each rank and each suit.
fn rank_and_suit_counts(cards: &[Card]) -> (r: (Vec<u8>, Vec<u8>))
    requires
        cards@.len() <= 7,
    ensures
        r.0@.len() == 13,
        r.1@.len() == 4,
        forall|k: int| 0 <= k < 13 ==> r.0@[k] == rank_count(cards@, k),
        forall|k: int| 0 <= k < 4 ==> r.1@[k] == suit_count(cards@, k),
{
    let mut ranks: Vec<u8> = Vec::new();
    let mut i: usize = 0;
    while i < 13
        invariant
            i <= 13,
            ranks@.len() == i,
            forall|k: int| 0 <= k < i ==> ranks@[k] == 0,
        decreases 13 - i,
    {
        ranks.push(0);
        i = i + 1;
    }
    let mut suits: Vec<u8> = Vec::new();
    let mut i: usize = 0;
    while i < 4
        invariant
            i <= 4,
            suits@.len() == i,
            forall|k: int| 0 <= k < i ==> suits@[k] == 0,
        decreases 4 - i,
    {
        suits.push(0);
        i = i + 1;
    }
    let mut n: usize = 0;
    while n < cards.len()
        invariant
            n <= cards@.len() <= 7,
            ranks@.len() == 13,
            suits@.len() == 4,
            forall|k: int| 0 <= k < 13 ==> ranks@[k] == rank_count(cards@.take(n as int), k),
            forall|k: int| 0 <= k < 4 ==> suits@[k] == suit_count(cards@.take(n as int), k),
        decreases cards@.len() - n,
    {
        let card = cards[n];
        let rank_index = card.rank().index();
        let suit_index = card.suit().index();
        proof {
            assert(cards@.take(n + 1).drop_last() =~= cards@.take(n as int));
            lemma_rank_count_bound(cards@.take(n as int), rank_index as int);
            lemma_suit_count_bound(cards@.take(n as int), suit_index as int);
        }
        let rc = ranks[rank_index];
        ranks.set(rank_index, rc + 1);
        let sc = suits[suit_index];
        suits.set(suit_index, sc + 1);
        n = n + 1;
    }
    proof {
        assert(cards@.take(cards@.len() as int) =~= cards@);
    }
    (ranks, suits)
}

proof fn lemma_first_run_end_skip(counts: Seq<int>, from: int, h: int)
    requires
        4 <= from <= h,
        forall|k: int| from <= k < h ==> !run_ends_at(counts, k),
    ensures
        first_run_end(counts, from) == first_run_end(counts, h),
    decreases h - from,
{
    if from < h {
        lemma_first_run_end_skip(counts, from + 1, h);
    }
}

/// The top rank of a straight among the rank counts, if any.
fn find_straight_high_rank(counts: &Vec<u8>) -> (r: Option<usize>)
    requires
        counts@.len() == 13,
    ensures
        r matches Some(h) ==> straight_high(as_ints(counts@)) == Some(h as int) && h < 13,
        r is None ==> straight_high(as_ints(counts@)) is None,
{
    let ghost c = as_ints(counts@);
    if counts[12] > 0 && counts[0] > 0 && counts[1] > 0 && counts[2] > 0 && counts[3] > 0 {
        return Some(3);
    }
    let mut consecutive: usize = 0;
    let mut index: usize = 0;
    while index < 13
        invariant
            index <= 13,
            consecutive <= index,
            consecutive < 5,
            counts@.len() == 13,
            c == as_ints(counts@),
            !is_wheel(c),
            forall|k: int| index - consecutive <= k < index ==> c[k] > 0,
            consecutive < index ==> c[index - consecutive - 1] == 0,
            forall|h: int| 4 <= h < index ==> !run_ends_at(c, h),
        decreases 13 - index,
    {
        if counts[index] > 0 {
            consecutive = consecutive + 1;
            if consecutive == 5 {
                proof {
                    assert(run_ends_at(c, index as int));
                    lemma_first_run_end_skip(c, 4, index as int);
                }
                return Some(index);
            }
        } else {
            consecutive = 0;
        }
        proof {
            if index >= 4 {
                if run_ends_at(c, index as int) {
                    assert(c[index - consecutive - 1] == 0);
                }
            }
        }
        index = index + 1;
    }
    proof {
        lemma_first_run_end_skip(c, 4, 13);
    }
    None
}

/// The rank groups, largest first and higher ranks first within a size.
fn rank_groups(counts: &Vec<u8>) -> (g: Vec<(u8, usize)>)
    requires
        counts@.len() == 13,
    ensures
        g@.map_values(|p: (u8, usize)| (p.0 as int, p.1 as int)) == groups(as_ints(counts@)),
{
    let ghost c = as_ints(counts@);
    let mut g: Vec<(u8, usize)> = Vec::new();
    let mut size: u8 = 5;
    while size >= 1
        invariant
            1 <= size + 1 <= 6,
            counts@.len() == 13,
            c == as_ints(counts@),
            g@.map_values(|p: (u8, usize)| (p.0 as int, p.1 as int)) == groups_at_least(
                c,
                size + 1,
            ),
        decreases size,
    {
        let mut k: usize = 13;
        while k > 0
            invariant
                k <= 13,
                1 <= size <= 5,
                counts@.len() == 13,
                c == as_ints(counts@),
                g@.map_values(|p: (u8, usize)| (p.0 as int, p.1 as int)) == groups_at_least(
                    c,
                    size + 1,
                ) + ranks_with_count(c, size as int, k as int).map_values(
                    |r: int| (size as int, r),
                ),
            decreases k,
        {
            k = k - 1;
            let ghost prev = g@;
            if counts[k] == size {
                g.push((size, k));
                proof {
                    assert(g@.map_values(|p: (u8, usize)| (p.0 as int, p.1 as int))
                        =~= prev.map_values(|p: (u8, usize)| (p.0 as int, p.1 as int)).push(
                        (size as int, k as int),
                    ));
                    assert(ranks_with_count(c, size as int, k as int).map_values(
                        |r: int| (size as int, r),
                    ) =~= ranks_with_count(c, size as int, k + 1).map_values(
                        |r: int| (size as int, r),
                    ).push((size as int, k as int)));
                }
            }
        }
        proof {
            assert(g@.map_values(|p: (u8, usize)| (p.0 as int, p.1 as int)) =~= groups_at_least(
                c,
                size as int,
            ));
        }
        if size == 1 {
            return g;
        }
        size = size - 1;
    }
    g
}

/// Every rank, repeated as often as it occurs, highest first.
fn descending_rank_list(counts: &Vec<u8>) -> (r: Vec<usize>)
    requires
        counts@.len() == 13,
    ensures
        usizes_as_ints(r@) == descending_ranks(as_ints(counts@), 0),
        forall|i: int| 0 <= i < r@.len() ==> r@[i] < 13,
{
    let ghost c = as_ints(counts@);
    let mut ranks: Vec<usize> = Vec::new();
    let mut k: usize = 13;
    while k > 0
        invariant
            k <= 13,
            counts@.len() == 13,
            c == as_ints(counts@),
            usizes_as_ints(ranks@) == descending_ranks(c, k as int),
            forall|i: int| 0 <= i < ranks@.len() ==> ranks@[i] < 13,
        decreases k,
    {
        k = k - 1;
        let ghost before = ranks@;
        let mut copies: u8 = 0;
        while copies < counts[k]
            invariant
                k < 13,
                counts@.len() == 13,
                c == as_ints(counts@),
                copies <= counts@[k as int],
                usizes_as_ints(before) == descending_ranks(c, k + 1),
                usizes_as_ints(ranks@) == usizes_as_ints(before) + repeat_rank(
                    k as int,
                    copies as int,
                ),
                forall|i: int| 0 <= i < ranks@.len() ==> ranks@[i] < 13,
            decreases counts@[k as int] - copies,
        {
            let ghost prev = ranks@;
            ranks.push(k);
            proof {
                assert(usizes_as_ints(ranks@) =~= usizes_as_ints(prev).push(k as int));
                assert(repeat_rank(k as int, copies + 1) =~= repeat_rank(k as int, copies as int).push(
                    k as int,
                ));
                assert(usizes_as_ints(ranks@) =~= usizes_as_ints(before) + repeat_rank(
                    k as int,
                    copies + 1,
                ));
            }
            copies = copies + 1;
        }
        proof {
            assert(usizes_as_ints(ranks@) =~= descending_ranks(c, k as int));
        }
    }
    ranks
}

/// Five tie-breaking ranks: the given ones first, then twos.
fn fill_tiebreakers(ranks: &Vec<usize>) -> (r: [Rank; 5])
    requires
        forall|i: int| 0 <= i < ranks@.len() ==> ranks@[i] < 13,
    ensures
        r@.map_values(|k: Rank| k.code()) == fill_ties(usizes_as_ints(ranks@)),
{
    let mut ties = [Rank::Two, Rank::Two, Rank::Two, Rank::Two, Rank::Two];
    let mut i: usize = 0;
    while i < 5
        invariant
            i <= 5,
            forall|k: int| 0 <= k < ranks@.len() ==> ranks@[k] < 13,
            forall|k: int|
                0 <= k < 5 ==> (#[trigger] ties@[k]).code() == if k < i && k < ranks@.len() {
                    ranks@[k] as int
                } else {
                    0
                },
        decreases 5 - i,
    {
        if i < ranks.len() {
            ties[i] = rank_at(ranks[i]);
        }
        i = i + 1;
    }
    proof {
        assert(ties@.map_values(|k: Rank| k.code()) =~= fill_ties(usizes_as_ints(ranks@)));
    }
    ties
}

fn group_size_at(g: &Vec<(u8, usize)>, i: usize) -> (r: u8)
    ensures
        r == group_size(g@.map_values(|p: (u8, usize)| (p.0 as int, p.1 as int)), i as int),
{
    if i < g.len() {
        g[i].0
    } else {
        0
    }
}

fn group_rank_at(g: &Vec<(u8, usize)>, i: usize) -> (r: usize)
    requires
        forall|k: int| 0 <= k < g@.len() ==> g@[k].1 < 13,
    ensures
        r == group_rank(g@.map_values(|p: (u8, usize)| (p.0 as int, p.1 as int)), i as int),
        r < 13,
{
    if i < g.len() {
        g[i].1
    } else {
        0
    }
}

proof fn lemma_ranks_with_count_bound(counts: Seq<int>, c: int, k: int)
    requires
        k >= 0,
    ensures
        forall|i: int|
            0 <= i < ranks_with_count(counts, c, k).len() ==> 0 <= #[trigger] ranks_with_count(
                counts,
                c,
                k,
            )[i] < 13,
    decreases 13 - k,
{
    if k < 13 {
        lemma_ranks_with_count_bound(counts, c, k + 1);
        let rest = ranks_with_count(counts, c, k + 1);
        if counts[k] == c {
            assert forall|i: int| 0 <= i < (rest + seq![k]).len() implies 0 <= #[trigger] (rest
                + seq![k])[i] < 13 by {
                if i < rest.len() {
                    assert((rest + seq![k])[i] == rest[i]);
                }
            }
        }
    }
}

proof fn lemma_groups_bound(counts: Seq<int>, c: int)
    ensures
        forall|i: int|
            0 <= i < groups_at_least(counts, c).len() ==> 0 <= (
            #[trigger] groups_at_least(counts, c)[i]).1 < 13,
    decreases 6 - c,
{
    if c <= 5 {
        lemma_groups_bound(counts, c + 1);
        lemma_ranks_with_count_bound(counts, c, 0);
        let a = groups_at_least(counts, c + 1);
        let b = ranks_with_count(counts, c, 0).map_values(|r: int| (c, r));
        assert forall|i: int| 0 <= i < (a + b).len() implies 0 <= (#[trigger] (a + b)[i]).1 < 13 by {
            if i >= a.len() {
                assert(b[i - a.len()] == (c, ranks_with_count(counts, c, 0)[i - a.len()]));
            }
        }
    }
}

fn make_rank(category: HandCategory, ranks: &Vec<usize>) -> (r: HandRank)
    requires
        forall|i: int| 0 <= i < ranks@.len() ==> ranks@[i] < 13,
    ensures
        r@ == (category.code(), fill_ties(usizes_as_ints(ranks@))),
{
    let tiebreakers = fill_tiebreakers(ranks);
    HandRank { category, tiebreakers }
}

/// Evaluates five cards, which need not be distinct.
fn evaluate_five_unchecked(cards: &[Card]) -> (r: HandRank)
    requires
        cards@.len() == 5,
    ensures
        r@ == five_value(cards@),
{
    let (rank_counts, suit_counts) = rank_and_suit_counts(cards);
    let ghost c = as_ints(rank_counts@);
    proof {
        assert(c =~= counts_of(cards@));
    }
    let is_flush = suit_counts[0] == 5 || suit_counts[1] == 5 || suit_counts[2] == 5
        || suit_counts[3] == 5;
    let straight_high_rank = find_straight_high_rank(&rank_counts);
    let g = rank_groups(&rank_counts);
    let ghost gm = g@.map_values(|p: (u8, usize)| (p.0 as int, p.1 as int));
    proof {
        lemma_groups_bound(c, 1);
        assert forall|k: int| 0 <= k < g@.len() implies g@[k].1 < 13 by {
            assert(gm[k].1 == g@[k].1);
        }
    }
    if is_flush {
        if let Some(high) = straight_high_rank {
            let mut v: Vec<usize> = Vec::new();
            v.push(high);
            proof {
                assert(usizes_as_ints(v@) =~= seq![high as int]);
            }
            return make_rank(HandCategory::StraightFlush, &v);
        }
    }
    let g0 = group_size_at(&g, 0);
    let g1 = group_size_at(&g, 1);
    let r0 = group_rank_at(&g, 0);
    let r1 = group_rank_at(&g, 1);
    let r2 = group_rank_at(&g, 2);
    let r3 = group_rank_at(&g, 3);
    if g0 == 4 {
        let v = vec![r0, r1];
        proof {
            assert(usizes_as_ints(v@) =~= seq![r0 as int, r1 as int]);
        }
        return make_rank(HandCategory::FourOfAKind, &v);
    }
    if g0 == 3 && g1 == 2 {
        let v = vec![r0, r1];
        proof {
            assert(usizes_as_ints(v@) =~= seq![r0 as int, r1 as int]);
        }
        return make_rank(HandCategory::FullHouse, &v);
    }
    if is_flush {
        let v = descending_rank_list(&rank_counts);
        return make_rank(HandCategory::Flush, &v);
    }
    if let Some(high) = straight_high_rank {
        let v = vec![high];
        proof {
            assert(usizes_as_ints(v@) =~= seq![high as int]);
        }
        return make_rank(HandCategory::Straight, &v);
    }
    if g0 == 3 {
        let v = vec![r0, r1, r2];
        proof {
            assert(usizes_as_ints(v@) =~= seq![r0 as int, r1 as int, r2 as int]);
        }
        return make_rank(HandCategory::ThreeOfAKind, &v);
    }
    if g0 == 2 && g1 == 2 {
        let v = vec![r0, r1, r2];
        proof {
            assert(usizes_as_ints(v@) =~= seq![r0 as int, r1 as int, r2 as int]);
        }
        return make_rank(HandCategory::TwoPair, &v);
    }
    if g0 == 2 {
        let v = vec![r0, r1, r2, r3];
        proof {
            assert(usizes_as_ints(v@) =~= seq![r0 as int, r1 as int, r2 as int, r3 as int]);
        }
        return make_rank(HandCategory::OnePair, &v);
    }
    let v = descending_rank_list(&rank_counts);
    make_rank(HandCategory::HighCard, &v)
}

// ---------------------------------------------------------------------------
// Seven-card evaluation and showdowns.
// ---------------------------------------------------------------------------

/// The cards left when positions `i` and `j` are set aside.
fn omit_two(cards: &[Card], i: usize, j: usize) -> (r: Vec<Card>)
    requires
        i < j < cards@.len(),
    ensures
        r@ == without_two(cards@, i as int, j as int),
{
    let mut v = vstd::slice::slice_to_vec(cards);
    v.remove(j);
    v.remove(i);
    v
}

/// Evaluates seven cards, which need not be distinct: the best of their 21 five-card
/// subsets.
fn evaluate_seven_unchecked(cards: &[Card]) -> (r: HandRank)
    requires
        cards@.len() == 7,
    ensures
        is_best_of_seven(cards@, r@),
{
    let mut best: Option<HandRank> = None;
    let mut i: usize = 0;
    while i < 6
        invariant
            i <= 6,
            cards@.len() == 7,
            i > 0 ==> best is Some,
            best matches Some(b) ==> exists|a: int, c: int|
                0 <= a < c < 7 && b@ == #[trigger] five_value(without_two(cards@, a, c)),
            best matches Some(b) ==> forall|a: int, c: int|
                0 <= a < i && a < c < 7 ==> value_score(
                    #[trigger] five_value(without_two(cards@, a, c)),
                ) <= value_score(b@),
        decreases 6 - i,
    {
        let mut j: usize = i + 1;
        while j < 7
            invariant
                i < 6,
                i + 1 <= j <= 7,
                cards@.len() == 7,
                i > 0 || j > i + 1 ==> best is Some,
                best matches Some(b) ==> exists|a: int, c: int|
                    0 <= a < c < 7 && b@ == #[trigger] five_value(without_two(cards@, a, c)),
                best matches Some(b) ==> forall|a: int, c: int|
                    ((0 <= a < i && a < c < 7) || (a == i && i < c < j)) ==> value_score(
                        #[trigger] five_value(without_two(cards@, a, c)),
                    ) <= value_score(b@),
            decreases 7 - j,
        {
            let five = omit_two(cards, i, j);
            let rank = evaluate_five_unchecked(five.as_slice());
            let replace = match best {
                None => true,
                Some(b) => rank.score() > b.score(),
            };
            if replace {
                best = Some(rank);
            }
            j = j + 1;
        }
        i = i + 1;
    }
    match best {
        Some(b) => b,
        None => {
            proof {
                assert(false);
            }
            HandRank {
                category: HandCategory::HighCard,
                tiebreakers: [Rank::Two, Rank::Two, Rank::Two, Rank::Two, Rank::Two],
            }
        },
    }
}

proof fn lemma_first_repeat_step(cards: Seq<Card>, n: int)
    requires
        0 <= n < cards.len(),
        first_repeat(cards.take(n)) is None,
    ensures
        first_repeat(cards.take(n + 1)) == if cards.take(n).contains(cards[n]) {
            Some(n)
        } else {
            None::<int>
        },
{
    assert(cards.take(n + 1).drop_last() =~= cards.take(n));
}

proof fn lemma_first_repeat_stops(cards: Seq<Card>, n: int)
    requires
        0 <= n <= cards.len(),
        first_repeat(cards.take(n)) is Some,
    ensures
        first_repeat(cards) == first_repeat(cards.take(n)),
    decreases cards.len() - n,
{
    if n < cards.len() {
        assert(cards.take(n + 1).drop_last() =~= cards.take(n));
        lemma_first_repeat_stops(cards, n + 1);
    } else {
        assert(cards.take(n) =~= cards);
    }
}

/// The first repeat is the least position whose card repeats an earlier one: it
/// repeats a card before it, and the cards before it are all different.
pub proof fn lemma_first_repeat_is_least(cards: Seq<Card>)
    ensures
        first_repeat(cards) matches Some(j) ==> {
            &&& 0 <= j < cards.len()
            &&& exists|i: int| 0 <= i < j && cards[i] == cards[j]
            &&& all_distinct(cards.take(j))
        },
    decreases cards.len(),
{
    if cards.len() > 0 {
        let p = cards.drop_last();
        lemma_first_repeat_is_least(p);
        match first_repeat(p) {
            Some(j) => {
                let i = choose|i: int| 0 <= i < j && p[i] == p[j];
                assert(cards[i] == p[i] && cards[j] == p[j]);
                assert(cards.take(j) =~= p.take(j));
            },
            None => {
                lemma_first_repeat_none(p);
                if p.contains(cards.last()) {
                    let i = choose|i: int| 0 <= i < p.len() && p[i] == cards.last();
                    assert(cards[i] == p[i]);
                    assert(cards.take(cards.len() - 1) =~= p);
                }
            },
        }
    }
}

/// A hand without a repeated card has no two equal positions.
pub proof fn lemma_first_repeat_none(cards: Seq<Card>)
    ensures
        first_repeat(cards) is None <==> all_distinct(cards),
    decreases cards.len(),
{
    if cards.len() > 0 {
        let p = cards.drop_last();
        lemma_first_repeat_none(p);
        if first_repeat(cards) is None {
            assert forall|a: int, b: int| 0 <= a < b < cards.len() implies cards[a] != cards[b] by {
                if b < cards.len() - 1 {
                    assert(p[a] == cards[a] && p[b] == cards[b]);
                } else {
                    assert(p[a] == cards[a]);
                }
            }
        }
        if all_distinct(cards) {
            assert(all_distinct(p)) by {
                assert forall|a: int, b: int| 0 <= a < b < p.len() implies p[a] != p[b] by {
                    assert(p[a] == cards[a] && p[b] == cards[b]);
                }
            }
            if p.contains(cards.last()) {
                let k = choose|k: int| 0 <= k < p.len() && p[k] == cards.last();
                assert(cards[k] == cards[cards.len() - 1]);
            }
        }
    }
}

/// Returns the first card that repeats an earlier one.
fn validate_unique_cards(cards: &[Card]) -> (r: Result<(), EvaluateHandError>)
    ensures
        match first_repeat(cards@) {
            None => r is Ok,
            Some(k) => r == Err::<(), EvaluateHandError>(
                EvaluateHandError::DuplicateCard { card: cards@[k] },
            ),
        },
{
    let mut seen = CardMask::empty();
    let mut n: usize = 0;
    while n < cards.len()
        invariant
            n <= cards@.len(),
            first_repeat(cards@.take(n as int)) is None,
            forall|i: int| #[trigger] seen@.contains(i) <==> exists|k: int|
                0 <= k < n && cards@[k].code() == i,
        decreases cards@.len() - n,
    {
        let card = cards[n];
        proof {
            lemma_first_repeat_step(cards@, n as int);
            if cards@.take(n as int).contains(card) {
                let k = choose|k: int| 0 <= k < n && cards@.take(n as int)[k] == card;
                assert(cards@[k].code() == card.code());
            }
            if seen@.contains(card.code()) {
                let k = choose|k: int| 0 <= k < n && cards@[k].code() == card.code();
                assert(cards@.take(n as int)[k] == card);
            }
        }
        if !seen.insert(card) {
            proof {
                lemma_first_repeat_stops(cards@, n + 1);
            }
            return Err(EvaluateHandError::DuplicateCard { card });
        }
        proof {
            assert forall|i: int| #[trigger] seen@.contains(i) implies exists|k: int|
                0 <= k < n + 1 && cards@[k].code() == i by {
                if i != card.code() {
                    let k = choose|k: int| 0 <= k < n && cards@[k].code() == i;
                    assert(0 <= k < n + 1 && cards@[k].code() == i);
                } else {
                    assert(cards@[n as int].code() == i);
                }
            }
            assert forall|i: int| (exists|k: int| 0 <= k < n + 1 && cards@[k].code() == i)
                implies #[trigger] seen@.contains(i) by {
                let k = choose|k: int| 0 <= k < n + 1 && cards@[k].code() == i;
                if k < n {
                    assert(0 <= k < n && cards@[k].code() == i);
                }
            }
        }
        n = n + 1;
    }
    proof {
        assert(cards@.take(cards@.len() as int) =~= cards@);
    }
    Ok(())
}

/// Evaluates five distinct cards.
pub fn evaluate_five(cards: [Card; 5]) -> (r: Result<HandRank, EvaluateHandError>)
    ensures
        match first_repeat(cards@) {
            None => r matches Ok(h) && h@ == five_value(cards@),
            Some(k) => r == Err::<HandRank, EvaluateHandError>(
                EvaluateHandError::DuplicateCard { card: cards@[k] },
            ),
        },
{
    validate_unique_cards(&cards)?;
    Ok(evaluate_five_unchecked(&cards))
}

/// Every five of seven distinct cards are distinct, so `evaluate_five` gives each of
/// the 21 subsets its value; with `lemma_best_of_seven_unique`, what `evaluate_seven`
/// returns is the one highest of those values.
pub proof fn lemma_seven_subsets_are_distinct(cards: Seq<Card>, i: int, j: int)
    requires
        cards.len() == 7,
        first_repeat(cards) is None,
        0 <= i < j < 7,
    ensures
        first_repeat(without_two(cards, i, j)) is None,
        without_two(cards, i, j).len() == 5,
{
    lemma_first_repeat_none(cards);
    let w = without_two(cards, i, j);
    assert forall|x: int, y: int| 0 <= x < y < w.len() implies w[x] != w[y] by {
        let xi = if x < i { x } else if x + 1 < j { x + 1 } else { x + 2 };
        let yi = if y < i { y } else if y + 1 < j { y + 1 } else { y + 2 };
        assert(w[x] == cards[xi]);
        assert(w[y] == cards[yi]);
    }
    lemma_first_repeat_none(w);
}

/// Evaluates seven distinct cards: the best hand that five of them make.
pub fn evaluate_seven(cards: [Card; 7]) -> (r: Result<HandRank, EvaluateHandError>)
    ensures
        match first_repeat(cards@) {
            None => r matches Ok(h) && is_best_of_seven(cards@, h@),
            Some(k) => r == Err::<HandRank, EvaluateHandError>(
                EvaluateHandError::DuplicateCard { card: cards@[k] },
            ),
        },
{
    validate_unique_cards(&cards)?;
    Ok(evaluate_seven_unchecked(&cards))
}

#[derive(Debug, Clone, Copy, PartialEq, Eq, Structural)]
pub enum EvaluateHandError {
    DuplicateCard { card: Card },
}

/// The seven cards a player shows down with: two hole cards, then the board.
pub open spec fn showdown_cards(hole: HoleCards, board: Seq<Card>) -> Seq<Card> {
    seq![hole@.0, hole@.1] + board
}

/// The first card of the two hands that is already on the board or in an earlier hand
/// position, scanning the first player's cards, then the second's.
pub open spec fn showdown_duplicate(board: Seq<Card>, one: HoleCards, two: HoleCards) -> Option<
    Card,
> {
    let seen = board;
    if seen.contains(one@.0) {
        Some(one@.0)
    } else if seen.push(one@.0).contains(one@.1) {
        Some(one@.1)
    } else if seen.push(one@.0).push(one@.1).contains(two@.0) {
        Some(two@.0)
    } else if seen.push(one@.0).push(one@.1).push(two@.0).contains(two@.1) {
        Some(two@.1)
    } else {
        None
    }
}


/// The value of the best five of seven cards (see `is_best_of_seven`).
pub open spec fn best_of_seven(cards: Seq<Card>) -> HandRank {
    choose|h: HandRank| is_best_of_seven(cards, h@)
}

/// The best of seven cards is unique.
pub proof fn lemma_best_of_seven_unique(cards: Seq<Card>, a: HandRank, b: HandRank)
    requires
        is_best_of_seven(cards, a@),
        is_best_of_seven(cards, b@),
    ensures
        a == b,
{
    let (i, j) = choose|i: int, j: int|
        0 <= i < j < 7 && a@ == #[trigger] five_value(without_two(cards, i, j));
    let (k, l) = choose|k: int, l: int|
        0 <= k < l < 7 && b@ == #[trigger] five_value(without_two(cards, k, l));
    assert(value_score(five_value(without_two(cards, i, j))) <= value_score(b@));
    assert(value_score(five_value(without_two(cards, k, l))) <= value_score(a@));
    lemma_score_injective(a, b);
}

/// The showdown of two hands on a five-card board.
pub open spec fn spec_showdown(board: Seq<Card>, one: HoleCards, two: HoleCards) -> ShowdownResult {
    ShowdownResult {
        player_one_rank: best_of_seven(showdown_cards(one, board)),
        player_two_rank: best_of_seven(showdown_cards(two, board)),
    }
}

/// The result of resolving a showdown of two hands on a board.
pub open spec fn spec_resolve_showdown(board: Seq<Card>, one: HoleCards, two: HoleCards) -> Result<
    ShowdownResult,
    ShowdownError,
> {
    if board.len() != 5 {
        Err(ShowdownError::BoardMustContainFiveCards { actual_len: board.len() as usize })
    } else {
        match showdown_duplicate(board, one, two) {
            Some(c) => Err(ShowdownError::DuplicateCard { card: c }),
            None => Ok(spec_showdown(board, one, two)),
        }
    }
}

/// Evaluates both players' best hands on a complete five-card board.
pub fn resolve_holdem_showdown(board: &Board, player_one: HoleCards, player_two: HoleCards) -> (r:
    Result<ShowdownResult, ShowdownError>)
    ensures
        board@.len() != 5 ==> r == Err::<ShowdownResult, ShowdownError>(
            ShowdownError::BoardMustContainFiveCards { actual_len: board@.len() as usize },
        ),
        board@.len() == 5 ==> match showdown_duplicate(board@, player_one, player_two) {
            Some(c) => r == Err::<ShowdownResult, ShowdownError>(
                ShowdownError::DuplicateCard { card: c },
            ),
            None => r matches Ok(res) && is_best_of_seven(
                showdown_cards(player_one, board@),
                res.player_one_rank@,
            ) && is_best_of_seven(showdown_cards(player_two, board@), res.player_two_rank@),
        },
        r == spec_resolve_showdown(board@, player_one, player_two),
{
    if board.len() != 5 {
        return Err(ShowdownError::BoardMustContainFiveCards { actual_len: board.len() });
    }
    let b = board.cards();
    let mut seen = vstd::slice::slice_to_vec(b);
    let candidates = [player_one.first(), player_one.second(), player_two.first(), player_two.second()];
    let ghost start = seen@;
    let mut n: usize = 0;
    while n < 4
        invariant
            n <= 4,
            start == board@,
            board@.len() == 5,
            candidates@ == seq![player_one@.0, player_one@.1, player_two@.0, player_two@.1],
            seen@ == start + candidates@.take(n as int),
            forall|m: int|
                0 <= m < n ==> !(start + candidates@.take(m)).contains(#[trigger] candidates@[m]),
        decreases 4 - n,
    {
        let card = candidates[n];
        if contains_card_slice(seen.as_slice(), card) {
            proof {
                assert(candidates@.take(0) =~= seq![]);
                assert(candidates@.take(1) =~= seq![candidates@[0]]);
                assert(candidates@.take(2) =~= seq![candidates@[0], candidates@[1]]);
                assert(candidates@.take(3) =~= seq![candidates@[0], candidates@[1], candidates@[2]]);
                assert(start + candidates@.take(0) =~= start);
                assert(start + candidates@.take(1) =~= start.push(candidates@[0]));
                assert(start + candidates@.take(2) =~= start.push(candidates@[0]).push(candidates@[1]));
                assert(start + candidates@.take(3) =~= start.push(candidates@[0]).push(
                    candidates@[1],
                ).push(candidates@[2]));
            }
            return Err(ShowdownError::DuplicateCard { card });
        }
        seen.push(card);
        proof {
            assert(seen@ =~= start + candidates@.take(n + 1));
        }
        n = n + 1;
    }
    proof {
        assert(candidates@.take(0) =~= seq![]);
        assert(candidates@.take(1) =~= seq![candidates@[0]]);
        assert(candidates@.take(2) =~= seq![candidates@[0], candidates@[1]]);
        assert(candidates@.take(3) =~= seq![candidates@[0], candidates@[1], candidates@[2]]);
        assert(start + candidates@.take(0) =~= start);
        assert(start + candidates@.take(1) =~= start.push(candidates@[0]));
        assert(start + candidates@.take(2) =~= start.push(candidates@[0]).push(candidates@[1]));
        assert(start + candidates@.take(3) =~= start.push(candidates@[0]).push(candidates@[1]).push(
            candidates@[2],
        ));
        assert(!start.contains(candidates@[0]));
    }
    let one = [player_one.first(), player_one.second(), b[0], b[1], b[2], b[3], b[4]];
    let two = [player_two.first(), player_two.second(), b[0], b[1], b[2], b[3], b[4]];
    proof {
        assert(one@ =~= showdown_cards(player_one, board@));
        assert(two@ =~= showdown_cards(player_two, board@));
    }
    let player_one_rank = evaluate_seven_unchecked(&one);
    let player_two_rank = evaluate_seven_unchecked(&two);
    proof {
        let c1 = showdown_cards(player_one, board@);
        let c2 = showdown_cards(player_two, board@);
        lemma_best_of_seven_unique(c1, player_one_rank, best_of_seven(c1));
        lemma_best_of_seven_unique(c2, player_two_rank, best_of_seven(c2));
    }
    Ok(ShowdownResult { player_one_rank, player_two_rank })
}

/// Whether `card` occurs in `cards`.
fn contains_card_slice(cards: &[Card], card: Card) -> (r: bool)
    ensures
        r == cards@.contains(card),
{
    let mut i: usize = 0;
    while i < cards.len()
        invariant
            i <= cards@.len(),
            forall|k: int| 0 <= k < i ==> cards@[k] != card,
        decreases cards@.len() - i,
    {
        if cards[i] == card {
            return true;
        }
        i = i + 1;
    }
    false
}

/// The pot split for a comparison of player one's hand against player two's: all to
/// the better hand; on a tie, half each, with the odd chip to the given player.
pub open spec fn spec_award(total_pot: u64, one_wins: bool, two_wins: bool, recipient: OddChipRecipient) -> (
    int,
    int,
) {
    if one_wins {
        (total_pot as int, 0)
    } else if two_wins {
        (0, total_pot as int)
    } else {
        let split = total_pot / 2;
        let odd = total_pot % 2;
        match recipient {
            OddChipRecipient::PlayerOne => (split + odd, split as int),
            OddChipRecipient::PlayerTwo => (split as int, split + odd),
        }
    }
}

pub fn award_pot_heads_up(
    total_pot: u64,
    ordering: Ordering,
    odd_chip_recipient: OddChipRecipient,
) -> (r: HeadsUpPayout)
    ensures
        r.amounts() == spec_award(
            total_pot,
            ordering == Ordering::Greater,
            ordering == Ordering::Less,
            odd_chip_recipient,
        ),
        r.player_one + r.player_two == total_pot,
{
    match ordering {
        Ordering::Greater => HeadsUpPayout { player_one: total_pot, player_two: 0 },
        Ordering::Less => HeadsUpPayout { player_one: 0, player_two: total_pot },
        Ordering::Equal => {
            let split = total_pot / 2;
            let odd_chip = total_pot % 2;
            match odd_chip_recipient {
                OddChipRecipient::PlayerOne => HeadsUpPayout {
                    player_one: split + odd_chip,
                    player_two: split,
                },
                OddChipRecipient::PlayerTwo => HeadsUpPayout {
                    player_one: split,
                    player_two: split + odd_chip,
                },
            }
        },
    }
}

/// Both players' best hands at a showdown.
#[derive(Debug, Clone, Copy, PartialEq, Eq)]
pub struct ShowdownResult {
    pub player_one_rank: HandRank,
    pub player_two_rank: HandRank,
}

impl ShowdownResult {
    /// Player one's hand beats player two's.
    pub open spec fn one_wins(self) -> bool {
        value_score(self.player_one_rank@) > value_score(self.player_two_rank@)
    }

    /// Player two's hand beats player one's.
    pub open spec fn two_wins(self) -> bool {
        value_score(self.player_one_rank@) < value_score(self.player_two_rank@)
    }

    /// How player one's hand compares with player two's.
    pub fn ordering(self) -> (r: Ordering)
        ensures
            (r == Ordering::Greater) == self.one_wins(),
            (r == Ordering::Less) == self.two_wins(),
    {
        let one = self.player_one_rank.score();
        let two = self.player_two_rank.score();
        if one > two {
            Ordering::Greater
        } else if one < two {
            Ordering::Less
        } else {
            Ordering::Equal
        }
    }

    pub fn payout(self, total_pot: u64, odd_chip_recipient: OddChipRecipient) -> (r: HeadsUpPayout)
        ensures
            r.amounts() == spec_award(
                total_pot,
                self.one_wins(),
                self.two_wins(),
                odd_chip_recipient,
            ),
            r.player_one + r.player_two == total_pot,
    {
        award_pot_heads_up(total_pot, self.ordering(), odd_chip_recipient)
    }
}

/// Chips paid out to each player at the end of a hand.
#[derive(Debug, Clone, Copy, PartialEq, Eq, Structural)]
pub struct HeadsUpPayout {
    pub player_one: u64,
    pub player_two: u64,
}

impl HeadsUpPayout {
    /// The two amounts as integers.
    pub open spec fn amounts(self) -> (int, int) {
        (self.player_one as int, self.player_two as int)
    }
}

#[derive(Debug, Clone, Copy, PartialEq, Eq, Structural)]
pub enum OddChipRecipient {
    PlayerOne,
    PlayerTwo,
}

#[derive(Debug, Clone, Copy, PartialEq, Eq, Structural)]
pub enum ShowdownError {
    BoardMustContainFiveCards { actual_len: usize },
    DuplicateCard { card: Card },
}

} // verus!
