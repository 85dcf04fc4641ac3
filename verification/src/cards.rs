use std::cmp::Ordering;

use vstd::prelude::*;
use vstd::std_specs::cmp::{PartialOrdSpec, PartialOrdSpecImpl};

verus! {

/// The four suits, ordered clubs < diamonds < hearts < spades.
#[derive(Debug, Clone, Copy, PartialEq, Eq, PartialOrd, Ord, Hash, Structural)]
pub enum Suit {
    Clubs,
    Diamonds,
    Hearts,
    Spades,
}

impl Suit {
    /// The position of the suit in the canonical order (0..4).
    pub open spec fn code(self) -> int {
        match self {
            Suit::Clubs => 0,
            Suit::Diamonds => 1,
            Suit::Hearts => 2,
            Suit::Spades => 3,
        }
    }

    /// The suit at a position of the canonical order, if any.
    pub open spec fn spec_from_code(code: int) -> Option<Suit> {
        if code == 0 {
            Some(Suit::Clubs)
        } else if code == 1 {
            Some(Suit::Diamonds)
        } else if code == 2 {
            Some(Suit::Hearts)
        } else if code == 3 {
            Some(Suit::Spades)
        } else {
            None
        }
    }

    pub fn from_index(index: usize) -> (r: Option<Self>)
        ensures
            r == Suit::spec_from_code(index as int),
            r is Some <==> index < 4,
            r matches Some(s) ==> s.code() == index,
    {
        match index {
            0 => Some(Suit::Clubs),
            1 => Some(Suit::Diamonds),
            2 => Some(Suit::Hearts),
            3 => Some(Suit::Spades),
            _ => None,
        }
    }

    pub fn index(self) -> (r: usize)
        ensures
            r == self.code(),
            r < 4,
    {
        match self {
            Suit::Clubs => 0,
            Suit::Diamonds => 1,
            Suit::Hearts => 2,
            Suit::Spades => 3,
        }
    }

    /// The lower-case letter that names the suit.
    pub open spec fn spec_symbol(self) -> char {
        match self {
            Suit::Clubs => 'c',
            Suit::Diamonds => 'd',
            Suit::Hearts => 'h',
            Suit::Spades => 's',
        }
    }

    pub fn symbol(self) -> (r: char)
        ensures
            r == self.spec_symbol(),
    {
        match self {
            Suit::Clubs => 'c',
            Suit::Diamonds => 'd',
            Suit::Hearts => 'h',
            Suit::Spades => 's',
        }
    }

    /// The suit that a letter names, in either case.
    pub open spec fn spec_from_char(c: char) -> Option<Suit> {
        if c == 'c' || c == 'C' {
            Some(Suit::Clubs)
        } else if c == 'd' || c == 'D' {
            Some(Suit::Diamonds)
        } else if c == 'h' || c == 'H' {
            Some(Suit::Hearts)
        } else if c == 's' || c == 'S' {
            Some(Suit::Spades)
        } else {
            None
        }
    }

    pub fn from_char(c: char) -> (r: Option<Suit>)
        ensures
            r == Suit::spec_from_char(c),
    {
        if c == 'c' || c == 'C' {
            Some(Suit::Clubs)
        } else if c == 'd' || c == 'D' {
            Some(Suit::Diamonds)
        } else if c == 'h' || c == 'H' {
            Some(Suit::Hearts)
        } else if c == 's' || c == 'S' {
            Some(Suit::Spades)
        } else {
            None
        }
    }
}

/// The thirteen ranks, ordered two < three < ... < king < ace.
#[derive(Debug, Clone, Copy, PartialEq, Eq, Ord, Hash, Structural)]
pub enum Rank {
    Two,
    Three,
    Four,
    Five,
    Six,
    Seven,
    Eight,
    Nine,
    Ten,
    Jack,
    Queen,
    King,
    Ace,
}

impl Rank {
    /// The position of the rank in the canonical order (0 for a two, 12 for an ace).
    pub open spec fn code(self) -> int {
        match self {
            Rank::Two => 0,
            Rank::Three => 1,
            Rank::Four => 2,
            Rank::Five => 3,
            Rank::Six => 4,
            Rank::Seven => 5,
            Rank::Eight => 6,
            Rank::Nine => 7,
            Rank::Ten => 8,
            Rank::Jack => 9,
            Rank::Queen => 10,
            Rank::King => 11,
            Rank::Ace => 12,
        }
    }

    /// The rank at a position of the canonical order, if any.
    pub open spec fn spec_from_code(code: int) -> Option<Rank> {
        if code == 0 {
            Some(Rank::Two)
        } else if code == 1 {
            Some(Rank::Three)
        } else if code == 2 {
            Some(Rank::Four)
        } else if code == 3 {
            Some(Rank::Five)
        } else if code == 4 {
            Some(Rank::Six)
        } else if code == 5 {
            Some(Rank::Seven)
        } else if code == 6 {
            Some(Rank::Eight)
        } else if code == 7 {
            Some(Rank::Nine)
        } else if code == 8 {
            Some(Rank::Ten)
        } else if code == 9 {
            Some(Rank::Jack)
        } else if code == 10 {
            Some(Rank::Queen)
        } else if code == 11 {
            Some(Rank::King)
        } else if code == 12 {
            Some(Rank::Ace)
        } else {
            None
        }
    }

    pub fn from_index(index: usize) -> (r: Option<Self>)
        ensures
            r == Rank::spec_from_code(index as int),
            r is Some <==> index < 13,
            r matches Some(k) ==> k.code() == index,
    {
        match index {
            0 => Some(Rank::Two),
            1 => Some(Rank::Three),
            2 => Some(Rank::Four),
            3 => Some(Rank::Five),
            4 => Some(Rank::Six),
            5 => Some(Rank::Seven),
            6 => Some(Rank::Eight),
            7 => Some(Rank::Nine),
            8 => Some(Rank::Ten),
            9 => Some(Rank::Jack),
            10 => Some(Rank::Queen),
            11 => Some(Rank::King),
            12 => Some(Rank::Ace),
            _ => None,
        }
    }

    pub fn index(self) -> (r: usize)
        ensures
            r == self.code(),
            r < 13,
    {
        match self {
            Rank::Two => 0,
            Rank::Three => 1,
            Rank::Four => 2,
            Rank::Five => 3,
            Rank::Six => 4,
            Rank::Seven => 5,
            Rank::Eight => 6,
            Rank::Nine => 7,
            Rank::Ten => 8,
            Rank::Jack => 9,
            Rank::Queen => 10,
            Rank::King => 11,
            Rank::Ace => 12,
        }
    }

    /// The character that names the rank (`2`..`9`, `T`, `J`, `Q`, `K`, `A`).
    pub open spec fn spec_symbol(self) -> char {
        match self {
            Rank::Two => '2',
            Rank::Three => '3',
            Rank::Four => '4',
            Rank::Five => '5',
            Rank::Six => '6',
            Rank::Seven => '7',
            Rank::Eight => '8',
            Rank::Nine => '9',
            Rank::Ten => 'T',
            Rank::Jack => 'J',
            Rank::Queen => 'Q',
            Rank::King => 'K',
            Rank::Ace => 'A',
        }
    }

    pub fn symbol(self) -> (r: char)
        ensures
            r == self.spec_symbol(),
    {
        match self {
            Rank::Two => '2',
            Rank::Three => '3',
            Rank::Four => '4',
            Rank::Five => '5',
            Rank::Six => '6',
            Rank::Seven => '7',
            Rank::Eight => '8',
            Rank::Nine => '9',
            Rank::Ten => 'T',
            Rank::Jack => 'J',
            Rank::Queen => 'Q',
            Rank::King => 'K',
            Rank::Ace => 'A',
        }
    }

    /// The rank that a character names; letters in either case.
    pub open spec fn spec_from_char(c: char) -> Option<Rank> {
        if c == '2' {
            Some(Rank::Two)
        } else if c == '3' {
            Some(Rank::Three)
        } else if c == '4' {
            Some(Rank::Four)
        } else if c == '5' {
            Some(Rank::Five)
        } else if c == '6' {
            Some(Rank::Six)
        } else if c == '7' {
            Some(Rank::Seven)
        } else if c == '8' {
            Some(Rank::Eight)
        } else if c == '9' {
            Some(Rank::Nine)
        } else if c == 'T' || c == 't' {
            Some(Rank::Ten)
        } else if c == 'J' || c == 'j' {
            Some(Rank::Jack)
        } else if c == 'Q' || c == 'q' {
            Some(Rank::Queen)
        } else if c == 'K' || c == 'k' {
            Some(Rank::King)
        } else if c == 'A' || c == 'a' {
            Some(Rank::Ace)
        } else {
            None
        }
    }

    pub fn from_char(c: char) -> (r: Option<Rank>)
        ensures
            r == Rank::spec_from_char(c),
    {
        if c == '2' {
            Some(Rank::Two)
        } else if c == '3' {
            Some(Rank::Three)
        } else if c == '4' {
            Some(Rank::Four)
        } else if c == '5' {
            Some(Rank::Five)
        } else if c == '6' {
            Some(Rank::Six)
        } else if c == '7' {
            Some(Rank::Seven)
        } else if c == '8' {
            Some(Rank::Eight)
        } else if c == '9' {
            Some(Rank::Nine)
        } else if c == 'T' || c == 't' {
            Some(Rank::Ten)
        } else if c == 'J' || c == 'j' {
            Some(Rank::Jack)
        } else if c == 'Q' || c == 'q' {
            Some(Rank::Queen)
        } else if c == 'K' || c == 'k' {
            Some(Rank::King)
        } else if c == 'A' || c == 'a' {
            Some(Rank::Ace)
        } else {
            None
        }
    }
}

/// How two positions compare.
pub open spec fn order_of_codes(a: int, b: int) -> Option<Ordering> {
    if a < b {
        Some(Ordering::Less)
    } else if a == b {
        Some(Ordering::Equal)
    } else {
        Some(Ordering::Greater)
    }
}

fn compare_indices(a: usize, b: usize) -> (r: Option<Ordering>)
    ensures
        a < b ==> r == Some(Ordering::Less),
        a == b ==> r == Some(Ordering::Equal),
        a > b ==> r == Some(Ordering::Greater),
{
    if a < b {
        Some(Ordering::Less)
    } else if a == b {
        Some(Ordering::Equal)
    } else {
        Some(Ordering::Greater)
    }
}

/// Ranks order by their position: two lowest, ace highest.
impl PartialOrd for Rank {
    fn partial_cmp(&self, other: &Self) -> (r: Option<Ordering>) {
        compare_indices(self.index(), other.index())
    }
}

impl PartialOrdSpecImpl for Rank {
    open spec fn obeys_partial_cmp_spec() -> bool {
        true
    }

    open spec fn partial_cmp_spec(&self, other: &Self) -> Option<Ordering> {
        order_of_codes(self.code(), other.code())
    }
}

/// Ranks compare as their positions: two lowest, ace highest.
pub proof fn lemma_rank_order_follows_position(a: Rank, b: Rank)
    ensures
        PartialOrdSpec::partial_cmp_spec(&a, &b) == Some(Ordering::Less) <==> a.code() < b.code(),
        PartialOrdSpec::partial_cmp_spec(&a, &b) == Some(Ordering::Equal) <==> a == b,
        PartialOrdSpec::partial_cmp_spec(&a, &b) == Some(Ordering::Greater) <==> a.code() > b.code(),
{
}

/// A playing card. Cards are ordered by rank, then by suit.
#[derive(Debug, Clone, Copy, PartialEq, Eq, Ord, Hash, Structural)]
pub struct Card {
    rank: Rank,
    suit: Suit,
}

/// Cards order by their position: by rank, then by suit.
impl PartialOrd for Card {
    fn partial_cmp(&self, other: &Self) -> (r: Option<Ordering>) {
        compare_indices(self.index(), other.index())
    }
}

impl PartialOrdSpecImpl for Card {
    open spec fn obeys_partial_cmp_spec() -> bool {
        true
    }

    open spec fn partial_cmp_spec(&self, other: &Self) -> Option<Ordering> {
        order_of_codes(self.code(), other.code())
    }
}

/// Cards compare as their positions, which order them by rank and then by suit.
pub proof fn lemma_card_order_follows_position(c: Card, d: Card)
    ensures
        PartialOrdSpec::partial_cmp_spec(&c, &d) == Some(Ordering::Less) <==> c.code() < d.code(),
        PartialOrdSpec::partial_cmp_spec(&c, &d) == Some(Ordering::Equal) <==> c == d,
        PartialOrdSpec::partial_cmp_spec(&c, &d) == Some(Ordering::Greater) <==> c.code() > d.code(),
        c.code() < d.code() <==> c.spec_rank().code() < d.spec_rank().code() || (c.spec_rank()
            == d.spec_rank() && c.spec_suit().code() < d.spec_suit().code()),
{
    let (r1, s1, r2, s2) = (
        c.spec_rank().code(),
        c.spec_suit().code(),
        d.spec_rank().code(),
        d.spec_suit().code(),
    );
    assert(0 <= s1 < 4 && 0 <= s2 < 4);
    assert(r1 * 4 + s1 < r2 * 4 + s2 <==> r1 < r2 || (r1 == r2 && s1 < s2)) by (nonlinear_arith)
        requires
            0 <= s1 < 4,
            0 <= s2 < 4,
    ;
    assert(r1 == r2 ==> c.spec_rank() == d.spec_rank());
    if c.code() == d.code() {
        assert(r1 * 4 + s1 == r2 * 4 + s2 ==> r1 == r2 && s1 == s2) by (nonlinear_arith)
            requires
                0 <= s1 < 4,
                0 <= s2 < 4,
        ;
        lemma_card_of_code(c);
        lemma_card_of_code(d);
    }
}

impl Card {
    /// The card's position in the 52-card order: rank first, then suit.
    pub open spec fn code(self) -> int {
        self.spec_rank().code() * 4 + self.spec_suit().code()
    }

    pub closed spec fn spec_rank(self) -> Rank {
        self.rank
    }

    pub closed spec fn spec_suit(self) -> Suit {
        self.suit
    }

    pub closed spec fn spec_new(rank: Rank, suit: Suit) -> Card {
        Card { rank, suit }
    }

    /// The card at a position of the 52-card order.
    pub open spec fn spec_from_code(code: int) -> Card {
        Card::spec_new(Rank::spec_from_code(code / 4)->0, Suit::spec_from_code(code % 4)->0)
    }

    pub fn new(rank: Rank, suit: Suit) -> (r: Self)
        ensures
            r == Card::spec_new(rank, suit),
    {
        Card { rank, suit }
    }

    pub fn rank(self) -> (r: Rank)
        ensures
            r == self.spec_rank(),
    {
        self.rank
    }

    pub fn suit(self) -> (r: Suit)
        ensures
            r == self.spec_suit(),
    {
        self.suit
    }

    pub fn index(self) -> (r: usize)
        ensures
            r == self.code(),
            r < 52,
    {
        self.rank.index() * 4 + self.suit.index()
    }

    pub fn from_index(index: usize) -> (r: Option<Self>)
        ensures
            r is Some <==> index < 52,
            r matches Some(c) ==> c.code() == index,
    {
        let rank_index = index / 4;
        let suit_index = index % 4;
        let rank = match Rank::from_index(rank_index) {
            Some(rank) => rank,
            None => {
                return None;
            },
        };
        let suit = match Suit::from_index(suit_index) {
            Some(suit) => suit,
            None => {
                return None;
            },
        };
        Some(Card::new(rank, suit))
    }
}


/// A card's position in the order determines the card.
pub proof fn lemma_card_of_code(c: Card)
    ensures
        Card::spec_from_code(c.code()) == c,
{
    let r = c.spec_rank().code();
    let u = c.spec_suit().code();
    assert(0 <= u < 4);
    assert((r * 4 + u) / 4 == r && (r * 4 + u) % 4 == u) by (nonlinear_arith)
        requires
            0 <= u < 4,
            0 <= r,
    ;
    assert(Rank::spec_from_code(r) == Some(c.spec_rank())) by {
        match c.spec_rank() {
            Rank::Two => {},
            Rank::Three => {},
            Rank::Four => {},
            Rank::Five => {},
            Rank::Six => {},
            Rank::Seven => {},
            Rank::Eight => {},
            Rank::Nine => {},
            Rank::Ten => {},
            Rank::Jack => {},
            Rank::Queen => {},
            Rank::King => {},
            Rank::Ace => {},
        }
    }
    assert(Suit::spec_from_code(u) == Some(c.spec_suit())) by {
        match c.spec_suit() {
            Suit::Clubs => {},
            Suit::Diamonds => {},
            Suit::Hearts => {},
            Suit::Spades => {},
        }
    }
}

/// Whether bit `i` of `bits` is set.
pub open spec fn bit_set(bits: u64, i: int) -> bool {
    0 <= i < 64 && ((bits >> (i as u64)) & 1u64) == 1u64
}

proof fn lemma_bit_test(bits: u64, i: u64)
    requires
        i < 64,
    ensures
        ((bits & (1u64 << i)) != 0u64) <==> (((bits >> i) & 1u64) == 1u64),
{
    assert(((bits & (1u64 << i)) != 0u64) <==> (((bits >> i) & 1u64) == 1u64)) by (bit_vector)
        requires
            i < 64,
    ;
}

proof fn lemma_bit_or(a: u64, b: u64, j: u64)
    requires
        j < 64,
    ensures
        ((((a | b) >> j) & 1u64) == 1u64) <==> (((a >> j) & 1u64) == 1u64 || ((b >> j) & 1u64)
            == 1u64),
{
    assert(((((a | b) >> j) & 1u64) == 1u64) <==> (((a >> j) & 1u64) == 1u64 || ((b >> j) & 1u64)
        == 1u64)) by (bit_vector)
        requires
            j < 64,
    ;
}

proof fn lemma_single_bit(i: u64, j: u64)
    requires
        i < 64,
        j < 64,
    ensures
        ((((1u64 << i) >> j) & 1u64) == 1u64) <==> (i == j),
{
    assert(((((1u64 << i) >> j) & 1u64) == 1u64) <==> (i == j)) by (bit_vector)
        requires
            i < 64,
            j < 64,
    ;
}

proof fn lemma_bit_and(a: u64, b: u64, j: u64)
    requires
        j < 64,
    ensures
        ((((a & b) >> j) & 1u64) == 1u64) <==> (((a >> j) & 1u64) == 1u64 && ((b >> j) & 1u64)
            == 1u64),
{
    assert(((((a & b) >> j) & 1u64) == 1u64) <==> (((a >> j) & 1u64) == 1u64 && ((b >> j) & 1u64)
        == 1u64)) by (bit_vector)
        requires
            j < 64,
    ;
}

/// A word is zero exactly when none of its 64 bits is set.
proof fn lemma_zero_iff_no_bit(x: u64)
    ensures
        (x == 0u64) <==> (forall|j: int| 0 <= j < 64 ==> !#[trigger] bit_set(x, j)),
    decreases x,
{
    if x == 0u64 {
        assert forall|j: int| 0 <= j < 64 implies !#[trigger] bit_set(x, j) by {
            let jj = j as u64;
            assert(((0u64 >> jj) & 1u64) == 0u64) by (bit_vector);
        }
    } else if (x & 1u64) == 1u64 {
        assert((x >> 0u64) & 1u64 == x & 1u64) by (bit_vector);
        assert(bit_set(x, 0));
    } else {
        let y = x >> 1u64;
        assert((x >> 1u64) < x) by (bit_vector)
            requires
                x != 0u64,
        ;
        assert((x >> 1u64) != 0u64) by (bit_vector)
            requires
                x != 0u64,
                (x & 1u64) != 1u64,
        ;
        lemma_zero_iff_no_bit(y);
        let j = choose|j: int| 0 <= j < 64 && bit_set(y, j);
        let jj = j as u64;
        assert(jj < 63) by {
            if jj == 63 {
                assert(((x >> 1u64) >> 63u64) & 1u64 == 0u64) by (bit_vector);
            }
        }
        assert(((x >> 1u64) >> jj) & 1u64 == (x >> (jj + 1)) & 1u64) by (bit_vector)
            requires
                jj < 63,
        ;
        assert(bit_set(x, j + 1));
    }
}

/// A set of cards packed into the 52 low bits of a word; bit `k` holds the card
/// whose position in the deck order is `k`.
#[derive(Debug, Clone, Copy, PartialEq, Eq, Default, Hash, Structural)]
pub struct CardMask {
    bits: u64,
}

impl View for CardMask {
    type V = Set<int>;

    closed spec fn view(&self) -> Set<int> {
        Set::new(|i: int| bit_set(self.bits, i))
    }
}

impl CardMask {
    pub closed spec fn spec_bits(self) -> u64 {
        self.bits
    }

    /// The number of set positions below `n`.
    pub open spec fn count_below(self, n: int) -> nat
        decreases n,
    {
        if n <= 0 {
            0
        } else {
            self.count_below(n - 1) + if self@.contains(n - 1) {
                1nat
            } else {
                0nat
            }
        }
    }

    /// A mask holds exactly the positions of its set bits.
    pub broadcast proof fn lemma_view(self, i: int)
        ensures
            #[trigger] self@.contains(i) <==> bit_set(self.spec_bits(), i),
    {
    }

    pub fn empty() -> (r: Self)
        ensures
            r@ == Set::<int>::empty(),
            r.spec_bits() == 0,
    {
        let r = CardMask { bits: 0 };
        proof {
            lemma_zero_iff_no_bit(0u64);
            assert(r@ =~= Set::<int>::empty());
        }
        r
    }

    pub fn from_card(card: Card) -> (r: Self)
        ensures
            r@ == set![card.code()],
    {
        let idx = card.index() as u64;
        let r = CardMask { bits: 1u64 << idx };
        proof {
            assert forall|j: int| r@.contains(j) <==> j == card.code() by {
                if 0 <= j < 64 {
                    lemma_single_bit(idx, j as u64);
                }
            }
            assert(r@ =~= set![card.code()]);
        }
        r
    }

    pub fn from_cards(cards: &[Card]) -> (r: Self)
        ensures
            forall|i: int| #[trigger] r@.contains(i) <==> exists|k: int|
                0 <= k < cards@.len() && cards@[k].code() == i,
    {
        let mut mask = CardMask::empty();
        let mut n: usize = 0;
        while n < cards.len()
            invariant
                n <= cards@.len(),
                forall|i: int| #[trigger] mask@.contains(i) <==> exists|k: int|
                    0 <= k < n && cards@[k].code() == i,
            decreases cards@.len() - n,
        {
            let card = cards[n];
            mask.insert(card);
            proof {
                assert forall|i: int| #[trigger] mask@.contains(i) implies exists|k: int|
                    0 <= k < n + 1 && cards@[k].code() == i by {
                    if i != card.code() {
                        let k = choose|k: int| 0 <= k < n && cards@[k].code() == i;
                        assert(0 <= k < n + 1 && cards@[k].code() == i);
                    } else {
                        assert(cards@[n as int].code() == i);
                    }
                }
                assert forall|i: int| (exists|k: int| 0 <= k < n + 1 && cards@[k].code() == i)
                    implies #[trigger] mask@.contains(i) by {
                    let k = choose|k: int| 0 <= k < n + 1 && cards@[k].code() == i;
                    if k < n {
                        assert(0 <= k < n && cards@[k].code() == i);
                    }
                }
            }
            n = n + 1;
        }
        mask
    }

    pub fn bits(self) -> (r: u64)
        ensures
            r == self.spec_bits(),
    {
        self.bits
    }

    pub fn contains(self, card: Card) -> (r: bool)
        ensures
            r == self@.contains(card.code()),
    {
        let idx = card.index() as u64;
        proof {
            lemma_bit_test(self.bits, idx);
        }
        self.bits & (1u64 << idx) != 0
    }

    /// Adds a card; returns whether it was absent before.
    pub fn insert(&mut self, card: Card) -> (r: bool)
        ensures
            final(self)@ == old(self)@.insert(card.code()),
            r == !old(self)@.contains(card.code()),
    {
        let had_card = self.contains(card);
        let idx = card.index() as u64;
        let old_bits = self.bits;
        self.bits = self.bits | (1u64 << idx);
        proof {
            assert forall|j: int| #[trigger] self@.contains(j) <==> (old(self)@.contains(j) || j
                == card.code()) by {
                if 0 <= j < 64 {
                    lemma_bit_or(old_bits, 1u64 << idx, j as u64);
                    lemma_single_bit(idx, j as u64);
                }
            }
            assert(self@ =~= old(self)@.insert(card.code()));
        }
        !had_card
    }

    pub fn intersects(self, other: Self) -> (r: bool)
        ensures
            r == exists|i: int| #[trigger] self@.contains(i) && other@.contains(i),
    {
        let both = self.bits & other.bits;
        proof {
            lemma_zero_iff_no_bit(both);
            assert forall|j: int| 0 <= j < 64 implies (#[trigger] bit_set(both, j) <==> (self@.contains(
                j) && other@.contains(j))) by {
                lemma_bit_and(self.bits, other.bits, j as u64);
            }
            if both != 0 {
                let j = choose|j: int| 0 <= j < 64 && bit_set(both, j);
                assert(self@.contains(j) && other@.contains(j));
            } else {
                assert forall|i: int| !(#[trigger] self@.contains(i) && other@.contains(i)) by {
                    if 0 <= i < 64 {
                        assert(!bit_set(both, i));
                    }
                }
            }
        }
        both != 0
    }

    pub fn union(self, other: Self) -> (r: Self)
        ensures
            r@ == self@ + other@,
    {
        let r = CardMask { bits: self.bits | other.bits };
        proof {
            assert forall|j: int| #[trigger] r@.contains(j) <==> (self@.contains(j)
                || other@.contains(j)) by {
                if 0 <= j < 64 {
                    lemma_bit_or(self.bits, other.bits, j as u64);
                }
            }
            assert(r@ =~= self@ + other@);
        }
        r
    }

    /// The number of cards in the mask.
    pub fn len(self) -> (r: usize)
        ensures
            r == self.count_below(64),
    {
        let mut count: usize = 0;
        let mut i: u64 = 0;
        while i < 64
            invariant
                i <= 64,
                count == self.count_below(i as int),
                count <= i,
            decreases 64 - i,
        {
            proof {
                lemma_bit_test(self.bits, i);
            }
            if self.bits & (1u64 << i) != 0 {
                count = count + 1;
            }
            i = i + 1;
        }
        count
    }

    pub fn is_empty(self) -> (r: bool)
        ensures
            r == (self@ == Set::<int>::empty()),
    {
        proof {
            lemma_zero_iff_no_bit(self.bits);
            if self.bits != 0 {
                let j = choose|j: int| 0 <= j < 64 && bit_set(self.bits, j);
                assert(self@.contains(j));
            } else {
                assert(self@ =~= Set::<int>::empty());
            }
        }
        self.bits == 0
    }
}


/// Two masks with the same cards are the same mask.
pub proof fn lemma_mask_view_injective(a: CardMask, b: CardMask)
    ensures
        a@ == b@ <==> a == b,
{
    if a@ == b@ {
        let x = a.spec_bits() ^ b.spec_bits();
        assert forall|j: int| 0 <= j < 64 implies !#[trigger] bit_set(x, j) by {
            let jj = j as u64;
            let p = a.spec_bits();
            let q = b.spec_bits();
            assert(a@.contains(j) == b@.contains(j));
            assert((((p ^ q) >> jj) & 1u64 == 1u64) == (((p >> jj) & 1u64 == 1u64) != ((q >> jj) & 1u64
                == 1u64))) by (bit_vector)
                requires
                    jj < 64,
            ;
        }
        lemma_zero_iff_no_bit(x);
        let p = a.spec_bits();
        let q = b.spec_bits();
        assert(p ^ q == 0u64 ==> p == q) by (bit_vector);
    }
}

/// The number of positions below `n` held by both sets.
pub open spec fn common_below(a: Set<int>, b: Set<int>, n: int) -> nat
    decreases n,
{
    if n <= 0 {
        0
    } else {
        common_below(a, b, n - 1) + if a.contains(n - 1) && b.contains(n - 1) {
            1nat
        } else {
            0nat
        }
    }
}

proof fn lemma_union_count(a: CardMask, b: CardMask, u: CardMask, n: int)
    requires
        u@ == a@ + b@,
    ensures
        u.count_below(n) + common_below(a@, b@, n) == a.count_below(n) + b.count_below(n),
        common_below(a@, b@, n) == 0 <==> forall|i: int| 0 <= i < n ==> !(a@.contains(i) && b@.contains(i)),
    decreases n,
{
    if n > 0 {
        lemma_union_count(a, b, u, n - 1);
        assert(u@.contains(n - 1) == (a@.contains(n - 1) || b@.contains(n - 1)));
        if common_below(a@, b@, n) == 0 {
            assert forall|i: int| 0 <= i < n implies !(a@.contains(i) && b@.contains(i)) by {
                if i < n - 1 {
                }
            }
        }
    }
}

/// The cards of a union number the cards of both masks exactly when no card is in both.
pub proof fn lemma_union_len(a: CardMask, b: CardMask, u: CardMask)
    requires
        u@ == a@ + b@,
    ensures
        u.count_below(64) == a.count_below(64) + b.count_below(64) <==> !(exists|i: int|
            #[trigger] a@.contains(i) && b@.contains(i)),
{
    lemma_union_count(a, b, u, 64);
    if exists|i: int| #[trigger] a@.contains(i) && b@.contains(i) {
        let i = choose|i: int| #[trigger] a@.contains(i) && b@.contains(i);
        a.lemma_view(i);
        assert(0 <= i < 64);
    }
}

/// The positions of `s` below `n`.
pub open spec fn held_below(s: Set<int>, n: int) -> Set<int> {
    Set::new(|i: int| 0 <= i < n && s.contains(i))
}

proof fn lemma_count_is_size(m: CardMask, n: int)
    requires
        0 <= n,
    ensures
        held_below(m@, n).finite(),
        held_below(m@, n).len() == m.count_below(n),
    decreases n,
{
    if n > 0 {
        lemma_count_is_size(m, n - 1);
        if m@.contains(n - 1) {
            assert(held_below(m@, n) =~= held_below(m@, n - 1).insert(n - 1));
        } else {
            assert(held_below(m@, n) =~= held_below(m@, n - 1));
        }
    } else {
        assert(held_below(m@, 0) =~= Set::<int>::empty());
    }
}

/// The count of a mask (what `len` returns) is the number of cards in it.
pub proof fn lemma_mask_len_is_size(m: CardMask)
    ensures
        m@.finite(),
        m.count_below(64) == m@.len(),
{
    lemma_count_is_size(m, 64);
    assert forall|i: int| m@.contains(i) implies 0 <= i < 64 by {
        m.lemma_view(i);
    }
    assert(held_below(m@, 64) =~= m@);
}

/// Two distinct cards held by one player, stored higher card first.
#[derive(Debug, Clone, Copy, PartialEq, Eq, PartialOrd, Ord, Hash)]
pub struct HoleCards {
    cards: [Card; 2],
}

impl View for HoleCards {
    type V = (Card, Card);

    closed spec fn view(&self) -> (Card, Card) {
        (self.cards@[0], self.cards@[1])
    }
}

/// Two hands are equal exactly when their cards are.
pub broadcast proof fn lemma_hole_cards_view_injective(a: HoleCards, b: HoleCards)
    ensures
        (#[trigger] a@ == #[trigger] b@) <==> (a == b),
{
    if a@ == b@ {
        assert(a.cards@ =~= b.cards@);
        vstd::array::axiom_array_ext_equal(a.cards, b.cards);
    }
}

impl HoleCards {
    /// The higher card (in deck order) is held first.
    #[verifier::type_invariant]
    pub open spec fn is_ordered(self) -> bool {
        self@.0.code() > self@.1.code()
    }

    /// The hand that two distinct cards make: the higher card (in deck order) first.
    pub open spec fn spec_of(first: Card, second: Card) -> (Card, Card) {
        if first.code() >= second.code() {
            (first, second)
        } else {
            (second, first)
        }
    }

    /// A position of the hand in the order of all hands: the higher card's position,
    /// then the lower one's.
    pub open spec fn key(self) -> int {
        self@.0.code() * 52 + self@.1.code()
    }

    /// The bits of the hand's two cards.
    pub open spec fn card_set(self) -> Set<int> {
        set![self@.0.code(), self@.1.code()]
    }

    pub fn new(first: Card, second: Card) -> (r: Result<Self, DuplicateCardError>)
        ensures
            first == second <==> r is Err,
            r matches Err(e) ==> e.spec_card() == first,
            r matches Ok(h) ==> h@ == HoleCards::spec_of(first, second),
    {
        if first == second {
            return Err(DuplicateCardError { card: first });
        }
        let cards = if first.index() >= second.index() {
            [first, second]
        } else {
            [second, first]
        };
        Ok(HoleCards { cards })
    }

    pub fn cards(self) -> (r: [Card; 2])
        ensures
            r@ == seq![self@.0, self@.1],
    {
        proof {
            assert(self.cards@ =~= seq![self@.0, self@.1]);
        }
        self.cards
    }

    pub fn first(self) -> (r: Card)
        ensures
            r == self@.0,
    {
        self.cards[0]
    }

    pub fn second(self) -> (r: Card)
        ensures
            r == self@.1,
    {
        self.cards[1]
    }

    pub fn contains(self, card: Card) -> (r: bool)
        ensures
            r == (self@.0 == card || self@.1 == card),
    {
        self.cards[0] == card || self.cards[1] == card
    }

    pub fn mask(self) -> (r: CardMask)
        ensures
            r@ == self.card_set(),
    {
        let r = CardMask::from_card(self.cards[0]).union(CardMask::from_card(self.cards[1]));
        proof {
            assert(r@ =~= self.card_set());
        }
        r
    }

    /// The hand's position in the order of all hands (see `key`).
    pub fn key_index(self) -> (r: usize)
        ensures
            r == self.key(),
            r < 52 * 52,
    {
        self.cards[0].index() * 52 + self.cards[1].index()
    }
}

/// The community cards: at most five, all different.
#[derive(Debug, Clone, PartialEq, Eq, Default)]
pub struct Board {
    cards: Vec<Card>,
}

/// The result of adding one card to a board holding `b`.
pub open spec fn board_push_result(b: Seq<Card>, card: Card) -> Result<Seq<Card>, BoardError> {
    if b.len() >= 5 {
        Err(BoardError::TooManyCards { attempted_len: (b.len() + 1) as usize })
    } else if b.contains(card) {
        Err(BoardError::DuplicateCard { card })
    } else {
        Ok(b.push(card))
    }
}

/// The result of adding `cards` one by one to an empty board: the first failure, or
/// the finished board.
pub open spec fn board_build(cards: Seq<Card>) -> Result<Seq<Card>, BoardError>
    decreases cards.len(),
{
    if cards.len() == 0 {
        Ok(seq![])
    } else {
        match board_build(cards.drop_last()) {
            Ok(b) => board_push_result(b, cards.last()),
            Err(e) => Err(e),
        }
    }
}

/// A board's cards: at most five, all different.
pub open spec fn board_cards_valid(b: Seq<Card>) -> bool {
    b.len() <= 5 && b.no_duplicates()
}

impl View for Board {
    type V = Seq<Card>;

    closed spec fn view(&self) -> Seq<Card> {
        self.cards@
    }
}

impl Board {
    pub open spec fn wf(&self) -> bool {
        board_cards_valid(self@)
    }

    /// A copy of the board.
    pub fn duplicate(&self) -> (r: Self)
        ensures
            r@ == self@,
    {
        let cards = self.cards.clone();
        proof {
            assert(cards@ =~= self.cards@);
        }
        Board { cards }
    }

    /// The positions of the board's cards in the deck order.
    pub open spec fn card_set(&self) -> Set<int> {
        Set::new(|i: int| exists|k: int| 0 <= k < self@.len() && self@[k].code() == i)
    }

    pub fn new() -> (r: Self)
        ensures
            r@ == Seq::<Card>::empty(),
            r.wf(),
    {
        Board { cards: Vec::new() }
    }

    pub fn try_from_cards(cards: &[Card]) -> (r: Result<Self, BoardError>)
        ensures
            r matches Ok(b) ==> board_build(cards@) == Ok::<Seq<Card>, BoardError>(b@) && b.wf(),
            r matches Err(e) ==> board_build(cards@) == Err::<Seq<Card>, BoardError>(e),
    {
        let mut board = Board::new();
        let mut n: usize = 0;
        while n < cards.len()
            invariant
                n <= cards@.len(),
                board.wf(),
                board_build(cards@.take(n as int)) == Ok::<Seq<Card>, BoardError>(board@),
            decreases cards@.len() - n,
        {
            proof {
                assert(cards@.take(n + 1).drop_last() =~= cards@.take(n as int));
            }
            match board.push(cards[n]) {
                Ok(()) => {},
                Err(e) => {
                    proof {
                        lemma_board_build_stops(cards@, n as int + 1);
                    }
                    return Err(e);
                },
            }
            n = n + 1;
        }
        proof {
            assert(cards@.take(cards@.len() as int) =~= cards@);
        }
        Ok(board)
    }

    pub fn push(&mut self, card: Card) -> (r: Result<(), BoardError>)
        requires
            old(self).wf(),
        ensures
            final(self).wf(),
            match board_push_result(old(self)@, card) {
                Ok(b) => r is Ok && final(self)@ == b,
                Err(e) => r == Err::<(), BoardError>(e) && final(self)@ == old(self)@,
            },
    {
        if self.cards.len() >= 5 {
            return Err(BoardError::TooManyCards { attempted_len: self.cards.len() + 1 });
        }
        if contains_card(&self.cards, card) {
            return Err(BoardError::DuplicateCard { card });
        }
        self.cards.push(card);
        Ok(())
    }

    pub fn cards(&self) -> (r: &[Card])
        ensures
            r@ == self@,
    {
        self.cards.as_slice()
    }

    pub fn len(&self) -> (r: usize)
        ensures
            r == self@.len(),
    {
        self.cards.len()
    }

    /// The cards, as a vector.
    pub fn cards_vec(&self) -> (r: &Vec<Card>)
        ensures
            r@ == self@,
    {
        &self.cards
    }

    pub fn is_empty(&self) -> (r: bool)
        ensures
            r == (self@.len() == 0),
    {
        self.cards.len() == 0
    }

    pub fn mask(&self) -> (r: CardMask)
        ensures
            r@ == self.card_set(),
    {
        let r = CardMask::from_cards(self.cards.as_slice());
        proof {
            assert(r@ =~= self.card_set());
        }
        r
    }
}

/// A board's mask counts as many cards as the board holds: its cards are distinct.
pub proof fn lemma_board_mask_len(b: Board, m: CardMask)
    requires
        b.wf(),
        m@ == b.card_set(),
    ensures
        m.count_below(64) == b@.len(),
{
    let codes = b@.map_values(|c: Card| c.code());
    assert forall|i: int, j: int| 0 <= i < codes.len() && 0 <= j < codes.len() && i != j implies codes[i]
        != codes[j] by {
        lemma_card_of_code(b@[i]);
        lemma_card_of_code(b@[j]);
    }
    codes.unique_seq_to_set();
    assert forall|i: int| codes.to_set().contains(i) <==> b.card_set().contains(i) by {
        if b.card_set().contains(i) {
            let k = choose|k: int| 0 <= k < b@.len() && b@[k].code() == i;
            assert(codes[k] == i);
        }
    }
    assert(codes.to_set() =~= b.card_set());
    lemma_mask_len_is_size(m);
}

/// Once adding some prefix of `cards` fails, adding all of them fails the same way.
proof fn lemma_board_build_stops(cards: Seq<Card>, n: int)
    requires
        0 <= n <= cards.len(),
        board_build(cards.take(n)) is Err,
    ensures
        board_build(cards) == board_build(cards.take(n)),
    decreases cards.len() - n,
{
    if n < cards.len() {
        assert(cards.take(n + 1).drop_last() =~= cards.take(n));
        lemma_board_build_stops(cards, n + 1);
    } else {
        assert(cards.take(n) =~= cards);
    }
}

/// Whether `card` occurs in `cards`.
pub fn contains_card(cards: &Vec<Card>, card: Card) -> (r: bool)
    ensures
        r == cards@.contains(card),
{
    let mut i: usize = 0;
    while i < cards.len()
        invariant
            i <= cards@.len(),
            forall|k: int| 0 <= k < i ==> cards@[k] != card,
        decreases cards@.len() - i,
    {
        if cards[i] == card {
            return true;
        }
        i = i + 1;
    }
    false
}

/// A card text that could not be read; the message says why.
#[derive(Debug, Clone, PartialEq, Eq)]
pub struct ParseCardError {
    message: String,
}

impl ParseCardError {
    pub closed spec fn spec_message(&self) -> Seq<char> {
        self.message@
    }

    pub fn new(message: &str) -> (r: Self)
        ensures
            r.spec_message() == message@,
    {
        ParseCardError { message: message.to_string() }
    }

    pub fn from_string(message: String) -> (r: Self)
        ensures
            r.spec_message() == message@,
    {
        ParseCardError { message }
    }

    /// The message.
    pub fn to_string(&self) -> (r: String)
        ensures
            r@ == self.spec_message(),
    {
        self.message.clone()
    }
}

/// Two cards of a hand were the same card.
#[derive(Debug, Clone, Copy, PartialEq, Eq)]
pub struct DuplicateCardError {
    card: Card,
}

impl DuplicateCardError {
    pub closed spec fn spec_card(self) -> Card {
        self.card
    }

    pub fn card(self) -> (r: Card)
        ensures
            r == self.spec_card(),
    {
        self.card
    }
}

/// A hand made of two distinct cards does not depend on the order they are given in:
/// the higher card comes first either way.
pub proof fn lemma_hole_cards_order_free(first: Card, second: Card)
    requires
        first != second,
    ensures
        HoleCards::spec_of(first, second) == HoleCards::spec_of(second, first),
{
    lemma_card_of_code(first);
    lemma_card_of_code(second);
}

/// An error of this kind is fixed by its card.
pub proof fn lemma_duplicate_error_is_its_card(a: DuplicateCardError, b: DuplicateCardError)
    ensures
        a.spec_card() == b.spec_card() <==> a == b,
{
}

#[derive(Debug, Clone, Copy, PartialEq, Eq, Structural)]
pub enum BoardError {
    DuplicateCard { card: Card },
    TooManyCards { attempted_len: usize },
}

/// A card is made of its rank and suit, and nothing else.
pub broadcast proof fn lemma_card_parts(rank: Rank, suit: Suit)
    ensures
        #[trigger] Card::spec_new(rank, suit).spec_rank() == rank,
        Card::spec_new(rank, suit).spec_suit() == suit,
{
}

/// A card is rebuilt from its rank and suit.
pub broadcast proof fn lemma_card_eta(c: Card)
    ensures
        #[trigger] Card::spec_new(c.spec_rank(), c.spec_suit()) == c,
{
}

/// Two cards are equal exactly when their positions in the deck order are equal.
pub broadcast proof fn lemma_card_code_injective(a: Card, b: Card)
    ensures
        (#[trigger] a.code() == #[trigger] b.code()) <==> (a == b),
{
}

/// A card's position in the deck order lies in `0..52`.
pub broadcast proof fn lemma_card_code_range(a: Card)
    ensures
        0 <= #[trigger] a.code() < 52,
{
}

pub broadcast group group_card_lemmas {
    lemma_card_parts,
    lemma_card_eta,
    lemma_card_code_injective,
    lemma_card_code_range,
    lemma_hole_cards_view_injective,
}

} // verus!
