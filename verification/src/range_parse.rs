use vstd::prelude::*;

use crate::card_text::{
    card_text, hole_cards_text, lemma_hole_cards_text_round_trips, spec_parse_hole_cards,
    spec_parse_rank,
};
use crate::cards::{Card, HoleCards, ParseCardError, Rank, Suit};
use crate::range::{hands_of, range_text, Range};
use crate::text::{chars_of, is_white_space};

verus! {

broadcast use crate::cards::group_card_lemmas;

// ---------------------------------------------------------------------------
// Range notation.
//
// A range is written as tokens separated by commas or white space. A token is
// either an explicit hand (`AsKd`), or a class of hands: two ranks (`AK`,
// `TT`), optionally followed by `s` (suited only) or `o` (offsuit only), and
// optionally followed by `+` (this class and every stronger class with the
// same first rank; for pairs, every higher pair).
// ---------------------------------------------------------------------------

/// Which suit combinations a class of non-pair hands admits.
#[derive(Debug, Clone, Copy, PartialEq, Eq, Structural)]
pub enum Suitedness {
    Any,
    Suited,
    Offsuit,
}

/// Characters that separate range tokens.
pub open spec fn is_range_separator(c: char) -> bool {
    c == ',' || is_white_space(c)
}

/// The text between separators, empty pieces included (one more piece than
/// there are separators).
pub open spec fn split_pieces(s: Seq<char>) -> Seq<Seq<char>>
    decreases s.len(),
{
    if s.len() == 0 {
        seq![Seq::<char>::empty()]
    } else {
        let prev = split_pieces(s.drop_last());
        if is_range_separator(s.last()) {
            prev.push(Seq::<char>::empty())
        } else {
            prev.update(prev.len() - 1, prev.last().push(s.last()))
        }
    }
}

/// The tokens of a range text: the non-empty pieces, in order.
pub open spec fn range_tokens(s: Seq<char>) -> Seq<Seq<char>> {
    split_pieces(s).filter(|t: Seq<char>| t.len() > 0)
}

/// The suitedness that a marker letter names, in either case.
pub open spec fn suitedness_of(c: char) -> Option<Suitedness> {
    if c == 's' || c == 'S' {
        Some(Suitedness::Suited)
    } else if c == 'o' || c == 'O' {
        Some(Suitedness::Offsuit)
    } else {
        None
    }
}

/// Whether a class admits a hand whose two cards share a suit (`suited`) or not.
pub open spec fn suitedness_admits(s: Suitedness, suited: bool) -> bool {
    match s {
        Suitedness::Any => true,
        Suitedness::Suited => suited,
        Suitedness::Offsuit => !suited,
    }
}

/// The two ranks and the suitedness of a class token without its `+`.
pub open spec fn spec_parse_class(base: Seq<char>) -> Result<(Rank, Rank, Suitedness), Seq<char>> {
    if base.len() == 2 {
        match spec_parse_rank(base.subrange(0, 1)) {
            Err(m) => Err(m),
            Ok(a) => match spec_parse_rank(base.subrange(1, 2)) {
                Err(m) => Err(m),
                Ok(b) => Ok((a, b, Suitedness::Any)),
            },
        }
    } else if base.len() == 3 {
        match suitedness_of(base[2]) {
            None => Err("invalid suitedness marker"@),
            Some(sd) => match spec_parse_rank(base.subrange(0, 1)) {
                Err(m) => Err(m),
                Ok(a) => match spec_parse_rank(base.subrange(1, 2)) {
                    Err(m) => Err(m),
                    Ok(b) => Ok((a, b, sd)),
                },
            },
        }
    } else {
        Err("range token must be a combo like AsKd or a class like AKs"@)
    }
}

/// A pocket pair of `rank`, written higher suit first.
pub open spec fn is_pair_of(rank: Rank, p: (Card, Card)) -> bool {
    &&& p.0.spec_rank() == rank
    &&& p.1.spec_rank() == rank
    &&& p.0.spec_suit().code() > p.1.spec_suit().code()
}

/// The pairs of `rank`, or with `plus` the pairs of `rank` and every higher rank.
pub open spec fn pair_hands(rank: Rank, plus: bool) -> Set<(Card, Card)> {
    Set::new(
        |p: (Card, Card)|
            if plus {
                p.0.spec_rank().code() >= rank.code() && is_pair_of(p.0.spec_rank(), p)
            } else {
                is_pair_of(rank, p)
            },
    )
}

/// A hand of a `high` card and a `low` card that the suitedness admits.
pub open spec fn is_non_pair_of(high: Rank, low: Rank, sd: Suitedness, p: (Card, Card)) -> bool {
    &&& p.0.spec_rank() == high
    &&& p.1.spec_rank() == low
    &&& suitedness_admits(sd, p.0.spec_suit() == p.1.spec_suit())
}

/// The hands of `high` with `low`, or with `plus` those of `high` with any rank from
/// `low` up to just below `high`.
pub open spec fn non_pair_hands(high: Rank, low: Rank, sd: Suitedness, plus: bool) -> Set<(Card, Card)> {
    Set::new(
        |p: (Card, Card)|
            if plus {
                low.code() <= p.1.spec_rank().code() < high.code() && is_non_pair_of(
                    high,
                    p.1.spec_rank(),
                    sd,
                    p,
                )
            } else {
                is_non_pair_of(high, low, sd, p)
            },
    )
}

/// The hands that one token stands for, or why it stands for none.
pub open spec fn spec_token_hands(t: Seq<char>) -> Result<Set<(Card, Card)>, Seq<char>> {
    match spec_parse_hole_cards(t) {
        Ok(p) => Ok(set![p]),
        Err(_) => {
            let plus = t.len() > 0 && t.last() == '+';
            let base = if plus {
                t.drop_last()
            } else {
                t
            };
            match spec_parse_class(base) {
                Err(m) => Err(m),
                Ok((a, b, sd)) => if a == b {
                    if sd != Suitedness::Any {
                        Err("pair range tokens cannot use suited or offsuit markers"@)
                    } else {
                        Ok(pair_hands(a, plus))
                    }
                } else if a.code() < b.code() {
                    Err("range class tokens must use descending rank order, for example AKs"@)
                } else {
                    Ok(non_pair_hands(a, b, sd, plus))
                },
            }
        },
    }
}

/// The hands that a list of tokens stands for, or the reason of the first token
/// that stands for none.
pub open spec fn spec_tokens_hands(ts: Seq<Seq<char>>) -> Result<Set<(Card, Card)>, Seq<char>>
    decreases ts.len(),
{
    if ts.len() == 0 {
        Ok(Set::empty())
    } else {
        match spec_tokens_hands(ts.drop_last()) {
            Err(m) => Err(m),
            Ok(hands) => match spec_token_hands(ts.last()) {
                Err(m) => Err(m),
                Ok(more) => Ok(hands.union(more)),
            },
        }
    }
}

/// The hands that a range text stands for, or why it stands for none.
pub open spec fn spec_parse_range(s: Seq<char>) -> Result<Set<(Card, Card)>, Seq<char>> {
    spec_tokens_hands(range_tokens(s))
}

/// A range text could not be read.
#[derive(Debug, Clone, PartialEq, Eq)]
pub struct ParseRangeError {
    message: String,
}

impl ParseRangeError {
    pub closed spec fn spec_message(&self) -> Seq<char> {
        self.message@
    }

    pub fn new(message: &str) -> (r: Self)
        ensures
            r.spec_message() == message@,
    {
        ParseRangeError { message: message.to_string() }
    }

    /// The error that a card-reading error becomes, with the same message.
    pub fn from_card_error(error: ParseCardError) -> (r: Self)
        ensures
            r.spec_message() == error.spec_message(),
    {
        ParseRangeError { message: error.to_string() }
    }

    /// The message.
    pub fn to_string(&self) -> (r: String)
        ensures
            r@ == self.spec_message(),
    {
        self.message.clone()
    }
}

// ---------------------------------------------------------------------------
// Facts about the definitions.
// ---------------------------------------------------------------------------

proof fn lemma_split_pieces_nonempty(s: Seq<char>)
    ensures
        split_pieces(s).len() >= 1,
    decreases s.len(),
{
    if s.len() > 0 {
        lemma_split_pieces_nonempty(s.drop_last());
    }
}

/// The hands of a sequence grow by one hand at a time.
proof fn lemma_hands_of_push(s: Seq<HoleCards>, h: HoleCards)
    ensures
        hands_of(s.push(h)) == hands_of(s).insert(h@),
{
    let t = s.push(h);
    assert forall|v: (Card, Card)| #[trigger] hands_of(t).contains(v) implies hands_of(s).insert(
        h@,
    ).contains(v) by {
        let k = choose|k: int| 0 <= k < t.len() && (#[trigger] t[k])@ == v;
        if k < s.len() {
            assert(s[k] == t[k]);
        }
    }
    assert forall|v: (Card, Card)| hands_of(s).insert(h@).contains(v) implies #[trigger] hands_of(
        t,
    ).contains(v) by {
        if v == h@ {
            assert(t[s.len() as int] == h);
        } else {
            let k = choose|k: int| 0 <= k < s.len() && (#[trigger] s[k])@ == v;
            assert(t[k] == s[k]);
        }
    }
    assert(hands_of(t) =~= hands_of(s).insert(h@));
}

/// Once a prefix of the tokens stands for no hands, so do all of them, for the
/// same reason.
proof fn lemma_tokens_error_persists(ts: Seq<Seq<char>>, k: int, m: Seq<char>)
    requires
        0 <= k <= ts.len(),
        spec_tokens_hands(ts.take(k)) == Err::<Set<(Card, Card)>, Seq<char>>(m),
    ensures
        spec_tokens_hands(ts) == Err::<Set<(Card, Card)>, Seq<char>>(m),
    decreases ts.len() - k,
{
    if k == ts.len() {
        assert(ts.take(k) =~= ts);
    } else {
        assert(ts.take(k + 1).drop_last() =~= ts.take(k));
        lemma_tokens_error_persists(ts, k + 1, m);
    }
}

// ---------------------------------------------------------------------------
// Expansion of classes.
// ---------------------------------------------------------------------------

proof fn lemma_rank_code(a: Rank, b: Rank)
    ensures
        0 <= a.code() < 13,
        a.code() == b.code() <==> a == b,
{
}

fn suit_at(index: usize) -> (r: Suit)
    requires
        index < 4,
    ensures
        r.code() == index,
{
    match Suit::from_index(index) {
        Some(s) => s,
        None => Suit::Clubs,
    }
}

fn rank_at(index: usize) -> (r: Rank)
    requires
        index < 13,
    ensures
        r.code() == index,
{
    match Rank::from_index(index) {
        Some(k) => k,
        None => Rank::Two,
    }
}

/// Appends the six pairs of `rank`.
fn push_pair_combos(rank: Rank, out: &mut Vec<HoleCards>)
    ensures
        hands_of(final(out)@) == hands_of(old(out)@).union(Set::new(|p: (Card, Card)| is_pair_of(rank, p))),
{
    let ghost start = hands_of(out@);
    let mut low: usize = 0;
    while low < 4
        invariant
            low <= 4,
            hands_of(out@) == start.union(
                Set::new(|p: (Card, Card)| is_pair_of(rank, p) && p.1.spec_suit().code() < low),
            ),
        decreases 4 - low,
    {
        let mut high: usize = low + 1;
        while high < 4
            invariant
                low < 4,
                low + 1 <= high <= 4,
                hands_of(out@) == start.union(
                    Set::new(
                        |p: (Card, Card)|
                            is_pair_of(rank, p) && (p.1.spec_suit().code() < low || (
                            p.1.spec_suit().code() == low && p.0.spec_suit().code() < high)),
                    ),
                ),
            decreases 4 - high,
        {
            let lo_card = Card::new(rank, suit_at(low));
            let hi_card = Card::new(rank, suit_at(high));
            assert(lo_card.code() != hi_card.code());
            let ghost before = out@;
            match HoleCards::new(lo_card, hi_card) {
                Ok(h) => {
                    out.push(h);
                    proof {
                        lemma_hands_of_push(before, h);
                        assert(h@ == (hi_card, lo_card));
                        let old_set = Set::new(
                            |p: (Card, Card)|
                                is_pair_of(rank, p) && (p.1.spec_suit().code() < low || (
                                p.1.spec_suit().code() == low && p.0.spec_suit().code() < high)),
                        );
                        let new_set = Set::new(
                            |p: (Card, Card)|
                                is_pair_of(rank, p) && (p.1.spec_suit().code() < low || (
                                p.1.spec_suit().code() == low && p.0.spec_suit().code() < high
                                + 1)),
                        );
                        assert forall|p: (Card, Card)| new_set.contains(p) implies #[trigger] old_set.insert(
                            h@,
                        ).contains(p) by {
                            if !old_set.contains(p) {
                                assert(p.0.code() == hi_card.code());
                                assert(p.1.code() == lo_card.code());
                            }
                        }
                        assert(new_set =~= old_set.insert(h@));
                        assert(start.union(old_set).insert(h@) =~= start.union(new_set));
                    }
                },
                Err(_) => {},
            }
            high = high + 1;
        }
        proof {
            let a = Set::new(
                |p: (Card, Card)|
                    is_pair_of(rank, p) && (p.1.spec_suit().code() < low || (
                    p.1.spec_suit().code() == low && p.0.spec_suit().code() < 4)),
            );
            let b = Set::new(
                |p: (Card, Card)| is_pair_of(rank, p) && p.1.spec_suit().code() < low + 1,
            );
            assert(a =~= b);
        }
        low = low + 1;
    }
    proof {
        let a = Set::new(|p: (Card, Card)| is_pair_of(rank, p) && p.1.spec_suit().code() < 4);
        let b = Set::new(|p: (Card, Card)| is_pair_of(rank, p));
        assert(a =~= b);
    }
}

/// Appends the hands of a `high` card with a `low` card that the suitedness admits.
fn push_non_pair_combos(high: Rank, low: Rank, sd: Suitedness, out: &mut Vec<HoleCards>)
    requires
        low.code() < high.code(),
    ensures
        hands_of(final(out)@) == hands_of(old(out)@).union(
            Set::new(|p: (Card, Card)| is_non_pair_of(high, low, sd, p)),
        ),
{
    let ghost start = hands_of(out@);
    let mut hs: usize = 0;
    while hs < 4
        invariant
            hs <= 4,
            low.code() < high.code(),
            hands_of(out@) == start.union(
                Set::new(
                    |p: (Card, Card)| is_non_pair_of(high, low, sd, p) && p.0.spec_suit().code() < hs,
                ),
            ),
        decreases 4 - hs,
    {
        let mut ls: usize = 0;
        while ls < 4
            invariant
                hs < 4,
                ls <= 4,
                low.code() < high.code(),
                hands_of(out@) == start.union(
                    Set::new(
                        |p: (Card, Card)|
                            is_non_pair_of(high, low, sd, p) && (p.0.spec_suit().code() < hs || (
                            p.0.spec_suit().code() == hs && p.1.spec_suit().code() < ls)),
                    ),
                ),
            decreases 4 - ls,
        {
            let hi_card = Card::new(high, suit_at(hs));
            let lo_card = Card::new(low, suit_at(ls));
            let suited = hs == ls;
            let admitted = match sd {
                Suitedness::Any => true,
                Suitedness::Suited => suited,
                Suitedness::Offsuit => !suited,
            };
            let ghost before = out@;
            let ghost old_set = Set::new(
                |p: (Card, Card)|
                    is_non_pair_of(high, low, sd, p) && (p.0.spec_suit().code() < hs || (
                    p.0.spec_suit().code() == hs && p.1.spec_suit().code() < ls)),
            );
            let ghost new_set = Set::new(
                |p: (Card, Card)|
                    is_non_pair_of(high, low, sd, p) && (p.0.spec_suit().code() < hs || (
                    p.0.spec_suit().code() == hs && p.1.spec_suit().code() < ls + 1)),
            );
            assert(hi_card.code() > lo_card.code());
            if admitted {
                match HoleCards::new(hi_card, lo_card) {
                    Ok(h) => {
                        out.push(h);
                        proof {
                            lemma_hands_of_push(before, h);
                            assert(h@ == (hi_card, lo_card));
                            assert forall|p: (Card, Card)| new_set.contains(p) implies #[trigger] old_set.insert(
                                h@,
                            ).contains(p) by {
                                if !old_set.contains(p) {
                                    assert(p.0.code() == hi_card.code());
                                    assert(p.1.code() == lo_card.code());
                                }
                            }
                            assert(new_set =~= old_set.insert(h@));
                            assert(start.union(old_set).insert(h@) =~= start.union(new_set));
                        }
                    },
                    Err(_) => {},
                }
            } else {
                proof {
                    assert forall|p: (Card, Card)| new_set.contains(p) implies #[trigger] old_set.contains(p) by {
                        if !old_set.contains(p) {
                            assert(p.0.spec_suit().code() == hs);
                            assert(p.1.spec_suit().code() == ls);
                            assert((p.0.spec_suit() == p.1.spec_suit()) == suited);
                        }
                    }
                    assert(new_set =~= old_set);
                }
            }
            ls = ls + 1;
        }
        proof {
            let a = Set::new(
                |p: (Card, Card)|
                    is_non_pair_of(high, low, sd, p) && (p.0.spec_suit().code() < hs || (
                    p.0.spec_suit().code() == hs && p.1.spec_suit().code() < 4)),
            );
            let b = Set::new(
                |p: (Card, Card)|
                    is_non_pair_of(high, low, sd, p) && p.0.spec_suit().code() < hs + 1,
            );
            assert(a =~= b);
        }
        hs = hs + 1;
    }
    proof {
        let a = Set::new(
            |p: (Card, Card)| is_non_pair_of(high, low, sd, p) && p.0.spec_suit().code() < 4,
        );
        let b = Set::new(|p: (Card, Card)| is_non_pair_of(high, low, sd, p));
        assert(a =~= b);
    }
}

/// The hands of a pair class: `rank` alone, or with `plus` every pair from `rank` up.
fn expand_pairs(rank: Rank, plus: bool) -> (r: Vec<HoleCards>)
    ensures
        hands_of(r@) == pair_hands(rank, plus),
{
    let mut out: Vec<HoleCards> = Vec::new();
    let start = rank.index();
    let mut k: usize = start;
    while k < 13
        invariant
            start == rank.code(),
            start <= k <= 13,
            !plus ==> k == start,
            hands_of(out@) == Set::new(
                |p: (Card, Card)|
                    start <= p.0.spec_rank().code() < k && is_pair_of(p.0.spec_rank(), p),
            ),
        decreases 13 - k,
    {
        let current = rank_at(k);
        let ghost before = hands_of(out@);
        push_pair_combos(current, &mut out);
        proof {
            let next = Set::new(
                |p: (Card, Card)|
                    start <= p.0.spec_rank().code() < k + 1 && is_pair_of(p.0.spec_rank(), p),
            );
            let exact = Set::new(|p: (Card, Card)| is_pair_of(current, p));
            assert forall|p: (Card, Card)| #[trigger] next.contains(p) implies before.union(
                exact,
            ).contains(p) by {
                if p.0.spec_rank().code() == k {
                    assert(p.0.spec_rank() == current);
                }
            }
            assert(next =~= before.union(exact));
        }
        if !plus {
            proof {
                assert forall|p: (Card, Card)| #[trigger] pair_hands(rank, plus).contains(p)
                    <==> hands_of(out@).contains(p) by {
                    lemma_rank_code(p.0.spec_rank(), rank);
                }
                assert(hands_of(out@) =~= pair_hands(rank, plus));
            }
            return out;
        }
        k = k + 1;
    }
    proof {
        assert forall|p: (Card, Card)| #[trigger] pair_hands(rank, plus).contains(p)
            <==> hands_of(out@).contains(p) by {
            lemma_rank_code(p.0.spec_rank(), rank);
        }
        assert(hands_of(out@) =~= pair_hands(rank, plus));
    }
    out
}

/// The hands of a non-pair class: `high` with `low`, or with `plus` `high` with every
/// rank from `low` up to just below `high`.
fn expand_non_pair(high: Rank, low: Rank, sd: Suitedness, plus: bool) -> (r: Vec<HoleCards>)
    requires
        low.code() < high.code(),
    ensures
        hands_of(r@) == non_pair_hands(high, low, sd, plus),
{
    let mut out: Vec<HoleCards> = Vec::new();
    let start = low.index();
    let end = high.index();
    let mut k: usize = start;
    while k < end
        invariant
            start == low.code(),
            end == high.code(),
            start < end <= 12,
            start <= k <= end,
            !plus ==> k == start,
            hands_of(out@) == Set::new(
                |p: (Card, Card)|
                    start <= p.1.spec_rank().code() < k && is_non_pair_of(high, p.1.spec_rank(), sd, p),
            ),
        decreases end - k,
    {
        let current = rank_at(k);
        let ghost before = hands_of(out@);
        push_non_pair_combos(high, current, sd, &mut out);
        proof {
            let next = Set::new(
                |p: (Card, Card)|
                    start <= p.1.spec_rank().code() < k + 1 && is_non_pair_of(
                        high,
                        p.1.spec_rank(),
                        sd,
                        p,
                    ),
            );
            let exact = Set::new(|p: (Card, Card)| is_non_pair_of(high, current, sd, p));
            assert forall|p: (Card, Card)| #[trigger] next.contains(p) implies before.union(
                exact,
            ).contains(p) by {
                if p.1.spec_rank().code() == k {
                    assert(p.1.spec_rank() == current);
                }
            }
            assert(next =~= before.union(exact));
        }
        if !plus {
            proof {
                assert forall|p: (Card, Card)| #[trigger] non_pair_hands(high, low, sd, plus).contains(p)
                    <==> hands_of(out@).contains(p) by {
                    lemma_rank_code(p.1.spec_rank(), low);
                }
                assert(hands_of(out@) =~= non_pair_hands(high, low, sd, plus));
            }
            return out;
        }
        k = k + 1;
    }
    proof {
        assert forall|p: (Card, Card)| #[trigger] non_pair_hands(high, low, sd, plus).contains(p)
            <==> hands_of(out@).contains(p) by {
            lemma_rank_code(p.1.spec_rank(), low);
        }
        assert(hands_of(out@) =~= non_pair_hands(high, low, sd, plus));
    }
    out
}

fn suitedness_from_char(c: char) -> (r: Option<Suitedness>)
    ensures
        r == suitedness_of(c),
{
    if c == 's' || c == 'S' {
        Some(Suitedness::Suited)
    } else if c == 'o' || c == 'O' {
        Some(Suitedness::Offsuit)
    } else {
        None
    }
}

fn parse_rank_char(c: char) -> (r: Result<Rank, ParseRangeError>)
    ensures
        match spec_parse_rank(seq![c]) {
            Ok(k) => r == Ok::<Rank, ParseRangeError>(k),
            Err(m) => r matches Err(e) && e.spec_message() == m,
        },
{
    let one = vec![c];
    proof {
        assert(one@ =~= seq![c]);
    }
    match Rank::parse_chars(one.as_slice()) {
        Ok(k) => Ok(k),
        Err(e) => Err(ParseRangeError::from_card_error(e)),
    }
}

/// Reads the ranks and suitedness of a class token without its `+`.
fn parse_class(base: &[char]) -> (r: Result<(Rank, Rank, Suitedness), ParseRangeError>)
    ensures
        match spec_parse_class(base@) {
            Ok(v) => r == Ok::<(Rank, Rank, Suitedness), ParseRangeError>(v),
            Err(m) => r matches Err(e) && e.spec_message() == m,
        },
{
    proof {
        if base@.len() >= 2 {
            assert(base@.subrange(0, 1) =~= seq![base@[0]]);
            assert(base@.subrange(1, 2) =~= seq![base@[1]]);
        }
    }
    if base.len() == 2 {
        let a = parse_rank_char(base[0])?;
        let b = parse_rank_char(base[1])?;
        Ok((a, b, Suitedness::Any))
    } else if base.len() == 3 {
        let sd = match suitedness_from_char(base[2]) {
            Some(sd) => sd,
            None => {
                return Err(ParseRangeError::new("invalid suitedness marker"));
            },
        };
        let a = parse_rank_char(base[0])?;
        let b = parse_rank_char(base[1])?;
        Ok((a, b, sd))
    } else {
        Err(ParseRangeError::new("range token must be a combo like AsKd or a class like AKs"))
    }
}

/// The hands that one token stands for.
fn parse_range_token(token: &[char]) -> (r: Result<Vec<HoleCards>, ParseRangeError>)
    ensures
        match spec_token_hands(token@) {
            Ok(hands) => r matches Ok(v) && hands_of(v@) == hands,
            Err(m) => r matches Err(e) && e.spec_message() == m,
        },
        spec_parse_hole_cards(token@) matches Ok(p) ==> r matches Ok(v) && v@.len() == 1 && v@[0]@ == p,
{
    match HoleCards::parse_chars(token) {
        Ok(h) => {
            let v = vec![h];
            proof {
                lemma_hands_of_push(Seq::<HoleCards>::empty(), h);
                assert(v@ =~= Seq::<HoleCards>::empty().push(h));
                assert(hands_of(Seq::<HoleCards>::empty()) =~= Set::<(Card, Card)>::empty());
                assert(Set::<(Card, Card)>::empty().insert(h@) =~= set![h@]);
            }
            return Ok(v);
        },
        Err(_) => {},
    }
    let n = token.len();
    let plus = n > 0 && token[n - 1] == '+';
    let base_len = if plus {
        n - 1
    } else {
        n
    };
    let base = crate::text::sub_chars(token, 0, base_len);
    proof {
        if plus {
            assert(base@ =~= token@.drop_last());
        } else {
            assert(base@ =~= token@);
        }
    }
    let (a, b, sd) = parse_class(base.as_slice())?;
    if a == b {
        if sd != Suitedness::Any {
            return Err(
                ParseRangeError::new("pair range tokens cannot use suited or offsuit markers"),
            );
        }
        return Ok(expand_pairs(a, plus));
    }
    if a.index() < b.index() {
        return Err(
            ParseRangeError::new(
                "range class tokens must use descending rank order, for example AKs",
            ),
        );
    }
    Ok(expand_non_pair(a, b, sd, plus))
}

fn is_separator_char(c: char) -> (r: bool)
    ensures
        r == is_range_separator(c),
{
    let u = c as u32;
    c == ',' || (9 <= u && u <= 13) || u == 32 || u == 0x85 || u == 0xa0 || u == 0x1680 || (0x2000
        <= u && u <= 0x200a) || u == 0x2028 || u == 0x2029 || u == 0x202f || u == 0x205f || u
        == 0x3000
}

/// The tokens of a range text.
fn tokens_of(s: &[char]) -> (r: Vec<Vec<char>>)
    ensures
        r@.map_values(|t: Vec<char>| t@) == range_tokens(s@),
{
    let mut done: Vec<Vec<char>> = Vec::new();
    let mut cur: Vec<char> = Vec::new();
    let mut i: usize = 0;
    while i < s.len()
        invariant
            i <= s@.len(),
            split_pieces(s@.take(i as int)).len() >= 1,
            cur@ == split_pieces(s@.take(i as int)).last(),
            done@.map_values(|t: Vec<char>| t@) == split_pieces(s@.take(i as int)).drop_last().filter(
                |t: Seq<char>| t.len() > 0,
            ),
        decreases s@.len() - i,
    {
        let c = s[i];
        let ghost pieces = split_pieces(s@.take(i as int));
        let ghost old_done = done@;
        proof {
            assert(s@.take(i + 1).drop_last() =~= s@.take(i as int));
            assert(s@.take(i + 1).last() == c);
            reveal_with_fuel(Seq::<_>::filter, 1);
        }
        if is_separator_char(c) {
            let mut piece: Vec<char> = Vec::new();
            std::mem::swap(&mut piece, &mut cur);
            let ghost piece_view = piece@;
            if piece.len() > 0 {
                done.push(piece);
            }
            proof {
                let next = split_pieces(s@.take(i + 1));
                assert(next == pieces.push(Seq::<char>::empty()));
                assert(next.drop_last() =~= pieces);
                assert(pieces.filter(|t: Seq<char>| t.len() > 0) == (if piece_view.len() > 0 {
                    pieces.drop_last().filter(|t: Seq<char>| t.len() > 0).push(piece_view)
                } else {
                    pieces.drop_last().filter(|t: Seq<char>| t.len() > 0)
                }));
                assert(done@.map_values(|t: Vec<char>| t@) =~= next.drop_last().filter(
                    |t: Seq<char>| t.len() > 0,
                ));
            }
        } else {
            cur.push(c);
            proof {
                let next = split_pieces(s@.take(i + 1));
                assert(next == pieces.update(pieces.len() - 1, pieces.last().push(c)));
                assert(next.drop_last() =~= pieces.drop_last());
            }
        }
        i = i + 1;
    }
    let ghost pieces = split_pieces(s@.take(i as int));
    let ghost cur_view = cur@;
    if cur.len() > 0 {
        done.push(cur);
    }
    proof {
        assert(s@.take(i as int) =~= s@);
        reveal_with_fuel(Seq::<_>::filter, 1);
        assert(pieces.drop_last().push(pieces.last()) =~= pieces);
        assert(pieces.filter(|t: Seq<char>| t.len() > 0) == (if cur_view.len() > 0 {
            pieces.drop_last().filter(|t: Seq<char>| t.len() > 0).push(cur_view)
        } else {
            pieces.drop_last().filter(|t: Seq<char>| t.len() > 0)
        }));
        assert(done@.map_values(|t: Vec<char>| t@) =~= range_tokens(s@));
    }
    done
}

impl Range {
    /// Adds every hand of `combos`.
    fn insert_all(&mut self, combos: &[HoleCards])
        requires
            old(self).wf(),
        ensures
            final(self).wf(),
            final(self).hands() == old(self).hands().union(hands_of(combos@)),
    {
        let mut k: usize = 0;
        while k < combos.len()
            invariant
                k <= combos@.len(),
                self.wf(),
                self.hands() == old(self).hands().union(hands_of(combos@.take(k as int))),
            decreases combos@.len() - k,
        {
            self.insert(combos[k]);
            proof {
                assert(combos@.take(k + 1) =~= combos@.take(k as int).push(combos@[k as int]));
                lemma_hands_of_push(combos@.take(k as int), combos@[k as int]);
                assert(old(self).hands().union(hands_of(combos@.take(k + 1))) =~= old(
                    self,
                ).hands().union(hands_of(combos@.take(k as int))).insert(combos@[k as int]@));
            }
            k = k + 1;
        }
        proof {
            assert(combos@.take(k as int) =~= combos@);
        }
    }

    /// Reads a range written in range notation (see `spec_parse_range`).
    pub fn parse_chars(s: &[char]) -> (r: Result<Range, ParseRangeError>)
        ensures
            match spec_parse_range(s@) {
                Ok(hands) => r matches Ok(range) && range.wf() && range.hands() == hands,
                Err(m) => r matches Err(e) && e.spec_message() == m,
            },
    {
        let tokens = tokens_of(s);
        let ghost ts = tokens@.map_values(|t: Vec<char>| t@);
        let mut range = Range::empty();
        let mut j: usize = 0;
        proof {
            assert(ts.take(0) =~= Seq::<Seq<char>>::empty());
            assert(range.hands() =~= Set::<(Card, Card)>::empty());
        }
        while j < tokens.len()
            invariant
                j <= tokens@.len(),
                ts == tokens@.map_values(|t: Vec<char>| t@),
                ts == range_tokens(s@),
                range.wf(),
                spec_tokens_hands(ts.take(j as int)) == Ok::<Set<(Card, Card)>, Seq<char>>(
                    range.hands(),
                ),
            decreases tokens@.len() - j,
        {
            let token = &tokens[j];
            proof {
                assert(ts.take(j + 1).drop_last() =~= ts.take(j as int));
                assert(ts.take(j + 1).last() == token@);
            }
            match parse_range_token(token.as_slice()) {
                Ok(combos) => {
                    range.insert_all(combos.as_slice());
                },
                Err(e) => {
                    proof {
                        lemma_tokens_error_persists(ts, j + 1, e.spec_message());
                    }
                    return Err(e);
                },
            }
            j = j + 1;
        }
        proof {
            assert(ts.take(j as int) =~= ts);
        }
        Ok(range)
    }

    /// Reads a range written in range notation (see `spec_parse_range`).
    pub fn parse_str(s: &str) -> (r: Result<Range, ParseRangeError>)
        ensures
            match spec_parse_range(s@) {
                Ok(hands) => r matches Ok(range) && range.wf() && range.hands() == hands,
                Err(m) => r matches Err(e) && e.spec_message() == m,
            },
    {
        Range::parse_chars(chars_of(s).as_slice())
    }
}

impl std::str::FromStr for Range {
    type Err = ParseRangeError;

    fn from_str(input: &str) -> (r: Result<Range, ParseRangeError>)
        ensures
            match spec_parse_range(input@) {
                Ok(hands) => r matches Ok(range) && range.wf() && range.hands() == hands,
                Err(m) => r matches Err(e) && e.spec_message() == m,
            },
    {
        Range::parse_str(input)
    }
}

// ---------------------------------------------------------------------------
// Reading back a written range.
// ---------------------------------------------------------------------------

/// Appending text without separators extends the last piece.
proof fn lemma_split_append_plain(a: Seq<char>, t: Seq<char>)
    requires
        forall|i: int| 0 <= i < t.len() ==> !is_range_separator(#[trigger] t[i]),
    ensures
        split_pieces(a + t) == split_pieces(a).update(
            split_pieces(a).len() - 1,
            split_pieces(a).last() + t,
        ),
        split_pieces(a + t).len() == split_pieces(a).len(),
    decreases t.len(),
{
    lemma_split_pieces_nonempty(a);
    if t.len() == 0 {
        assert(a + t =~= a);
        assert(split_pieces(a).last() + t =~= split_pieces(a).last());
        assert(split_pieces(a).update(split_pieces(a).len() - 1, split_pieces(a).last())
            =~= split_pieces(a));
    } else {
        let t0 = t.drop_last();
        assert forall|i: int| 0 <= i < t0.len() implies !is_range_separator(#[trigger] t0[i]) by {
            assert(t0[i] == t[i]);
        }
        lemma_split_append_plain(a, t0);
        assert((a + t).drop_last() =~= a + t0);
        assert((a + t).last() == t.last());
        assert(!is_range_separator(t[t.len() - 1]));
        assert((split_pieces(a).last() + t0).push(t.last()) =~= split_pieces(a).last() + t);
        assert(split_pieces(a + t) =~= split_pieces(a).update(
            split_pieces(a).len() - 1,
            split_pieces(a).last() + t,
        ));
    }
}

/// The characters of a card are neither commas nor white space.
proof fn lemma_card_text_plain(c: Card)
    ensures
        forall|i: int| 0 <= i < card_text(c).len() ==> !is_range_separator(#[trigger] card_text(c)[i]),
        card_text(c).len() == 2,
{
}

/// The characters of a hand are neither commas nor white space.
proof fn lemma_hole_cards_text_plain(h: HoleCards)
    ensures
        forall|i: int| 0 <= i < hole_cards_text(h).len() ==> !is_range_separator(
            #[trigger] hole_cards_text(h)[i],
        ),
        hole_cards_text(h).len() == 4,
{
    lemma_card_text_plain(h@.0);
    lemma_card_text_plain(h@.1);
    assert forall|i: int| 0 <= i < hole_cards_text(h).len() implies !is_range_separator(
        #[trigger] hole_cards_text(h)[i],
    ) by {
        if i < 2 {
            assert(hole_cards_text(h)[i] == card_text(h@.0)[i]);
        } else {
            assert(hole_cards_text(h)[i] == card_text(h@.1)[i - 2]);
        }
    }
}

/// The pieces of a written, non-empty range are the written hands.
proof fn lemma_split_range_text(s: Seq<HoleCards>)
    requires
        s.len() >= 1,
    ensures
        split_pieces(range_text(s)) == s.map_values(|h: HoleCards| hole_cards_text(h)),
    decreases s.len(),
{
    let last = s.last();
    lemma_hole_cards_text_plain(last);
    if s.len() == 1 {
        assert(range_text(s) == hole_cards_text(s[0]));
        assert(Seq::<char>::empty() + hole_cards_text(last) =~= hole_cards_text(last));
        lemma_split_append_plain(Seq::<char>::empty(), hole_cards_text(last));
        assert(split_pieces(Seq::<char>::empty()) == seq![Seq::<char>::empty()]);
        assert(split_pieces(range_text(s)) =~= s.map_values(|h: HoleCards| hole_cards_text(h)));
    } else {
        let d = s.drop_last();
        lemma_split_range_text(d);
        let with_comma = range_text(d) + seq![','];
        assert(with_comma.drop_last() =~= range_text(d));
        assert(split_pieces(with_comma) == split_pieces(range_text(d)).push(Seq::<char>::empty()));
        lemma_split_append_plain(with_comma, hole_cards_text(last));
        assert(range_text(s) == with_comma + hole_cards_text(last));
        assert(Seq::<char>::empty() + hole_cards_text(last) =~= hole_cards_text(last));
        assert(split_pieces(range_text(s)) =~= s.map_values(|h: HoleCards| hole_cards_text(h)));
    }
}

/// Keeping the non-empty pieces of a list of non-empty pieces keeps them all.
proof fn lemma_filter_nonempty_keeps_all(ts: Seq<Seq<char>>)
    requires
        forall|i: int| 0 <= i < ts.len() ==> (#[trigger] ts[i]).len() > 0,
    ensures
        ts.filter(|t: Seq<char>| t.len() > 0) == ts,
    decreases ts.len(),
{
    reveal_with_fuel(Seq::<_>::filter, 1);
    if ts.len() > 0 {
        let d = ts.drop_last();
        assert forall|i: int| 0 <= i < d.len() implies (#[trigger] d[i]).len() > 0 by {
            assert(d[i] == ts[i]);
        }
        lemma_filter_nonempty_keeps_all(d);
        assert(d.push(ts.last()) =~= ts);
    }
}

/// The written hands of a list of ordered hands stand for exactly those hands.
proof fn lemma_written_hands(s: Seq<HoleCards>)
    requires
        forall|k: int| 0 <= k < s.len() ==> (#[trigger] s[k]).is_ordered(),
    ensures
        spec_tokens_hands(s.map_values(|h: HoleCards| hole_cards_text(h))) == Ok::<
            Set<(Card, Card)>,
            Seq<char>,
        >(hands_of(s)),
    decreases s.len(),
{
    let ts = s.map_values(|h: HoleCards| hole_cards_text(h));
    if s.len() == 0 {
        assert(hands_of(s) =~= Set::<(Card, Card)>::empty());
    } else {
        let d = s.drop_last();
        let last = s.last();
        assert forall|k: int| 0 <= k < d.len() implies (#[trigger] d[k]).is_ordered() by {
            assert(d[k] == s[k]);
        }
        lemma_written_hands(d);
        assert(ts.drop_last() =~= d.map_values(|h: HoleCards| hole_cards_text(h)));
        lemma_hole_cards_text_round_trips(last);
        assert(spec_token_hands(ts.last()) == Ok::<Set<(Card, Card)>, Seq<char>>(set![last@]));
        lemma_hands_of_push(d, last);
        assert(d.push(last) =~= s);
        assert(hands_of(d).union(set![last@]) =~= hands_of(d).insert(last@));
    }
}

/// Writing a range and reading the text back gives the same hands.
pub proof fn lemma_range_text_round_trips(r: Range)
    requires
        r.wf(),
    ensures
        spec_parse_range(range_text(r@)) == Ok::<Set<(Card, Card)>, Seq<char>>(r.hands()),
{
    let s = r@;
    let ts = s.map_values(|h: HoleCards| hole_cards_text(h));
    if s.len() == 0 {
        assert(range_text(s) == Seq::<char>::empty());
        reveal_with_fuel(Seq::<_>::filter, 2);
        assert(range_tokens(range_text(s)) =~= Seq::<Seq<char>>::empty());
        assert(hands_of(s) =~= Set::<(Card, Card)>::empty());
    } else {
        lemma_split_range_text(s);
        assert forall|i: int| 0 <= i < ts.len() implies (#[trigger] ts[i]).len() > 0 by {
            lemma_hole_cards_text_plain(s[i]);
        }
        lemma_filter_nonempty_keeps_all(ts);
    }
    lemma_written_hands(s);
}

/// Two ranges with the same hands hold them in the same order: a range is sorted by
/// the hands' positions, so its hands decide it.
pub proof fn lemma_range_decided_by_hands(a: Range, b: Range)
    requires
        a.wf(),
        b.wf(),
        a.hands() == b.hands(),
    ensures
        a@ == b@,
{
    let sa = a@;
    let sb = b@;
    let ka = sa.map_values(|h: HoleCards| h.key() as u64);
    let kb = sb.map_values(|h: HoleCards| h.key() as u64);
    assert forall|i: int| 0 <= i < sa.len() implies 0 <= #[trigger] sa[i].key() < 2704 by {
        assert(0 <= sa[i]@.0.code() < 52 && 0 <= sa[i]@.1.code() < 52);
    }
    assert forall|i: int| 0 <= i < sb.len() implies 0 <= #[trigger] sb[i].key() < 2704 by {
        assert(0 <= sb[i]@.0.code() < 52 && 0 <= sb[i]@.1.code() < 52);
    }
    assert(crate::solver::abstraction::strictly_ascending(ka)) by {
        assert forall|i: int, j: int| 0 <= i < j < ka.len() implies #[trigger] ka[i] < #[trigger] ka[j] by {
            assert(sa[i].key() < sa[j].key());
        }
    }
    assert(crate::solver::abstraction::strictly_ascending(kb)) by {
        assert forall|i: int, j: int| 0 <= i < j < kb.len() implies #[trigger] kb[i] < #[trigger] kb[j] by {
            assert(sb[i].key() < sb[j].key());
        }
    }
    assert(ka.to_set() =~= kb.to_set()) by {
        assert forall|x: u64| ka.to_set().contains(x) implies kb.to_set().contains(x) by {
            let k = choose|k: int| 0 <= k < ka.len() && ka[k] == x;
            assert(a.hands().contains(sa[k]@));
            let j = choose|j: int| 0 <= j < sb.len() && (#[trigger] sb[j])@ == sa[k]@;
            assert(kb[j] == x);
        }
        assert forall|x: u64| kb.to_set().contains(x) implies ka.to_set().contains(x) by {
            let k = choose|k: int| 0 <= k < kb.len() && kb[k] == x;
            assert(b.hands().contains(sb[k]@));
            let j = choose|j: int| 0 <= j < sa.len() && (#[trigger] sa[j])@ == sb[k]@;
            assert(ka[j] == x);
        }
    }
    crate::solver::abstraction::lemma_ascending_unique(ka, kb);
    assert forall|i: int| 0 <= i < sa.len() implies sa[i] == sb[i] by {
        assert(ka[i] == kb[i]);
        crate::range::lemma_key_injective(sa[i], sb[i]);
    }
    assert(sa =~= sb);
}

} // verus!
