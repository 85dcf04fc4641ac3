use vstd::prelude::*;

use crate::cards::{
    board_push_result, Board, BoardError, Card, DuplicateCardError, HoleCards, ParseCardError, Rank,
    Suit,
};
use crate::text::{all_ascii, ascii_lower, chars_all_ascii, chars_of, decimal, push_char, push_decimal, push_str, sub_chars};

verus! {

broadcast use crate::cards::group_card_lemmas;

// ---------------------------------------------------------------------------
// How cards are written.
// ---------------------------------------------------------------------------

/// A card written as its rank character and suit letter, e.g. `As`.
pub open spec fn card_text(c: Card) -> Seq<char> {
    seq![c.spec_rank().spec_symbol(), c.spec_suit().spec_symbol()]
}

/// A hand written as its two cards, higher first, e.g. `AsKd`.
pub open spec fn hole_cards_text(h: HoleCards) -> Seq<char> {
    card_text(h@.0) + card_text(h@.1)
}

/// Cards written one after the other.
pub open spec fn cards_text(cards: Seq<Card>) -> Seq<char>
    decreases cards.len(),
{
    if cards.len() == 0 {
        seq![]
    } else {
        cards_text(cards.drop_last()) + card_text(cards.last())
    }
}

pub open spec fn board_error_text(e: BoardError) -> Seq<char> {
    match e {
        BoardError::DuplicateCard { card } => "duplicate board card "@ + card_text(card),
        BoardError::TooManyCards { attempted_len } => "board cannot contain "@ + decimal(
            attempted_len as nat,
        ) + " cards"@,
    }
}

impl Suit {
    pub fn to_string(self) -> (r: String)
        ensures
            r@ == seq![self.spec_symbol()],
    {
        let mut s = String::new();
        push_char(&mut s, self.symbol());
        s
    }
}

impl Rank {
    pub fn to_string(self) -> (r: String)
        ensures
            r@ == seq![self.spec_symbol()],
    {
        let mut s = String::new();
        push_char(&mut s, self.symbol());
        s
    }
}

/// Appends a card's text.
pub fn push_card(s: &mut String, c: Card)
    ensures
        final(s)@ == old(s)@ + card_text(c),
{
    push_char(s, c.rank().symbol());
    push_char(s, c.suit().symbol());
    proof {
        assert(final(s)@ =~= old(s)@ + card_text(c));
    }
}

/// Appends the texts of several cards.
pub fn push_cards(s: &mut String, cards: &[Card])
    ensures
        final(s)@ == old(s)@ + cards_text(cards@),
{
    let ghost start = s@;
    let mut i: usize = 0;
    while i < cards.len()
        invariant
            i <= cards@.len(),
            s@ == start + cards_text(cards@.take(i as int)),
        decreases cards@.len() - i,
    {
        push_card(s, cards[i]);
        proof {
            assert(cards@.take(i + 1).drop_last() =~= cards@.take(i as int));
            assert(s@ =~= start + cards_text(cards@.take(i + 1)));
        }
        i = i + 1;
    }
    proof {
        assert(cards@.take(cards@.len() as int) =~= cards@);
    }
}

impl Card {
    pub fn to_string(self) -> (r: String)
        ensures
            r@ == card_text(self),
    {
        let mut s = String::new();
        push_card(&mut s, self);
        s
    }
}

impl HoleCards {
    pub fn to_string(self) -> (r: String)
        ensures
            r@ == hole_cards_text(self),
    {
        let mut s = String::new();
        push_card(&mut s, self.first());
        push_card(&mut s, self.second());
        proof {
            assert(s@ =~= hole_cards_text(self));
        }
        s
    }
}

impl Board {
    pub fn to_string(&self) -> (r: String)
        ensures
            r@ == cards_text(self@),
    {
        let mut s = String::new();
        push_cards(&mut s, self.cards());
        s
    }
}

impl BoardError {
    pub fn to_string(&self) -> (r: String)
        ensures
            r@ == board_error_text(*self),
    {
        let mut s = String::new();
        match *self {
            BoardError::DuplicateCard { card } => {
                push_str(&mut s, "duplicate board card ");
                push_card(&mut s, card);
            },
            BoardError::TooManyCards { attempted_len } => {
                push_str(&mut s, "board cannot contain ");
                push_decimal(&mut s, attempted_len as u64);
                push_str(&mut s, " cards");
            },
        }
        s
    }
}

impl DuplicateCardError {
    pub fn to_string(&self) -> (r: String)
        ensures
            r@ == "duplicate card "@ + card_text(self.spec_card()),
    {
        let mut s = String::new();
        push_str(&mut s, "duplicate card ");
        push_card(&mut s, self.card());
        s
    }
}

// ---------------------------------------------------------------------------
// How card text is read.
// ---------------------------------------------------------------------------

/// A suit read from text: exactly one letter, in either case.
pub open spec fn spec_parse_suit(s: Seq<char>) -> Result<Suit, Seq<char>> {
    if s.len() != 1 {
        Err("suit must contain exactly one character"@)
    } else {
        match Suit::spec_from_char(s[0]) {
            Some(suit) => Ok(suit),
            None => Err("invalid suit character"@),
        }
    }
}

/// A rank read from text: exactly one character, letters in either case.
pub open spec fn spec_parse_rank(s: Seq<char>) -> Result<Rank, Seq<char>> {
    if s.len() != 1 {
        Err("rank must contain exactly one character"@)
    } else {
        match Rank::spec_from_char(s[0]) {
            Some(rank) => Ok(rank),
            None => Err("invalid rank character"@),
        }
    }
}

/// A rank's symbol is its character in `23456789TJQKA`, and it reads back as the rank
/// in either case.
pub proof fn lemma_rank_symbol_round_trips(r: Rank)
    ensures
        r.spec_symbol() == "23456789TJQKA"@[r.code()],
        spec_parse_rank(seq![r.spec_symbol()]) == Ok::<Rank, Seq<char>>(r),
        spec_parse_rank(seq![ascii_lower(r.spec_symbol())]) == Ok::<Rank, Seq<char>>(r),
{
    reveal_strlit("23456789TJQKA");
}

/// A card read from text: a rank character then a suit letter.
pub open spec fn spec_parse_card(s: Seq<char>) -> Result<Card, Seq<char>> {
    if !all_ascii(s) || s.len() != 2 {
        Err("card must contain exactly two characters"@)
    } else {
        match spec_parse_rank(s.subrange(0, 1)) {
            Err(m) => Err(m),
            Ok(rank) => match spec_parse_suit(s.subrange(1, 2)) {
                Err(m) => Err(m),
                Ok(suit) => Ok(Card::spec_new(rank, suit)),
            },
        }
    }
}

/// A hand read from text: two different cards, in either order.
pub open spec fn spec_parse_hole_cards(s: Seq<char>) -> Result<(Card, Card), Seq<char>> {
    if !all_ascii(s) || s.len() != 4 {
        Err("hole cards must contain exactly four characters"@)
    } else {
        match spec_parse_card(s.subrange(0, 2)) {
            Err(m) => Err(m),
            Ok(first) => match spec_parse_card(s.subrange(2, 4)) {
                Err(m) => Err(m),
                Ok(second) => if first == second {
                    Err("hole cards cannot repeat a card"@)
                } else {
                    Ok(HoleCards::spec_of(first, second))
                },
            },
        }
    }
}

/// The board made of the first `n` two-character cards of `s`, or the first reason
/// that fails.
pub open spec fn spec_parse_board_prefix(s: Seq<char>, n: int) -> Result<Seq<Card>, Seq<char>>
    decreases n,
{
    if n <= 0 {
        Ok(seq![])
    } else {
        match spec_parse_board_prefix(s, n - 1) {
            Err(m) => Err(m),
            Ok(b) => match spec_parse_card(s.subrange(2 * n - 2, 2 * n)) {
                Err(m) => Err(m),
                Ok(c) => match board_push_result(b, c) {
                    Ok(b2) => Ok(b2),
                    Err(e) => Err(board_error_text(e)),
                },
            },
        }
    }
}

/// A board read from text: cards written one after the other, possibly none.
pub open spec fn spec_parse_board(s: Seq<char>) -> Result<Seq<Card>, Seq<char>> {
    if s.len() == 0 {
        Ok(seq![])
    } else if !all_ascii(s) || s.len() % 2 != 0 {
        Err("board text must contain an even number of characters"@)
    } else {
        spec_parse_board_prefix(s, s.len() as int / 2)
    }
}

impl Suit {
    pub fn parse_chars(s: &[char]) -> (r: Result<Suit, ParseCardError>)
        ensures
            match spec_parse_suit(s@) {
                Ok(suit) => r == Ok::<Suit, ParseCardError>(suit),
                Err(m) => r matches Err(e) && e.spec_message() == m,
            },
    {
        if s.len() != 1 {
            return Err(ParseCardError::new("suit must contain exactly one character"));
        }
        match Suit::from_char(s[0]) {
            Some(suit) => Ok(suit),
            None => Err(ParseCardError::new("invalid suit character")),
        }
    }

    pub fn parse_str(s: &str) -> (r: Result<Suit, ParseCardError>)
        ensures
            match spec_parse_suit(s@) {
                Ok(suit) => r == Ok::<Suit, ParseCardError>(suit),
                Err(m) => r matches Err(e) && e.spec_message() == m,
            },
    {
        Suit::parse_chars(chars_of(s).as_slice())
    }
}

impl Rank {
    pub fn parse_chars(s: &[char]) -> (r: Result<Rank, ParseCardError>)
        ensures
            match spec_parse_rank(s@) {
                Ok(rank) => r == Ok::<Rank, ParseCardError>(rank),
                Err(m) => r matches Err(e) && e.spec_message() == m,
            },
    {
        if s.len() != 1 {
            return Err(ParseCardError::new("rank must contain exactly one character"));
        }
        match Rank::from_char(s[0]) {
            Some(rank) => Ok(rank),
            None => Err(ParseCardError::new("invalid rank character")),
        }
    }

    pub fn parse_str(s: &str) -> (r: Result<Rank, ParseCardError>)
        ensures
            match spec_parse_rank(s@) {
                Ok(rank) => r == Ok::<Rank, ParseCardError>(rank),
                Err(m) => r matches Err(e) && e.spec_message() == m,
            },
    {
        Rank::parse_chars(chars_of(s).as_slice())
    }
}

impl Card {
    pub fn parse_chars(s: &[char]) -> (r: Result<Card, ParseCardError>)
        ensures
            match spec_parse_card(s@) {
                Ok(card) => r == Ok::<Card, ParseCardError>(card),
                Err(m) => r matches Err(e) && e.spec_message() == m,
            },
    {
        if !chars_all_ascii(s) || s.len() != 2 {
            return Err(ParseCardError::new("card must contain exactly two characters"));
        }
        let rank = Rank::parse_chars(sub_chars(s, 0, 1).as_slice())?;
        let suit = Suit::parse_chars(sub_chars(s, 1, 2).as_slice())?;
        Ok(Card::new(rank, suit))
    }

    pub fn parse_str(s: &str) -> (r: Result<Card, ParseCardError>)
        ensures
            match spec_parse_card(s@) {
                Ok(card) => r == Ok::<Card, ParseCardError>(card),
                Err(m) => r matches Err(e) && e.spec_message() == m,
            },
    {
        Card::parse_chars(chars_of(s).as_slice())
    }
}

impl HoleCards {
    pub fn parse_chars(s: &[char]) -> (r: Result<HoleCards, ParseCardError>)
        ensures
            match spec_parse_hole_cards(s@) {
                Ok(cards) => r matches Ok(h) && h@ == cards,
                Err(m) => r matches Err(e) && e.spec_message() == m,
            },
    {
        if !chars_all_ascii(s) || s.len() != 4 {
            return Err(ParseCardError::new("hole cards must contain exactly four characters"));
        }
        let first = Card::parse_chars(sub_chars(s, 0, 2).as_slice())?;
        let second = Card::parse_chars(sub_chars(s, 2, 4).as_slice())?;
        match HoleCards::new(first, second) {
            Ok(h) => Ok(h),
            Err(_) => Err(ParseCardError::new("hole cards cannot repeat a card")),
        }
    }

    pub fn parse_str(s: &str) -> (r: Result<HoleCards, ParseCardError>)
        ensures
            match spec_parse_hole_cards(s@) {
                Ok(cards) => r matches Ok(h) && h@ == cards,
                Err(m) => r matches Err(e) && e.spec_message() == m,
            },
    {
        HoleCards::parse_chars(chars_of(s).as_slice())
    }
}

impl Board {
    pub fn parse_chars(s: &[char]) -> (r: Result<Board, ParseCardError>)
        ensures
            match spec_parse_board(s@) {
                Ok(cards) => r matches Ok(b) && b@ == cards && b.wf(),
                Err(m) => r matches Err(e) && e.spec_message() == m,
            },
    {
        if s.len() == 0 {
            return Ok(Board::new());
        }
        if !chars_all_ascii(s) || s.len() % 2 != 0 {
            return Err(
                ParseCardError::new("board text must contain an even number of characters"),
            );
        }
        let mut board = Board::new();
        let mut start: usize = 0;
        while start < s.len()
            invariant
                s@.len() % 2 == 0,
                start % 2 == 0,
                start <= s@.len(),
                all_ascii(s@),
                board.wf(),
                spec_parse_board_prefix(s@, start as int / 2) == Ok::<Seq<Card>, Seq<char>>(board@),
            decreases s@.len() - start,
        {
            let end = start + 2;
            let card = match Card::parse_chars(sub_chars(s, start, end).as_slice()) {
                Ok(card) => card,
                Err(e) => {
                    proof {
                        lemma_board_prefix_stops(s@, end as int / 2);
                    }
                    return Err(e);
                },
            };
            match board.push(card) {
                Ok(()) => {},
                Err(error) => {
                    proof {
                        lemma_board_prefix_stops(s@, end as int / 2);
                    }
                    return Err(ParseCardError::from_string(error.to_string()));
                },
            }
            start = end;
        }
        Ok(board)
    }

    pub fn parse_str(s: &str) -> (r: Result<Board, ParseCardError>)
        ensures
            match spec_parse_board(s@) {
                Ok(cards) => r matches Ok(b) && b@ == cards && b.wf(),
                Err(m) => r matches Err(e) && e.spec_message() == m,
            },
    {
        Board::parse_chars(chars_of(s).as_slice())
    }
}

/// Once reading a board fails, reading more of the text does not change the failure.
proof fn lemma_board_prefix_stops(s: Seq<char>, n: int)
    requires
        0 <= n <= s.len() as int / 2,
        spec_parse_board_prefix(s, n) is Err,
    ensures
        spec_parse_board_prefix(s, s.len() as int / 2) == spec_parse_board_prefix(s, n),
    decreases s.len() as int / 2 - n,
{
    if n < s.len() as int / 2 {
        lemma_board_prefix_stops(s, n + 1);
    }
}

impl std::str::FromStr for Suit {
    type Err = ParseCardError;

    fn from_str(input: &str) -> (r: Result<Suit, ParseCardError>)
        ensures
            match spec_parse_suit(input@) {
                Ok(suit) => r == Ok::<Suit, ParseCardError>(suit),
                Err(m) => r matches Err(e) && e.spec_message() == m,
            },
    {
        Suit::parse_str(input)
    }
}

impl std::str::FromStr for Rank {
    type Err = ParseCardError;

    fn from_str(input: &str) -> (r: Result<Rank, ParseCardError>)
        ensures
            match spec_parse_rank(input@) {
                Ok(rank) => r == Ok::<Rank, ParseCardError>(rank),
                Err(m) => r matches Err(e) && e.spec_message() == m,
            },
    {
        Rank::parse_str(input)
    }
}

impl std::str::FromStr for Card {
    type Err = ParseCardError;

    fn from_str(input: &str) -> (r: Result<Card, ParseCardError>)
        ensures
            match spec_parse_card(input@) {
                Ok(card) => r == Ok::<Card, ParseCardError>(card),
                Err(m) => r matches Err(e) && e.spec_message() == m,
            },
    {
        Card::parse_str(input)
    }
}

impl std::str::FromStr for HoleCards {
    type Err = ParseCardError;

    fn from_str(input: &str) -> (r: Result<HoleCards, ParseCardError>)
        ensures
            match spec_parse_hole_cards(input@) {
                Ok(cards) => r matches Ok(h) && h@ == cards,
                Err(m) => r matches Err(e) && e.spec_message() == m,
            },
    {
        HoleCards::parse_str(input)
    }
}

impl std::str::FromStr for Board {
    type Err = ParseCardError;

    fn from_str(input: &str) -> (r: Result<Board, ParseCardError>)
        ensures
            match spec_parse_board(input@) {
                Ok(cards) => r matches Ok(b) && b@ == cards && b.wf(),
                Err(m) => r matches Err(e) && e.spec_message() == m,
            },
    {
        Board::parse_str(input)
    }
}

// ---------------------------------------------------------------------------
// Reading back what was written.
// ---------------------------------------------------------------------------

/// Reading a card's text gives back the card.
pub proof fn lemma_card_text_round_trips(c: Card)
    ensures
        spec_parse_card(card_text(c)) == Ok::<Card, Seq<char>>(c),
{
    let t = card_text(c);
    assert(t.subrange(0, 1) =~= seq![c.spec_rank().spec_symbol()]);
    assert(t.subrange(1, 2) =~= seq![c.spec_suit().spec_symbol()]);
    assert(Rank::spec_from_char(c.spec_rank().spec_symbol()) == Some(c.spec_rank()));
    assert(Suit::spec_from_char(c.spec_suit().spec_symbol()) == Some(c.spec_suit()));
    assert(all_ascii(t));
}

/// Reading a hand's text gives back the hand.
pub proof fn lemma_hole_cards_text_round_trips(h: HoleCards)
    requires
        h.is_ordered(),
    ensures
        spec_parse_hole_cards(hole_cards_text(h)) == Ok::<(Card, Card), Seq<char>>(h@),
{
    let t = hole_cards_text(h);
    lemma_card_text_round_trips(h@.0);
    lemma_card_text_round_trips(h@.1);
    assert(t.subrange(0, 2) =~= card_text(h@.0));
    assert(t.subrange(2, 4) =~= card_text(h@.1));
    assert(all_ascii(card_text(h@.0)));
    assert(all_ascii(card_text(h@.1)));
    assert(all_ascii(t));
}

} // verus!
