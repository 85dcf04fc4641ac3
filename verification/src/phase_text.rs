//! The text of a hand phase in Rust's debug notation: `Name { field: value, .. }` for
//! structs and struct variants, bare names for unit variants, `[a, b]` for arrays and
//! plain decimals for chip amounts.

use vstd::prelude::*;

use crate::cards::Rank;
use crate::hand_eval::{HandCategory, HandRank, HeadsUpPayout, ShowdownResult};
use crate::holdem::{HandOutcome, HandPhase, Player, Street};
use crate::text::{decimal, push_decimal, push_str};

verus! {

/// The name of the rank at position `code` (two is 0, ace 12).
#[verifier::opaque]
pub open spec fn rank_name(code: int) -> Seq<char> {
    if code == 0 {
        "Two"@
    } else if code == 1 {
        "Three"@
    } else if code == 2 {
        "Four"@
    } else if code == 3 {
        "Five"@
    } else if code == 4 {
        "Six"@
    } else if code == 5 {
        "Seven"@
    } else if code == 6 {
        "Eight"@
    } else if code == 7 {
        "Nine"@
    } else if code == 8 {
        "Ten"@
    } else if code == 9 {
        "Jack"@
    } else if code == 10 {
        "Queen"@
    } else if code == 11 {
        "King"@
    } else {
        "Ace"@
    }
}

/// The name of the hand category at position `code` (high card 0, straight flush 8).
#[verifier::opaque]
pub open spec fn category_name(code: int) -> Seq<char> {
    if code == 0 {
        "HighCard"@
    } else if code == 1 {
        "OnePair"@
    } else if code == 2 {
        "TwoPair"@
    } else if code == 3 {
        "ThreeOfAKind"@
    } else if code == 4 {
        "Straight"@
    } else if code == 5 {
        "Flush"@
    } else if code == 6 {
        "FullHouse"@
    } else if code == 7 {
        "FourOfAKind"@
    } else {
        "StraightFlush"@
    }
}

pub open spec fn street_name(s: Street) -> Seq<char> {
    match s {
        Street::Preflop => "Preflop"@,
        Street::Flop => "Flop"@,
        Street::Turn => "Turn"@,
        Street::River => "River"@,
    }
}

pub open spec fn player_name(p: Player) -> Seq<char> {
    match p {
        Player::Button => "Button"@,
        Player::BigBlind => "BigBlind"@,
    }
}

/// Five ranks, given by position, as an array.
pub open spec fn rank_list_text(codes: Seq<int>) -> Seq<char> {
    "["@ + rank_name(codes[0]) + ", "@ + rank_name(codes[1]) + ", "@ + rank_name(codes[2]) + ", "@
        + rank_name(codes[3]) + ", "@ + rank_name(codes[4]) + "]"@
}

/// A hand value, given by its model (category position, tie-breaker positions).
pub open spec fn hand_rank_text(v: (int, Seq<int>)) -> Seq<char> {
    "HandRank { category: "@ + category_name(v.0) + ", tiebreakers: "@ + rank_list_text(v.1) + " }"@
}

pub open spec fn payout_text(p: HeadsUpPayout) -> Seq<char> {
    "HeadsUpPayout { player_one: "@ + decimal(p.player_one as nat) + ", player_two: "@ + decimal(
        p.player_two as nat,
    ) + " }"@
}

pub open spec fn showdown_text(r: ShowdownResult) -> Seq<char> {
    "ShowdownResult { player_one_rank: "@ + hand_rank_text(r.player_one_rank@) + ", player_two_rank: "@
        + hand_rank_text(r.player_two_rank@) + " }"@
}

pub open spec fn outcome_text(o: HandOutcome) -> Seq<char> {
    match o {
        HandOutcome::Uncontested { winner, pot, payout, street } => "Uncontested { winner: "@
            + player_name(winner) + ", pot: "@ + decimal(pot as nat) + ", payout: "@ + payout_text(
            payout,
        ) + ", street: "@ + street_name(street) + " }"@,
        HandOutcome::Showdown { result, pot, payout } => "Showdown { result: "@ + showdown_text(result)
            + ", pot: "@ + decimal(pot as nat) + ", payout: "@ + payout_text(payout) + " }"@,
    }
}

/// The debug text of a hand phase.
pub open spec fn spec_phase_text(p: HandPhase) -> Seq<char> {
    match p {
        HandPhase::BettingRound { street, actor } => "BettingRound { street: "@ + street_name(street)
            + ", actor: "@ + player_name(actor) + " }"@,
        HandPhase::AwaitingBoard { next_street } => "AwaitingBoard { next_street: "@ + street_name(
            next_street,
        ) + " }"@,
        HandPhase::Terminal { outcome } => "Terminal { outcome: "@ + outcome_text(outcome) + " }"@,
    }
}

fn push_rank_name(s: &mut String, r: Rank)
    ensures
        final(s)@ == old(s)@ + rank_name(r.code()),
{
    reveal(rank_name);
    match r {
        Rank::Two => push_str(s, "Two"),
        Rank::Three => push_str(s, "Three"),
        Rank::Four => push_str(s, "Four"),
        Rank::Five => push_str(s, "Five"),
        Rank::Six => push_str(s, "Six"),
        Rank::Seven => push_str(s, "Seven"),
        Rank::Eight => push_str(s, "Eight"),
        Rank::Nine => push_str(s, "Nine"),
        Rank::Ten => push_str(s, "Ten"),
        Rank::Jack => push_str(s, "Jack"),
        Rank::Queen => push_str(s, "Queen"),
        Rank::King => push_str(s, "King"),
        Rank::Ace => push_str(s, "Ace"),
    }
}

fn push_category_name(s: &mut String, c: HandCategory)
    ensures
        final(s)@ == old(s)@ + category_name(c.code()),
{
    reveal(category_name);
    match c {
        HandCategory::HighCard => push_str(s, "HighCard"),
        HandCategory::OnePair => push_str(s, "OnePair"),
        HandCategory::TwoPair => push_str(s, "TwoPair"),
        HandCategory::ThreeOfAKind => push_str(s, "ThreeOfAKind"),
        HandCategory::Straight => push_str(s, "Straight"),
        HandCategory::Flush => push_str(s, "Flush"),
        HandCategory::FullHouse => push_str(s, "FullHouse"),
        HandCategory::FourOfAKind => push_str(s, "FourOfAKind"),
        HandCategory::StraightFlush => push_str(s, "StraightFlush"),
    }
}

fn push_street_name(s: &mut String, street: Street)
    ensures
        final(s)@ == old(s)@ + street_name(street),
{
    match street {
        Street::Preflop => push_str(s, "Preflop"),
        Street::Flop => push_str(s, "Flop"),
        Street::Turn => push_str(s, "Turn"),
        Street::River => push_str(s, "River"),
    }
}

fn push_player_name(s: &mut String, p: Player)
    ensures
        final(s)@ == old(s)@ + player_name(p),
{
    match p {
        Player::Button => push_str(s, "Button"),
        Player::BigBlind => push_str(s, "BigBlind"),
    }
}

/// The positions of five ranks.
pub open spec fn rank_codes(t: Seq<Rank>) -> Seq<int> {
    t.map_values(|k: Rank| k.code())
}

fn push_rank_list(s: &mut String, t: [Rank; 5])
    ensures
        final(s)@ == old(s)@ + rank_list_text(rank_codes(t@)),
{
    let ghost s0 = s@;
    let ghost c = rank_codes(t@);
    assert(c[0] == t@[0].code() && c[1] == t@[1].code() && c[2] == t@[2].code());
    assert(c[3] == t@[3].code() && c[4] == t@[4].code());
    push_str(s, "[");
    push_rank_name(s, t[0]);
    let ghost p1 = "["@ + rank_name(c[0]);
    assert(s@ =~= s0 + p1);
    push_str(s, ", ");
    push_rank_name(s, t[1]);
    let ghost p2 = p1 + ", "@ + rank_name(c[1]);
    assert(s@ =~= s0 + p2);
    push_str(s, ", ");
    push_rank_name(s, t[2]);
    let ghost p3 = p2 + ", "@ + rank_name(c[2]);
    assert(s@ =~= s0 + p3);
    push_str(s, ", ");
    push_rank_name(s, t[3]);
    let ghost p4 = p3 + ", "@ + rank_name(c[3]);
    assert(s@ =~= s0 + p4);
    push_str(s, ", ");
    push_rank_name(s, t[4]);
    let ghost p5 = p4 + ", "@ + rank_name(c[4]);
    assert(s@ =~= s0 + p5);
    push_str(s, "]");
    assert(s@ =~= s0 + (p5 + "]"@));
    assert(p5 + "]"@ == rank_list_text(c));
}

fn push_hand_rank(s: &mut String, h: HandRank)
    ensures
        final(s)@ == old(s)@ + hand_rank_text(h@),
{
    let ghost s0 = s@;
    let t = h.tiebreakers();
    let c = h.category();
    assert(rank_codes(t@) == h@.1);
    push_str(s, "HandRank { category: ");
    push_category_name(s, c);
    push_str(s, ", tiebreakers: ");
    push_rank_list(s, t);
    push_str(s, " }");
    proof {
        assert(s@ =~= s0 + hand_rank_text(h@));
    }
}

fn push_payout(s: &mut String, p: HeadsUpPayout)
    ensures
        final(s)@ == old(s)@ + payout_text(p),
{
    let ghost s0 = s@;
    push_str(s, "HeadsUpPayout { player_one: ");
    push_decimal(s, p.player_one);
    push_str(s, ", player_two: ");
    push_decimal(s, p.player_two);
    push_str(s, " }");
    proof {
        assert(s@ =~= s0 + payout_text(p));
    }
}

fn push_showdown(s: &mut String, r: ShowdownResult)
    ensures
        final(s)@ == old(s)@ + showdown_text(r),
{
    let ghost s0 = s@;
    push_str(s, "ShowdownResult { player_one_rank: ");
    push_hand_rank(s, r.player_one_rank);
    push_str(s, ", player_two_rank: ");
    push_hand_rank(s, r.player_two_rank);
    push_str(s, " }");
    proof {
        assert(s@ =~= s0 + showdown_text(r));
    }
}

fn push_outcome(s: &mut String, o: HandOutcome)
    ensures
        final(s)@ == old(s)@ + outcome_text(o),
{
    let ghost s0 = s@;
    match o {
        HandOutcome::Uncontested { winner, pot, payout, street } => {
            push_str(s, "Uncontested { winner: ");
            push_player_name(s, winner);
            push_str(s, ", pot: ");
            push_decimal(s, pot);
            push_str(s, ", payout: ");
            push_payout(s, payout);
            push_str(s, ", street: ");
            push_street_name(s, street);
            push_str(s, " }");
            proof {
                assert(s@ =~= s0 + outcome_text(o));
            }
        },
        HandOutcome::Showdown { result, pot, payout } => {
            push_str(s, "Showdown { result: ");
            push_showdown(s, result);
            push_str(s, ", pot: ");
            push_decimal(s, pot);
            push_str(s, ", payout: ");
            push_payout(s, payout);
            push_str(s, " }");
            proof {
                assert(s@ =~= s0 + outcome_text(o));
            }
        },
    }
}

/// Writes the debug text of a hand phase.
pub fn push_phase_text(s: &mut String, p: HandPhase)
    ensures
        final(s)@ == old(s)@ + spec_phase_text(p),
{
    let ghost s0 = s@;
    match p {
        HandPhase::BettingRound { street, actor } => {
            push_str(s, "BettingRound { street: ");
            push_street_name(s, street);
            push_str(s, ", actor: ");
            push_player_name(s, actor);
            push_str(s, " }");
        },
        HandPhase::AwaitingBoard { next_street } => {
            push_str(s, "AwaitingBoard { next_street: ");
            push_street_name(s, next_street);
            push_str(s, " }");
        },
        HandPhase::Terminal { outcome } => {
            push_str(s, "Terminal { outcome: ");
            push_outcome(s, outcome);
            push_str(s, " }");
        },
    }
    proof {
        assert(s@ =~= s0 + spec_phase_text(p));
    }
}

/// The debug text of a hand phase.
pub fn phase_text(p: HandPhase) -> (r: String)
    ensures
        r@ == spec_phase_text(p),
{
    let mut s = String::new();
    push_phase_text(&mut s, p);
    proof {
        assert(s@ =~= spec_phase_text(p));
    }
    s
}

} // verus!
