use vstd::prelude::*;
use vstd::string::StrSliceExecFns;

use crate::card_text::{card_text, hole_cards_text, push_card};
use crate::cards::{Card, HoleCards, Rank, Suit};
use crate::holdem::{
    Chips, HandModel, HandPhase, HoldemConfig, HoldemHandState, HoldemStateError, Player,
    PlayerAction, Street, MAX_CHIPS,
};
use crate::range::{range_text, Range};
use crate::rules_text::{action_text, push_action, push_street, state_error_text, street_text};
use crate::solver::abstraction::{
    abstract_actions, spec_abstract_actions, AbstractAction, AbstractionProfile, HoldemInfoSetKey,
    OpeningSize, RaiseSize, StreetProfile,
};
use crate::solver::spots::{
    solve_fault_text, FlopSolveError, RiverSolveError, ScriptedFlopSpot,
    ScriptedRiverSpot, ScriptedTurnSpot, TurnSolveError,
};
use crate::text::{
    ascii_upper, chars_eq, chars_of, chars_start_with, decimal, digit_char, join, join_strings,
    parse_u64, push_char, push_decimal, push_str, spec_parse_u64, string_of_chars, sub_chars, text_eq, trim,
    trim_chars, upper_chars, views,
};

verus! {

broadcast use crate::cards::group_card_lemmas;

// ---------------------------------------------------------------------------
// Numbers as an outside solver writes them.
// ---------------------------------------------------------------------------

/// Hundredths after the decimal point: one digit when the second is zero, else two.
pub open spec fn fraction_text(f: nat) -> Seq<char> {
    if f % 10 == 0 {
        decimal(f / 10)
    } else {
        seq![digit_char(f / 10), digit_char(f % 10)]
    }
}

/// Chips in big blinds of 100 chips, with at least one decimal: `8.0`, `2.5`, `2.64`.
pub open spec fn bb_text(chips: nat) -> Seq<char> {
    if chips % 100 == 0 {
        decimal(chips / 100) + seq!['.', '0']
    } else {
        decimal(chips / 100) + seq!['.'] + fraction_text(chips % 100)
    }
}

/// Basis points as a percentage, without decimals when whole: `33`, `66.5`.
pub open spec fn percent_text(bps: nat) -> Seq<char> {
    if bps % 100 == 0 {
        decimal(bps / 100)
    } else {
        decimal(bps / 100) + seq!['.'] + fraction_text(bps % 100)
    }
}

fn push_fraction(s: &mut String, f: u64)
    requires
        0 < f < 100,
    ensures
        final(s)@ == old(s)@ + fraction_text(f as nat),
{
    if f % 10 == 0 {
        push_decimal(s, f / 10);
    } else {
        let ghost before = s@;
        push_decimal(s, f / 10);
        push_decimal(s, f % 10);
        proof {
            assert(decimal((f / 10) as nat) == seq![digit_char((f / 10) as nat)]);
            assert(decimal((f % 10) as nat) == seq![digit_char((f % 10) as nat)]);
            assert(s@ =~= before + fraction_text(f as nat));
        }
    }
}

/// Chips in big blinds, as the outside solver's scripts write them.
pub fn chips_to_bb_string(chips: Chips) -> (r: String)
    ensures
        r@ == bb_text(chips as nat),
{
    let mut s = String::new();
    push_decimal(&mut s, chips / 100);
    push_char(&mut s, '.');
    if chips % 100 == 0 {
        push_char(&mut s, '0');
        proof {
            assert(s@ =~= bb_text(chips as nat));
        }
    } else {
        let ghost before = s@;
        push_fraction(&mut s, chips % 100);
        proof {
            assert(s@ =~= bb_text(chips as nat));
        }
    }
    s
}

/// Basis points as a percentage, as the outside solver's scripts write bet sizes.
pub fn format_percentage_bps(bps: u32) -> (r: String)
    ensures
        r@ == percent_text(bps as nat),
{
    let mut s = String::new();
    push_decimal(&mut s, (bps / 100) as u64);
    if bps % 100 != 0 {
        push_char(&mut s, '.');
        push_fraction(&mut s, (bps % 100) as u64);
        proof {
            assert(s@ =~= percent_text(bps as nat));
        }
    }
    s
}

// ---------------------------------------------------------------------------
// Reading amounts and actions.
// ---------------------------------------------------------------------------

/// The text before the first `c`, and the text after it when there is one.
pub open spec fn split_once(s: Seq<char>, c: char) -> (Seq<char>, Option<Seq<char>>)
    decreases s.len(),
{
    if s.len() == 0 {
        (seq![], None)
    } else {
        let (a, rest) = split_once(s.drop_last(), c);
        match rest {
            None => if s.last() == c {
                (a, Some(seq![]))
            } else {
                (a.push(s.last()), None)
            },
            Some(r) => (a, Some(r.push(s.last()))),
        }
    }
}

fn split_once_chars(v: &[char], c: char) -> (r: (Vec<char>, Option<Vec<char>>))
    ensures
        r.0@ == split_once(v@, c).0,
        match split_once(v@, c).1 {
            None => r.1 is None,
            Some(t) => r.1 matches Some(w) && w@ == t,
        },
{
    let mut a: Vec<char> = Vec::new();
    let mut rest: Option<Vec<char>> = None;
    let mut i: usize = 0;
    while i < v.len()
        invariant
            i <= v@.len(),
            a@ == split_once(v@.take(i as int), c).0,
            match split_once(v@.take(i as int), c).1 {
                None => rest is None,
                Some(t) => rest matches Some(w) && w@ == t,
            },
        decreases v@.len() - i,
    {
        proof {
            assert(v@.take(i + 1).drop_last() =~= v@.take(i as int));
        }
        let x = v[i];
        match rest {
            None => {
                if x == c {
                    rest = Some(Vec::new());
                } else {
                    a.push(x);
                }
            },
            Some(mut w) => {
                w.push(x);
                rest = Some(w);
            },
        }
        i = i + 1;
    }
    proof {
        assert(v@.take(i as int) =~= v@);
    }
    (a, rest)
}

/// The first two characters of a fraction, padded with zeros to two.
pub open spec fn two_places(f: Seq<char>) -> Seq<char> {
    if f.len() >= 2 {
        f.take(2)
    } else if f.len() == 1 {
        f.push('0')
    } else {
        seq!['0', '0']
    }
}

/// An amount in big blinds with up to two decimals (more are ignored), in chips:
/// `None` where the text is not such an amount. The whole part is multiplied by 100
/// saturating at the largest 64-bit number before the hundredths are added.
pub open spec fn spec_bb_amount(s: Seq<char>) -> Option<int> {
    let (whole_text, fraction) = split_once(trim(s), '.');
    match spec_parse_u64(whole_text) {
        None => None,
        Some(whole) => {
            let scaled: int = if whole * 100 <= u64::MAX {
                (whole * 100) as int
            } else {
                u64::MAX as int
            };
            match fraction {
                None => Some(scaled),
                Some(f) => {
                    let (first, more) = split_once(f, '.');
                    if more is Some {
                        None
                    } else {
                        match spec_parse_u64(two_places(first)) {
                            None => None,
                            Some(hundredths) => Some(scaled + hundredths),
                        }
                    }
                },
            }
        },
    }
}

/// The amount of a text fits in 64 bits once its hundredths are added.
pub open spec fn bb_amount_fits(s: Seq<char>) -> bool {
    spec_bb_amount(s) matches Some(v) ==> v <= u64::MAX
}

/// Reads an amount in big blinds; the error holds the text.
pub fn parse_bb_amount(input: &[char]) -> (r: Result<Chips, TexasSolverEvalError>)
    requires
        bb_amount_fits(input@),
    ensures
        match spec_bb_amount(input@) {
            Some(v) => r == Ok::<Chips, TexasSolverEvalError>(v as u64),
            None => r matches Err(TexasSolverEvalError::UnsupportedTexasSolverAction(t)) && t@
                == input@,
        },
{
    let trimmed = trim_chars(input);
    let (whole_text, fraction) = split_once_chars(trimmed.as_slice(), '.');
    let whole = match parse_u64(whole_text.as_slice()) {
        Some(w) => w,
        None => {
            return Err(TexasSolverEvalError::UnsupportedTexasSolverAction(string_of_chars(input)));
        },
    };
    let scaled: u64 = if whole <= u64::MAX / 100 {
        whole * 100
    } else {
        u64::MAX
    };
    proof {
        assert(scaled == if whole * 100 <= u64::MAX {
            whole * 100
        } else {
            u64::MAX as int
        });
    }
    let hundredths = match fraction {
        None => 0u64,
        Some(f) => {
            let (first, more) = split_once_chars(f.as_slice(), '.');
            if more.is_some() {
                return Err(
                    TexasSolverEvalError::UnsupportedTexasSolverAction(string_of_chars(input)),
                );
            }
            let digits: Vec<char> = if first.len() >= 2 {
                vec![first[0], first[1]]
            } else if first.len() == 1 {
                vec![first[0], '0']
            } else {
                vec!['0', '0']
            };
            proof {
                assert(digits@ =~= two_places(first@));
            }
            match parse_u64(digits.as_slice()) {
                Some(h) => h,
                None => {
                    return Err(
                        TexasSolverEvalError::UnsupportedTexasSolverAction(string_of_chars(input)),
                    );
                },
            }
        },
    };
    Ok(scaled + hundredths)
}

/// An action label of the outside solver, in chips.
#[derive(Debug, Clone, Copy, PartialEq, Eq, Hash, Structural)]
pub enum NormalizedTexasAction {
    Fold,
    Check,
    Call,
    Bet(Chips),
    Raise(Chips),
}

/// An action as the outside solver labels it: `CHECK`, `BET 2.64`.
pub open spec fn normalized_text(a: NormalizedTexasAction) -> Seq<char> {
    match a {
        NormalizedTexasAction::Fold => "FOLD"@,
        NormalizedTexasAction::Check => "CHECK"@,
        NormalizedTexasAction::Call => "CALL"@,
        NormalizedTexasAction::Bet(total) => "BET "@ + bb_text(total as nat),
        NormalizedTexasAction::Raise(total) => "RAISE "@ + bb_text(total as nat),
    }
}

/// An action label, trimmed and read without regard to ASCII case: the plain labels,
/// or `BET` and `RAISE` with an amount in big blinds. The error holds the label, or
/// the amount's text (in upper case) when only the amount is wrong.
pub open spec fn spec_parse_label(s: Seq<char>) -> Result<NormalizedTexasAction, Seq<char>> {
    let t = trim(s).map_values(|c: char| ascii_upper(c));
    if t == "FOLD"@ {
        Ok(NormalizedTexasAction::Fold)
    } else if t == "CHECK"@ {
        Ok(NormalizedTexasAction::Check)
    } else if t == "CALL"@ {
        Ok(NormalizedTexasAction::Call)
    } else if t.len() >= "BET "@.len() && t.take("BET "@.len() as int) == "BET "@ {
        let amount = t.skip("BET "@.len() as int);
        match spec_bb_amount(amount) {
            Some(v) => Ok(NormalizedTexasAction::Bet(v as u64)),
            None => Err(amount),
        }
    } else if t.len() >= "RAISE "@.len() && t.take("RAISE "@.len() as int) == "RAISE "@ {
        let amount = t.skip("RAISE "@.len() as int);
        match spec_bb_amount(amount) {
            Some(v) => Ok(NormalizedTexasAction::Raise(v as u64)),
            None => Err(amount),
        }
    } else {
        Err(s)
    }
}

/// The amount of a label fits in 64 bits.
pub open spec fn label_fits(s: Seq<char>) -> bool {
    let t = trim(s).map_values(|c: char| ascii_upper(c));
    &&& (t.len() >= "BET "@.len() && t.take("BET "@.len() as int) == "BET "@) ==> bb_amount_fits(
        t.skip("BET "@.len() as int),
    )
    &&& (t.len() >= "RAISE "@.len() && t.take("RAISE "@.len() as int) == "RAISE "@)
        ==> bb_amount_fits(t.skip("RAISE "@.len() as int))
}

/// Whether the amount of a text fits in 64 bits once its hundredths are added.
fn bb_amount_fits_check(input: &[char]) -> (r: bool)
    ensures
        r == bb_amount_fits(input@),
{
    let trimmed = trim_chars(input);
    let (whole_text, fraction) = split_once_chars(trimmed.as_slice(), '.');
    let whole = match parse_u64(whole_text.as_slice()) {
        Some(w) => w,
        None => {
            return true;
        },
    };
    let scaled: u64 = if whole <= u64::MAX / 100 {
        whole * 100
    } else {
        u64::MAX
    };
    proof {
        assert(scaled == if whole * 100 <= u64::MAX {
            whole * 100
        } else {
            u64::MAX as int
        });
    }
    match fraction {
        None => true,
        Some(f) => {
            let (first, more) = split_once_chars(f.as_slice(), '.');
            if more.is_some() {
                return true;
            }
            let digits: Vec<char> = if first.len() >= 2 {
                vec![first[0], first[1]]
            } else if first.len() == 1 {
                vec![first[0], '0']
            } else {
                vec!['0', '0']
            };
            proof {
                assert(digits@ =~= two_places(first@));
            }
            match parse_u64(digits.as_slice()) {
                Some(h) => h <= u64::MAX - scaled,
                None => true,
            }
        },
    }
}

/// Whether every amount in an action label fits in 64 bits (see `label_fits`), the
/// condition for reading it with `NormalizedTexasAction::parse`.
pub fn label_fits_text(input: &str) -> (r: bool)
    ensures
        r == label_fits(input@),
{
    let raw = chars_of(input);
    let trimmed = trim_chars(raw.as_slice());
    let t = upper_chars(trimmed.as_slice());
    let bet = if chars_start_with(t.as_slice(), "BET ") {
        let n = "BET ".unicode_len();
        let amount = sub_chars(t.as_slice(), n, t.len());
        proof {
            assert(amount@ =~= t@.skip("BET "@.len() as int));
        }
        bb_amount_fits_check(amount.as_slice())
    } else {
        true
    };
    let raise = if chars_start_with(t.as_slice(), "RAISE ") {
        let n = "RAISE ".unicode_len();
        let amount = sub_chars(t.as_slice(), n, t.len());
        proof {
            assert(amount@ =~= t@.skip("RAISE "@.len() as int));
        }
        bb_amount_fits_check(amount.as_slice())
    } else {
        true
    };
    bet && raise
}

/// Whether `label` reads as the action whose label is `action`.
pub open spec fn label_reads_as(label: Seq<char>, action: Seq<char>) -> bool {
    spec_parse_label(label) matches Ok(a) && normalized_text(a) == action
}

/// Scanning `labels` from position `k`: the position of the first label that reads as
/// `action`, or, if a label with an amount beyond 64 bits comes first, its position as
/// the error.
pub open spec fn spec_find_label(labels: Seq<Seq<char>>, action: Seq<char>, k: int) -> Result<
    Option<int>,
    int,
>
    decreases labels.len() - k,
{
    if k < 0 || k >= labels.len() {
        Ok(None)
    } else if !label_fits(labels[k]) {
        Err(k)
    } else if label_reads_as(labels[k], action) {
        Ok(Some(k))
    } else {
        spec_find_label(labels, action, k + 1)
    }
}

/// Finds, among the labels of a reference node's children in their order, the first
/// that reads as `action`; a label whose amount does not fit in 64 bits, met first, is
/// refused by its position.
pub fn find_label(labels: &Vec<String>, action: &str) -> (r: Result<Option<usize>, usize>)
    ensures
        match spec_find_label(views(labels@), action@, 0) {
            Ok(Some(i)) => r == Ok::<Option<usize>, usize>(Some(i as usize)),
            Ok(None) => r == Ok::<Option<usize>, usize>(None),
            Err(i) => r == Err::<Option<usize>, usize>(i as usize),
        },
{
    let ghost texts = views(labels@);
    let mut k: usize = 0;
    while k < labels.len()
        invariant
            k <= labels@.len(),
            texts == views(labels@),
            spec_find_label(texts, action@, 0) == spec_find_label(texts, action@, k as int),
        decreases labels@.len() - k,
    {
        let label = labels[k].as_str();
        assert(label@ == texts[k as int]);
        if !label_fits_text(label) {
            return Err(k);
        }
        match NormalizedTexasAction::parse(label) {
            Ok(a) => {
                let text = a.to_string();
                if text_eq(text.as_str(), action) {
                    return Ok(Some(k));
                }
            },
            Err(_) => {},
        }
        k = k + 1;
    }
    Ok(None)
}

impl NormalizedTexasAction {
    /// Reads an action label of the outside solver.
    pub fn parse(input: &str) -> (r: Result<Self, TexasSolverEvalError>)
        requires
            label_fits(input@),
        ensures
            match spec_parse_label(input@) {
                Ok(a) => r == Ok::<Self, TexasSolverEvalError>(a),
                Err(t) => r matches Err(TexasSolverEvalError::UnsupportedTexasSolverAction(u))
                    && u@ == t,
            },
    {
        let raw = chars_of(input);
        let trimmed = trim_chars(raw.as_slice());
        let t = upper_chars(trimmed.as_slice());
        if chars_eq(t.as_slice(), "FOLD") {
            return Ok(NormalizedTexasAction::Fold);
        }
        if chars_eq(t.as_slice(), "CHECK") {
            return Ok(NormalizedTexasAction::Check);
        }
        if chars_eq(t.as_slice(), "CALL") {
            return Ok(NormalizedTexasAction::Call);
        }
        if chars_start_with(t.as_slice(), "BET ") {
            let n = "BET ".unicode_len();
            let amount = sub_chars(t.as_slice(), n, t.len());
            proof {
                assert(amount@ =~= t@.skip("BET "@.len() as int));
            }
            return match parse_bb_amount(amount.as_slice()) {
                Ok(total) => Ok(NormalizedTexasAction::Bet(total)),
                Err(e) => Err(e),
            };
        }
        if chars_start_with(t.as_slice(), "RAISE ") {
            let n = "RAISE ".unicode_len();
            let amount = sub_chars(t.as_slice(), n, t.len());
            proof {
                assert(amount@ =~= t@.skip("RAISE "@.len() as int));
            }
            return match parse_bb_amount(amount.as_slice()) {
                Ok(total) => Ok(NormalizedTexasAction::Raise(total)),
                Err(e) => Err(e),
            };
        }
        Err(TexasSolverEvalError::UnsupportedTexasSolverAction(string_of_chars(raw.as_slice())))
    }

    /// The label the outside solver gives this action.
    pub fn to_string(&self) -> (r: String)
        ensures
            r@ == normalized_text(*self),
    {
        let mut s = String::new();
        match *self {
            NormalizedTexasAction::Fold => push_str(&mut s, "FOLD"),
            NormalizedTexasAction::Check => push_str(&mut s, "CHECK"),
            NormalizedTexasAction::Call => push_str(&mut s, "CALL"),
            NormalizedTexasAction::Bet(total) => {
                push_str(&mut s, "BET ");
                let amount = chips_to_bb_string(total);
                push_str(&mut s, amount.as_str());
            },
            NormalizedTexasAction::Raise(total) => {
                push_str(&mut s, "RAISE ");
                let amount = chips_to_bb_string(total);
                push_str(&mut s, amount.as_str());
            },
        }
        s
    }
}

// ---------------------------------------------------------------------------
// Errors.
// ---------------------------------------------------------------------------

/// Why a spot could not be exported or graded.
#[derive(Debug)]
pub enum TexasSolverEvalError {
    UnsupportedSuiteFormatVersion { expected: u32, actual: u32 },
    UnsupportedReferenceFormatVersion { expected: u32, actual: u32 },
    Encode(String),
    Decode(String),
    FlopSolve(FlopSolveError),
    TurnSolve(TurnSolveError),
    RiverSolve(RiverSolveError),
    State(HoldemStateError),
    MissingOurAction(String),
    NoActor(String),
    UnequalEffectiveStacks(String),
    UnsupportedRaiseSize { spot_id: String, street: Street },
    UnsupportedOpeningSize,
    UnsupportedRaiseSizeType,
    UnsupportedTexasSolverAction(String),
    ActionNotInAbstraction { spot_id: String, action: PlayerAction },
}


impl TexasSolverEvalError {
    /// The message of the error.
    pub open spec fn message(&self) -> Seq<char> {
        match self {
            TexasSolverEvalError::UnsupportedSuiteFormatVersion { expected, actual } =>
                "unsupported TexasSolver spot suite format version "@ + decimal(*actual as nat)
                + "; expected "@ + decimal(*expected as nat),
            TexasSolverEvalError::UnsupportedReferenceFormatVersion { expected, actual } =>
                "unsupported TexasSolver reference format version "@ + decimal(*actual as nat)
                + "; expected "@ + decimal(*expected as nat),
            TexasSolverEvalError::Encode(e) => "failed to encode TexasSolver data: "@ + e@,
            TexasSolverEvalError::Decode(e) => "failed to decode TexasSolver data: "@ + e@,
            TexasSolverEvalError::FlopSolve(e) => solve_fault_text("flop"@, e.kind()),
            TexasSolverEvalError::TurnSolve(e) => solve_fault_text("turn"@, e.kind()),
            TexasSolverEvalError::RiverSolve(e) => solve_fault_text("river"@, e.kind()),
            TexasSolverEvalError::State(e) => state_error_text(*e),
            TexasSolverEvalError::MissingOurAction(id) => "solver did not return an action for evaluation spot `"@
                + id@ + seq!['`'],
            TexasSolverEvalError::NoActor(context) => "no current actor available for "@ + context@,
            TexasSolverEvalError::UnequalEffectiveStacks(id) =>
                "TexasSolver export only supports equal effective stacks for spot `"@ + id@ + seq!['`'],
            TexasSolverEvalError::UnsupportedRaiseSize { spot_id, street } =>
                "TexasSolver export only supports pot-fraction-after-call raise sizes for spot `"@ + spot_id@
                + "` on "@ + street_text(*street),
            TexasSolverEvalError::UnsupportedOpeningSize =>
                "TexasSolver export only supports postflop pot-fraction opening sizes"@,
            TexasSolverEvalError::UnsupportedRaiseSizeType =>
                "TexasSolver export only supports pot-fraction-after-call raise sizes"@,
            TexasSolverEvalError::UnsupportedTexasSolverAction(a) => "unsupported TexasSolver action label `"@
                + a@ + seq!['`'],
            TexasSolverEvalError::ActionNotInAbstraction { spot_id, action } => "public script action `"@
                + action_text(*action) + "` was not present in the abstraction for spot `"@ + spot_id@ + seq!['`'],
        }
    }

    pub fn to_string(&self) -> (r: String)
        ensures
            r@ == self.message(),
    {
        let mut s = String::new();
        match self {
            TexasSolverEvalError::UnsupportedSuiteFormatVersion { expected, actual } => {
                push_str(&mut s, "unsupported TexasSolver spot suite format version ");
                push_decimal(&mut s, *actual as u64);
                push_str(&mut s, "; expected ");
                push_decimal(&mut s, *expected as u64);
                proof {
                    assert(s@ =~= self.message());
                }
            },
            TexasSolverEvalError::UnsupportedReferenceFormatVersion { expected, actual } => {
                push_str(&mut s, "unsupported TexasSolver reference format version ");
                push_decimal(&mut s, *actual as u64);
                push_str(&mut s, "; expected ");
                push_decimal(&mut s, *expected as u64);
                proof {
                    assert(s@ =~= self.message());
                }
            },
            TexasSolverEvalError::Encode(e) => {
                push_str(&mut s, "failed to encode TexasSolver data: ");
                push_str(&mut s, e.as_str());
                proof {
                    assert(s@ =~= self.message());
                }
            },
            TexasSolverEvalError::Decode(e) => {
                push_str(&mut s, "failed to decode TexasSolver data: ");
                push_str(&mut s, e.as_str());
                proof {
                    assert(s@ =~= self.message());
                }
            },
            TexasSolverEvalError::FlopSolve(e) => {
                return e.to_string();
            },
            TexasSolverEvalError::TurnSolve(e) => {
                return e.to_string();
            },
            TexasSolverEvalError::RiverSolve(e) => {
                return e.to_string();
            },
            TexasSolverEvalError::State(e) => {
                return e.to_string();
            },
            TexasSolverEvalError::MissingOurAction(id) => {
                push_str(&mut s, "solver did not return an action for evaluation spot `");
                push_str(&mut s, id.as_str());
                push_char(&mut s, '`');
                proof {
                    assert(s@ =~= self.message());
                }
            },
            TexasSolverEvalError::NoActor(context) => {
                push_str(&mut s, "no current actor available for ");
                push_str(&mut s, context.as_str());
                proof {
                    assert(s@ =~= self.message());
                }
            },
            TexasSolverEvalError::UnequalEffectiveStacks(id) => {
                push_str(&mut s, "TexasSolver export only supports equal effective stacks for spot `");
                push_str(&mut s, id.as_str());
                push_char(&mut s, '`');
                proof {
                    assert(s@ =~= self.message());
                }
            },
            TexasSolverEvalError::UnsupportedRaiseSize { spot_id, street } => {
                push_str(
                    &mut s,
                    "TexasSolver export only supports pot-fraction-after-call raise sizes for spot `",
                );
                push_str(&mut s, spot_id.as_str());
                push_str(&mut s, "` on ");
                push_street(&mut s, *street);
                proof {
                    assert(s@ =~= self.message());
                }
            },
            TexasSolverEvalError::UnsupportedOpeningSize => {
                push_str(&mut s, "TexasSolver export only supports postflop pot-fraction opening sizes");
                proof {
                    assert(s@ =~= self.message());
                }
            },
            TexasSolverEvalError::UnsupportedRaiseSizeType => {
                push_str(&mut s, "TexasSolver export only supports pot-fraction-after-call raise sizes");
                proof {
                    assert(s@ =~= self.message());
                }
            },
            TexasSolverEvalError::UnsupportedTexasSolverAction(a) => {
                push_str(&mut s, "unsupported TexasSolver action label `");
                push_str(&mut s, a.as_str());
                push_char(&mut s, '`');
                proof {
                    assert(s@ =~= self.message());
                }
            },
            TexasSolverEvalError::ActionNotInAbstraction { spot_id, action } => {
                push_str(&mut s, "public script action `");
                push_action(&mut s, *action);
                push_str(&mut s, "` was not present in the abstraction for spot `");
                push_str(&mut s, spot_id.as_str());
                push_char(&mut s, '`');
                proof {
                    assert(s@ =~= self.message());
                }
            },
        }
        s
    }
}

// ---------------------------------------------------------------------------
// Spots.
// ---------------------------------------------------------------------------

/// The public line of play of a spot, ending on the flop, turn or river.
#[derive(Debug, Clone, PartialEq, Eq)]
pub enum PostflopScriptedSpot {
    Flop(ScriptedFlopSpot),
    Turn(ScriptedTurnSpot),
    River(ScriptedRiverSpot),
}

/// One spot to export: both hands, both ranges, the bet sizes and the public line.
#[derive(Debug, Clone, PartialEq, Eq)]
pub struct TexasSolverEvalSpot {
    pub id: String,
    pub description: String,
    pub button_hole_cards: HoleCards,
    pub big_blind_hole_cards: HoleCards,
    pub button_range: Range,
    pub big_blind_range: Range,
    pub profile: AbstractionProfile,
    pub iterations: u64,
    pub script: PostflopScriptedSpot,
}

/// A named list of spots.
#[derive(Debug, Clone, PartialEq, Eq)]
pub struct TexasSolverSpotSuite {
    pub format_version: u32,
    pub suite_name: String,
    pub spots: Vec<TexasSolverEvalSpot>,
}

/// The version of the spot suite format.
pub const TEXASSOLVER_SUITE_FORMAT_VERSION: u32 = 1;

/// A spot as the outside solver takes it: its command script, the path of labelled
/// actions to the decision, the acting hand, and a signature that identifies the spot.
#[derive(Debug, Clone, PartialEq, Eq)]
pub struct TexasSolverExport {
    pub spot_id: String,
    pub street: Street,
    pub actor: Player,
    pub actor_combo: String,
    pub signature: String,
    pub script: String,
    pub target_path: Vec<String>,
}

/// How the grading of one spot ended.
#[derive(Debug, Clone, Copy, PartialEq, Eq)]
pub enum TexasSolverGradeStatus {
    Graded,
    MissingReference,
    SignatureMismatch,
    MissingNode,
    MissingStrategy,
    MissingCombo,
    ActionUnavailable,
    SolveFailed,
    ExportUnsupported,
}

/// Why playing a spot's script stopped short of its decision.
pub enum ScriptFault {
    State(HoldemStateError),
    Terminal,
    Phase(HandPhase),
}

/// Why a spot could not be exported.
pub enum ExportFault {
    State(HoldemStateError),
    Script(ScriptFault),
    UnequalStacks,
    UnsupportedRaise(Street),
    NotInAbstraction(PlayerAction),
    NoActorForAllIn,
    NoActor,
    UnsupportedOpeningSize,
    UnsupportedRaiseSizeType,
}

/// The error of the street's scripted spot for a script fault.
pub open spec fn script_fault_is(e: TexasSolverEvalError, f: ScriptFault, street: Street) -> bool {
    match street {
        Street::Flop => e matches TexasSolverEvalError::FlopSolve(x) && match f {
            ScriptFault::State(s) => x matches FlopSolveError::State(t) && t == s,
            ScriptFault::Terminal => x matches FlopSolveError::SpotAlreadyTerminal,
            ScriptFault::Phase(p) => x matches FlopSolveError::UnexpectedPhase(q) && q == p,
        },
        Street::Turn => e matches TexasSolverEvalError::TurnSolve(x) && match f {
            ScriptFault::State(s) => x matches TurnSolveError::State(t) && t == s,
            ScriptFault::Terminal => x matches TurnSolveError::SpotAlreadyTerminal,
            ScriptFault::Phase(p) => x matches TurnSolveError::UnexpectedPhase(q) && q == p,
        },
        _ => e matches TexasSolverEvalError::RiverSolve(x) && match f {
            ScriptFault::State(s) => x matches RiverSolveError::State(t) && t == s,
            ScriptFault::Terminal => x matches RiverSolveError::SpotAlreadyTerminal,
            ScriptFault::Phase(p) => x matches RiverSolveError::UnexpectedPhase(q) && q == p,
        },
    }
}

/// The error reported for an export fault of the spot `id` on `street`.
pub open spec fn fault_is(e: TexasSolverEvalError, f: ExportFault, id: Seq<char>, street: Street) -> bool {
    match f {
        ExportFault::State(s) => e matches TexasSolverEvalError::State(t) && t == s,
        ExportFault::Script(sf) => script_fault_is(e, sf, street),
        ExportFault::UnequalStacks => e matches TexasSolverEvalError::UnequalEffectiveStacks(x) && x@
            == id,
        ExportFault::UnsupportedRaise(st) => e matches TexasSolverEvalError::UnsupportedRaiseSize {
            spot_id,
            street: s2,
        } && spot_id@ == id && s2 == st,
        ExportFault::NotInAbstraction(a) => e matches TexasSolverEvalError::ActionNotInAbstraction {
            spot_id,
            action,
        } && spot_id@ == id && action == a,
        ExportFault::NoActorForAllIn => e matches TexasSolverEvalError::NoActor(x) && x@
            == "all-in normalization"@,
        ExportFault::NoActor => e matches TexasSolverEvalError::NoActor(x) && x@ == id,
        ExportFault::UnsupportedOpeningSize => e matches TexasSolverEvalError::UnsupportedOpeningSize,
        ExportFault::UnsupportedRaiseSizeType => e matches TexasSolverEvalError::UnsupportedRaiseSizeType,
    }
}

impl PostflopScriptedSpot {
    /// Whether the script's stacks fit the chip limit.
    pub fn fits_chip_limit(&self) -> (r: bool)
        ensures
            r == self.stacks_fit(),
    {
        match self {
            PostflopScriptedSpot::Flop(spot) => spot.fits_chip_limit(),
            PostflopScriptedSpot::Turn(spot) => spot.fits_chip_limit(),
            PostflopScriptedSpot::River(spot) => spot.fits_chip_limit(),
        }
    }

    pub open spec fn spec_street(&self) -> Street {
        match self {
            PostflopScriptedSpot::Flop(_) => Street::Flop,
            PostflopScriptedSpot::Turn(_) => Street::Turn,
            PostflopScriptedSpot::River(_) => Street::River,
        }
    }

    /// The actions of the decision's street before the decision.
    pub open spec fn spec_prefix(&self) -> Seq<PlayerAction> {
        match self {
            PostflopScriptedSpot::Flop(spot) => spot.flop_prefix_actions@,
            PostflopScriptedSpot::Turn(spot) => spot.turn_prefix_actions@,
            PostflopScriptedSpot::River(spot) => spot.river_prefix_actions@,
        }
    }

    pub open spec fn spec_board(&self) -> Seq<Card> {
        match self {
            PostflopScriptedSpot::Flop(spot) => spot.flop@,
            PostflopScriptedSpot::Turn(spot) => spot.flop@.push(spot.turn),
            PostflopScriptedSpot::River(spot) => spot.flop@.push(spot.turn).push(spot.river),
        }
    }

    pub open spec fn stacks_fit(&self) -> bool {
        match self {
            PostflopScriptedSpot::Flop(spot) => spot.stacks_fit(),
            PostflopScriptedSpot::Turn(spot) => spot.stacks_fit(),
            PostflopScriptedSpot::River(spot) => spot.stacks_fit(),
        }
    }

    /// The hand when the decision's street begins.
    pub open spec fn spec_street_start(&self, button: HoleCards, big_blind: HoleCards) -> Result<
        HandModel,
        HoldemStateError,
    > {
        match self {
            PostflopScriptedSpot::Flop(spot) => spot.spec_street_start(button, big_blind),
            PostflopScriptedSpot::Turn(spot) => spot.spec_street_start(button, big_blind),
            PostflopScriptedSpot::River(spot) => spot.spec_street_start(button, big_blind),
        }
    }

    /// The hand at the decision, or why the script does not stop at one on its street.
    #[verifier::opaque]
    pub open spec fn spec_build(&self, button: HoleCards, big_blind: HoleCards) -> Result<
        HandModel,
        ScriptFault,
    > {
        let script = match self {
            PostflopScriptedSpot::Flop(spot) => spot.spec_script(button, big_blind),
            PostflopScriptedSpot::Turn(spot) => spot.spec_script(button, big_blind),
            PostflopScriptedSpot::River(spot) => spot.spec_script(button, big_blind),
        };
        match script {
            Err(e) => Err(ScriptFault::State(e)),
            Ok(m) => match m.phase {
                HandPhase::BettingRound { street, .. } => if street == self.spec_street() {
                    Ok(m)
                } else {
                    Err(ScriptFault::Phase(m.phase))
                },
                HandPhase::Terminal { .. } => Err(ScriptFault::Terminal),
                _ => Err(ScriptFault::Phase(m.phase)),
            },
        }
    }

    /// The street of the decision.
    pub fn street(&self) -> (r: Street)
        ensures
            r == self.spec_street(),
    {
        match self {
            PostflopScriptedSpot::Flop(_) => Street::Flop,
            PostflopScriptedSpot::Turn(_) => Street::Turn,
            PostflopScriptedSpot::River(_) => Street::River,
        }
    }

    fn prefix_actions(&self) -> (r: &Vec<PlayerAction>)
        ensures
            r@ == self.spec_prefix(),
    {
        match self {
            PostflopScriptedSpot::Flop(spot) => &spot.flop_prefix_actions,
            PostflopScriptedSpot::Turn(spot) => &spot.turn_prefix_actions,
            PostflopScriptedSpot::River(spot) => &spot.river_prefix_actions,
        }
    }

    fn board_cards(&self) -> (r: Vec<Card>)
        ensures
            r@ == self.spec_board(),
    {
        match self {
            PostflopScriptedSpot::Flop(spot) => {
                let b = spot.board_cards();
                let r = vec![b[0], b[1], b[2]];
                proof {
                    assert(r@ =~= b@);
                }
                r
            },
            PostflopScriptedSpot::Turn(spot) => {
                let b = spot.board_cards();
                let r = vec![b[0], b[1], b[2], b[3]];
                proof {
                    assert(r@ =~= b@);
                }
                r
            },
            PostflopScriptedSpot::River(spot) => {
                let b = spot.board_cards();
                let r = vec![b[0], b[1], b[2], b[3], b[4]];
                proof {
                    assert(r@ =~= b@);
                }
                r
            },
        }
    }

    #[verifier::rlimit(30)]
    fn build_state(&self, button_hole_cards: HoleCards, big_blind_hole_cards: HoleCards) -> (r:
        Result<HoldemHandState, TexasSolverEvalError>)
        requires
            self.stacks_fit(),
        ensures
            match self.spec_build(button_hole_cards, big_blind_hole_cards) {
                Ok(m) => r matches Ok(s) && s@ == m && s.wf(),
                Err(f) => r matches Err(e) && script_fault_is(e, f, self.spec_street()),
            },
    {
        proof {
            reveal(PostflopScriptedSpot::spec_build);
        }
        match self {
            PostflopScriptedSpot::Flop(spot) => match spot.build_state(
                button_hole_cards,
                big_blind_hole_cards,
            ) {
                Ok(s) => Ok(s),
                Err(e) => Err(TexasSolverEvalError::FlopSolve(e)),
            },
            PostflopScriptedSpot::Turn(spot) => match spot.build_state(
                button_hole_cards,
                big_blind_hole_cards,
            ) {
                Ok(s) => Ok(s),
                Err(e) => Err(TexasSolverEvalError::TurnSolve(e)),
            },
            PostflopScriptedSpot::River(spot) => match spot.build_state(
                button_hole_cards,
                big_blind_hole_cards,
            ) {
                Ok(s) => Ok(s),
                Err(e) => Err(TexasSolverEvalError::RiverSolve(e)),
            },
        }
    }

    fn build_street_start_state(&self, button_hole_cards: HoleCards, big_blind_hole_cards: HoleCards) -> (r:
        Result<HoldemHandState, TexasSolverEvalError>)
        requires
            self.stacks_fit(),
        ensures
            match self.spec_street_start(button_hole_cards, big_blind_hole_cards) {
                Ok(m) => r matches Ok(s) && s@ == m && s.wf(),
                Err(e) => r matches Err(TexasSolverEvalError::State(t)) && t == e,
            },
    {
        let start = match self {
            PostflopScriptedSpot::Flop(spot) => spot.street_start_state(
                button_hole_cards,
                big_blind_hole_cards,
            ),
            PostflopScriptedSpot::Turn(spot) => spot.street_start_state(
                button_hole_cards,
                big_blind_hole_cards,
            ),
            PostflopScriptedSpot::River(spot) => spot.street_start_state(
                button_hole_cards,
                big_blind_hole_cards,
            ),
        };
        match start {
            Ok(s) => Ok(s),
            Err(e) => Err(TexasSolverEvalError::State(e)),
        }
    }
}


// ---------------------------------------------------------------------------
// Replaying the decision's street.
// ---------------------------------------------------------------------------

/// An action as the outside solver labels it, all-ins as the bet or raise to the
/// actor's whole stack.
pub open spec fn spec_normalize(m: HandModel, action: PlayerAction) -> Result<
    NormalizedTexasAction,
    ExportFault,
> {
    match action {
        PlayerAction::Fold => Ok(NormalizedTexasAction::Fold),
        PlayerAction::Check => Ok(NormalizedTexasAction::Check),
        PlayerAction::Call => Ok(NormalizedTexasAction::Call),
        PlayerAction::BetTo(total) => Ok(NormalizedTexasAction::Bet(total)),
        PlayerAction::RaiseTo(total) => Ok(NormalizedTexasAction::Raise(total)),
        PlayerAction::AllIn => match m.actor() {
            None => Err(ExportFault::NoActorForAllIn),
            Some(p) => {
                let total = (m.seat(p).street_contribution + m.seat(p).stack) as u64;
                if m.legal(p).call_amount is Some {
                    Ok(NormalizedTexasAction::Raise(total))
                } else {
                    Ok(NormalizedTexasAction::Bet(total))
                }
            },
        },
    }
}

/// The first abstract action that plays as `a`.
pub open spec fn first_matching(menu: Seq<AbstractAction>, a: PlayerAction) -> Option<AbstractAction>
    decreases menu.len(),
{
    if menu.len() == 0 {
        None
    } else {
        match first_matching(menu.drop_last(), a) {
            Some(x) => Some(x),
            None => if menu.last().spec_to_player_action() == a {
                Some(menu.last())
            } else {
                None
            },
        }
    }
}

/// Replays actions from a hand, each found in the abstraction's menu: the abstract
/// actions, their labels and the hand after them, or the first fault.
pub open spec fn spec_replay(m: HandModel, profile: AbstractionProfile, actions: Seq<PlayerAction>) -> Result<
    (Seq<AbstractAction>, Seq<NormalizedTexasAction>, HandModel),
    ExportFault,
>
    decreases actions.len(),
{
    if actions.len() == 0 {
        Ok((seq![], seq![], m))
    } else {
        match spec_replay(m, profile, actions.drop_last()) {
            Err(f) => Err(f),
            Ok((history, labels, m1)) => {
                let a = actions.last();
                match spec_abstract_actions(m1, profile) {
                    Err(e) => Err(ExportFault::State(e)),
                    Ok(menu) => match first_matching(menu, a) {
                        None => Err(ExportFault::NotInAbstraction(a)),
                        Some(x) => match spec_normalize(m1, a) {
                            Err(f) => Err(f),
                            Ok(n) => {
                                let (m2, r) = m1.apply(a);
                                match r {
                                    Err(e) => Err(ExportFault::State(e)),
                                    Ok(()) => Ok((history.push(x), labels.push(n), m2)),
                                }
                            },
                        },
                    },
                }
            },
        }
    }
}

proof fn lemma_first_matching_prefix(menu: Seq<AbstractAction>, a: PlayerAction, k: int)
    requires
        0 <= k <= menu.len(),
        first_matching(menu.take(k), a) is Some,
    ensures
        first_matching(menu, a) == first_matching(menu.take(k), a),
    decreases menu.len() - k,
{
    if k == menu.len() {
        assert(menu.take(k) =~= menu);
    } else {
        assert(menu.take(k + 1).drop_last() =~= menu.take(k));
        lemma_first_matching_prefix(menu, a, k + 1);
    }
}

fn find_matching(menu: &Vec<AbstractAction>, a: PlayerAction) -> (r: Option<AbstractAction>)
    ensures
        r == first_matching(menu@, a),
{
    let mut k: usize = 0;
    while k < menu.len()
        invariant
            k <= menu@.len(),
            first_matching(menu@.take(k as int), a) is None,
        decreases menu@.len() - k,
    {
        proof {
            assert(menu@.take(k + 1).drop_last() =~= menu@.take(k as int));
        }
        if menu[k].to_player_action() == a {
            proof {
                lemma_first_matching_prefix(menu@, a, k + 1);
            }
            return Some(menu[k]);
        }
        k = k + 1;
    }
    proof {
        assert(menu@.take(k as int) =~= menu@);
    }
    None
}

fn normalize_action_for_texassolver(state: &HoldemHandState, action: PlayerAction) -> (r: Result<
    NormalizedTexasAction,
    TexasSolverEvalError,
>)
    requires
        state.wf(),
    ensures
        match spec_normalize(state@, action) {
            Ok(n) => r == Ok::<NormalizedTexasAction, TexasSolverEvalError>(n),
            Err(f) => r matches Err(e) && fault_is(e, f, seq![], Street::Preflop),
        },
{
    match action {
        PlayerAction::Fold => Ok(NormalizedTexasAction::Fold),
        PlayerAction::Check => Ok(NormalizedTexasAction::Check),
        PlayerAction::Call => Ok(NormalizedTexasAction::Call),
        PlayerAction::BetTo(total) => Ok(NormalizedTexasAction::Bet(total)),
        PlayerAction::RaiseTo(total) => Ok(NormalizedTexasAction::Raise(total)),
        PlayerAction::AllIn => {
            let actor = match state.current_actor() {
                Some(actor) => actor,
                None => {
                    return Err(
                        TexasSolverEvalError::NoActor(crate::text::string_of("all-in normalization")),
                    );
                },
            };
            let seat = state.player(actor);
            let total = seat.street_contribution + seat.stack;
            let legal = match state.legal_actions() {
                Ok(legal) => legal,
                Err(e) => {
                    return Err(TexasSolverEvalError::State(e));
                },
            };
            if legal.call_amount.is_some() {
                Ok(NormalizedTexasAction::Raise(total))
            } else {
                Ok(NormalizedTexasAction::Bet(total))
            }
        },
    }
}

impl TexasSolverEvalSpot {
    /// Whether the spot's stacks fit the chip limit.
    pub fn fits_chip_limit(&self) -> (r: bool)
        ensures
            r == self.stacks_fit(),
    {
        self.script.fits_chip_limit()
    }

    /// The spot's stacks fit the chip limit.
    pub open spec fn stacks_fit(&self) -> bool {
        self.script.stacks_fit()
    }

    pub open spec fn spec_street_start(&self) -> Result<HandModel, HoldemStateError> {
        self.script.spec_street_start(self.button_hole_cards, self.big_blind_hole_cards)
    }

    /// The abstract actions and labels of the decision's street so far.
    pub open spec fn spec_history(&self) -> Result<
        (Seq<AbstractAction>, Seq<NormalizedTexasAction>, HandModel),
        ExportFault,
    > {
        match self.spec_street_start() {
            Err(e) => Err(ExportFault::State(e)),
            Ok(m) => spec_replay(m, self.profile, self.script.spec_prefix()),
        }
    }

    pub open spec fn spec_actor_hole_cards(&self, actor: Player) -> HoleCards {
        match actor {
            Player::Button => self.button_hole_cards,
            Player::BigBlind => self.big_blind_hole_cards,
        }
    }

    /// The street of the decision.
    pub fn street(&self) -> (r: Street)
        ensures
            r == self.script.spec_street(),
    {
        self.script.street()
    }

    /// The hand at the decision.
    pub fn build_state(&self) -> (r: Result<HoldemHandState, TexasSolverEvalError>)
        requires
            self.stacks_fit(),
        ensures
            match self.script.spec_build(self.button_hole_cards, self.big_blind_hole_cards) {
                Ok(m) => r matches Ok(s) && s@ == m && s.wf(),
                Err(f) => r matches Err(e) && script_fault_is(e, f, self.script.spec_street()),
            },
    {
        self.script.build_state(self.button_hole_cards, self.big_blind_hole_cards)
    }

    fn actor_hole_cards(&self, actor: Player) -> (r: HoleCards)
        ensures
            r == self.spec_actor_hole_cards(actor),
    {
        match actor {
            Player::Button => self.button_hole_cards,
            Player::BigBlind => self.big_blind_hole_cards,
        }
    }

    #[verifier::rlimit(60)]
    fn current_street_public_history(&self) -> (r: Result<
        (Vec<AbstractAction>, Vec<NormalizedTexasAction>),
        TexasSolverEvalError,
    >)
        requires
            self.stacks_fit(),
        ensures
            match self.spec_history() {
                Ok((history, labels, _)) => r matches Ok((h, l)) && h@ == history && l@ == labels,
                Err(f) => r matches Err(e) && fault_is(e, f, self.id@, self.script.spec_street()),
            },
    {
        let mut state = match self.script.build_street_start_state(
            self.button_hole_cards,
            self.big_blind_hole_cards,
        ) {
            Ok(state) => state,
            Err(e) => {
                return Err(e);
            },
        };
        let ghost start = state@;
        let prefix = self.script.prefix_actions();
        let mut history: Vec<AbstractAction> = Vec::new();
        let mut labels: Vec<NormalizedTexasAction> = Vec::new();
        let mut i: usize = 0;
        while i < prefix.len()
            invariant
                state.wf(),
                i <= prefix@.len(),
                prefix@ == self.script.spec_prefix(),
                self.spec_street_start() == Ok::<HandModel, HoldemStateError>(start),
                spec_replay(start, self.profile, prefix@.take(i as int)) == Ok::<
                    (Seq<AbstractAction>, Seq<NormalizedTexasAction>, HandModel),
                    ExportFault,
                >((history@, labels@, state@)),
            decreases prefix@.len() - i,
        {
            proof {
                assert(prefix@.take(i + 1).drop_last() =~= prefix@.take(i as int));
            }
            let action = prefix[i];
            let menu = match abstract_actions(&state, &self.profile) {
                Ok(menu) => menu,
                Err(e) => {
                    proof {
                        lemma_replay_fault_persists(start, self.profile, prefix@, i + 1);
                    }
                    return Err(TexasSolverEvalError::State(e));
                },
            };
            let found = match find_matching(&menu, action) {
                Some(x) => x,
                None => {
                    proof {
                        lemma_replay_fault_persists(start, self.profile, prefix@, i + 1);
                    }
                    return Err(
                        TexasSolverEvalError::ActionNotInAbstraction { spot_id: self.id.clone(), action },
                    );
                },
            };
            let label = match normalize_action_for_texassolver(&state, action) {
                Ok(label) => label,
                Err(e) => {
                    proof {
                        lemma_replay_fault_persists(start, self.profile, prefix@, i + 1);
                    }
                    return Err(e);
                },
            };
            match state.apply_action(action) {
                Ok(()) => {},
                Err(e) => {
                    proof {
                        lemma_replay_fault_persists(start, self.profile, prefix@, i + 1);
                    }
                    return Err(TexasSolverEvalError::State(e));
                },
            }
            history.push(found);
            labels.push(label);
            i = i + 1;
        }
        proof {
            assert(prefix@.take(i as int) =~= prefix@);
        }
        Ok((history, labels))
    }
}

proof fn lemma_replay_fault_persists(m: HandModel, profile: AbstractionProfile, actions: Seq<PlayerAction>, k: int)
    requires
        0 <= k <= actions.len(),
        spec_replay(m, profile, actions.take(k)) is Err,
    ensures
        spec_replay(m, profile, actions) == spec_replay(m, profile, actions.take(k)),
    decreases actions.len() - k,
{
    if k == actions.len() {
        assert(actions.take(k) =~= actions);
    } else {
        assert(actions.take(k + 1).drop_last() =~= actions.take(k));
        lemma_replay_fault_persists(m, profile, actions, k + 1);
    }
}


// ---------------------------------------------------------------------------
// The outside solver's command script.
// ---------------------------------------------------------------------------

/// The streets whose sizes the outside solver needs, from the decision's street on.
pub open spec fn spec_relevant_streets(start: Street) -> Seq<Street> {
    match start {
        Street::Flop => seq![Street::Flop, Street::Turn, Street::River],
        Street::Turn => seq![Street::Turn, Street::River],
        Street::River => seq![Street::River],
        Street::Preflop => seq![],
    }
}

fn relevant_streets(start: Street) -> (r: Vec<Street>)
    ensures
        r@ == spec_relevant_streets(start),
{
    let r = match start {
        Street::Flop => vec![Street::Flop, Street::Turn, Street::River],
        Street::Turn => vec![Street::Turn, Street::River],
        Street::River => vec![Street::River],
        Street::Preflop => Vec::new(),
    };
    proof {
        assert(r@ =~= spec_relevant_streets(start));
    }
    r
}

/// Some raise is sized as a multiple of the bet.
pub open spec fn has_bet_multiple(sizes: Seq<RaiseSize>) -> bool {
    exists|k: int| 0 <= k < sizes.len() && #[trigger] sizes[k] is CurrentBetMultipleBps
}

/// The first of the streets whose raises are sized as multiples of the bet.
pub open spec fn first_bet_multiple_street(profile: AbstractionProfile, streets: Seq<Street>) -> Option<
    Street,
>
    decreases streets.len(),
{
    if streets.len() == 0 {
        None
    } else {
        match first_bet_multiple_street(profile, streets.drop_last()) {
            Some(s) => Some(s),
            None => if has_bet_multiple(profile.street_profile(streets.last()).raise_sizes@) {
                Some(streets.last())
            } else {
                None
            },
        }
    }
}

/// Why the outside solver cannot take the spot as it starts the decision's street:
/// unequal stacks, or raises sized as multiples of the bet on a street it needs.
pub open spec fn spec_validate(spot: TexasSolverEvalSpot, start: HandModel) -> Option<ExportFault> {
    if start.seat(Player::Button).stack != start.seat(Player::BigBlind).stack {
        Some(ExportFault::UnequalStacks)
    } else {
        match first_bet_multiple_street(
            spot.profile,
            spec_relevant_streets(spot.script.spec_street()),
        ) {
            Some(st) => Some(ExportFault::UnsupportedRaise(st)),
            None => None,
        }
    }
}

fn raises_have_bet_multiple(sizes: &Vec<RaiseSize>) -> (r: bool)
    ensures
        r == has_bet_multiple(sizes@),
{
    let mut k: usize = 0;
    while k < sizes.len()
        invariant
            k <= sizes@.len(),
            forall|j: int| 0 <= j < k ==> !(#[trigger] sizes@[j] is CurrentBetMultipleBps),
        decreases sizes@.len() - k,
    {
        if let RaiseSize::CurrentBetMultipleBps(_) = sizes[k] {
            return true;
        }
        k = k + 1;
    }
    false
}

fn validate_texassolver_state(spot: &TexasSolverEvalSpot, state: &HoldemHandState) -> (r: Result<
    (),
    TexasSolverEvalError,
>)
    ensures
        match spec_validate(*spot, state@) {
            None => r is Ok,
            Some(f) => r matches Err(e) && fault_is(e, f, spot.id@, spot.script.spec_street()),
        },
{
    if state.player(Player::Button).stack != state.player(Player::BigBlind).stack {
        return Err(TexasSolverEvalError::UnequalEffectiveStacks(spot.id.clone()));
    }
    let streets = relevant_streets(spot.street());
    let mut i: usize = 0;
    while i < streets.len()
        invariant
            i <= streets@.len(),
            streets@ == spec_relevant_streets(spot.script.spec_street()),
            state@.seat(Player::Button).stack == state@.seat(Player::BigBlind).stack,
            first_bet_multiple_street(spot.profile, streets@.take(i as int)) is None,
        decreases streets@.len() - i,
    {
        proof {
            assert(streets@.take(i + 1).drop_last() =~= streets@.take(i as int));
        }
        let street = streets[i];
        if raises_have_bet_multiple(&spot.profile.for_street(street).raise_sizes) {
            proof {
                assert(streets@.take(i + 1).last() == street);
                assert(first_bet_multiple_street(spot.profile, streets@.take(i + 1)) == Some(street));
                lemma_first_street_prefix(spot.profile, streets@, i + 1);
            }
            return Err(
                TexasSolverEvalError::UnsupportedRaiseSize { spot_id: spot.id.clone(), street },
            );
        }
        i = i + 1;
    }
    proof {
        assert(streets@.take(i as int) =~= streets@);
    }
    Ok(())
}

proof fn lemma_first_street_prefix(profile: AbstractionProfile, streets: Seq<Street>, k: int)
    requires
        0 <= k <= streets.len(),
        first_bet_multiple_street(profile, streets.take(k)) is Some,
    ensures
        first_bet_multiple_street(profile, streets) == first_bet_multiple_street(profile, streets.take(k)),
    decreases streets.len() - k,
{
    if k == streets.len() {
        assert(streets.take(k) =~= streets);
    } else {
        assert(streets.take(k + 1).drop_last() =~= streets.take(k));
        lemma_first_street_prefix(profile, streets, k + 1);
    }
}

/// The outside solver's texts of opening sizes: pot fractions as percentages.
pub open spec fn opening_texts(sizes: Seq<OpeningSize>) -> Result<Seq<Seq<char>>, ExportFault>
    decreases sizes.len(),
{
    if sizes.len() == 0 {
        Ok(seq![])
    } else {
        match opening_texts(sizes.drop_last()) {
            Err(f) => Err(f),
            Ok(texts) => match sizes.last() {
                OpeningSize::PotFractionBps(bps) => Ok(texts.push(percent_text(bps as nat))),
                OpeningSize::BigBlindMultipleBps(_) => Err(ExportFault::UnsupportedOpeningSize),
            },
        }
    }
}

/// The outside solver's texts of raise sizes: pot fractions after the call as
/// percentages.
pub open spec fn raise_texts(sizes: Seq<RaiseSize>) -> Result<Seq<Seq<char>>, ExportFault>
    decreases sizes.len(),
{
    if sizes.len() == 0 {
        Ok(seq![])
    } else {
        match raise_texts(sizes.drop_last()) {
            Err(f) => Err(f),
            Ok(texts) => match sizes.last() {
                RaiseSize::PotFractionAfterCallBps(bps) => Ok(texts.push(percent_text(bps as nat))),
                RaiseSize::CurrentBetMultipleBps(_) => Err(ExportFault::UnsupportedRaiseSizeType),
            },
        }
    }
}

fn texassolver_opening_sizes(sizes: &Vec<OpeningSize>) -> (r: Result<Vec<String>, TexasSolverEvalError>)
    ensures
        match opening_texts(sizes@) {
            Ok(texts) => r matches Ok(v) && views(v@) == texts,
            Err(f) => r matches Err(e) && fault_is(e, f, seq![], Street::Preflop),
        },
{
    let mut out: Vec<String> = Vec::new();
    proof {
        assert(views(out@) =~= Seq::<Seq<char>>::empty());
        assert(sizes@.take(0) =~= Seq::empty());
    }
    let mut i: usize = 0;
    while i < sizes.len()
        invariant
            i <= sizes@.len(),
            opening_texts(sizes@.take(i as int)) == Ok::<Seq<Seq<char>>, ExportFault>(views(out@)),
        decreases sizes@.len() - i,
    {
        proof {
            assert(sizes@.take(i + 1).drop_last() =~= sizes@.take(i as int));
        }
        match sizes[i] {
            OpeningSize::PotFractionBps(bps) => {
                let text = format_percentage_bps(bps);
                let ghost before = out@;
                out.push(text);
                proof {
                    assert(views(out@) =~= views(before).push(text@));
                }
            },
            OpeningSize::BigBlindMultipleBps(_) => {
                proof {
                    lemma_opening_fault_persists(sizes@, i + 1);
                }
                return Err(TexasSolverEvalError::UnsupportedOpeningSize);
            },
        }
        i = i + 1;
    }
    proof {
        assert(sizes@.take(i as int) =~= sizes@);
    }
    Ok(out)
}

proof fn lemma_opening_fault_persists(sizes: Seq<OpeningSize>, k: int)
    requires
        0 <= k <= sizes.len(),
        opening_texts(sizes.take(k)) is Err,
    ensures
        opening_texts(sizes) == opening_texts(sizes.take(k)),
    decreases sizes.len() - k,
{
    if k == sizes.len() {
        assert(sizes.take(k) =~= sizes);
    } else {
        assert(sizes.take(k + 1).drop_last() =~= sizes.take(k));
        lemma_opening_fault_persists(sizes, k + 1);
    }
}

fn texassolver_raise_sizes(sizes: &Vec<RaiseSize>) -> (r: Result<Vec<String>, TexasSolverEvalError>)
    ensures
        match raise_texts(sizes@) {
            Ok(texts) => r matches Ok(v) && views(v@) == texts,
            Err(f) => r matches Err(e) && fault_is(e, f, seq![], Street::Preflop),
        },
{
    let mut out: Vec<String> = Vec::new();
    proof {
        assert(views(out@) =~= Seq::<Seq<char>>::empty());
        assert(sizes@.take(0) =~= Seq::empty());
    }
    let mut i: usize = 0;
    while i < sizes.len()
        invariant
            i <= sizes@.len(),
            raise_texts(sizes@.take(i as int)) == Ok::<Seq<Seq<char>>, ExportFault>(views(out@)),
        decreases sizes@.len() - i,
    {
        proof {
            assert(sizes@.take(i + 1).drop_last() =~= sizes@.take(i as int));
        }
        match sizes[i] {
            RaiseSize::PotFractionAfterCallBps(bps) => {
                let text = format_percentage_bps(bps);
                let ghost before = out@;
                out.push(text);
                proof {
                    assert(views(out@) =~= views(before).push(text@));
                }
            },
            RaiseSize::CurrentBetMultipleBps(_) => {
                proof {
                    lemma_raise_fault_persists(sizes@, i + 1);
                }
                return Err(TexasSolverEvalError::UnsupportedRaiseSizeType);
            },
        }
        i = i + 1;
    }
    proof {
        assert(sizes@.take(i as int) =~= sizes@);
    }
    Ok(out)
}

proof fn lemma_raise_fault_persists(sizes: Seq<RaiseSize>, k: int)
    requires
        0 <= k <= sizes.len(),
        raise_texts(sizes.take(k)) is Err,
    ensures
        raise_texts(sizes) == raise_texts(sizes.take(k)),
    decreases sizes.len() - k,
{
    if k == sizes.len() {
        assert(sizes.take(k) =~= sizes);
    } else {
        assert(sizes.take(k + 1).drop_last() =~= sizes.take(k));
        lemma_raise_fault_persists(sizes, k + 1);
    }
}

/// `set_bet_sizes <position>,<street>,<kind>`, followed by `,<sizes>` when there are any.
pub open spec fn size_command(position: Seq<char>, street: Street, kind: Seq<char>) -> Seq<char> {
    "set_bet_sizes "@ + position + seq![','] + street_text(street) + seq![','] + kind
}

/// The bet size commands of one position on one street: bets (and donk bets when
/// asked for), raises, and all-ins.
pub open spec fn bet_size_lines(position: Seq<char>, street: Street, sp: StreetProfile, include_donk: bool) -> Result<
    Seq<Seq<char>>,
    ExportFault,
> {
    match opening_texts(sp.opening_sizes@) {
        Err(f) => Err(f),
        Ok(opening) => match raise_texts(sp.raise_sizes@) {
            Err(f) => Err(f),
            Ok(raises) => {
                let bets = if opening.len() == 0 {
                    seq![]
                } else if include_donk {
                    seq![
                        size_command(position, street, "bet"@) + seq![','] + join(opening, seq![',']),
                        size_command(position, street, "donk"@) + seq![','] + join(opening, seq![',']),
                    ]
                } else {
                    seq![size_command(position, street, "bet"@) + seq![','] + join(opening, seq![','])]
                };
                let raise_lines = if raises.len() == 0 {
                    seq![]
                } else {
                    seq![size_command(position, street, "raise"@) + seq![','] + join(raises, seq![','])]
                };
                let all_in = if sp.include_all_in {
                    seq![size_command(position, street, "allin"@)]
                } else {
                    seq![]
                };
                Ok(bets + raise_lines + all_in)
            },
        },
    }
}

fn push_size_command(s: &mut String, position: &str, street: Street, kind: &str)
    ensures
        final(s)@ == old(s)@ + size_command(position@, street, kind@),
{
    let ghost before = s@;
    push_str(s, "set_bet_sizes ");
    push_str(s, position);
    push_char(s, ',');
    push_street(s, street);
    push_char(s, ',');
    push_str(s, kind);
    proof {
        assert(s@ =~= before + size_command(position@, street, kind@));
    }
}

fn texassolver_bet_size_commands(position: &str, street: Street, profile: &StreetProfile, include_donk: bool) -> (r:
    Result<Vec<String>, TexasSolverEvalError>)
    ensures
        match bet_size_lines(position@, street, *profile, include_donk) {
            Ok(lines) => r matches Ok(v) && views(v@) == lines,
            Err(f) => r matches Err(e) && fault_is(e, f, seq![], Street::Preflop),
        },
{
    let opening = texassolver_opening_sizes(&profile.opening_sizes)?;
    let raises = texassolver_raise_sizes(&profile.raise_sizes)?;
    let ghost opening_t = opening_texts(profile.opening_sizes@)->Ok_0;
    let ghost raises_t = raise_texts(profile.raise_sizes@)->Ok_0;
    let ghost bet_line = size_command(position@, street, "bet"@) + seq![','] + join(
        opening_t,
        seq![','],
    );
    let ghost donk_line = size_command(position@, street, "donk"@) + seq![','] + join(
        opening_t,
        seq![','],
    );
    let ghost raise_line = size_command(position@, street, "raise"@) + seq![','] + join(
        raises_t,
        seq![','],
    );
    let ghost all_in_line = size_command(position@, street, "allin"@);
    let ghost bets: Seq<Seq<char>> = if opening_t.len() == 0 {
        seq![]
    } else if include_donk {
        seq![bet_line, donk_line]
    } else {
        seq![bet_line]
    };
    let ghost raise_lines: Seq<Seq<char>> = if raises_t.len() == 0 {
        seq![]
    } else {
        seq![raise_line]
    };
    let ghost all_in_lines: Seq<Seq<char>> = if profile.include_all_in {
        seq![all_in_line]
    } else {
        seq![]
    };
    proof {
        assert(bet_size_lines(position@, street, *profile, include_donk) == Ok::<
            Seq<Seq<char>>,
            ExportFault,
        >(bets + raise_lines + all_in_lines));
        assert(opening@.len() == opening_t.len());
        assert(raises@.len() == raises_t.len());
    }
    let mut lines: Vec<String> = Vec::new();
    if opening.len() > 0 {
        let sizes = join_strings(&opening, ',');
        let mut bet = String::new();
        push_size_command(&mut bet, position, street, "bet");
        push_char(&mut bet, ',');
        push_str(&mut bet, sizes.as_str());
        proof {
            assert(bet@ =~= bet_line);
        }
        lines.push(bet);
        if include_donk {
            let mut donk = String::new();
            push_size_command(&mut donk, position, street, "donk");
            push_char(&mut donk, ',');
            push_str(&mut donk, sizes.as_str());
            proof {
                assert(donk@ =~= donk_line);
            }
            lines.push(donk);
        }
    }
    proof {
        assert(views(lines@) =~= bets);
    }
    if raises.len() > 0 {
        let sizes = join_strings(&raises, ',');
        let mut raise = String::new();
        push_size_command(&mut raise, position, street, "raise");
        push_char(&mut raise, ',');
        push_str(&mut raise, sizes.as_str());
        proof {
            assert(raise@ =~= raise_line);
        }
        let ghost before = lines@;
        lines.push(raise);
        proof {
            assert(views(lines@) =~= views(before).push(raise_line));
        }
    }
    proof {
        assert(views(lines@) =~= bets + raise_lines);
    }
    if profile.include_all_in {
        let mut all_in = String::new();
        push_size_command(&mut all_in, position, street, "allin");
        let ghost before = lines@;
        lines.push(all_in);
        proof {
            assert(views(lines@) =~= views(before).push(all_in_line));
        }
    }
    proof {
        assert(views(lines@) =~= bets + raise_lines + all_in_lines);
    }
    Ok(lines)
}


/// The bet size commands of a street, out of position first; donk bets are offered
/// after the flop.
pub open spec fn street_size_lines(profile: AbstractionProfile, street: Street) -> Result<
    Seq<Seq<char>>,
    ExportFault,
> {
    let sp = profile.street_profile(street);
    match bet_size_lines("oop"@, street, sp, street != Street::Flop) {
        Err(f) => Err(f),
        Ok(oop) => match bet_size_lines("ip"@, street, sp, false) {
            Err(f) => Err(f),
            Ok(ip) => Ok(oop + ip),
        },
    }
}

/// The bet size commands of several streets, in order.
pub open spec fn size_lines(profile: AbstractionProfile, streets: Seq<Street>) -> Result<
    Seq<Seq<char>>,
    ExportFault,
>
    decreases streets.len(),
{
    if streets.len() == 0 {
        Ok(seq![])
    } else {
        match size_lines(profile, streets.drop_last()) {
            Err(f) => Err(f),
            Ok(lines) => match street_size_lines(profile, streets.last()) {
                Err(f) => Err(f),
                Ok(more) => Ok(lines + more),
            },
        }
    }
}

/// The commands that set up the spot: pot, stack, board and both ranges.
pub open spec fn header_lines(spot: TexasSolverEvalSpot, start: HandModel) -> Seq<Seq<char>> {
    seq![
        "set_pot "@ + bb_text(start.pot() as nat),
        "set_effective_stack "@ + bb_text(start.seat(Player::Button).stack as nat),
        "set_board "@ + join(spot.script.spec_board().map_values(|c: Card| card_text(c)), seq![',']),
        "set_range_oop "@ + range_text(spot.big_blind_range@),
        "set_range_ip "@ + range_text(spot.button_range@),
    ]
}

/// The commands that build the tree, solve it and write the result.
pub open spec fn footer_lines(iterations: u64) -> Seq<Seq<char>> {
    seq![
        "set_allin_threshold 1.0"@,
        "build_tree"@,
        "set_thread_num 1"@,
        "set_accuracy 0.1"@,
        "set_max_iteration "@ + decimal(iterations as nat),
        "set_print_interval 25"@,
        "set_use_isomorphism 1"@,
        "start_solve"@,
        "set_dump_rounds 1"@,
        "dump_result output_result.json"@,
    ]
}

/// The command lines of the spot's script.
#[verifier::opaque]
pub open spec fn spec_script_lines(spot: TexasSolverEvalSpot, start: HandModel) -> Result<
    Seq<Seq<char>>,
    ExportFault,
> {
    match size_lines(spot.profile, spec_relevant_streets(spot.script.spec_street())) {
        Err(f) => Err(f),
        Ok(sizes) => Ok(header_lines(spot, start) + sizes + footer_lines(spot.iterations)),
    }
}

fn append_strings(lines: &mut Vec<String>, more: &Vec<String>)
    ensures
        views(final(lines)@) == views(old(lines)@) + views(more@),
{
    let ghost start = views(lines@);
    let mut k: usize = 0;
    while k < more.len()
        invariant
            k <= more@.len(),
            views(lines@) == start + views(more@.take(k as int)),
        decreases more@.len() - k,
    {
        let ghost before = lines@;
        lines.push(more[k].clone());
        proof {
            assert(views(lines@) =~= views(before).push(more@[k as int]@));
            assert(views(more@.take(k + 1)) =~= views(more@.take(k as int)).push(more@[k as int]@));
        }
        k = k + 1;
    }
    proof {
        assert(more@.take(k as int) =~= more@);
    }
}

fn push_line(lines: &mut Vec<String>, text: &str)
    ensures
        views(final(lines)@) == views(old(lines)@).push(text@),
{
    let ghost before = lines@;
    lines.push(crate::text::string_of(text));
    proof {
        assert(views(lines@) =~= views(before).push(text@));
    }
}

fn card_texts(cards: &Vec<Card>) -> (r: Vec<String>)
    ensures
        views(r@) == cards@.map_values(|c: Card| card_text(c)),
{
    let mut texts: Vec<String> = Vec::new();
    let mut k: usize = 0;
    while k < cards.len()
        invariant
            k <= cards@.len(),
            views(texts@) == cards@.take(k as int).map_values(|c: Card| card_text(c)),
        decreases cards@.len() - k,
    {
        let ghost before = texts@;
        let text = cards[k].to_string();
        texts.push(text);
        proof {
            assert(views(texts@) =~= views(before).push(card_text(cards@[k as int])));
            assert(cards@.take(k + 1).map_values(|c: Card| card_text(c)) =~= cards@.take(
                k as int,
            ).map_values(|c: Card| card_text(c)).push(card_text(cards@[k as int])));
        }
        k = k + 1;
    }
    proof {
        assert(cards@.take(k as int) =~= cards@);
    }
    texts
}

fn header_strings(spot: &TexasSolverEvalSpot, start_state: &HoldemHandState) -> (r: Vec<String>)
    requires
        start_state.wf(),
    ensures
        views(r@) == header_lines(*spot, start_state@),
{
    let board = spot.script.board_cards();
    let board_texts = card_texts(&board);
    let mut lines: Vec<String> = Vec::new();
    let mut pot = crate::text::string_of("set_pot ");
    push_str(&mut pot, chips_to_bb_string(start_state.pot()).as_str());
    lines.push(pot);
    let mut stack = crate::text::string_of("set_effective_stack ");
    push_str(&mut stack, chips_to_bb_string(start_state.player(Player::Button).stack).as_str());
    lines.push(stack);
    let mut board_line = crate::text::string_of("set_board ");
    push_str(&mut board_line, join_strings(&board_texts, ',').as_str());
    lines.push(board_line);
    let mut oop = crate::text::string_of("set_range_oop ");
    push_str(&mut oop, spot.big_blind_range.to_string().as_str());
    lines.push(oop);
    let mut ip = crate::text::string_of("set_range_ip ");
    push_str(&mut ip, spot.button_range.to_string().as_str());
    lines.push(ip);
    proof {
        assert(views(lines@) =~= header_lines(*spot, start_state@));
    }
    lines
}

fn footer_strings(iterations: u64) -> (r: Vec<String>)
    ensures
        views(r@) == footer_lines(iterations),
{
    let mut lines: Vec<String> = Vec::new();
    push_line(&mut lines, "set_allin_threshold 1.0");
    push_line(&mut lines, "build_tree");
    push_line(&mut lines, "set_thread_num 1");
    push_line(&mut lines, "set_accuracy 0.1");
    let mut count = crate::text::string_of("set_max_iteration ");
    push_decimal(&mut count, iterations);
    let ghost before = lines@;
    lines.push(count);
    proof {
        assert(views(lines@) =~= views(before).push("set_max_iteration "@ + decimal(
            iterations as nat,
        )));
    }
    push_line(&mut lines, "set_print_interval 25");
    push_line(&mut lines, "set_use_isomorphism 1");
    push_line(&mut lines, "start_solve");
    push_line(&mut lines, "set_dump_rounds 1");
    push_line(&mut lines, "dump_result output_result.json");
    proof {
        assert(views(lines@) =~= footer_lines(iterations));
    }
    lines
}

fn size_strings(spot: &TexasSolverEvalSpot) -> (r: Result<Vec<String>, TexasSolverEvalError>)
    ensures
        match size_lines(spot.profile, spec_relevant_streets(spot.script.spec_street())) {
            Ok(lines) => r matches Ok(v) && views(v@) == lines,
            Err(f) => r matches Err(e) && fault_is(e, f, seq![], Street::Preflop),
        },
{
    let streets = relevant_streets(spot.street());
    let mut lines: Vec<String> = Vec::new();
    let mut i: usize = 0;
    proof {
        assert(streets@.take(0) =~= Seq::<Street>::empty());
        assert(views(lines@) =~= Seq::<Seq<char>>::empty());
    }
    while i < streets.len()
        invariant
            i <= streets@.len(),
            streets@ == spec_relevant_streets(spot.script.spec_street()),
            size_lines(spot.profile, streets@.take(i as int)) == Ok::<Seq<Seq<char>>, ExportFault>(
                views(lines@),
            ),
        decreases streets@.len() - i,
    {
        proof {
            assert(streets@.take(i + 1).drop_last() =~= streets@.take(i as int));
            assert(streets@.take(i + 1).last() == streets@[i as int]);
        }
        let street = streets[i];
        let sp = spot.profile.for_street(street);
        let oop_lines = match texassolver_bet_size_commands("oop", street, sp, street != Street::Flop) {
            Ok(v) => v,
            Err(e) => {
                proof {
                    lemma_size_fault_persists(spot.profile, streets@, i + 1);
                }
                return Err(e);
            },
        };
        let ip_lines = match texassolver_bet_size_commands("ip", street, sp, false) {
            Ok(v) => v,
            Err(e) => {
                proof {
                    lemma_size_fault_persists(spot.profile, streets@, i + 1);
                }
                return Err(e);
            },
        };
        let ghost before = views(lines@);
        append_strings(&mut lines, &oop_lines);
        append_strings(&mut lines, &ip_lines);
        proof {
            assert(views(lines@) =~= before + (views(oop_lines@) + views(ip_lines@)));
        }
        i = i + 1;
    }
    proof {
        assert(streets@.take(i as int) =~= streets@);
    }
    Ok(lines)
}

/// A fault of the bet sizes alone.
pub open spec fn is_size_fault(f: ExportFault) -> bool {
    f is UnsupportedOpeningSize || f is UnsupportedRaiseSizeType
}

proof fn lemma_size_lines_fault(profile: AbstractionProfile, streets: Seq<Street>)
    ensures
        size_lines(profile, streets) matches Err(f) ==> is_size_fault(f),
    decreases streets.len(),
{
    if streets.len() > 0 {
        lemma_size_lines_fault(profile, streets.drop_last());
        let sp = profile.street_profile(streets.last());
        lemma_opening_fault(sp.opening_sizes@);
        lemma_raise_fault(sp.raise_sizes@);
    }
}

proof fn lemma_opening_fault(sizes: Seq<OpeningSize>)
    ensures
        opening_texts(sizes) matches Err(f) ==> f is UnsupportedOpeningSize,
    decreases sizes.len(),
{
    if sizes.len() > 0 {
        lemma_opening_fault(sizes.drop_last());
    }
}

proof fn lemma_raise_fault(sizes: Seq<RaiseSize>)
    ensures
        raise_texts(sizes) matches Err(f) ==> f is UnsupportedRaiseSizeType,
    decreases sizes.len(),
{
    if sizes.len() > 0 {
        lemma_raise_fault(sizes.drop_last());
    }
}

fn texassolver_script(spot: &TexasSolverEvalSpot, start_state: &HoldemHandState) -> (r: Result<
    String,
    TexasSolverEvalError,
>)
    requires
        start_state.wf(),
    ensures
        match spec_script_lines(*spot, start_state@) {
            Ok(lines) => r matches Ok(t) && t@ == join(lines, seq!['\n']),
            Err(f) => is_size_fault(f) && (r matches Err(e) && fault_is(e, f, seq![], Street::Preflop)),
        },
{
    proof {
        reveal(spec_script_lines);
        lemma_size_lines_fault(spot.profile, spec_relevant_streets(spot.script.spec_street()));
    }
    let mut lines = header_strings(spot, start_state);
    let sizes = size_strings(spot)?;
    append_strings(&mut lines, &sizes);
    let footer = footer_strings(spot.iterations);
    append_strings(&mut lines, &footer);
    Ok(join_strings(&lines, '\n'))
}

proof fn lemma_size_fault_persists(profile: AbstractionProfile, streets: Seq<Street>, k: int)
    requires
        0 <= k <= streets.len(),
        size_lines(profile, streets.take(k)) is Err,
    ensures
        size_lines(profile, streets) == size_lines(profile, streets.take(k)),
    decreases streets.len() - k,
{
    if k == streets.len() {
        assert(streets.take(k) =~= streets);
    } else {
        assert(streets.take(k + 1).drop_last() =~= streets.take(k));
        lemma_size_fault_persists(profile, streets, k + 1);
    }
}


/// The text with each line break turned into a semicolon.
pub open spec fn semicolon_lines(s: Seq<char>) -> Seq<char> {
    s.map_values(|c: char| if c == '\n' {
        ';'
    } else {
        c
    })
}

/// What identifies an exported spot: street, board, pot, stack, ranges, the acting
/// hand, the path to the decision (`-` when empty) and the script on one line.
#[verifier::opaque]
pub open spec fn signature_text(
    spot: TexasSolverEvalSpot,
    start: HandModel,
    path: Seq<Seq<char>>,
    combo: Seq<char>,
    script: Seq<char>,
) -> Seq<char> {
    street_text(spot.script.spec_street()) + seq!['|'] + crate::card_text::cards_text(
        spot.script.spec_board(),
    ) + "|pot:"@ + decimal(start.pot() as nat) + "|eff:"@ + decimal(
        start.seat(Player::Button).stack as nat,
    ) + "|oop:"@ + range_text(spot.big_blind_range@) + "|ip:"@ + range_text(spot.button_range@)
        + "|combo:"@ + combo + "|path:"@ + (if path.len() == 0 {
        seq!['-']
    } else {
        join(path, seq!['>'])
    }) + "|script:"@ + semicolon_lines(script)
}

fn push_semicolon_lines(s: &mut String, script: &str)
    ensures
        final(s)@ == old(s)@ + semicolon_lines(script@),
{
    let v = chars_of(script);
    let ghost start = s@;
    let mut i: usize = 0;
    while i < v.len()
        invariant
            i <= v@.len(),
            v@ == script@,
            s@ == start + semicolon_lines(v@.take(i as int)),
        decreases v@.len() - i,
    {
        let c = v[i];
        push_char(s, if c == '\n' {
            ';'
        } else {
            c
        });
        proof {
            assert(semicolon_lines(v@.take(i + 1)) =~= semicolon_lines(v@.take(i as int)).push(
                if c == '\n' {
                    ';'
                } else {
                    c
                },
            ));
        }
        i = i + 1;
    }
    proof {
        assert(v@.take(i as int) =~= v@);
    }
}

fn build_signature(
    spot: &TexasSolverEvalSpot,
    start_state: &HoldemHandState,
    target_path: &Vec<String>,
    actor_combo: &String,
    script: &String,
) -> (r: String)
    requires
        start_state.wf(),
    ensures
        r@ == signature_text(*spot, start_state@, views(target_path@), actor_combo@, script@),
{
    let ghost path = views(target_path@);
    let mut s = String::new();
    push_street(&mut s, spot.street());
    push_char(&mut s, '|');
    let board = spot.script.board_cards();
    crate::card_text::push_cards(&mut s, board.as_slice());
    push_str(&mut s, "|pot:");
    push_decimal(&mut s, start_state.pot());
    push_str(&mut s, "|eff:");
    push_decimal(&mut s, start_state.player(Player::Button).stack);
    push_str(&mut s, "|oop:");
    push_str(&mut s, spot.big_blind_range.to_string().as_str());
    push_str(&mut s, "|ip:");
    push_str(&mut s, spot.button_range.to_string().as_str());
    push_str(&mut s, "|combo:");
    push_str(&mut s, actor_combo.as_str());
    push_str(&mut s, "|path:");
    let ghost before_path = s@;
    if target_path.len() == 0 {
        push_char(&mut s, '-');
    } else {
        push_str(&mut s, join_strings(target_path, '>').as_str());
    }
    proof {
        assert(s@ == before_path + (if path.len() == 0 {
            seq!['-']
        } else {
            join(path, seq!['>'])
        }));
    }
    push_str(&mut s, "|script:");
    push_semicolon_lines(&mut s, script.as_str());
    proof {
        reveal(signature_text);
        assert(s@ =~= signature_text(*spot, start_state@, path, actor_combo@, script@));
    }
    s
}

fn label_strings(path: &Vec<NormalizedTexasAction>) -> (r: Vec<String>)
    ensures
        views(r@) == path@.map_values(|a: NormalizedTexasAction| normalized_text(a)),
{
    let mut labels: Vec<String> = Vec::new();
    let mut i: usize = 0;
    while i < path.len()
        invariant
            i <= path@.len(),
            views(labels@) == path@.take(i as int).map_values(
                |a: NormalizedTexasAction| normalized_text(a),
            ),
        decreases path@.len() - i,
    {
        let ghost before = labels@;
        let label = path[i].to_string();
        labels.push(label);
        proof {
            assert(views(labels@) =~= views(before).push(normalized_text(path@[i as int])));
            assert(path@.take(i + 1).map_values(|a: NormalizedTexasAction| normalized_text(a))
                =~= path@.take(i as int).map_values(
                |a: NormalizedTexasAction| normalized_text(a),
            ).push(normalized_text(path@[i as int])));
        }
        i = i + 1;
    }
    proof {
        assert(path@.take(i as int) =~= path@);
    }
    labels
}

impl TexasSolverEvalSpot {
    /// The hand when the decision's street begins and the labels of the actions
    /// before the decision, once the outside solver's limits are checked.
    #[verifier::opaque]
    pub open spec fn spec_export_start(&self) -> Result<(HandModel, Seq<NormalizedTexasAction>), ExportFault> {
        match self.spec_street_start() {
            Err(e) => Err(ExportFault::State(e)),
            Ok(start) => match spec_validate(*self, start) {
                Some(f) => Err(f),
                None => match spec_replay(start, self.profile, self.script.spec_prefix()) {
                    Err(f) => Err(f),
                    Ok((_, labels, _)) => Ok((start, labels)),
                },
            },
        }
    }

    /// The export of the spot: the acting player, the script, and the labels of the
    /// path to the decision; or the first fault, in the order the export meets them:
    /// the script up to the decision's street, the outside solver's limits, the
    /// actions of the decision's street, the decision itself, and the bet sizes.
    #[verifier::opaque]
    pub open spec fn spec_export(&self) -> Result<(Player, Seq<char>, Seq<Seq<char>>), ExportFault> {
        match self.spec_export_start() {
            Err(f) => Err(f),
            Ok((start, labels)) => match self.script.spec_build(
                self.button_hole_cards,
                self.big_blind_hole_cards,
            ) {
                Err(sf) => Err(ExportFault::Script(sf)),
                Ok(m) => match m.actor() {
                    None => Err(ExportFault::NoActor),
                    Some(actor) => match spec_script_lines(*self, start) {
                        Err(f) => Err(f),
                        Ok(lines) => Ok(
                            (
                                actor,
                                join(lines, seq!['\n']),
                                labels.map_values(|a: NormalizedTexasAction| normalized_text(a)),
                            ),
                        ),
                    },
                },
            },
        }
    }

    fn export_start(&self) -> (r: Result<(HoldemHandState, Vec<NormalizedTexasAction>), TexasSolverEvalError>)
        requires
            self.stacks_fit(),
        ensures
            match self.spec_export_start() {
                Ok((start, labels)) => r matches Ok((s, l)) && s@ == start && s.wf() && l@ == labels,
                Err(f) => r matches Err(e) && fault_is(e, f, self.id@, self.script.spec_street()),
            },
    {
        proof {
            reveal(TexasSolverEvalSpot::spec_export_start);
        }
        let start_state = match self.script.build_street_start_state(
            self.button_hole_cards,
            self.big_blind_hole_cards,
        ) {
            Ok(state) => state,
            Err(e) => {
                return Err(e);
            },
        };
        match validate_texassolver_state(self, &start_state) {
            Ok(()) => {},
            Err(e) => {
                return Err(e);
            },
        }
        let (_, labels) = match self.current_street_public_history() {
            Ok(h) => h,
            Err(e) => {
                return Err(e);
            },
        };
        Ok((start_state, labels))
    }

    /// What the player to act at the decision knows: the decision's hand, the actor's
    /// cards and the abstract actions of the street so far.
    pub fn our_infoset(&self) -> (r: Result<HoldemInfoSetKey, TexasSolverEvalError>)
        requires
            self.stacks_fit(),
        ensures
            match self.script.spec_build(self.button_hole_cards, self.big_blind_hole_cards) {
                Err(f) => r matches Err(e) && script_fault_is(e, f, self.script.spec_street()),
                Ok(m) => match m.actor() {
                    None => r matches Err(TexasSolverEvalError::NoActor(x)) && x@ == self.id@,
                    Some(actor) => match self.spec_history() {
                        Err(f) => r matches Err(e) && fault_is(e, f, self.id@, self.script.spec_street()),
                        Ok((history, _, _)) => r matches Ok(key) && {
                            &&& key.player == actor
                            &&& key.hole_cards == self.spec_actor_hole_cards(actor)
                            &&& key.public_state.describes(m)
                            &&& key.public_history@ == history
                        },
                    },
                },
            },
    {
        let state = self.build_state()?;
        let actor = match state.current_actor() {
            Some(actor) => actor,
            None => {
                return Err(TexasSolverEvalError::NoActor(self.id.clone()));
            },
        };
        let (history, _) = self.current_street_public_history()?;
        Ok(HoldemInfoSetKey::from_state(actor, self.actor_hole_cards(actor), &state, history))
    }

    /// Exports the spot for the outside solver.
    pub fn export_for_texassolver(&self) -> (r: Result<TexasSolverExport, TexasSolverEvalError>)
        requires
            self.stacks_fit(),
        ensures
            match self.spec_export() {
                Ok((actor, script, path)) => r matches Ok(x) && {
                    let combo = hole_cards_text(self.spec_actor_hole_cards(actor));
                    &&& x.spot_id@ == self.id@
                    &&& x.street == self.script.spec_street()
                    &&& x.actor == actor
                    &&& x.actor_combo@ == combo
                    &&& x.script@ == script
                    &&& views(x.target_path@) == path
                    &&& x.signature@ == signature_text(
                        *self,
                        self.spec_export_start()->Ok_0.0,
                        path,
                        combo,
                        script,
                    )
                },
                Err(f) => r matches Err(e) && fault_is(e, f, self.id@, self.script.spec_street()),
            },
    {
        proof {
            reveal(TexasSolverEvalSpot::spec_export);
        }
        let (start_state, target_path) = match self.export_start() {
            Ok(x) => x,
            Err(e) => {
                return Err(e);
            },
        };
        let ghost labels_t = target_path@.map_values(|a: NormalizedTexasAction| normalized_text(a));
        assert(self.spec_export_start() == Ok::<
            (HandModel, Seq<NormalizedTexasAction>),
            ExportFault,
        >((start_state@, target_path@)));
        let state = match self.build_state() {
            Ok(state) => state,
            Err(e) => {
                return Err(e);
            },
        };
        assert(self.script.spec_build(self.button_hole_cards, self.big_blind_hole_cards) == Ok::<
            HandModel,
            ScriptFault,
        >(state@));
        let actor = match state.current_actor() {
            Some(actor) => actor,
            None => {
                return Err(TexasSolverEvalError::NoActor(self.id.clone()));
            },
        };
        let actor_combo = self.actor_hole_cards(actor).to_string();
        let script = match texassolver_script(self, &start_state) {
            Ok(script) => script,
            Err(e) => {
                return Err(e);
            },
        };
        let labels = label_strings(&target_path);
        let signature = build_signature(self, &start_state, &labels, &actor_combo, &script);
        Ok(
            TexasSolverExport {
                spot_id: self.id.clone(),
                street: self.street(),
                actor,
                actor_combo,
                signature,
                script,
                target_path: labels,
            },
        )
    }
}


// ---------------------------------------------------------------------------
// The curated smoke suite.
// ---------------------------------------------------------------------------

/// The sizes the smoke suite plays: preflop opens to 2.5 big blinds and raises to 2.5
/// times the bet; later streets bet a third, two thirds or the whole pot and raise by
/// the pot after the call; all-ins everywhere.
pub open spec fn is_smoke_profile(p: AbstractionProfile) -> bool {
    &&& p.street_profile(Street::Preflop).opening_sizes@ == seq![
        OpeningSize::BigBlindMultipleBps(25_000),
    ]
    &&& p.street_profile(Street::Preflop).raise_sizes@ == seq![
        RaiseSize::CurrentBetMultipleBps(25_000),
    ]
    &&& p.street_profile(Street::Preflop).include_all_in
    &&& forall|s: Street|
        s != Street::Preflop ==> {
            &&& (#[trigger] p.street_profile(s)).opening_sizes@ == seq![
                OpeningSize::PotFractionBps(3_300),
                OpeningSize::PotFractionBps(6_600),
                OpeningSize::PotFractionBps(10_000),
            ]
            &&& p.street_profile(s).raise_sizes@ == seq![RaiseSize::PotFractionAfterCallBps(10_000)]
            &&& p.street_profile(s).include_all_in
        }
}

/// A river-root spot of the smoke suite: each player's range is the own hand, the
/// default stakes, eight iterations, and a script that checks down the flop and turn.
pub open spec fn is_smoke_river_spot(
    spot: TexasSolverEvalSpot,
    id: Seq<char>,
    description: Seq<char>,
    button: (Card, Card),
    big_blind: (Card, Card),
    preflop: Seq<PlayerAction>,
    board: Seq<Card>,
) -> bool {
    &&& spot.id@ == id
    &&& spot.description@ == description
    &&& spot.button_hole_cards@ == button
    &&& spot.big_blind_hole_cards@ == big_blind
    &&& spot.button_range.hands() == set![button]
    &&& spot.big_blind_range.hands() == set![big_blind]
    &&& is_smoke_profile(spot.profile)
    &&& spot.iterations == 8
    &&& spot.script matches PostflopScriptedSpot::River(r) && {
        &&& r.config == (HoldemConfig { starting_stack: 10_000, small_blind: 50, big_blind: 100 })
        &&& r.button_starting_stack is None
        &&& r.big_blind_starting_stack is None
        &&& r.preflop_actions@ == preflop
        &&& r.flop@ == board.take(3)
        &&& r.flop_actions@ == seq![PlayerAction::Check, PlayerAction::Check]
        &&& r.turn == board[3]
        &&& r.turn_actions@ == seq![PlayerAction::Check, PlayerAction::Check]
        &&& r.river == board[4]
        &&& r.river_prefix_actions@ == Seq::<PlayerAction>::empty()
    }
}

pub open spec fn card(rank: Rank, suit: Suit) -> Card {
    Card::spec_new(rank, suit)
}

fn smoke_profile() -> (r: AbstractionProfile)
    ensures
        is_smoke_profile(r),
{
    let preflop = StreetProfile {
        opening_sizes: vec![OpeningSize::BigBlindMultipleBps(25_000)],
        raise_sizes: vec![RaiseSize::CurrentBetMultipleBps(25_000)],
        include_all_in: true,
    };
    proof {
        assert(preflop.opening_sizes@ =~= seq![OpeningSize::BigBlindMultipleBps(25_000)]);
        assert(preflop.raise_sizes@ =~= seq![RaiseSize::CurrentBetMultipleBps(25_000)]);
    }
    let r = AbstractionProfile::new(
        preflop,
        smoke_postflop_profile(),
        smoke_postflop_profile(),
        smoke_postflop_profile(),
    );
    proof {
        assert forall|s: Street| s != Street::Preflop implies {
            &&& (#[trigger] r.street_profile(s)).opening_sizes@ == seq![
                OpeningSize::PotFractionBps(3_300),
                OpeningSize::PotFractionBps(6_600),
                OpeningSize::PotFractionBps(10_000),
            ]
            &&& r.street_profile(s).raise_sizes@ == seq![RaiseSize::PotFractionAfterCallBps(10_000)]
            &&& r.street_profile(s).include_all_in
        } by {
            match s {
                Street::Flop => {},
                Street::Turn => {},
                Street::River => {},
                Street::Preflop => {},
            }
        }
    }
    r
}

fn smoke_postflop_profile() -> (r: StreetProfile)
    ensures
        r.opening_sizes@ == seq![
            OpeningSize::PotFractionBps(3_300),
            OpeningSize::PotFractionBps(6_600),
            OpeningSize::PotFractionBps(10_000),
        ],
        r.raise_sizes@ == seq![RaiseSize::PotFractionAfterCallBps(10_000)],
        r.include_all_in,
{
    let r = StreetProfile {
        opening_sizes: vec![
            OpeningSize::PotFractionBps(3_300),
            OpeningSize::PotFractionBps(6_600),
            OpeningSize::PotFractionBps(10_000),
        ],
        raise_sizes: vec![RaiseSize::PotFractionAfterCallBps(10_000)],
        include_all_in: true,
    };
    proof {
        assert(r.opening_sizes@ =~= seq![
            OpeningSize::PotFractionBps(3_300),
            OpeningSize::PotFractionBps(6_600),
            OpeningSize::PotFractionBps(10_000),
        ]);
        assert(r.raise_sizes@ =~= seq![RaiseSize::PotFractionAfterCallBps(10_000)]);
    }
    r
}

fn smoke_river_spot(
    id: &str,
    description: &str,
    button: HoleCards,
    big_blind: HoleCards,
    preflop_actions: Vec<PlayerAction>,
    board: [Card; 5],
) -> (r: TexasSolverEvalSpot)
    ensures
        is_smoke_river_spot(r, id@, description@, button@, big_blind@, preflop_actions@, board@),
{
    let button_hands = [button];
    let big_blind_hands = [big_blind];
    proof {
        assert(button_hands@ =~= seq![button]);
        assert(big_blind_hands@ =~= seq![big_blind]);
    }
    let button_range = Range::from_hole_cards(&button_hands);
    let big_blind_range = Range::from_hole_cards(&big_blind_hands);
    proof {
        lemma_single_hand(button);
        lemma_single_hand(big_blind);
    }
    let spot = ScriptedRiverSpot {
        config: HoldemConfig::default(),
        button_starting_stack: None,
        big_blind_starting_stack: None,
        preflop_actions,
        flop: [board[0], board[1], board[2]],
        flop_actions: vec![PlayerAction::Check, PlayerAction::Check],
        turn: board[3],
        turn_actions: vec![PlayerAction::Check, PlayerAction::Check],
        river: board[4],
        river_prefix_actions: Vec::new(),
    };
    proof {
        assert(spot.flop@ =~= board@.take(3));
        assert(spot.flop_actions@ =~= seq![PlayerAction::Check, PlayerAction::Check]);
        assert(spot.turn_actions@ =~= seq![PlayerAction::Check, PlayerAction::Check]);
    }
    TexasSolverEvalSpot {
        id: crate::text::string_of(id),
        description: crate::text::string_of(description),
        button_hole_cards: button,
        big_blind_hole_cards: big_blind,
        button_range,
        big_blind_range,
        profile: smoke_profile(),
        iterations: 8,
        script: PostflopScriptedSpot::River(spot),
    }
}

proof fn lemma_single_hand(h: HoleCards)
    ensures
        crate::range::hands_of(seq![h]) == set![h@],
{
    assert(crate::range::hands_of(seq![h]) =~= set![h@]) by {
        assert(seq![h][0] == h);
    }
}

fn hand(first_rank: Rank, first_suit: Suit, second_rank: Rank, second_suit: Suit) -> (r: HoleCards)
    requires
        first_rank != second_rank,
    ensures
        r@ == HoleCards::spec_of(card(first_rank, first_suit), card(second_rank, second_suit)),
{
    let first = Card::new(first_rank, first_suit);
    let second = Card::new(second_rank, second_suit);
    proof {
        assert(first.spec_rank() != second.spec_rank());
    }
    match HoleCards::new(first, second) {
        Ok(h) => h,
        Err(_) => vstd::pervasive::unreached(),
    }
}

/// The curated smoke suite: three river roots with the button's and the big blind's
/// hands as their whole ranges.
pub fn texassolver_smoke_suite() -> (r: TexasSolverSpotSuite)
    ensures
        r.format_version == TEXASSOLVER_SUITE_FORMAT_VERSION,
        r.suite_name@ == "smoke"@,
        r.spots@.len() == 3,
        is_smoke_river_spot(
            r.spots@[0],
            "river_oop_root"@,
            "river root with oop to act"@,
            (card(Rank::Ace, Suit::Spades), card(Rank::Queen, Suit::Hearts)),
            (card(Rank::Jack, Suit::Diamonds), card(Rank::Ten, Suit::Clubs)),
            seq![PlayerAction::RaiseTo(250), PlayerAction::Call],
            seq![
                card(Rank::Queen, Suit::Spades),
                card(Rank::Eight, Suit::Diamonds),
                card(Rank::Four, Suit::Clubs),
                card(Rank::Two, Suit::Hearts),
                card(Rank::Seven, Suit::Spades),
            ],
        ),
        is_smoke_river_spot(
            r.spots@[1],
            "river_oop_root_alt"@,
            "second river root spot"@,
            (card(Rank::Ace, Suit::Clubs), card(Rank::King, Suit::Diamonds)),
            (card(Rank::Queen, Suit::Hearts), card(Rank::Jack, Suit::Hearts)),
            seq![PlayerAction::Call, PlayerAction::Check],
            seq![
                card(Rank::King, Suit::Hearts),
                card(Rank::Nine, Suit::Diamonds),
                card(Rank::Three, Suit::Clubs),
                card(Rank::Two, Suit::Spades),
                card(Rank::Seven, Suit::Diamonds),
            ],
        ),
        is_smoke_river_spot(
            r.spots@[2],
            "river_oop_root_third"@,
            "third river root spot"@,
            (card(Rank::Ace, Suit::Hearts), card(Rank::Jack, Suit::Diamonds)),
            (card(Rank::Ten, Suit::Diamonds), card(Rank::Nine, Suit::Clubs)),
            seq![PlayerAction::Call, PlayerAction::Check],
            seq![
                card(Rank::Jack, Suit::Hearts),
                card(Rank::Eight, Suit::Spades),
                card(Rank::Five, Suit::Diamonds),
                card(Rank::Two, Suit::Clubs),
                card(Rank::Seven, Suit::Hearts),
            ],
        ),
{
    let first = smoke_river_spot(
        "river_oop_root",
        "river root with oop to act",
        hand(Rank::Ace, Suit::Spades, Rank::Queen, Suit::Hearts),
        hand(Rank::Jack, Suit::Diamonds, Rank::Ten, Suit::Clubs),
        vec![PlayerAction::RaiseTo(250), PlayerAction::Call],
        [
            Card::new(Rank::Queen, Suit::Spades),
            Card::new(Rank::Eight, Suit::Diamonds),
            Card::new(Rank::Four, Suit::Clubs),
            Card::new(Rank::Two, Suit::Hearts),
            Card::new(Rank::Seven, Suit::Spades),
        ],
    );
    let second = smoke_river_spot(
        "river_oop_root_alt",
        "second river root spot",
        hand(Rank::Ace, Suit::Clubs, Rank::King, Suit::Diamonds),
        hand(Rank::Queen, Suit::Hearts, Rank::Jack, Suit::Hearts),
        vec![PlayerAction::Call, PlayerAction::Check],
        [
            Card::new(Rank::King, Suit::Hearts),
            Card::new(Rank::Nine, Suit::Diamonds),
            Card::new(Rank::Three, Suit::Clubs),
            Card::new(Rank::Two, Suit::Spades),
            Card::new(Rank::Seven, Suit::Diamonds),
        ],
    );
    let third = smoke_river_spot(
        "river_oop_root_third",
        "third river root spot",
        hand(Rank::Ace, Suit::Hearts, Rank::Jack, Suit::Diamonds),
        hand(Rank::Ten, Suit::Diamonds, Rank::Nine, Suit::Clubs),
        vec![PlayerAction::Call, PlayerAction::Check],
        [
            Card::new(Rank::Jack, Suit::Hearts),
            Card::new(Rank::Eight, Suit::Spades),
            Card::new(Rank::Five, Suit::Diamonds),
            Card::new(Rank::Two, Suit::Clubs),
            Card::new(Rank::Seven, Suit::Hearts),
        ],
    );
    TexasSolverSpotSuite {
        format_version: TEXASSOLVER_SUITE_FORMAT_VERSION,
        suite_name: crate::text::string_of("smoke"),
        spots: vec![first, second, third],
    }
}

} // verus!

verus! {

// ---------------------------------------------------------------------------
// Reading back what is written.
// ---------------------------------------------------------------------------

proof fn lemma_split_once_without(s: Seq<char>, c: char)
    requires
        forall|i: int| 0 <= i < s.len() ==> #[trigger] s[i] != c,
    ensures
        split_once(s, c) == (s, None::<Seq<char>>),
    decreases s.len(),
{
    if s.len() > 0 {
        lemma_split_once_without(s.drop_last(), c);
        assert(s.drop_last().push(s.last()) =~= s);
    }
}

proof fn lemma_split_once_at(a: Seq<char>, b: Seq<char>, c: char)
    requires
        forall|i: int| 0 <= i < a.len() ==> #[trigger] a[i] != c,
    ensures
        split_once(a + seq![c] + b, c) == (a, Some(b)),
    decreases b.len(),
{
    if b.len() == 0 {
        lemma_split_once_without(a, c);
        assert((a + seq![c] + b).drop_last() =~= a);
    } else {
        lemma_split_once_at(a, b.drop_last(), c);
        assert((a + seq![c] + b).drop_last() =~= a + seq![c] + b.drop_last());
        assert(b.drop_last().push(b.last()) =~= b);
    }
}

proof fn lemma_trim_keeps(s: Seq<char>)
    requires
        s.len() > 0,
        !crate::text::is_white_space(s[0]),
        !crate::text::is_white_space(s.last()),
    ensures
        trim(s) == s,
{
}

/// The fraction and its two places read back as the hundredths.
proof fn lemma_fraction_reads_back(f: nat)
    requires
        f < 100,
    ensures
        split_once(if f == 0 {
            seq!['0']
        } else {
            fraction_text(f)
        }, '.') == (if f == 0 {
            seq!['0']
        } else {
            fraction_text(f)
        }, None::<Seq<char>>),
        spec_parse_u64(two_places(if f == 0 {
            seq!['0']
        } else {
            fraction_text(f)
        })) == Some(f),
{
    let text = if f == 0 {
        seq!['0']
    } else {
        fraction_text(f)
    };
    crate::text::lemma_digit_char_reads_back(f / 10);
    crate::text::lemma_digit_char_reads_back(f % 10);
    crate::text::lemma_digit_char_reads_back(0);
    let (a, b) = if f == 0 {
        ('0', '0')
    } else if f % 10 == 0 {
        (digit_char(f / 10), '0')
    } else {
        (digit_char(f / 10), digit_char(f % 10))
    };
    if f != 0 && f % 10 == 0 {
        assert(decimal(f / 10) =~= seq![digit_char(f / 10)]);
    }
    let t = two_places(text);
    assert(t =~= seq![a, b]);
    assert(t.drop_last() =~= seq![a]);
    assert(crate::text::unsigned_digits(t) == t);
    assert(crate::text::parse_decimal(seq![a]) == crate::text::char_digit(a));
    assert(crate::text::char_digit(a) == Some(f / 10));
    assert(crate::text::char_digit(b) == Some(f % 10));
    assert(crate::text::parse_decimal(t) == Some(f));
    lemma_split_once_without(text, '.');
}

/// An amount in big blinds as written reads back as the same chips.
pub proof fn lemma_bb_text_reads_back(chips: u64)
    ensures
        spec_bb_amount(bb_text(chips as nat)) == Some(chips as int),
        bb_text(chips as nat).len() > 0,
        '0' <= bb_text(chips as nat)[0] <= '9',
        '0' <= bb_text(chips as nat).last() <= '9',
        forall|i: int|
            0 <= i < bb_text(chips as nat).len() ==> {
                let c = #[trigger] bb_text(chips as nat)[i];
                ('0' <= c <= '9') || c == '.'
            },
{
    let w = (chips / 100) as nat;
    let f = (chips % 100) as nat;
    let whole = decimal(w);
    let frac = if f == 0 {
        seq!['0']
    } else {
        fraction_text(f)
    };
    crate::text::lemma_decimal_reads_back(w);
    lemma_fraction_reads_back(f);
    crate::text::lemma_digit_char_reads_back(f / 10);
    crate::text::lemma_digit_char_reads_back(f % 10);
    if f != 0 && f % 10 == 0 {
        assert(decimal(f / 10) =~= seq![digit_char(f / 10)]);
    }
    let s = bb_text(chips as nat);
    assert(s =~= whole + seq!['.'] + frac);
    assert forall|i: int| 0 <= i < whole.len() implies #[trigger] whole[i] != '.' by {
        assert('0' <= whole[i] <= '9');
    }
    lemma_split_once_at(whole, frac, '.');
    lemma_trim_keeps(s);
    assert(crate::text::unsigned_digits(whole) == whole);
    assert forall|i: int| 0 <= i < s.len() implies {
        let c = #[trigger] s[i];
        ('0' <= c <= '9') || c == '.'
    } by {
        if i < whole.len() {
            assert(s[i] == whole[i]);
        } else if i > whole.len() {
            assert(s[i] == frac[i - whole.len() - 1]);
        }
    }
}

proof fn lemma_upper_keeps(s: Seq<char>)
    requires
        forall|i: int| 0 <= i < s.len() ==> !('a' <= #[trigger] s[i] <= 'z'),
    ensures
        s.map_values(|c: char| ascii_upper(c)) == s,
{
    assert(s.map_values(|c: char| ascii_upper(c)) =~= s);
}

/// Reading the label of an action gives the action back.
pub proof fn lemma_label_reads_back(a: NormalizedTexasAction)
    ensures
        spec_parse_label(normalized_text(a)) == Ok::<NormalizedTexasAction, Seq<char>>(a),
{
    reveal_strlit("FOLD");
    reveal_strlit("CHECK");
    reveal_strlit("CALL");
    reveal_strlit("BET ");
    reveal_strlit("RAISE ");
    let text = normalized_text(a);
    match a {
        NormalizedTexasAction::Bet(x) => {
            lemma_bb_text_reads_back(x);
            let bb = bb_text(x as nat);
            assert(text =~= "BET "@ + bb);
            assert(text.last() == bb.last());
            lemma_trim_keeps(text);
            assert forall|i: int| 0 <= i < text.len() implies !('a' <= #[trigger] text[i] <= 'z') by {
                if i >= 4 {
                    assert(text[i] == bb[i - 4]);
                }
            }
            lemma_upper_keeps(text);
            assert(text.take(4) =~= "BET "@);
            assert(text.skip(4) =~= bb);
            assert(text != "FOLD"@ && text != "CHECK"@ && text != "CALL"@) by {
                assert(text[0] == 'B');
            }
        },
        NormalizedTexasAction::Raise(x) => {
            lemma_bb_text_reads_back(x);
            let bb = bb_text(x as nat);
            assert(text =~= "RAISE "@ + bb);
            assert(text.last() == bb.last());
            lemma_trim_keeps(text);
            assert forall|i: int| 0 <= i < text.len() implies !('a' <= #[trigger] text[i] <= 'z') by {
                if i >= 6 {
                    assert(text[i] == bb[i - 6]);
                }
            }
            lemma_upper_keeps(text);
            assert(text.take(6) =~= "RAISE "@);
            assert(text.skip(6) =~= bb);
            assert(text.take(4) != "BET "@) by {
                assert(text.take(4)[0] == 'R');
            }
            assert(text != "FOLD"@ && text != "CHECK"@ && text != "CALL"@) by {
                assert(text[0] == 'R');
            }
        },
        _ => {
            lemma_trim_keeps(text);
            lemma_upper_keeps(text);
        },
    }
}

// ---------------------------------------------------------------------------
// Grading against a reference answer.
// ---------------------------------------------------------------------------

/// The outside solver's label of an abstract action; an all-in is a raise when the
/// hand (if it could be built) has a call to face, else a bet.
pub open spec fn spec_normalize_abstract(action: AbstractAction, m: Option<HandModel>) -> NormalizedTexasAction {
    match action {
        AbstractAction::Fold => NormalizedTexasAction::Fold,
        AbstractAction::Check => NormalizedTexasAction::Check,
        AbstractAction::Call => NormalizedTexasAction::Call,
        AbstractAction::BetTo(total) => NormalizedTexasAction::Bet(total),
        AbstractAction::RaiseTo(total) => NormalizedTexasAction::Raise(total),
        AbstractAction::AllIn(total) => if m matches Some(h) && h.actor() matches Some(p)
            && h.legal(p).call_amount is Some {
            NormalizedTexasAction::Raise(total)
        } else {
            NormalizedTexasAction::Bet(total)
        },
    }
}

/// The outside solver's label of an abstract action.
pub fn normalize_abstract_action(action: AbstractAction, state: &Option<HoldemHandState>) -> (r:
    NormalizedTexasAction)
    requires
        state matches Some(s) ==> s.wf(),
    ensures
        r == spec_normalize_abstract(
            action,
            match state {
                Some(s) => Some(s@),
                None => None,
            },
        ),
{
    match action {
        AbstractAction::Fold => NormalizedTexasAction::Fold,
        AbstractAction::Check => NormalizedTexasAction::Check,
        AbstractAction::Call => NormalizedTexasAction::Call,
        AbstractAction::BetTo(total) => NormalizedTexasAction::Bet(total),
        AbstractAction::RaiseTo(total) => NormalizedTexasAction::Raise(total),
        AbstractAction::AllIn(total) => {
            let facing_call = match state {
                Some(s) => match s.legal_actions() {
                    Ok(legal) => legal.call_amount.is_some(),
                    Err(_) => false,
                },
                None => false,
            };
            if facing_call {
                NormalizedTexasAction::Raise(total)
            } else {
                NormalizedTexasAction::Bet(total)
            }
        },
    }
}

/// Some label of the list reads as `label`.
pub open spec fn labels_offer(labels: Seq<Seq<char>>, label: NormalizedTexasAction) -> bool {
    exists|i: int| 0 <= i < labels.len() && spec_parse_label(#[trigger] labels[i]) == Ok::<
        NormalizedTexasAction,
        Seq<char>,
    >(label)
}

/// How a spot grades against a reference answer, given what the answer holds:
/// its signature (`None`: no answer for the spot), whether it has the decision's
/// node, a strategy there and the actor's combo in it, and the node's action labels;
/// and the action our solver chose (`None`: solving failed).
pub open spec fn spec_grade_status(
    spot: TexasSolverEvalSpot,
    reference_signature: Option<Seq<char>>,
    node_found: bool,
    strategy_found: bool,
    combo_found: bool,
    our_action: Option<AbstractAction>,
    reference_actions: Seq<Seq<char>>,
) -> (TexasSolverGradeStatus, Option<NormalizedTexasAction>) {
    match spot.spec_export() {
        Err(_) => (TexasSolverGradeStatus::ExportUnsupported, None),
        Ok((actor, script, path)) => {
            let combo = hole_cards_text(spot.spec_actor_hole_cards(actor));
            let signature = signature_text(spot, spot.spec_export_start()->Ok_0.0, path, combo, script);
            match reference_signature {
                None => (TexasSolverGradeStatus::MissingReference, None),
                Some(sig) => if sig != signature {
                    (TexasSolverGradeStatus::SignatureMismatch, None)
                } else if !node_found {
                    (TexasSolverGradeStatus::MissingNode, None)
                } else if !strategy_found {
                    (TexasSolverGradeStatus::MissingStrategy, None)
                } else if !combo_found {
                    (TexasSolverGradeStatus::MissingCombo, None)
                } else {
                    match our_action {
                        None => (TexasSolverGradeStatus::SolveFailed, None),
                        Some(a) => {
                            let m = match spot.script.spec_build(
                                spot.button_hole_cards,
                                spot.big_blind_hole_cards,
                            ) {
                                Ok(m) => Some(m),
                                Err(_) => None,
                            };
                            let label = spec_normalize_abstract(a, m);
                            if labels_offer(reference_actions, label) {
                                (TexasSolverGradeStatus::Graded, Some(label))
                            } else {
                                (TexasSolverGradeStatus::ActionUnavailable, Some(label))
                            }
                        },
                    }
                },
            }
        },
    }
}

/// Grades a spot against what a reference answer holds (see `spec_grade_status`):
/// the status, and the label of our action where grading got that far.
pub fn texassolver_grade_status(
    spot: &TexasSolverEvalSpot,
    reference_signature: Option<&str>,
    node_found: bool,
    strategy_found: bool,
    combo_found: bool,
    our_action: Option<AbstractAction>,
    reference_actions: &[String],
) -> (r: (TexasSolverGradeStatus, Option<NormalizedTexasAction>))
    requires
        spot.stacks_fit(),
        forall|i: int| 0 <= i < reference_actions@.len() ==> label_fits(#[trigger] reference_actions@[i]@),
    ensures
        r == spec_grade_status(
            *spot,
            match reference_signature {
                Some(s) => Some(s@),
                None => None,
            },
            node_found,
            strategy_found,
            combo_found,
            our_action,
            reference_actions@.map_values(|t: String| t@),
        ),
{
    let export = match spot.export_for_texassolver() {
        Ok(export) => export,
        Err(_) => {
            return (TexasSolverGradeStatus::ExportUnsupported, None);
        },
    };
    let sig = match reference_signature {
        Some(sig) => sig,
        None => {
            return (TexasSolverGradeStatus::MissingReference, None);
        },
    };
    if !text_eq(sig, export.signature.as_str()) {
        return (TexasSolverGradeStatus::SignatureMismatch, None);
    }
    if !node_found {
        return (TexasSolverGradeStatus::MissingNode, None);
    }
    if !strategy_found {
        return (TexasSolverGradeStatus::MissingStrategy, None);
    }
    if !combo_found {
        return (TexasSolverGradeStatus::MissingCombo, None);
    }
    let action = match our_action {
        Some(a) => a,
        None => {
            return (TexasSolverGradeStatus::SolveFailed, None);
        },
    };
    let state = match spot.build_state() {
        Ok(s) => Some(s),
        Err(_) => None,
    };
    let label = normalize_abstract_action(action, &state);
    let ghost labels = reference_actions@.map_values(|t: String| t@);
    let ghost expected = spec_grade_status(
        *spot,
        Some(sig@),
        node_found,
        strategy_found,
        combo_found,
        our_action,
        labels,
    );
    assert(expected == if labels_offer(labels, label) {
        (TexasSolverGradeStatus::Graded, Some(label))
    } else {
        (TexasSolverGradeStatus::ActionUnavailable, Some(label))
    });
    let mut i: usize = 0;
    while i < reference_actions.len()
        invariant
            i <= reference_actions@.len(),
            labels == reference_actions@.map_values(|t: String| t@),
            expected == spec_grade_status(
                *spot,
                match reference_signature {
                    Some(s) => Some(s@),
                    None => None,
                },
                node_found,
                strategy_found,
                combo_found,
                our_action,
                labels,
            ),
            expected == if labels_offer(labels, label) {
                (TexasSolverGradeStatus::Graded, Some(label))
            } else {
                (TexasSolverGradeStatus::ActionUnavailable, Some(label))
            },
            forall|k: int| 0 <= k < reference_actions@.len() ==> label_fits(#[trigger] reference_actions@[k]@),
            forall|k: int| 0 <= k < i ==> spec_parse_label(#[trigger] labels[k]) != Ok::<
                NormalizedTexasAction,
                Seq<char>,
            >(label),
        decreases reference_actions@.len() - i,
    {
        let parsed = NormalizedTexasAction::parse(reference_actions[i].as_str());
        proof {
            assert(labels[i as int] == reference_actions@[i as int]@);
        }
        if let Ok(candidate) = parsed {
            if candidate == label {
                assert(spec_parse_label(labels[i as int]) == Ok::<NormalizedTexasAction, Seq<char>>(
                    label,
                ));
                return (TexasSolverGradeStatus::Graded, Some(label));
            }
        }
        i = i + 1;
    }
    (TexasSolverGradeStatus::ActionUnavailable, Some(label))
}

} // verus!
