use vstd::prelude::*;

use crate::cards::{Card, HoleCards, Rank};
use crate::hand_eval::{
    evaluate_five, evaluate_seven, first_repeat, five_value, is_best_of_seven, lemma_best_of_seven_unique,
    lemma_first_repeat_none, lemma_score_injective, suit_count, value_score, HandCategory, HandRank,
};
use crate::holdem::{
    holds_card, EventRecord, HandModel, HistoryEvent, HoldemHandState, HoldemStateError, Player,
    PlayerAction, Street,
};
use crate::range::Range;
use crate::range_parse::spec_parse_range;
use crate::solver::abstraction::{
    abstract_actions, spec_abstract_actions, AbstractAction, AbstractionProfile, OpeningSize, RaiseSize,
    StreetProfile,
};

verus! {

broadcast use crate::cards::group_card_lemmas;

/// The kinds of actions a blueprint policy names; aggression levels pick the first,
/// second or third bet or raise size on offer.
#[derive(Debug, Clone, Copy, PartialEq, Eq, Hash, Structural)]
pub enum BlueprintActionKind {
    Fold,
    Check,
    Call,
    Aggression1,
    Aggression2,
    Aggression3,
    AllIn,
}

/// The starting ranges of the preflop charts.
#[derive(Debug, Clone, Copy, PartialEq, Eq, Hash, Structural)]
pub enum StartingRangeName {
    ButtonOpenRaiseLarge,
    ButtonOpenRaiseSmall,
    ButtonOpenLimp,
    BigBlindIsoRaiseVsLimp,
    BigBlindDefendVsOpen,
    BigBlindThreeBetVsOpen,
    ButtonContinueVsIso,
    ButtonRaiseVsIso,
    ButtonContinueVsThreeBet,
    ButtonFourBetVsThreeBet,
    BigBlindContinueVsFourBet,
    BigBlindFiveBetVsFourBet,
}

/// Effective stack depth, in big blinds.
#[derive(Debug, Clone, Copy, PartialEq, Eq, Hash, Structural)]
pub enum EffectiveStackBucket {
    UpTo15Bb,
    Bb16To25,
    Bb26To40,
    Bb41To75,
    Bb76Plus,
}

/// What the player to act faces preflop.
#[derive(Debug, Clone, Copy, PartialEq, Eq, Hash, Structural)]
pub enum PreflopFacingBetBucket {
    Unopened,
    Limped,
    UpTo3Bb,
    Bb31To7Bb,
    Bb71To16Bb,
    Over16Bb,
    AllIn,
}

/// The effective stack measured against the pot.
#[derive(Debug, Clone, Copy, PartialEq, Eq, Hash, Structural)]
pub enum StackPressureBucket {
    Low,
    Medium,
    High,
}

/// How strong a made hand is.
#[derive(Debug, Clone, Copy, PartialEq, Eq, Hash, Structural)]
pub enum MadeHandBucket {
    Monster,
    Strong,
    Medium,
    Weak,
    Air,
}

/// Which draws a hand has.
#[derive(Debug, Clone, Copy, PartialEq, Eq, Hash, Structural)]
pub enum DrawBucket {
    NoDraw,
    Straight,
    Flush,
    Combo,
}

/// The situation a preflop policy is looked up by.
#[derive(Debug, Clone, Copy, PartialEq, Eq, Hash, Structural)]
pub struct PreflopContextKey {
    pub actor: Player,
    pub prior_limp: bool,
    pub aggressive_actions: u8,
    pub effective_stack_bucket: EffectiveStackBucket,
    pub facing_bet_bucket: PreflopFacingBetBucket,
}

/// Hands of `range` take `action`.
#[derive(Debug, Clone, Copy, PartialEq, Eq, Structural)]
pub struct PreflopRangeRule {
    pub range: StartingRangeName,
    pub action: BlueprintActionKind,
}

/// The preflop policy of one situation: the first rule whose range holds the hand
/// applies, else the default action.
#[derive(Debug, Clone, PartialEq, Eq)]
pub struct PreflopPolicyEntry {
    pub context: PreflopContextKey,
    pub default_action: BlueprintActionKind,
    pub rules: Vec<PreflopRangeRule>,
}

/// The situation a postflop policy is looked up by.
#[derive(Debug, Clone, Copy, PartialEq, Eq, Hash, Structural)]
pub struct PostflopPolicyKey {
    pub street: Street,
    pub actor: Player,
    pub facing_bet: bool,
    pub aggressive_actions: u8,
    pub stack_pressure: StackPressureBucket,
    pub made_hand: MadeHandBucket,
    pub draw: DrawBucket,
}

/// Why a stored blueprint could not be used.
#[derive(Debug, Clone, PartialEq, Eq)]
pub enum BlueprintArtifactError {
    UnsupportedFormatVersion { expected: u32, actual: u32 },
    Encode(String),
    Decode(String),
}

/// Why the blueprint bot could not act.
#[derive(Debug)]
pub enum BlueprintBotError {
    NoLegalAbstractActions,
    NoMatchingPolicyAction,
    MissingPreflopPolicy(PreflopContextKey),
    MissingPostflopPolicy(PostflopPolicyKey),
    UnsupportedStreetState(Street),
    NotActorsTurn { expected: Option<Player>, actual: Player },
    State(HoldemStateError),
}

/// The bet sizes of the blueprint: preflop opens of 2.5, 4 and 7 big blinds and raises
/// to 2.5 times the bet; postflop bets of a third, two thirds and a whole pot and raises
/// to 2.5 times the bet; all-ins everywhere.
pub fn smoke_blueprint_profile() -> (r: AbstractionProfile)
    ensures
        r.street_profile(Street::Preflop).opening_sizes@ == seq![
            OpeningSize::BigBlindMultipleBps(25_000),
            OpeningSize::BigBlindMultipleBps(40_000),
            OpeningSize::BigBlindMultipleBps(70_000),
        ],
        forall|s: Street|
            #![trigger r.street_profile(s)]
            s != Street::Preflop ==> r.street_profile(s).opening_sizes@ == seq![
                OpeningSize::PotFractionBps(3_300),
                OpeningSize::PotFractionBps(6_600),
                OpeningSize::PotFractionBps(10_000),
            ],
        forall|s: Street|
            #![trigger r.street_profile(s)]
            r.street_profile(s).raise_sizes@ == seq![RaiseSize::CurrentBetMultipleBps(25_000)]
                && r.street_profile(s).include_all_in,
{
    let preflop = StreetProfile {
        opening_sizes: vec![
            OpeningSize::BigBlindMultipleBps(25_000),
            OpeningSize::BigBlindMultipleBps(40_000),
            OpeningSize::BigBlindMultipleBps(70_000),
        ],
        raise_sizes: vec![RaiseSize::CurrentBetMultipleBps(25_000)],
        include_all_in: true,
    };
    let r = AbstractionProfile::new(preflop, postflop_profile(), postflop_profile(), postflop_profile());
    proof {
        assert forall|s: Street| #![trigger r.street_profile(s)] s != Street::Preflop implies r.street_profile(
            s,
        ).opening_sizes@ == seq![
            OpeningSize::PotFractionBps(3_300),
            OpeningSize::PotFractionBps(6_600),
            OpeningSize::PotFractionBps(10_000),
        ] by {
            match s {
                Street::Preflop => {},
                Street::Flop => {},
                Street::Turn => {},
                Street::River => {},
            }
        }
        assert forall|s: Street| #![trigger r.street_profile(s)] r.street_profile(s).raise_sizes@ == seq![
            RaiseSize::CurrentBetMultipleBps(25_000),
        ] && r.street_profile(s).include_all_in by {
            match s {
                Street::Preflop => {},
                Street::Flop => {},
                Street::Turn => {},
                Street::River => {},
            }
        }
    }
    r
}

fn postflop_profile() -> (r: StreetProfile)
    ensures
        r.opening_sizes@ == seq![
            OpeningSize::PotFractionBps(3_300),
            OpeningSize::PotFractionBps(6_600),
            OpeningSize::PotFractionBps(10_000),
        ],
        r.raise_sizes@ == seq![RaiseSize::CurrentBetMultipleBps(25_000)],
        r.include_all_in,
{
    StreetProfile {
        opening_sizes: vec![
            OpeningSize::PotFractionBps(3_300),
            OpeningSize::PotFractionBps(6_600),
            OpeningSize::PotFractionBps(10_000),
        ],
        raise_sizes: vec![RaiseSize::CurrentBetMultipleBps(25_000)],
        include_all_in: true,
    }
}

// ---------------------------------------------------------------------------
// Reading the betting so far.
// ---------------------------------------------------------------------------

/// Bets, raises and all-ins.
pub open spec fn is_aggressive(action: PlayerAction) -> bool {
    action is BetTo || action is RaiseTo || action is AllIn
}

/// The actions of one street, in order, read from a hand's history.
pub open spec fn street_actions(history: Seq<EventRecord>, street: Street) -> Seq<PlayerAction>
    decreases history.len(),
{
    if history.len() == 0 {
        Seq::empty()
    } else {
        let rest = street_actions(history.drop_last(), street);
        match history.last() {
            EventRecord::ActionApplied { street: s, action, .. } => if s == street {
                rest.push(action)
            } else {
                rest
            },
            _ => rest,
        }
    }
}

/// How many of the actions are aggressive.
pub open spec fn aggressive_count(actions: Seq<PlayerAction>) -> nat
    decreases actions.len(),
{
    if actions.len() == 0 {
        0
    } else {
        aggressive_count(actions.drop_last()) + if is_aggressive(actions.last()) {
            1nat
        } else {
            0nat
        }
    }
}

fn is_aggressive_action(action: PlayerAction) -> (r: bool)
    ensures
        r == is_aggressive(action),
{
    match action {
        PlayerAction::BetTo(_) | PlayerAction::RaiseTo(_) | PlayerAction::AllIn => true,
        _ => false,
    }
}

/// The actions of one street, in order.
pub(crate) fn actions_for_street(state: &HoldemHandState, street: Street) -> (r: Vec<PlayerAction>)
    ensures
        r@ == street_actions(state@.history, street),
{
    let history = state.history();
    let mut out: Vec<PlayerAction> = Vec::new();
    let mut i: usize = 0;
    while i < history.len()
        invariant
            i <= history@.len(),
            history@.map_values(|e: HistoryEvent| e@) == state@.history,
            out@ == street_actions(state@.history.take(i as int), street),
        decreases history@.len() - i,
    {
        proof {
            assert(state@.history.take(i + 1).drop_last() =~= state@.history.take(i as int));
            assert(state@.history.take(i + 1).last() == history@[i as int]@);
        }
        match &history[i] {
            HistoryEvent::ActionApplied { street: s, action, .. } => {
                if *s == street {
                    out.push(*action);
                }
            },
            _ => {},
        }
        i = i + 1;
    }
    proof {
        assert(state@.history.take(i as int) =~= state@.history);
    }
    out
}

/// How many actions are aggressive, counted up to `cap`.
fn count_aggressive(actions: &Vec<PlayerAction>, cap: u8) -> (r: u8)
    ensures
        r == if aggressive_count(actions@) <= cap {
            aggressive_count(actions@)
        } else {
            cap as nat
        },
{
    let mut count: u8 = 0;
    let mut i: usize = 0;
    while i < actions.len()
        invariant
            i <= actions@.len(),
            count == if aggressive_count(actions@.take(i as int)) <= cap {
                aggressive_count(actions@.take(i as int))
            } else {
                cap as nat
            },
        decreases actions@.len() - i,
    {
        proof {
            assert(actions@.take(i + 1).drop_last() =~= actions@.take(i as int));
        }
        if is_aggressive_action(actions[i]) && count < cap {
            count = count + 1;
        }
        i = i + 1;
    }
    proof {
        assert(actions@.take(i as int) =~= actions@);
    }
    count
}

// ---------------------------------------------------------------------------
// Buckets.
// ---------------------------------------------------------------------------

/// The bucket of an effective stack of `stack` chips with blinds of `big_blind`:
/// at most 15, 25, 40 or 75 big blinds, or more.
pub open spec fn stack_bucket(stack: int, big_blind: int) -> EffectiveStackBucket {
    if stack <= 15 * big_blind {
        EffectiveStackBucket::UpTo15Bb
    } else if stack <= 25 * big_blind {
        EffectiveStackBucket::Bb16To25
    } else if stack <= 40 * big_blind {
        EffectiveStackBucket::Bb26To40
    } else if stack <= 75 * big_blind {
        EffectiveStackBucket::Bb41To75
    } else {
        EffectiveStackBucket::Bb76Plus
    }
}

/// The effective stack bucket of a hand: the shorter starting stack.
pub open spec fn spec_effective_stack_bucket(m: HandModel) -> EffectiveStackBucket {
    let effective = if m.starting_button <= m.starting_big_blind {
        m.starting_button
    } else {
        m.starting_big_blind
    };
    stack_bucket(effective as int, m.config.big_blind as int)
}

/// The effective stack bucket is that of the shorter starting stack, in big blinds:
/// up to 15, 16 to 25, 26 to 40, 41 to 75, more than 75. Either stack alone at or
/// below a band's top puts the hand at or below that band.
pub proof fn lemma_effective_stack_uses_shorter_stack(m: HandModel)
    ensures
        ({
            let e = if m.starting_button <= m.starting_big_blind {
                m.starting_button as int
            } else {
                m.starting_big_blind as int
            };
            let bb = m.config.big_blind as int;
            let b = spec_effective_stack_bucket(m);
            &&& e <= m.starting_button && e <= m.starting_big_blind
            &&& (e == m.starting_button || e == m.starting_big_blind)
            &&& b == EffectiveStackBucket::UpTo15Bb <==> e <= 15 * bb
            &&& b == EffectiveStackBucket::Bb16To25 <==> 15 * bb < e <= 25 * bb
            &&& b == EffectiveStackBucket::Bb26To40 <==> 25 * bb < e <= 40 * bb
            &&& b == EffectiveStackBucket::Bb41To75 <==> 40 * bb < e <= 75 * bb
            &&& b == EffectiveStackBucket::Bb76Plus <==> 75 * bb < e
            &&& (m.starting_button <= 15 * bb || m.starting_big_blind <= 15 * bb) ==> b
                == EffectiveStackBucket::UpTo15Bb
        }),
{
}

fn effective_stack_bucket_from_state(state: &HoldemHandState) -> (r: EffectiveStackBucket)
    requires
        state.wf(),
    ensures
        r == spec_effective_stack_bucket(state@),
{
    let button = state.starting_stack(Player::Button);
    let big_blind = state.starting_stack(Player::BigBlind);
    let effective = if button <= big_blind {
        button
    } else {
        big_blind
    };
    let bb = state.config().big_blind as u128;
    let effective = effective as u128;
    if effective <= 15 * bb {
        EffectiveStackBucket::UpTo15Bb
    } else if effective <= 25 * bb {
        EffectiveStackBucket::Bb16To25
    } else if effective <= 40 * bb {
        EffectiveStackBucket::Bb26To40
    } else if effective <= 75 * bb {
        EffectiveStackBucket::Bb41To75
    } else {
        EffectiveStackBucket::Bb76Plus
    }
}

/// What the player to act faces preflop: nothing yet, a limp, an all-in, or the
/// largest street total so far in big blinds (at most 3, 7 or 16, or more).
pub open spec fn spec_facing_bucket(m: HandModel, actions: Seq<PlayerAction>) -> PreflopFacingBetBucket {
    match m.actor() {
        None => PreflopFacingBetBucket::Unopened,
        Some(p) => if actions.len() == 0 {
            PreflopFacingBetBucket::Unopened
        } else if actions[0] == PlayerAction::Call && aggressive_count(actions) == 0 {
            PreflopFacingBetBucket::Limped
        } else if actions.last() == PlayerAction::AllIn {
            PreflopFacingBetBucket::AllIn
        } else {
            let a = m.seat(p).street_contribution;
            let o = m.seat(p.spec_opponent()).street_contribution;
            let highest = if a >= o {
                a
            } else {
                o
            };
            let bb = m.config.big_blind;
            if highest <= 3 * bb {
                PreflopFacingBetBucket::UpTo3Bb
            } else if highest <= 7 * bb {
                PreflopFacingBetBucket::Bb31To7Bb
            } else if highest <= 16 * bb {
                PreflopFacingBetBucket::Bb71To16Bb
            } else {
                PreflopFacingBetBucket::Over16Bb
            }
        },
    }
}

/// What the player to act faces preflop: nothing before any action; a limp when the
/// first action was a call and no one has bet or raised; an all-in when the last action
/// was one; otherwise the larger of the two street contributions in big blinds: up to
/// 3, over 3 to 7, over 7 to 16, over 16.
pub proof fn lemma_facing_bucket(m: HandModel, actions: Seq<PlayerAction>)
    requires
        m.actor() is Some,
    ensures
        ({
            let p = m.actor()->0;
            let a = m.seat(p).street_contribution as int;
            let o = m.seat(p.spec_opponent()).street_contribution as int;
            let hi = if a >= o {
                a
            } else {
                o
            };
            let bb = m.config.big_blind as int;
            let limped = actions.len() > 0 && actions[0] == PlayerAction::Call && aggressive_count(
                actions,
            ) == 0;
            let all_in = actions.len() > 0 && !limped && actions.last() == PlayerAction::AllIn;
            let sized = actions.len() > 0 && !limped && !all_in;
            let b = spec_facing_bucket(m, actions);
            &&& hi >= a && hi >= o && (hi == a || hi == o)
            &&& actions.len() == 0 <==> b == PreflopFacingBetBucket::Unopened
            &&& limped <==> b == PreflopFacingBetBucket::Limped
            &&& all_in <==> b == PreflopFacingBetBucket::AllIn
            &&& sized ==> (b == PreflopFacingBetBucket::UpTo3Bb <==> hi <= 3 * bb)
            &&& sized ==> (b == PreflopFacingBetBucket::Bb31To7Bb <==> 3 * bb < hi <= 7 * bb)
            &&& sized ==> (b == PreflopFacingBetBucket::Bb71To16Bb <==> 7 * bb < hi <= 16 * bb)
            &&& sized ==> (b == PreflopFacingBetBucket::Over16Bb <==> 16 * bb < hi)
        }),
{
}

fn preflop_facing_bet_bucket(state: &HoldemHandState, actions: &Vec<PlayerAction>) -> (r:
    PreflopFacingBetBucket)
    requires
        state.wf(),
    ensures
        r == spec_facing_bucket(state@, actions@),
{
    let actor = match state.current_actor() {
        Some(actor) => actor,
        None => {
            return PreflopFacingBetBucket::Unopened;
        },
    };
    if actions.len() == 0 {
        return PreflopFacingBetBucket::Unopened;
    }
    if actions[0] == PlayerAction::Call && count_aggressive(actions, 1) == 0 {
        return PreflopFacingBetBucket::Limped;
    }
    if actions[actions.len() - 1] == PlayerAction::AllIn {
        return PreflopFacingBetBucket::AllIn;
    }
    let a = state.player(actor).street_contribution;
    let o = state.player(actor.opponent()).street_contribution;
    let highest = if a >= o {
        a
    } else {
        o
    };
    let bb = state.config().big_blind as u128;
    let highest = highest as u128;
    if highest <= 3 * bb {
        PreflopFacingBetBucket::UpTo3Bb
    } else if highest <= 7 * bb {
        PreflopFacingBetBucket::Bb31To7Bb
    } else if highest <= 16 * bb {
        PreflopFacingBetBucket::Bb71To16Bb
    } else {
        PreflopFacingBetBucket::Over16Bb
    }
}

/// The preflop situation of the player to act (see `preflop_context_from_state`).
pub open spec fn spec_preflop_context(m: HandModel) -> Result<PreflopContextKey, Street> {
    let actions = street_actions(m.history, Street::Preflop);
    let aggressive = aggressive_count(actions);
    if m.street != Street::Preflop {
        Err(m.street)
    } else {
        match m.actor() {
            None => Err(Street::Preflop),
            Some(p) => Ok(
                PreflopContextKey {
                    actor: p,
                    prior_limp: actions.len() > 0 && actions[0] == PlayerAction::Call,
                    aggressive_actions: if aggressive <= 4 {
                        aggressive as u8
                    } else {
                        4
                    },
                    effective_stack_bucket: spec_effective_stack_bucket(m),
                    facing_bet_bucket: spec_facing_bucket(m, actions),
                },
            ),
        }
    }
}

/// The preflop situation of the player to act: who acts, whether the button limped,
/// how many aggressive actions came before (at most 4 counted), the effective stack
/// and what the actor faces.
pub fn preflop_context_from_state(state: &HoldemHandState) -> (r: Result<PreflopContextKey, BlueprintBotError>)
    requires
        state.wf(),
    ensures
        state@.street != Street::Preflop ==> (r matches Err(
            BlueprintBotError::UnsupportedStreetState(s),
        ) && s == state@.street),
        state@.street == Street::Preflop && state@.actor() is None ==> r matches Err(
            BlueprintBotError::NoLegalAbstractActions,
        ),
        spec_preflop_context(state@) matches Ok(k) ==> r matches Ok(c) && c == k,
{
    let street = state.street();
    if street != Street::Preflop {
        return Err(BlueprintBotError::UnsupportedStreetState(street));
    }
    let actor = match state.current_actor() {
        Some(actor) => actor,
        None => {
            return Err(BlueprintBotError::NoLegalAbstractActions);
        },
    };
    let actions = actions_for_street(state, Street::Preflop);
    let prior_limp = actions.len() > 0 && actions[0] == PlayerAction::Call;
    let aggressive_actions = count_aggressive(&actions, 4);
    Ok(
        PreflopContextKey {
            actor,
            prior_limp,
            aggressive_actions,
            effective_stack_bucket: effective_stack_bucket_from_state(state),
            facing_bet_bucket: preflop_facing_bet_bucket(state, &actions),
        },
    )
}

// ---------------------------------------------------------------------------
// Hand strength on a partial board.
// ---------------------------------------------------------------------------

/// The value of the best five of six cards: the value of one five-card subset, and
/// at least as high as each.
pub open spec fn is_best_of_six(cards: Seq<Card>, v: (int, Seq<int>)) -> bool {
    &&& exists|i: int| 0 <= i < 6 && v == #[trigger] five_value(cards.remove(i))
    &&& forall|i: int| 0 <= i < 6 ==> value_score(#[trigger] five_value(cards.remove(i))) <= value_score(v)
}

/// The value of the best five cards among five, six or seven.
pub open spec fn best_hand_value(cards: Seq<Card>) -> HandRank {
    if cards.len() == 5 {
        choose|h: HandRank| h@ == five_value(cards)
    } else if cards.len() == 6 {
        choose|h: HandRank| is_best_of_six(cards, h@)
    } else {
        choose|h: HandRank| is_best_of_seven(cards, h@)
    }
}

/// A hand's two cards followed by the board.
pub open spec fn hand_and_board(hole: HoleCards, board: Seq<Card>) -> Seq<Card> {
    seq![hole@.0, hole@.1] + board
}

/// The five of six cards left without position `omitted`.
fn five_without(cards: &[Card; 6], omitted: usize) -> (r: [Card; 5])
    requires
        omitted < 6,
    ensures
        r@ == cards@.remove(omitted as int),
{
    let r = if omitted == 0 {
        [cards[1], cards[2], cards[3], cards[4], cards[5]]
    } else if omitted == 1 {
        [cards[0], cards[2], cards[3], cards[4], cards[5]]
    } else if omitted == 2 {
        [cards[0], cards[1], cards[3], cards[4], cards[5]]
    } else if omitted == 3 {
        [cards[0], cards[1], cards[2], cards[4], cards[5]]
    } else if omitted == 4 {
        [cards[0], cards[1], cards[2], cards[3], cards[5]]
    } else {
        [cards[0], cards[1], cards[2], cards[3], cards[4]]
    };
    proof {
        assert(r@ =~= cards@.remove(omitted as int));
    }
    r
}

proof fn lemma_distinct_subset_five(cards: Seq<Card>, omitted: int)
    requires
        cards.len() == 6,
        0 <= omitted < 6,
        crate::hand_eval::all_distinct(cards),
    ensures
        first_repeat(cards.remove(omitted)) is None,
{
    let f = cards.remove(omitted);
    assert forall|a: int, b: int| 0 <= a < b < f.len() implies f[a] != f[b] by {
        let a1 = if a < omitted {
            a
        } else {
            a + 1
        };
        let b1 = if b < omitted {
            b
        } else {
            b + 1
        };
        assert(f[a] == cards[a1] && f[b] == cards[b1]);
    }
    lemma_first_repeat_none(f);
}

/// The best hand a player's two cards make with a board of three to five cards.
pub fn current_best_rank(hole_cards: HoleCards, board: &[Card]) -> (r: HandRank)
    requires
        3 <= board@.len() <= 5,
        crate::hand_eval::all_distinct(hand_and_board(hole_cards, board@)),
    ensures
        r == best_hand_value(hand_and_board(hole_cards, board@)),
{
    broadcast use crate::hand_eval::lemma_hand_rank_view_injective;

    let ghost cards = hand_and_board(hole_cards, board@);
    if board.len() == 3 {
        let five = [hole_cards.first(), hole_cards.second(), board[0], board[1], board[2]];
        proof {
            assert(five@ =~= cards);
            lemma_first_repeat_none(five@);
        }
        let evaluated = evaluate_five(five);
        proof {
            assert(evaluated is Ok);
        }
        return evaluated.unwrap();
    } else if board.len() == 4 {
        let six = [hole_cards.first(), hole_cards.second(), board[0], board[1], board[2], board[3]];
        proof {
            assert(six@ =~= cards);
        }
        proof {
            lemma_distinct_subset_five(six@, 0);
        }
        let first = evaluate_five(five_without(&six, 0));
        proof {
            assert(first is Ok);
        }
        let mut best = first.unwrap();
        let mut omitted: usize = 1;
        while omitted < 6
            invariant
                1 <= omitted <= 6,
                six@ == cards,
                cards.len() == 6,
                crate::hand_eval::all_distinct(cards),
                exists|i: int| 0 <= i < omitted && best@ == #[trigger] five_value(cards.remove(i)),
                forall|i: int|
                    0 <= i < omitted ==> value_score(#[trigger] five_value(cards.remove(i)))
                        <= value_score(best@),
            decreases 6 - omitted,
        {
            proof {
                lemma_distinct_subset_five(six@, omitted as int);
            }
            let evaluated = evaluate_five(five_without(&six, omitted));
            proof {
                assert(evaluated is Ok);
            }
            let candidate = evaluated.unwrap();
            if candidate.score() > best.score() {
                best = candidate;
            }
            omitted = omitted + 1;
        }
        proof {
            let c = best_hand_value(cards);
            assert(is_best_of_six(cards, best@));
            assert(is_best_of_six(cards, c@));
            let i = choose|i: int| 0 <= i < 6 && best@ == #[trigger] five_value(cards.remove(i));
            let j = choose|j: int| 0 <= j < 6 && c@ == #[trigger] five_value(cards.remove(j));
            assert(value_score(five_value(cards.remove(i))) <= value_score(c@));
            assert(value_score(five_value(cards.remove(j))) <= value_score(best@));
            lemma_score_injective(best, c);
        }
        best
    } else {
        evaluate_seven_free(hole_cards, board)
    }
}

/// The best hand of a player's two cards and a full board.
fn evaluate_seven_free(hole_cards: HoleCards, board: &[Card]) -> (r: HandRank)
    requires
        board@.len() == 5,
        crate::hand_eval::all_distinct(hand_and_board(hole_cards, board@)),
    ensures
        r == best_hand_value(hand_and_board(hole_cards, board@)),
{
    let ghost cards = hand_and_board(hole_cards, board@);
    let seven = [
        hole_cards.first(),
        hole_cards.second(),
        board[0],
        board[1],
        board[2],
        board[3],
        board[4],
    ];
    proof {
        assert(seven@ =~= cards);
        lemma_first_repeat_none(seven@);
    }
    let evaluated = evaluate_seven(seven);
    proof {
        assert(evaluated is Ok);
    }
    let h = evaluated.unwrap();
    proof {
        let c = best_hand_value(cards);
        assert(is_best_of_seven(cards, c@));
        lemma_best_of_seven_unique(cards, h, c);
    }
    h
}

/// The highest rank position on the board (a two when the board is empty).
pub open spec fn board_high(board: Seq<Card>) -> int
    decreases board.len(),
{
    if board.len() == 0 {
        0
    } else {
        let rest = board_high(board.drop_last());
        let last = board.last().spec_rank().code();
        if last > rest {
            last
        } else {
            rest
        }
    }
}

/// How strong a one-pair hand is: an overpair, top pair or a pair of tens or better
/// is medium, any other pair weak.
pub open spec fn spec_one_pair_bucket(hole: HoleCards, board: Seq<Card>, h: HandRank) -> MadeHandBucket {
    let high = board_high(board);
    let left = hole@.0.spec_rank().code();
    let right = hole@.1.spec_rank().code();
    if left == right && left > high {
        MadeHandBucket::Medium
    } else if left == high || right == high {
        MadeHandBucket::Medium
    } else if h@.1[0] >= 8 {
        MadeHandBucket::Medium
    } else {
        MadeHandBucket::Weak
    }
}

/// How strong the best hand is: a flush or better is a monster; a straight, trips or
/// two pair strong; one pair by `spec_one_pair_bucket`; no pair is air.
pub open spec fn spec_made_hand(hole: HoleCards, board: Seq<Card>) -> MadeHandBucket {
    let h = best_hand_value(hand_and_board(hole, board));
    if h@.0 >= 5 {
        MadeHandBucket::Monster
    } else if h@.0 >= 2 {
        MadeHandBucket::Strong
    } else if h@.0 == 1 {
        spec_one_pair_bucket(hole, board, h)
    } else {
        MadeHandBucket::Air
    }
}

/// The made-hand bucket follows the category of the best five-card hand: a flush or
/// better (flush, full house, four of a kind, straight flush) is a monster; two pair,
/// three of a kind and a straight are strong; one pair is medium or weak; no pair is
/// air.
pub proof fn lemma_made_hand_follows_category(hole: HoleCards, board: Seq<Card>)
    ensures
        ({
            let c = best_hand_value(hand_and_board(hole, board))@.0;
            let b = spec_made_hand(hole, board);
            &&& b == MadeHandBucket::Monster <==> c >= HandCategory::Flush.code()
            &&& b == MadeHandBucket::Strong <==> HandCategory::TwoPair.code() <= c
                <= HandCategory::Straight.code()
            &&& b == MadeHandBucket::Air <==> c == HandCategory::HighCard.code()
            &&& c == HandCategory::OnePair.code() <==> (b == MadeHandBucket::Medium || b
                == MadeHandBucket::Weak)
        }),
{
    best_hand_value(hand_and_board(hole, board)).lemma_well_formed();
}

/// A one-pair hand is medium exactly when it is an overpair (a pocket pair above every
/// board card), pairs the board's highest rank with a hole card, or its pair is tens
/// or better; any other pair is weak.
pub proof fn lemma_one_pair_bucket(hole: HoleCards, board: Seq<Card>, h: HandRank)
    ensures
        ({
            let left = hole@.0.spec_rank().code();
            let right = hole@.1.spec_rank().code();
            let medium = (left == right && left > board_high(board)) || left == board_high(board)
                || right == board_high(board) || h@.1[0] >= Rank::Ten.code();
            &&& medium <==> spec_one_pair_bucket(hole, board, h) == MadeHandBucket::Medium
            &&& !medium <==> spec_one_pair_bucket(hole, board, h) == MadeHandBucket::Weak
        }),
{
}

fn board_high_rank(board: &[Card]) -> (r: usize)
    ensures
        r == board_high(board@),
        r < 13,
{
    let mut high: usize = 0;
    let mut i: usize = 0;
    while i < board.len()
        invariant
            i <= board@.len(),
            high == board_high(board@.take(i as int)),
            high < 13,
        decreases board@.len() - i,
    {
        proof {
            assert(board@.take(i + 1).drop_last() =~= board@.take(i as int));
        }
        let code = board[i].rank().index();
        if code > high {
            high = code;
        }
        i = i + 1;
    }
    proof {
        assert(board@.take(i as int) =~= board@);
    }
    high
}

fn classify_one_pair_bucket(hole_cards: HoleCards, board: &[Card], rank: HandRank) -> (r: MadeHandBucket)
    ensures
        r == spec_one_pair_bucket(hole_cards, board@, rank),
{
    proof {
        rank.lemma_well_formed();
    }
    let high = board_high_rank(board);
    let left = hole_cards.first().rank().index();
    let right = hole_cards.second().rank().index();
    let ties = rank.tiebreakers();
    let pair_rank = ties[0].index();
    proof {
        assert(ties@.map_values(|k: Rank| k.code())[0] == ties@[0].code());
    }
    if left == right && left > high {
        return MadeHandBucket::Medium;
    }
    if left == high || right == high {
        return MadeHandBucket::Medium;
    }
    if pair_rank >= 8 {
        return MadeHandBucket::Medium;
    }
    MadeHandBucket::Weak
}

/// How strong a hand is on a board of three to five cards (see `spec_made_hand`).
pub fn classify_made_hand(hole_cards: HoleCards, board: &[Card]) -> (r: MadeHandBucket)
    requires
        3 <= board@.len() <= 5,
        crate::hand_eval::all_distinct(hand_and_board(hole_cards, board@)),
    ensures
        r == spec_made_hand(hole_cards, board@),
{
    let rank = current_best_rank(hole_cards, board);
    let category = rank.category().index();
    if category >= 5 {
        MadeHandBucket::Monster
    } else if category >= 2 {
        MadeHandBucket::Strong
    } else if category == 1 {
        classify_one_pair_bucket(hole_cards, board, rank)
    } else {
        MadeHandBucket::Air
    }
}

/// Four or more cards of one suit.
pub open spec fn spec_flush_draw(cards: Seq<Card>) -> bool {
    exists|s: int| 0 <= s < 4 && #[trigger] suit_count(cards, s) >= 4
}

/// Whether the cards hold the straight value `v` (2 to 14 by rank, and 1 for an ace).
pub open spec fn value_present(cards: Seq<Card>, v: int) -> bool {
    exists|k: int|
        0 <= k < cards.len() && (#[trigger] cards[k].spec_rank().code() + 2 == v || (v == 1
            && cards[k].spec_rank().code() == 12))
}

pub open spec fn present_count(cards: Seq<Card>, v: int) -> int {
    if value_present(cards, v) {
        1
    } else {
        0
    }
}

/// How many of the five straight values from `start` the cards hold.
pub open spec fn window_count(cards: Seq<Card>, start: int) -> int {
    present_count(cards, start) + present_count(cards, start + 1) + present_count(cards, start + 2)
        + present_count(cards, start + 3) + present_count(cards, start + 4)
}

/// Four of the five values of some straight.
pub open spec fn spec_straight_draw(cards: Seq<Card>) -> bool {
    exists|start: int| 1 <= start <= 10 && #[trigger] window_count(cards, start) >= 4
}

fn has_flush_draw(cards: &[Card]) -> (r: bool)
    ensures
        r == spec_flush_draw(cards@),
{
    let mut counts: Vec<u64> = vec![0, 0, 0, 0];
    let mut i: usize = 0;
    while i < cards.len()
        invariant
            i <= cards@.len(),
            counts@.len() == 4,
            forall|s: int| 0 <= s < 4 ==> counts@[s] == suit_count(cards@.take(i as int), s),
            forall|s: int| 0 <= s < 4 ==> counts@[s] <= i,
        decreases cards@.len() - i,
    {
        proof {
            assert(cards@.take(i + 1).drop_last() =~= cards@.take(i as int));
        }
        let s = cards[i].suit().index();
        let c = counts[s];
        counts.set(s, c + 1);
        i = i + 1;
    }
    proof {
        assert(cards@.take(i as int) =~= cards@);
    }
    let r = counts[0] >= 4 || counts[1] >= 4 || counts[2] >= 4 || counts[3] >= 4;
    proof {
        if r {
            if counts@[0] >= 4 {
                assert(suit_count(cards@, 0) >= 4);
            } else if counts@[1] >= 4 {
                assert(suit_count(cards@, 1) >= 4);
            } else if counts@[2] >= 4 {
                assert(suit_count(cards@, 2) >= 4);
            } else {
                assert(suit_count(cards@, 3) >= 4);
            }
        }
    }
    r
}

fn has_straight_draw(cards: &[Card]) -> (r: bool)
    ensures
        r == spec_straight_draw(cards@),
{
    let mut present: Vec<bool> = vec![
        false,
        false,
        false,
        false,
        false,
        false,
        false,
        false,
        false,
        false,
        false,
        false,
        false,
        false,
        false,
    ];
    let mut i: usize = 0;
    while i < cards.len()
        invariant
            i <= cards@.len(),
            present@.len() == 15,
            forall|v: int| 0 <= v < 15 ==> present@[v] == value_present(cards@.take(i as int), v),
        decreases cards@.len() - i,
    {
        let value = cards[i].rank().index() + 2;
        present.set(value, true);
        if value == 14 {
            present.set(1, true);
        }
        proof {
            let t = cards@.take(i + 1);
            let t0 = cards@.take(i as int);
            assert forall|v: int| 0 <= v < 15 implies present@[v] == value_present(t, v) by {
                if value_present(t, v) {
                    let k = choose|k: int|
                        0 <= k < t.len() && (#[trigger] t[k].spec_rank().code() + 2 == v || (v == 1
                            && t[k].spec_rank().code() == 12));
                    if k < i {
                        assert(t0[k] == t[k]);
                    }
                }
                if value_present(t0, v) {
                    let k = choose|k: int|
                        0 <= k < t0.len() && (#[trigger] t0[k].spec_rank().code() + 2 == v || (v == 1
                            && t0[k].spec_rank().code() == 12));
                    assert(t[k] == t0[k]);
                }
                if v == value || (v == 1 && value == 14) {
                    assert(t[i as int] == cards@[i as int]);
                }
            }
        }
        i = i + 1;
    }
    proof {
        assert(cards@.take(i as int) =~= cards@);
    }
    let mut start: usize = 1;
    while start <= 10
        invariant
            1 <= start <= 11,
            present@.len() == 15,
            forall|v: int| 0 <= v < 15 ==> present@[v] == value_present(cards@, v),
            forall|s: int| 1 <= s < start ==> #[trigger] window_count(cards@, s) < 4,
        decreases 11 - start,
    {
        let mut count: u64 = 0;
        let mut v = start;
        while v <= start + 4
            invariant
                1 <= start <= 10,
                start <= v <= start + 5,
                present@.len() == 15,
                forall|w: int| 0 <= w < 15 ==> present@[w] == value_present(cards@, w),
                count == (if v > start {
                    present_count(cards@, start as int)
                } else {
                    0
                }) + (if v > start + 1 {
                    present_count(cards@, start + 1)
                } else {
                    0
                }) + (if v > start + 2 {
                    present_count(cards@, start + 2)
                } else {
                    0
                }) + (if v > start + 3 {
                    present_count(cards@, start + 3)
                } else {
                    0
                }) + (if v > start + 4 {
                    present_count(cards@, start + 4)
                } else {
                    0
                }),
            decreases start + 5 - v,
        {
            if present[v] {
                count = count + 1;
            }
            v = v + 1;
        }
        if count >= 4 {
            proof {
                assert(window_count(cards@, start as int) >= 4);
            }
            return true;
        }
        start = start + 1;
    }
    false
}

/// Which draws the cards hold that the best hand does not already beat: a flush
/// draw below a flush, a straight draw below a straight; none on the river.
pub open spec fn spec_draw_bucket(hole: HoleCards, board: Seq<Card>) -> DrawBucket {
    if board.len() >= 5 {
        DrawBucket::NoDraw
    } else {
        let cards = hand_and_board(hole, board);
        let category = best_hand_value(cards)@.0;
        let flush = spec_flush_draw(cards) && category < 5;
        let straight = spec_straight_draw(cards) && category < 4;
        if straight && flush {
            DrawBucket::Combo
        } else if straight {
            DrawBucket::Straight
        } else if flush {
            DrawBucket::Flush
        } else {
            DrawBucket::NoDraw
        }
    }
}

/// The draw bucket records a flush draw (four cards of a suit) only while the hand is
/// not yet a flush or better, and a straight draw (four of five straight values) only
/// while it is not yet a straight or better; both together make a combo, and on a full
/// board there is nothing left to draw.
pub proof fn lemma_draw_bucket_parts(hole: HoleCards, board: Seq<Card>)
    ensures
        ({
            let cards = hand_and_board(hole, board);
            let c = best_hand_value(cards)@.0;
            let b = spec_draw_bucket(hole, board);
            let flush = board.len() < 5 && spec_flush_draw(cards) && c < HandCategory::Flush.code();
            let straight = board.len() < 5 && spec_straight_draw(cards) && c
                < HandCategory::Straight.code();
            &&& (b == DrawBucket::Flush || b == DrawBucket::Combo) <==> flush
            &&& (b == DrawBucket::Straight || b == DrawBucket::Combo) <==> straight
            &&& b == DrawBucket::NoDraw <==> !flush && !straight
            &&& board.len() >= 5 ==> b == DrawBucket::NoDraw
        }),
{
}

/// Which draws a hand has on a board of three to five cards (see `spec_draw_bucket`).
pub fn classify_draw_bucket(hole_cards: HoleCards, board: &[Card]) -> (r: DrawBucket)
    requires
        3 <= board@.len() <= 5,
        crate::hand_eval::all_distinct(hand_and_board(hole_cards, board@)),
    ensures
        r == spec_draw_bucket(hole_cards, board@),
{
    if board.len() >= 5 {
        return DrawBucket::NoDraw;
    }
    let rank = current_best_rank(hole_cards, board);
    let category = rank.category().index();
    let mut cards: Vec<Card> = Vec::new();
    cards.push(hole_cards.first());
    cards.push(hole_cards.second());
    let mut i: usize = 0;
    while i < board.len()
        invariant
            i <= board@.len(),
            cards@ == hand_and_board(hole_cards, board@.take(i as int)),
        decreases board@.len() - i,
    {
        cards.push(board[i]);
        proof {
            assert(cards@ =~= hand_and_board(hole_cards, board@.take(i + 1)));
        }
        i = i + 1;
    }
    proof {
        assert(board@.take(i as int) =~= board@);
    }
    let flush = has_flush_draw(cards.as_slice()) && category < 5;
    let straight = has_straight_draw(cards.as_slice()) && category < 4;
    if straight && flush {
        DrawBucket::Combo
    } else if straight {
        DrawBucket::Straight
    } else if flush {
        DrawBucket::Flush
    } else {
        DrawBucket::NoDraw
    }
}

// ---------------------------------------------------------------------------
// The postflop situation.
// ---------------------------------------------------------------------------

/// The effective stack against the pot (at least one chip): at most 1.5 pots is low,
/// at most 4 pots medium, more is high.
pub open spec fn spec_stack_pressure(m: HandModel, p: Player) -> StackPressureBucket {
    let a = m.seat(p).stack;
    let o = m.seat(p.spec_opponent()).stack;
    let effective = if a <= o {
        a
    } else {
        o
    };
    let pot = if m.pot() >= 1 {
        m.pot()
    } else {
        1
    };
    if 2 * effective <= 3 * pot {
        StackPressureBucket::Low
    } else if effective <= 4 * pot {
        StackPressureBucket::Medium
    } else {
        StackPressureBucket::High
    }
}

/// The stack pressure is that of the shorter stack: when either player has at most a
/// pot and a half behind it is low, when either has at most four pots behind it is not
/// high, and it is high only when both have more than four pots behind (the pot
/// counted as at least one chip). It is the same for both players.
pub proof fn lemma_stack_pressure_uses_shorter_stack(m: HandModel, p: Player)
    ensures
        ({
            let a = m.seat(p).stack as int;
            let o = m.seat(p.spec_opponent()).stack as int;
            let pot = if m.pot() >= 1 {
                m.pot()
            } else {
                1
            };
            let b = spec_stack_pressure(m, p);
            &&& (2 * a <= 3 * pot || 2 * o <= 3 * pot) <==> b == StackPressureBucket::Low
            &&& (a <= 4 * pot || o <= 4 * pot) <==> b != StackPressureBucket::High
            &&& b == spec_stack_pressure(m, p.spec_opponent())
        }),
{
}

fn classify_stack_pressure(state: &HoldemHandState, actor: Player) -> (r: StackPressureBucket)
    requires
        state.wf(),
    ensures
        r == spec_stack_pressure(state@, actor),
{
    let a = state.player(actor).stack;
    let o = state.player(actor.opponent()).stack;
    let effective = if a <= o {
        a
    } else {
        o
    } as u128;
    let pot = state.pot();
    let pot = if pot >= 1 {
        pot
    } else {
        1
    } as u128;
    if 2 * effective <= 3 * pot {
        StackPressureBucket::Low
    } else if effective <= 4 * pot {
        StackPressureBucket::Medium
    } else {
        StackPressureBucket::High
    }
}

/// In a well-formed hand, a player's cards and the board are all different cards.
proof fn lemma_hand_and_board_distinct(m: HandModel, p: Player)
    requires
        m.wf(),
    ensures
        crate::hand_eval::all_distinct(hand_and_board(m.seat(p).hole_cards, m.board)),
{
    let h = m.seat(p).hole_cards;
    let cards = hand_and_board(h, m.board);
    assert forall|a: int, b: int| 0 <= a < b < cards.len() implies cards[a] != cards[b] by {
        if a >= 2 {
            assert(cards[a] == m.board[a - 2] && cards[b] == m.board[b - 2]);
        } else if b >= 2 {
            assert(cards[b] == m.board[b - 2]);
            assert(!holds_card(h, m.board[b - 2]));
        }
    }
}

/// The postflop situation of `actor` (see `postflop_policy_key`).
pub open spec fn spec_postflop_key(m: HandModel, actor: Player) -> PostflopPolicyKey {
    let legal = m.legal(m.actor()->0);
    let aggressive = aggressive_count(street_actions(m.history, m.street));
    PostflopPolicyKey {
        street: m.street,
        actor,
        facing_bet: legal.call_amount is Some,
        aggressive_actions: if aggressive <= 3 {
            aggressive as u8
        } else {
            3
        },
        stack_pressure: spec_stack_pressure(m, actor),
        made_hand: spec_made_hand(m.seat(actor).hole_cards, m.board),
        draw: spec_draw_bucket(m.seat(actor).hole_cards, m.board),
    }
}

/// The postflop situation of `actor`: the street, whether a bet is to be called, how
/// many aggressive actions this street saw (at most 3 counted), the stack pressure,
/// and the strength and draws of the actor's hand.
pub fn postflop_policy_key(actor: Player, state: &HoldemHandState) -> (r: Result<PostflopPolicyKey, BlueprintBotError>)
    requires
        state.wf(),
    ensures
        state@.board.len() < 3 ==> (r matches Err(BlueprintBotError::UnsupportedStreetState(s))
            && s == state@.street),
        state@.board.len() >= 3 && state@.actor() is None ==> (r matches Err(
            BlueprintBotError::State(e),
        ) && e == HoldemStateError::ActionNotAllowedInCurrentPhase),
        state@.board.len() >= 3 && state@.actor() is Some ==> (r matches Ok(k) && k
            == spec_postflop_key(state@, actor)),
{
    let hole_cards = state.player(actor).hole_cards;
    let board = state.board().cards();
    if board.len() < 3 {
        return Err(BlueprintBotError::UnsupportedStreetState(state.street()));
    }
    let legal = match state.legal_actions() {
        Ok(legal) => legal,
        Err(e) => {
            return Err(BlueprintBotError::State(e));
        },
    };
    proof {
        lemma_hand_and_board_distinct(state@, actor);
    }
    let street = state.street();
    let actions = actions_for_street(state, street);
    Ok(
        PostflopPolicyKey {
            street,
            actor,
            facing_bet: legal.call_amount.is_some(),
            aggressive_actions: count_aggressive(&actions, 3),
            stack_pressure: classify_stack_pressure(state, actor),
            made_hand: classify_made_hand(hole_cards, board),
            draw: classify_draw_bucket(hole_cards, board),
        },
    )
}

// ---------------------------------------------------------------------------
// From a policy's action kind to an abstract action.
// ---------------------------------------------------------------------------

/// The bets and raises among the legal abstract actions, in order.
pub open spec fn aggressive_options(legal: Seq<AbstractAction>) -> Seq<AbstractAction> {
    legal.filter(|a: AbstractAction| a is BetTo || a is RaiseTo)
}

/// The first legal action that `pred` holds of, if any.
pub open spec fn first_where(legal: Seq<AbstractAction>, pred: spec_fn(AbstractAction) -> bool) -> Option<
    AbstractAction,
> {
    let f = legal.filter(pred);
    if f.len() > 0 {
        Some(f[0])
    } else {
        None
    }
}

/// The abstract action that a policy's action kind stands for among the legal ones:
/// fold, check and call themselves; the first, second or third bet or raise (the
/// last one when fewer are on offer; for the first, none when none is); the first
/// all-in.
pub open spec fn spec_resolve(kind: BlueprintActionKind, legal: Seq<AbstractAction>) -> Option<AbstractAction> {
    let aggressive = aggressive_options(legal);
    match kind {
        BlueprintActionKind::Fold => first_where(legal, |a: AbstractAction| a == AbstractAction::Fold),
        BlueprintActionKind::Check => first_where(legal, |a: AbstractAction| a == AbstractAction::Check),
        BlueprintActionKind::Call => first_where(legal, |a: AbstractAction| a == AbstractAction::Call),
        BlueprintActionKind::Aggression1 => if aggressive.len() > 0 {
            Some(aggressive[0])
        } else {
            None
        },
        BlueprintActionKind::Aggression2 => if aggressive.len() > 1 {
            Some(aggressive[1])
        } else if aggressive.len() > 0 {
            Some(aggressive.last())
        } else {
            None
        },
        BlueprintActionKind::Aggression3 => if aggressive.len() > 2 {
            Some(aggressive[2])
        } else if aggressive.len() > 0 {
            Some(aggressive.last())
        } else {
            None
        },
        BlueprintActionKind::AllIn => first_where(legal, |a: AbstractAction| a is AllIn),
    }
}

/// Whether an abstract action is a bet or a raise.
pub open spec fn is_bet_or_raise(a: AbstractAction) -> bool {
    a is BetTo || a is RaiseTo
}

/// How many bets and raises come before position `j` of the menu.
pub open spec fn bets_before(legal: Seq<AbstractAction>, j: int) -> nat {
    legal.take(j).filter(|a: AbstractAction| is_bet_or_raise(a)).len()
}

/// The `i`-th bet or raise of a menu sits at a position with `i` bets or raises before
/// it.
proof fn lemma_kth_bet_position(legal: Seq<AbstractAction>, i: int)
    requires
        0 <= i < aggressive_options(legal).len(),
    ensures
        exists|j: int|
            0 <= j < legal.len() && legal[j] == aggressive_options(legal)[i] && is_bet_or_raise(
                legal[j],
            ) && #[trigger] bets_before(legal, j) == i,
    decreases legal.len(),
{
    reveal_with_fuel(Seq::<_>::filter, 1);
    let pred = |a: AbstractAction| a is BetTo || a is RaiseTo;
    let init = legal.drop_last();
    assert(aggressive_options(legal) == legal.filter(pred));
    assert(init.filter(pred) == aggressive_options(init));
    if i < aggressive_options(init).len() {
        lemma_kth_bet_position(init, i);
        let j = choose|j: int|
            0 <= j < init.len() && init[j] == aggressive_options(init)[i] && is_bet_or_raise(init[j])
                && #[trigger] bets_before(init, j) == i;
        assert(legal.take(j) =~= init.take(j));
        assert(aggressive_options(legal)[i] == aggressive_options(init)[i]);
        assert(bets_before(legal, j) == i);
    } else {
        let j = legal.len() - 1;
        assert(legal.take(j) =~= init);
        assert((|a: AbstractAction| is_bet_or_raise(a)) =~= pred);
        assert(bets_before(legal, j) == i);
    }
}

/// With three or more bets or raises on the menu, the three aggression levels take the
/// first, second and third of them in menu order: each sits at a position with no,
/// one and two bets or raises before it, so they are three different positions and,
/// on a menu without repeats, three different actions. With fewer, a level beyond
/// what is offered takes the last bet or raise.
pub proof fn lemma_aggression_levels_take_successive_bets(legal: Seq<AbstractAction>)
    ensures
        ({
            let n = legal.filter(|a: AbstractAction| is_bet_or_raise(a)).len();
            &&& n >= 3 ==> {
                &&& exists|j: int|
                    0 <= j < legal.len() && spec_resolve(BlueprintActionKind::Aggression1, legal)
                        == Some(legal[j]) && is_bet_or_raise(legal[j]) && #[trigger] bets_before(
                        legal,
                        j,
                    ) == 0
                &&& exists|j: int|
                    0 <= j < legal.len() && spec_resolve(BlueprintActionKind::Aggression2, legal)
                        == Some(legal[j]) && is_bet_or_raise(legal[j]) && #[trigger] bets_before(
                        legal,
                        j,
                    ) == 1
                &&& exists|j: int|
                    0 <= j < legal.len() && spec_resolve(BlueprintActionKind::Aggression3, legal)
                        == Some(legal[j]) && is_bet_or_raise(legal[j]) && #[trigger] bets_before(
                        legal,
                        j,
                    ) == 2
            }
            &&& n >= 3 && legal.no_duplicates() ==> {
                &&& spec_resolve(BlueprintActionKind::Aggression1, legal) != spec_resolve(
                    BlueprintActionKind::Aggression2,
                    legal,
                )
                &&& spec_resolve(BlueprintActionKind::Aggression2, legal) != spec_resolve(
                    BlueprintActionKind::Aggression3,
                    legal,
                )
                &&& spec_resolve(BlueprintActionKind::Aggression1, legal) != spec_resolve(
                    BlueprintActionKind::Aggression3,
                    legal,
                )
            }
            &&& 1 <= n < 3 ==> exists|j: int|
                0 <= j < legal.len() && spec_resolve(BlueprintActionKind::Aggression3, legal)
                    == Some(legal[j]) && is_bet_or_raise(legal[j]) && #[trigger] bets_before(
                    legal,
                    j,
                ) == n - 1
            &&& n == 0 ==> spec_resolve(BlueprintActionKind::Aggression3, legal) is None
        }),
{
    let pred = |a: AbstractAction| a is BetTo || a is RaiseTo;
    assert((|a: AbstractAction| is_bet_or_raise(a)) =~= pred);
    let f = aggressive_options(legal);
    let n = f.len();
    if n >= 3 {
        lemma_kth_bet_position(legal, 0);
        lemma_kth_bet_position(legal, 1);
        lemma_kth_bet_position(legal, 2);
        if legal.no_duplicates() {
            let j0 = choose|j: int|
                0 <= j < legal.len() && legal[j] == f[0] && is_bet_or_raise(legal[j])
                    && #[trigger] bets_before(legal, j) == 0;
            let j1 = choose|j: int|
                0 <= j < legal.len() && legal[j] == f[1] && is_bet_or_raise(legal[j])
                    && #[trigger] bets_before(legal, j) == 1;
            let j2 = choose|j: int|
                0 <= j < legal.len() && legal[j] == f[2] && is_bet_or_raise(legal[j])
                    && #[trigger] bets_before(legal, j) == 2;
            assert(j0 != j1 && j1 != j2 && j0 != j2);
            assert(legal[j0] != legal[j1]);
            assert(legal[j1] != legal[j2]);
            assert(legal[j0] != legal[j2]);
        }
    } else if n >= 1 {
        lemma_kth_bet_position(legal, n - 1);
        assert(f.last() == f[n - 1]);
    }
}

fn first_matching(legal: &[AbstractAction], kind: BlueprintActionKind) -> (r: Option<AbstractAction>)
    requires
        kind == BlueprintActionKind::Fold || kind == BlueprintActionKind::Check || kind
            == BlueprintActionKind::Call || kind == BlueprintActionKind::AllIn,
    ensures
        r == spec_resolve(kind, legal@),
{
    let ghost pred = match kind {
        BlueprintActionKind::Fold => |a: AbstractAction| a == AbstractAction::Fold,
        BlueprintActionKind::Check => |a: AbstractAction| a == AbstractAction::Check,
        BlueprintActionKind::Call => |a: AbstractAction| a == AbstractAction::Call,
        _ => |a: AbstractAction| a is AllIn,
    };
    let mut i: usize = 0;
    while i < legal.len()
        invariant
            i <= legal@.len(),
            pred == (match kind {
                BlueprintActionKind::Fold => |a: AbstractAction| a == AbstractAction::Fold,
                BlueprintActionKind::Check => |a: AbstractAction| a == AbstractAction::Check,
                BlueprintActionKind::Call => |a: AbstractAction| a == AbstractAction::Call,
                _ => |a: AbstractAction| a is AllIn,
            }),
            kind == BlueprintActionKind::Fold || kind == BlueprintActionKind::Check || kind
                == BlueprintActionKind::Call || kind == BlueprintActionKind::AllIn,
            legal@.take(i as int).filter(pred).len() == 0,
        decreases legal@.len() - i,
    {
        let a = legal[i];
        let hit = match kind {
            BlueprintActionKind::Fold => a == AbstractAction::Fold,
            BlueprintActionKind::Check => a == AbstractAction::Check,
            BlueprintActionKind::Call => a == AbstractAction::Call,
            _ => match a {
                AbstractAction::AllIn(_) => true,
                _ => false,
            },
        };
        proof {
            reveal_with_fuel(Seq::<_>::filter, 1);
            assert(legal@.take(i + 1).drop_last() =~= legal@.take(i as int));
            assert(hit == pred(a));
        }
        if hit {
            proof {
                lemma_filter_prefix_first(legal@, pred, i as int);
            }
            return Some(a);
        }
        i = i + 1;
    }
    proof {
        assert(legal@.take(i as int) =~= legal@);
    }
    None
}

/// When nothing before position `i` satisfies `pred` and position `i` does, the first
/// element satisfying `pred` is the one at `i`.
proof fn lemma_filter_prefix_first(s: Seq<AbstractAction>, pred: spec_fn(AbstractAction) -> bool, i: int)
    requires
        0 <= i < s.len(),
        s.take(i).filter(pred).len() == 0,
        pred(s[i]),
    ensures
        s.filter(pred).len() > 0,
        s.filter(pred)[0] == s[i],
    decreases s.len(),
{
    reveal_with_fuel(Seq::<_>::filter, 1);
    if s.len() == i + 1 {
        assert(s.drop_last() =~= s.take(i));
    } else {
        assert(s.drop_last().take(i) =~= s.take(i));
        lemma_filter_prefix_first(s.drop_last(), pred, i);
        assert(s.drop_last()[i] == s[i]);
    }
}

fn aggressive_list(legal: &[AbstractAction]) -> (r: Vec<AbstractAction>)
    ensures
        r@ == aggressive_options(legal@),
{
    let mut out: Vec<AbstractAction> = Vec::new();
    let mut i: usize = 0;
    while i < legal.len()
        invariant
            i <= legal@.len(),
            out@ == aggressive_options(legal@.take(i as int)),
        decreases legal@.len() - i,
    {
        proof {
            reveal_with_fuel(Seq::<_>::filter, 1);
            assert(legal@.take(i + 1).drop_last() =~= legal@.take(i as int));
        }
        match legal[i] {
            AbstractAction::BetTo(_) | AbstractAction::RaiseTo(_) => out.push(legal[i]),
            _ => {},
        }
        i = i + 1;
    }
    proof {
        assert(legal@.take(i as int) =~= legal@);
    }
    out
}

/// The abstract action that a policy's action kind stands for (see `spec_resolve`).
pub fn resolve_action_kind(kind: BlueprintActionKind, legal: &[AbstractAction]) -> (r: Option<AbstractAction>)
    ensures
        r == spec_resolve(kind, legal@),
{
    match kind {
        BlueprintActionKind::Aggression1 => {
            let aggressive = aggressive_list(legal);
            if aggressive.len() > 0 {
                Some(aggressive[0])
            } else {
                None
            }
        },
        BlueprintActionKind::Aggression2 => {
            let aggressive = aggressive_list(legal);
            if aggressive.len() > 1 {
                Some(aggressive[1])
            } else if aggressive.len() > 0 {
                Some(aggressive[aggressive.len() - 1])
            } else {
                None
            }
        },
        BlueprintActionKind::Aggression3 => {
            let aggressive = aggressive_list(legal);
            if aggressive.len() > 2 {
                Some(aggressive[2])
            } else if aggressive.len() > 0 {
                Some(aggressive[aggressive.len() - 1])
            } else {
                None
            }
        },
        _ => first_matching(legal, kind),
    }
}

/// The safest legal action: check, else call, else fold, else the first bet or raise,
/// else all in.
pub open spec fn spec_safe_fallback(legal: Seq<AbstractAction>) -> Option<AbstractAction> {
    if spec_resolve(BlueprintActionKind::Check, legal) is Some {
        spec_resolve(BlueprintActionKind::Check, legal)
    } else if spec_resolve(BlueprintActionKind::Call, legal) is Some {
        spec_resolve(BlueprintActionKind::Call, legal)
    } else if spec_resolve(BlueprintActionKind::Fold, legal) is Some {
        spec_resolve(BlueprintActionKind::Fold, legal)
    } else if spec_resolve(BlueprintActionKind::Aggression1, legal) is Some {
        spec_resolve(BlueprintActionKind::Aggression1, legal)
    } else {
        spec_resolve(BlueprintActionKind::AllIn, legal)
    }
}

/// Looking for a fixed action finds it exactly when it is on the menu.
proof fn lemma_first_where_finds(legal: Seq<AbstractAction>, x: AbstractAction)
    ensures
        first_where(legal, |a: AbstractAction| a == x) == (if legal.contains(x) {
            Some(x)
        } else {
            None
        }),
{
    let pred = |a: AbstractAction| a == x;
    legal.filter_lemma(pred);
    let f = legal.filter(pred);
    if legal.contains(x) {
        let i = choose|i: int| 0 <= i < legal.len() && legal[i] == x;
        assert(pred(legal[i]));
        assert(f.contains(legal[i]));
        assert(pred(f[0]));
    } else if f.len() > 0 {
        assert(f.contains(f[0]));
        legal.lemma_filter_contains_rev(pred, f[0]);
        assert(pred(f[0]));
    }
}

/// Fold, check and call stand for themselves when on the menu and for nothing
/// otherwise; the safe fallback takes a check, else a call, else a fold, and only then
/// the first bet or raise, else an all-in.
pub proof fn lemma_passive_kinds_and_safe_fallback(legal: Seq<AbstractAction>)
    ensures
        spec_resolve(BlueprintActionKind::Fold, legal) == (if legal.contains(AbstractAction::Fold) {
            Some(AbstractAction::Fold)
        } else {
            None
        }),
        spec_resolve(BlueprintActionKind::Check, legal) == (if legal.contains(AbstractAction::Check) {
            Some(AbstractAction::Check)
        } else {
            None
        }),
        spec_resolve(BlueprintActionKind::Call, legal) == (if legal.contains(AbstractAction::Call) {
            Some(AbstractAction::Call)
        } else {
            None
        }),
        legal.contains(AbstractAction::Check) ==> spec_safe_fallback(legal) == Some(AbstractAction::Check),
        !legal.contains(AbstractAction::Check) && legal.contains(AbstractAction::Call) ==> spec_safe_fallback(
            legal,
        ) == Some(AbstractAction::Call),
        !legal.contains(AbstractAction::Check) && !legal.contains(AbstractAction::Call) && legal.contains(
            AbstractAction::Fold,
        ) ==> spec_safe_fallback(legal) == Some(AbstractAction::Fold),
        !legal.contains(AbstractAction::Check) && !legal.contains(AbstractAction::Call) && !legal.contains(
            AbstractAction::Fold,
        ) && aggressive_options(legal).len() > 0 ==> spec_safe_fallback(legal) == Some(
            aggressive_options(legal)[0],
        ),
{
    lemma_first_where_finds(legal, AbstractAction::Fold);
    lemma_first_where_finds(legal, AbstractAction::Check);
    lemma_first_where_finds(legal, AbstractAction::Call);
}

pub fn safe_fallback_action(legal: &[AbstractAction]) -> (r: Option<AbstractAction>)
    ensures
        r == spec_safe_fallback(legal@),
{
    let check = resolve_action_kind(BlueprintActionKind::Check, legal);
    if check.is_some() {
        return check;
    }
    let call = resolve_action_kind(BlueprintActionKind::Call, legal);
    if call.is_some() {
        return call;
    }
    let fold = resolve_action_kind(BlueprintActionKind::Fold, legal);
    if fold.is_some() {
        return fold;
    }
    let aggression = resolve_action_kind(BlueprintActionKind::Aggression1, legal);
    if aggression.is_some() {
        return aggression;
    }
    resolve_action_kind(BlueprintActionKind::AllIn, legal)
}

/// The next smaller facing-bet bucket to fall back to when no policy covers a bucket.
pub fn fallback_preflop_facing_bucket(bucket: PreflopFacingBetBucket) -> (r: Option<PreflopFacingBetBucket>)
    ensures
        r == match bucket {
            PreflopFacingBetBucket::AllIn => Some(PreflopFacingBetBucket::Over16Bb),
            PreflopFacingBetBucket::Over16Bb => Some(PreflopFacingBetBucket::Bb71To16Bb),
            PreflopFacingBetBucket::Bb71To16Bb => Some(PreflopFacingBetBucket::Bb31To7Bb),
            PreflopFacingBetBucket::Bb31To7Bb => Some(PreflopFacingBetBucket::UpTo3Bb),
            _ => None::<PreflopFacingBetBucket>,
        },
{
    match bucket {
        PreflopFacingBetBucket::AllIn => Some(PreflopFacingBetBucket::Over16Bb),
        PreflopFacingBetBucket::Over16Bb => Some(PreflopFacingBetBucket::Bb71To16Bb),
        PreflopFacingBetBucket::Bb71To16Bb => Some(PreflopFacingBetBucket::Bb31To7Bb),
        PreflopFacingBetBucket::Bb31To7Bb => Some(PreflopFacingBetBucket::UpTo3Bb),
        PreflopFacingBetBucket::Unopened | PreflopFacingBetBucket::Limped
        | PreflopFacingBetBucket::UpTo3Bb => None,
    }
}

// ---------------------------------------------------------------------------
// The default preflop charts.
// ---------------------------------------------------------------------------

/// The button's opening action with the strongest hands, by stack depth.
pub open spec fn open_large_action(bucket: EffectiveStackBucket) -> BlueprintActionKind {
    match bucket {
        EffectiveStackBucket::UpTo15Bb => BlueprintActionKind::AllIn,
        EffectiveStackBucket::Bb16To25 | EffectiveStackBucket::Bb26To40 => BlueprintActionKind::Aggression3,
        EffectiveStackBucket::Bb41To75 | EffectiveStackBucket::Bb76Plus => BlueprintActionKind::Aggression2,
    }
}

/// The button's opening action with its other opening hands, by stack depth.
pub open spec fn open_small_action(bucket: EffectiveStackBucket) -> BlueprintActionKind {
    match bucket {
        EffectiveStackBucket::UpTo15Bb => BlueprintActionKind::AllIn,
        EffectiveStackBucket::Bb16To25 => BlueprintActionKind::Aggression2,
        _ => BlueprintActionKind::Aggression1,
    }
}

/// The big blind's raise against a limp, by stack depth.
pub open spec fn iso_raise_action(bucket: EffectiveStackBucket) -> BlueprintActionKind {
    match bucket {
        EffectiveStackBucket::UpTo15Bb => BlueprintActionKind::AllIn,
        EffectiveStackBucket::Bb16To25 => BlueprintActionKind::Aggression2,
        _ => BlueprintActionKind::Aggression1,
    }
}

/// The big blind's three-bet against a small open, by stack depth.
pub open spec fn three_bet_action(bucket: EffectiveStackBucket) -> BlueprintActionKind {
    match bucket {
        EffectiveStackBucket::UpTo15Bb | EffectiveStackBucket::Bb16To25 => BlueprintActionKind::AllIn,
        EffectiveStackBucket::Bb26To40 => BlueprintActionKind::Aggression2,
        _ => BlueprintActionKind::Aggression1,
    }
}

/// The button's raise against the big blind's raise after a limp, by stack depth.
pub open spec fn raise_vs_iso_action(bucket: EffectiveStackBucket) -> BlueprintActionKind {
    match bucket {
        EffectiveStackBucket::UpTo15Bb | EffectiveStackBucket::Bb16To25 => BlueprintActionKind::AllIn,
        _ => BlueprintActionKind::Aggression1,
    }
}

/// The button's four-bet, by stack depth.
pub open spec fn four_bet_action(bucket: EffectiveStackBucket) -> BlueprintActionKind {
    match bucket {
        EffectiveStackBucket::UpTo15Bb | EffectiveStackBucket::Bb16To25 | EffectiveStackBucket::Bb26To40 => BlueprintActionKind::AllIn,
        _ => BlueprintActionKind::Aggression1,
    }
}

pub open spec fn rule(range: StartingRangeName, action: BlueprintActionKind) -> PreflopRangeRule {
    PreflopRangeRule { range, action }
}

/// A policy entry as its situation, default action and rules.
pub open spec fn entry_view(e: PreflopPolicyEntry) -> (PreflopContextKey, BlueprintActionKind, Seq<PreflopRangeRule>) {
    (e.context, e.default_action, e.rules@)
}

pub open spec fn policy_row(
    bucket: EffectiveStackBucket,
    actor: Player,
    prior_limp: bool,
    aggressive_actions: u8,
    facing: PreflopFacingBetBucket,
    default_action: BlueprintActionKind,
    rules: Seq<PreflopRangeRule>,
) -> (PreflopContextKey, BlueprintActionKind, Seq<PreflopRangeRule>) {
    (
        PreflopContextKey {
            actor,
            prior_limp,
            aggressive_actions,
            effective_stack_bucket: bucket,
            facing_bet_bucket: facing,
        },
        default_action,
        rules,
    )
}

/// The preflop chart of one stack depth: for each situation, the default action and
/// the rules tried in order.
pub open spec fn preflop_chart(bucket: EffectiveStackBucket) -> Seq<(PreflopContextKey, BlueprintActionKind, Seq<PreflopRangeRule>)> {
    seq![
        policy_row(bucket, Player::Button, false, 0, PreflopFacingBetBucket::Unopened, BlueprintActionKind::Fold, seq![rule(StartingRangeName::ButtonOpenRaiseLarge, open_large_action(bucket)), rule(StartingRangeName::ButtonOpenRaiseSmall, open_small_action(bucket)), rule(StartingRangeName::ButtonOpenLimp, BlueprintActionKind::Call)]),
        policy_row(bucket, Player::BigBlind, true, 0, PreflopFacingBetBucket::Limped, BlueprintActionKind::Check, seq![rule(StartingRangeName::BigBlindIsoRaiseVsLimp, iso_raise_action(bucket))]),
        policy_row(bucket, Player::BigBlind, false, 1, PreflopFacingBetBucket::UpTo3Bb, BlueprintActionKind::Fold, seq![rule(StartingRangeName::BigBlindThreeBetVsOpen, three_bet_action(bucket)), rule(StartingRangeName::BigBlindDefendVsOpen, BlueprintActionKind::Call)]),
        policy_row(bucket, Player::BigBlind, false, 1, PreflopFacingBetBucket::Bb31To7Bb, BlueprintActionKind::Fold, seq![rule(StartingRangeName::BigBlindThreeBetVsOpen, open_large_action(bucket)), rule(StartingRangeName::BigBlindDefendVsOpen, BlueprintActionKind::Call)]),
        policy_row(bucket, Player::BigBlind, false, 1, PreflopFacingBetBucket::Bb71To16Bb, BlueprintActionKind::Fold, seq![rule(StartingRangeName::BigBlindThreeBetVsOpen, BlueprintActionKind::AllIn)]),
        policy_row(bucket, Player::Button, true, 1, PreflopFacingBetBucket::UpTo3Bb, BlueprintActionKind::Fold, seq![rule(StartingRangeName::ButtonRaiseVsIso, raise_vs_iso_action(bucket)), rule(StartingRangeName::ButtonContinueVsIso, BlueprintActionKind::Call)]),
        policy_row(bucket, Player::Button, true, 1, PreflopFacingBetBucket::Bb31To7Bb, BlueprintActionKind::Fold, seq![rule(StartingRangeName::ButtonRaiseVsIso, raise_vs_iso_action(bucket)), rule(StartingRangeName::ButtonContinueVsIso, BlueprintActionKind::Call)]),
        policy_row(bucket, Player::Button, true, 1, PreflopFacingBetBucket::Bb71To16Bb, BlueprintActionKind::Fold, seq![rule(StartingRangeName::ButtonRaiseVsIso, raise_vs_iso_action(bucket)), rule(StartingRangeName::ButtonContinueVsIso, BlueprintActionKind::Call)]),
        policy_row(bucket, Player::Button, false, 2, PreflopFacingBetBucket::Bb31To7Bb, BlueprintActionKind::Fold, seq![rule(StartingRangeName::ButtonFourBetVsThreeBet, four_bet_action(bucket)), rule(StartingRangeName::ButtonContinueVsThreeBet, BlueprintActionKind::Call)]),
        policy_row(bucket, Player::Button, false, 2, PreflopFacingBetBucket::Bb71To16Bb, BlueprintActionKind::Fold, seq![rule(StartingRangeName::ButtonFourBetVsThreeBet, four_bet_action(bucket)), rule(StartingRangeName::ButtonContinueVsThreeBet, BlueprintActionKind::Call)]),
        policy_row(bucket, Player::BigBlind, true, 2, PreflopFacingBetBucket::Bb31To7Bb, BlueprintActionKind::Fold, seq![rule(StartingRangeName::BigBlindFiveBetVsFourBet, BlueprintActionKind::AllIn), rule(StartingRangeName::BigBlindContinueVsFourBet, BlueprintActionKind::Call)]),
        policy_row(bucket, Player::BigBlind, true, 2, PreflopFacingBetBucket::Bb71To16Bb, BlueprintActionKind::Fold, seq![rule(StartingRangeName::BigBlindFiveBetVsFourBet, BlueprintActionKind::AllIn), rule(StartingRangeName::BigBlindContinueVsFourBet, BlueprintActionKind::Call)]),
        policy_row(bucket, Player::BigBlind, true, 2, PreflopFacingBetBucket::Over16Bb, BlueprintActionKind::Fold, seq![rule(StartingRangeName::BigBlindFiveBetVsFourBet, BlueprintActionKind::AllIn), rule(StartingRangeName::BigBlindContinueVsFourBet, BlueprintActionKind::Call)]),
        policy_row(bucket, Player::BigBlind, false, 3, PreflopFacingBetBucket::Bb71To16Bb, BlueprintActionKind::Fold, seq![rule(StartingRangeName::BigBlindFiveBetVsFourBet, BlueprintActionKind::AllIn), rule(StartingRangeName::BigBlindContinueVsFourBet, BlueprintActionKind::Call)]),
        policy_row(bucket, Player::BigBlind, false, 3, PreflopFacingBetBucket::Over16Bb, BlueprintActionKind::Fold, seq![rule(StartingRangeName::BigBlindFiveBetVsFourBet, BlueprintActionKind::AllIn), rule(StartingRangeName::BigBlindContinueVsFourBet, BlueprintActionKind::Call)]),
        policy_row(bucket, Player::Button, true, 3, PreflopFacingBetBucket::Bb31To7Bb, BlueprintActionKind::Fold, seq![rule(StartingRangeName::ButtonFourBetVsThreeBet, BlueprintActionKind::Call)]),
        policy_row(bucket, Player::Button, true, 3, PreflopFacingBetBucket::Bb71To16Bb, BlueprintActionKind::Fold, seq![rule(StartingRangeName::ButtonFourBetVsThreeBet, BlueprintActionKind::Call)]),
        policy_row(bucket, Player::Button, true, 3, PreflopFacingBetBucket::Over16Bb, BlueprintActionKind::Fold, seq![rule(StartingRangeName::ButtonFourBetVsThreeBet, BlueprintActionKind::Call)]),
        policy_row(bucket, Player::Button, false, 4, PreflopFacingBetBucket::Over16Bb, BlueprintActionKind::Fold, seq![rule(StartingRangeName::ButtonFourBetVsThreeBet, BlueprintActionKind::Call)]),
    ]
}

fn policy_entry(
    bucket: EffectiveStackBucket,
    actor: Player,
    prior_limp: bool,
    aggressive_actions: u8,
    facing: PreflopFacingBetBucket,
    default_action: BlueprintActionKind,
    rules: Vec<PreflopRangeRule>,
) -> (r: PreflopPolicyEntry)
    ensures
        entry_view(r) == policy_row(bucket, actor, prior_limp, aggressive_actions, facing, default_action, rules@),
{
    PreflopPolicyEntry {
        context: PreflopContextKey {
            actor,
            prior_limp,
            aggressive_actions,
            effective_stack_bucket: bucket,
            facing_bet_bucket: facing,
        },
        default_action,
        rules,
    }
}

/// The preflop chart of one stack depth (see `preflop_chart`).
pub fn default_preflop_policies_for_bucket(bucket: EffectiveStackBucket) -> (r: Vec<PreflopPolicyEntry>)
    ensures
        r@.map_values(|e: PreflopPolicyEntry| entry_view(e)) == preflop_chart(bucket),
{
    let open_large = match bucket {
        EffectiveStackBucket::UpTo15Bb => BlueprintActionKind::AllIn,
        EffectiveStackBucket::Bb16To25 | EffectiveStackBucket::Bb26To40 => BlueprintActionKind::Aggression3,
        EffectiveStackBucket::Bb41To75 | EffectiveStackBucket::Bb76Plus => BlueprintActionKind::Aggression2,
    };
    let open_small = match bucket {
        EffectiveStackBucket::UpTo15Bb => BlueprintActionKind::AllIn,
        EffectiveStackBucket::Bb16To25 => BlueprintActionKind::Aggression2,
        EffectiveStackBucket::Bb26To40 | EffectiveStackBucket::Bb41To75 | EffectiveStackBucket::Bb76Plus => BlueprintActionKind::Aggression1,
    };
    let iso = match bucket {
        EffectiveStackBucket::UpTo15Bb => BlueprintActionKind::AllIn,
        EffectiveStackBucket::Bb16To25 => BlueprintActionKind::Aggression2,
        EffectiveStackBucket::Bb26To40 | EffectiveStackBucket::Bb41To75 | EffectiveStackBucket::Bb76Plus => BlueprintActionKind::Aggression1,
    };
    let three_bet = match bucket {
        EffectiveStackBucket::UpTo15Bb | EffectiveStackBucket::Bb16To25 => BlueprintActionKind::AllIn,
        EffectiveStackBucket::Bb26To40 => BlueprintActionKind::Aggression2,
        EffectiveStackBucket::Bb41To75 | EffectiveStackBucket::Bb76Plus => BlueprintActionKind::Aggression1,
    };
    let raise_vs_iso = match bucket {
        EffectiveStackBucket::UpTo15Bb | EffectiveStackBucket::Bb16To25 => BlueprintActionKind::AllIn,
        EffectiveStackBucket::Bb26To40 | EffectiveStackBucket::Bb41To75 | EffectiveStackBucket::Bb76Plus => BlueprintActionKind::Aggression1,
    };
    let four_bet = match bucket {
        EffectiveStackBucket::UpTo15Bb | EffectiveStackBucket::Bb16To25 | EffectiveStackBucket::Bb26To40 => BlueprintActionKind::AllIn,
        EffectiveStackBucket::Bb41To75 | EffectiveStackBucket::Bb76Plus => BlueprintActionKind::Aggression1,
    };
    let mut entries: Vec<PreflopPolicyEntry> = Vec::new();
    entries.push(policy_entry(bucket, Player::Button, false, 0, PreflopFacingBetBucket::Unopened, BlueprintActionKind::Fold, vec![PreflopRangeRule { range: StartingRangeName::ButtonOpenRaiseLarge, action: open_large }, PreflopRangeRule { range: StartingRangeName::ButtonOpenRaiseSmall, action: open_small }, PreflopRangeRule { range: StartingRangeName::ButtonOpenLimp, action: BlueprintActionKind::Call }]));
    entries.push(policy_entry(bucket, Player::BigBlind, true, 0, PreflopFacingBetBucket::Limped, BlueprintActionKind::Check, vec![PreflopRangeRule { range: StartingRangeName::BigBlindIsoRaiseVsLimp, action: iso }]));
    entries.push(policy_entry(bucket, Player::BigBlind, false, 1, PreflopFacingBetBucket::UpTo3Bb, BlueprintActionKind::Fold, vec![PreflopRangeRule { range: StartingRangeName::BigBlindThreeBetVsOpen, action: three_bet }, PreflopRangeRule { range: StartingRangeName::BigBlindDefendVsOpen, action: BlueprintActionKind::Call }]));
    entries.push(policy_entry(bucket, Player::BigBlind, false, 1, PreflopFacingBetBucket::Bb31To7Bb, BlueprintActionKind::Fold, vec![PreflopRangeRule { range: StartingRangeName::BigBlindThreeBetVsOpen, action: open_large }, PreflopRangeRule { range: StartingRangeName::BigBlindDefendVsOpen, action: BlueprintActionKind::Call }]));
    entries.push(policy_entry(bucket, Player::BigBlind, false, 1, PreflopFacingBetBucket::Bb71To16Bb, BlueprintActionKind::Fold, vec![PreflopRangeRule { range: StartingRangeName::BigBlindThreeBetVsOpen, action: BlueprintActionKind::AllIn }]));
    entries.push(policy_entry(bucket, Player::Button, true, 1, PreflopFacingBetBucket::UpTo3Bb, BlueprintActionKind::Fold, vec![PreflopRangeRule { range: StartingRangeName::ButtonRaiseVsIso, action: raise_vs_iso }, PreflopRangeRule { range: StartingRangeName::ButtonContinueVsIso, action: BlueprintActionKind::Call }]));
    entries.push(policy_entry(bucket, Player::Button, true, 1, PreflopFacingBetBucket::Bb31To7Bb, BlueprintActionKind::Fold, vec![PreflopRangeRule { range: StartingRangeName::ButtonRaiseVsIso, action: raise_vs_iso }, PreflopRangeRule { range: StartingRangeName::ButtonContinueVsIso, action: BlueprintActionKind::Call }]));
    entries.push(policy_entry(bucket, Player::Button, true, 1, PreflopFacingBetBucket::Bb71To16Bb, BlueprintActionKind::Fold, vec![PreflopRangeRule { range: StartingRangeName::ButtonRaiseVsIso, action: raise_vs_iso }, PreflopRangeRule { range: StartingRangeName::ButtonContinueVsIso, action: BlueprintActionKind::Call }]));
    entries.push(policy_entry(bucket, Player::Button, false, 2, PreflopFacingBetBucket::Bb31To7Bb, BlueprintActionKind::Fold, vec![PreflopRangeRule { range: StartingRangeName::ButtonFourBetVsThreeBet, action: four_bet }, PreflopRangeRule { range: StartingRangeName::ButtonContinueVsThreeBet, action: BlueprintActionKind::Call }]));
    entries.push(policy_entry(bucket, Player::Button, false, 2, PreflopFacingBetBucket::Bb71To16Bb, BlueprintActionKind::Fold, vec![PreflopRangeRule { range: StartingRangeName::ButtonFourBetVsThreeBet, action: four_bet }, PreflopRangeRule { range: StartingRangeName::ButtonContinueVsThreeBet, action: BlueprintActionKind::Call }]));
    entries.push(policy_entry(bucket, Player::BigBlind, true, 2, PreflopFacingBetBucket::Bb31To7Bb, BlueprintActionKind::Fold, vec![PreflopRangeRule { range: StartingRangeName::BigBlindFiveBetVsFourBet, action: BlueprintActionKind::AllIn }, PreflopRangeRule { range: StartingRangeName::BigBlindContinueVsFourBet, action: BlueprintActionKind::Call }]));
    entries.push(policy_entry(bucket, Player::BigBlind, true, 2, PreflopFacingBetBucket::Bb71To16Bb, BlueprintActionKind::Fold, vec![PreflopRangeRule { range: StartingRangeName::BigBlindFiveBetVsFourBet, action: BlueprintActionKind::AllIn }, PreflopRangeRule { range: StartingRangeName::BigBlindContinueVsFourBet, action: BlueprintActionKind::Call }]));
    entries.push(policy_entry(bucket, Player::BigBlind, true, 2, PreflopFacingBetBucket::Over16Bb, BlueprintActionKind::Fold, vec![PreflopRangeRule { range: StartingRangeName::BigBlindFiveBetVsFourBet, action: BlueprintActionKind::AllIn }, PreflopRangeRule { range: StartingRangeName::BigBlindContinueVsFourBet, action: BlueprintActionKind::Call }]));
    entries.push(policy_entry(bucket, Player::BigBlind, false, 3, PreflopFacingBetBucket::Bb71To16Bb, BlueprintActionKind::Fold, vec![PreflopRangeRule { range: StartingRangeName::BigBlindFiveBetVsFourBet, action: BlueprintActionKind::AllIn }, PreflopRangeRule { range: StartingRangeName::BigBlindContinueVsFourBet, action: BlueprintActionKind::Call }]));
    entries.push(policy_entry(bucket, Player::BigBlind, false, 3, PreflopFacingBetBucket::Over16Bb, BlueprintActionKind::Fold, vec![PreflopRangeRule { range: StartingRangeName::BigBlindFiveBetVsFourBet, action: BlueprintActionKind::AllIn }, PreflopRangeRule { range: StartingRangeName::BigBlindContinueVsFourBet, action: BlueprintActionKind::Call }]));
    entries.push(policy_entry(bucket, Player::Button, true, 3, PreflopFacingBetBucket::Bb31To7Bb, BlueprintActionKind::Fold, vec![PreflopRangeRule { range: StartingRangeName::ButtonFourBetVsThreeBet, action: BlueprintActionKind::Call }]));
    entries.push(policy_entry(bucket, Player::Button, true, 3, PreflopFacingBetBucket::Bb71To16Bb, BlueprintActionKind::Fold, vec![PreflopRangeRule { range: StartingRangeName::ButtonFourBetVsThreeBet, action: BlueprintActionKind::Call }]));
    entries.push(policy_entry(bucket, Player::Button, true, 3, PreflopFacingBetBucket::Over16Bb, BlueprintActionKind::Fold, vec![PreflopRangeRule { range: StartingRangeName::ButtonFourBetVsThreeBet, action: BlueprintActionKind::Call }]));
    entries.push(policy_entry(bucket, Player::Button, false, 4, PreflopFacingBetBucket::Over16Bb, BlueprintActionKind::Fold, vec![PreflopRangeRule { range: StartingRangeName::ButtonFourBetVsThreeBet, action: BlueprintActionKind::Call }]));
    proof {
        assert(open_large == open_large_action(bucket));
        assert(open_small == open_small_action(bucket));
        assert(iso == iso_raise_action(bucket));
        assert(three_bet == three_bet_action(bucket));
        assert(raise_vs_iso == raise_vs_iso_action(bucket));
        assert(four_bet == four_bet_action(bucket));
        assert(entries@.len() == 19);
        assert(entry_view(entries@[0]) == preflop_chart(bucket)[0]);
        assert(entry_view(entries@[1]) == preflop_chart(bucket)[1]);
        assert(entry_view(entries@[2]) == preflop_chart(bucket)[2]);
        assert(entry_view(entries@[3]) == preflop_chart(bucket)[3]);
        assert(entry_view(entries@[4]) == preflop_chart(bucket)[4]);
        assert(entry_view(entries@[5]) == preflop_chart(bucket)[5]);
        assert(entry_view(entries@[6]) == preflop_chart(bucket)[6]);
        assert(entry_view(entries@[7]) == preflop_chart(bucket)[7]);
        assert(entry_view(entries@[8]) == preflop_chart(bucket)[8]);
        assert(entry_view(entries@[9]) == preflop_chart(bucket)[9]);
        assert(entry_view(entries@[10]) == preflop_chart(bucket)[10]);
        assert(entry_view(entries@[11]) == preflop_chart(bucket)[11]);
        assert(entry_view(entries@[12]) == preflop_chart(bucket)[12]);
        assert(entry_view(entries@[13]) == preflop_chart(bucket)[13]);
        assert(entry_view(entries@[14]) == preflop_chart(bucket)[14]);
        assert(entry_view(entries@[15]) == preflop_chart(bucket)[15]);
        assert(entry_view(entries@[16]) == preflop_chart(bucket)[16]);
        assert(entry_view(entries@[17]) == preflop_chart(bucket)[17]);
        assert(entry_view(entries@[18]) == preflop_chart(bucket)[18]);
        assert(entries@.map_values(|e: PreflopPolicyEntry| entry_view(e)) =~= preflop_chart(bucket));
    }
    entries
}

/// The preflop charts of every stack depth, shallowest first.
pub fn default_preflop_policies() -> (r: Vec<PreflopPolicyEntry>)
    ensures
        r@.map_values(|e: PreflopPolicyEntry| entry_view(e)) == preflop_chart(EffectiveStackBucket::UpTo15Bb)
            + preflop_chart(EffectiveStackBucket::Bb16To25) + preflop_chart(EffectiveStackBucket::Bb26To40)
            + preflop_chart(EffectiveStackBucket::Bb41To75) + preflop_chart(EffectiveStackBucket::Bb76Plus),
{
    let mut entries: Vec<PreflopPolicyEntry> = Vec::new();
    let mut part = default_preflop_policies_for_bucket(EffectiveStackBucket::UpTo15Bb);
    entries.append(&mut part);
    let mut part = default_preflop_policies_for_bucket(EffectiveStackBucket::Bb16To25);
    entries.append(&mut part);
    let mut part = default_preflop_policies_for_bucket(EffectiveStackBucket::Bb26To40);
    entries.append(&mut part);
    let mut part = default_preflop_policies_for_bucket(EffectiveStackBucket::Bb41To75);
    entries.append(&mut part);
    let mut part = default_preflop_policies_for_bucket(EffectiveStackBucket::Bb76Plus);
    entries.append(&mut part);
    proof {
        assert(entries@.map_values(|e: PreflopPolicyEntry| entry_view(e)) =~= preflop_chart(EffectiveStackBucket::UpTo15Bb)
            + preflop_chart(EffectiveStackBucket::Bb16To25) + preflop_chart(EffectiveStackBucket::Bb26To40)
            + preflop_chart(EffectiveStackBucket::Bb41To75) + preflop_chart(EffectiveStackBucket::Bb76Plus));
    }
    entries
}

// ---------------------------------------------------------------------------
// Starting ranges.
// ---------------------------------------------------------------------------

/// The ranges that the preflop charts name.
#[derive(Debug, Clone, PartialEq, Eq)]
pub struct StartingRanges {
    pub button_open_raise_large: Range,
    pub button_open_raise_small: Range,
    pub button_open_limp: Range,
    pub big_blind_iso_raise_vs_limp: Range,
    pub big_blind_defend_vs_open: Range,
    pub big_blind_three_bet_vs_open: Range,
    pub button_continue_vs_iso: Range,
    pub button_raise_vs_iso: Range,
    pub button_continue_vs_three_bet: Range,
    pub button_four_bet_vs_three_bet: Range,
    pub big_blind_continue_vs_four_bet: Range,
    pub big_blind_five_bet_vs_four_bet: Range,
}

/// `r` is what the chart text reads as: the range it stands for, or no hands if the
/// text could not be read.
pub open spec fn chart_range_read(r: Range, text: Seq<char>) -> bool {
    &&& r.wf()
    &&& match spec_parse_range(text) {
        Ok(hands) => r.hands() == hands,
        Err(_) => r@.len() == 0,
    }
}

/// The range that a chart text stands for.
pub(crate) fn chart_range(text: &str) -> (r: Range)
    ensures
        chart_range_read(r, text@),
{
    match Range::parse_str(text) {
        Ok(range) => range,
        Err(_) => Range::empty(),
    }
}

impl StartingRanges {
    /// The range of a given name.
    pub open spec fn spec_get(&self, name: StartingRangeName) -> Range {
        match name {
            StartingRangeName::ButtonOpenRaiseLarge => self.button_open_raise_large,
            StartingRangeName::ButtonOpenRaiseSmall => self.button_open_raise_small,
            StartingRangeName::ButtonOpenLimp => self.button_open_limp,
            StartingRangeName::BigBlindIsoRaiseVsLimp => self.big_blind_iso_raise_vs_limp,
            StartingRangeName::BigBlindDefendVsOpen => self.big_blind_defend_vs_open,
            StartingRangeName::BigBlindThreeBetVsOpen => self.big_blind_three_bet_vs_open,
            StartingRangeName::ButtonContinueVsIso => self.button_continue_vs_iso,
            StartingRangeName::ButtonRaiseVsIso => self.button_raise_vs_iso,
            StartingRangeName::ButtonContinueVsThreeBet => self.button_continue_vs_three_bet,
            StartingRangeName::ButtonFourBetVsThreeBet => self.button_four_bet_vs_three_bet,
            StartingRangeName::BigBlindContinueVsFourBet => self.big_blind_continue_vs_four_bet,
            StartingRangeName::BigBlindFiveBetVsFourBet => self.big_blind_five_bet_vs_four_bet,
        }
    }

    /// Simplified heads-up charts: mostly raise-first-in, with no limping range.
    pub fn smoke_default() -> (r: Self)
        ensures
            chart_range_read(r.button_open_raise_large, "QQ+,AKs,AKo,A5s,A4s,KQs"@),
            chart_range_read(r.button_open_raise_small, "22+,A2s+,K2s+,Q4s+,J6s+,T6s+,96s+,86s+,75s+,64s+,53s+,43s,A2o+,K5o+,Q8o+,J8o+,T8o+,98o,87o"@),
            r.button_open_limp@.len() == 0,
            chart_range_read(r.big_blind_iso_raise_vs_limp, "77+,A8s+,KTs+,QTs+,JTs,T9s,98s,AJo+,KQo,A5s,A4s"@),
            chart_range_read(r.big_blind_defend_vs_open, "22+,A2s+,K2s+,Q5s+,J7s+,T7s+,96s+,85s+,75s+,64s+,54s,A2o+,K7o+,Q9o+,J9o+,T9o"@),
            chart_range_read(r.big_blind_three_bet_vs_open, "88+,ATs+,KTs+,QTs+,JTs,T9s,98s,AQo+,A5s,A4s,A3s,A2s,KQo"@),
            chart_range_read(r.button_continue_vs_iso, "22+,A2s+,K8s+,Q9s+,J9s+,T8s+,98s,87s,76s,A8o+,KTo+,QTo+,JTo"@),
            chart_range_read(r.button_raise_vs_iso, "TT+,AJs+,AQo+,KQs,A5s,A4s"@),
            chart_range_read(r.button_continue_vs_three_bet, "66+,A2s+,K9s+,QTs+,JTs,T9s,98s,87s,A9o+,KTo+,QJo"@),
            chart_range_read(r.button_four_bet_vs_three_bet, "JJ+,AQs+,AKo,A5s,A4s,KQs"@),
            chart_range_read(r.big_blind_continue_vs_four_bet, "TT+,AQs+,AJs,AKo,KQs"@),
            chart_range_read(r.big_blind_five_bet_vs_four_bet, "QQ+,AKs,AKo"@),
    {
        StartingRanges {
            button_open_raise_large: chart_range("QQ+,AKs,AKo,A5s,A4s,KQs"),
            button_open_raise_small: chart_range("22+,A2s+,K2s+,Q4s+,J6s+,T6s+,96s+,86s+,75s+,64s+,53s+,43s,A2o+,K5o+,Q8o+,J8o+,T8o+,98o,87o"),
            button_open_limp: Range::empty(),
            big_blind_iso_raise_vs_limp: chart_range("77+,A8s+,KTs+,QTs+,JTs,T9s,98s,AJo+,KQo,A5s,A4s"),
            big_blind_defend_vs_open: chart_range("22+,A2s+,K2s+,Q5s+,J7s+,T7s+,96s+,85s+,75s+,64s+,54s,A2o+,K7o+,Q9o+,J9o+,T9o"),
            big_blind_three_bet_vs_open: chart_range("88+,ATs+,KTs+,QTs+,JTs,T9s,98s,AQo+,A5s,A4s,A3s,A2s,KQo"),
            button_continue_vs_iso: chart_range("22+,A2s+,K8s+,Q9s+,J9s+,T8s+,98s,87s,76s,A8o+,KTo+,QTo+,JTo"),
            button_raise_vs_iso: chart_range("TT+,AJs+,AQo+,KQs,A5s,A4s"),
            button_continue_vs_three_bet: chart_range("66+,A2s+,K9s+,QTs+,JTs,T9s,98s,87s,A9o+,KTo+,QJo"),
            button_four_bet_vs_three_bet: chart_range("JJ+,AQs+,AKo,A5s,A4s,KQs"),
            big_blind_continue_vs_four_bet: chart_range("TT+,AQs+,AJs,AKo,KQs"),
            big_blind_five_bet_vs_four_bet: chart_range("QQ+,AKs,AKo"),
        }
    }

    pub fn get(&self, name: StartingRangeName) -> (r: &Range)
        ensures
            *r == self.spec_get(name),
    {
        match name {
            StartingRangeName::ButtonOpenRaiseLarge => &self.button_open_raise_large,
            StartingRangeName::ButtonOpenRaiseSmall => &self.button_open_raise_small,
            StartingRangeName::ButtonOpenLimp => &self.button_open_limp,
            StartingRangeName::BigBlindIsoRaiseVsLimp => &self.big_blind_iso_raise_vs_limp,
            StartingRangeName::BigBlindDefendVsOpen => &self.big_blind_defend_vs_open,
            StartingRangeName::BigBlindThreeBetVsOpen => &self.big_blind_three_bet_vs_open,
            StartingRangeName::ButtonContinueVsIso => &self.button_continue_vs_iso,
            StartingRangeName::ButtonRaiseVsIso => &self.button_raise_vs_iso,
            StartingRangeName::ButtonContinueVsThreeBet => &self.button_continue_vs_three_bet,
            StartingRangeName::ButtonFourBetVsThreeBet => &self.button_four_bet_vs_three_bet,
            StartingRangeName::BigBlindContinueVsFourBet => &self.big_blind_continue_vs_four_bet,
            StartingRangeName::BigBlindFiveBetVsFourBet => &self.big_blind_five_bet_vs_four_bet,
        }
    }
}

/// A policy's action kind always resolves to an action on the legal menu.
pub proof fn lemma_resolved_action_is_offered(kind: BlueprintActionKind, legal: Seq<AbstractAction>)
    ensures
        spec_resolve(kind, legal) matches Some(a) ==> legal.contains(a),
        spec_safe_fallback(legal) matches Some(a) ==> legal.contains(a),
{
    assert forall|k: BlueprintActionKind| #[trigger] spec_resolve(k, legal) is Some implies legal.contains(
        spec_resolve(k, legal)->0,
    ) by {
        let a = spec_resolve(k, legal)->0;
        let aggressive = aggressive_options(legal);
        match k {
            BlueprintActionKind::Fold => {
                let p = |x: AbstractAction| x == AbstractAction::Fold;
                assert(legal.filter(p).contains(a));
                legal.lemma_filter_contains_rev(p, a);
            },
            BlueprintActionKind::Check => {
                let p = |x: AbstractAction| x == AbstractAction::Check;
                assert(legal.filter(p).contains(a));
                legal.lemma_filter_contains_rev(p, a);
            },
            BlueprintActionKind::Call => {
                let p = |x: AbstractAction| x == AbstractAction::Call;
                assert(legal.filter(p).contains(a));
                legal.lemma_filter_contains_rev(p, a);
            },
            BlueprintActionKind::AllIn => {
                let p = |x: AbstractAction| x is AllIn;
                assert(legal.filter(p).contains(a));
                legal.lemma_filter_contains_rev(p, a);
            },
            _ => {
                let p = |x: AbstractAction| x is BetTo || x is RaiseTo;
                assert(aggressive.contains(a));
                legal.lemma_filter_contains_rev(p, a);
            },
        }
    }
}

// ---------------------------------------------------------------------------
// Choosing from a policy.
// ---------------------------------------------------------------------------

/// What a preflop policy picks for a hand: the first rule whose range holds the hand
/// and whose kind resolves on the menu; else the default kind; else the safe fallback.
pub open spec fn spec_choose_preflop(
    rules: Seq<PreflopRangeRule>,
    default_action: BlueprintActionKind,
    ranges: StartingRanges,
    hole: HoleCards,
    legal: Seq<AbstractAction>,
) -> Option<AbstractAction>
    decreases rules.len(),
{
    if rules.len() == 0 {
        match spec_resolve(default_action, legal) {
            Some(a) => Some(a),
            None => spec_safe_fallback(legal),
        }
    } else if ranges.spec_get(rules[0].range).hands().contains(hole@) && spec_resolve(
        rules[0].action,
        legal,
    ) is Some {
        spec_resolve(rules[0].action, legal)
    } else {
        spec_choose_preflop(rules.drop_first(), default_action, ranges, hole, legal)
    }
}

/// Picks the preflop action of a policy for a hand (see `spec_choose_preflop`).
pub fn choose_preflop_action(
    policy: &PreflopPolicyEntry,
    ranges: &StartingRanges,
    hole_cards: HoleCards,
    legal: &[AbstractAction],
) -> (r: Option<AbstractAction>)
    ensures
        r == spec_choose_preflop(policy.rules@, policy.default_action, *ranges, hole_cards, legal@),
{
    let rules = &policy.rules;
    let mut i: usize = 0;
    proof {
        assert(rules@.skip(0) =~= rules@);
    }
    while i < rules.len()
        invariant
            i <= rules@.len(),
            rules@ == policy.rules@,
            spec_choose_preflop(rules@, policy.default_action, *ranges, hole_cards, legal@)
                == spec_choose_preflop(rules@.skip(i as int), policy.default_action, *ranges, hole_cards, legal@),
        decreases rules@.len() - i,
    {
        proof {
            assert(rules@.skip(i as int).drop_first() =~= rules@.skip(i + 1));
            assert(rules@.skip(i as int)[0] == rules@[i as int]);
        }
        let rule = &rules[i];
        let range = ranges.get(rule.range);
        if range.contains(hole_cards) {
            let action = resolve_action_kind(rule.action, legal);
            if action.is_some() {
                return action;
            }
        }
        i = i + 1;
    }
    let action = resolve_action_kind(policy.default_action, legal);
    if action.is_some() {
        return action;
    }
    safe_fallback_action(legal)
}

/// What the ranked kinds of a postflop policy pick: the first kind, in the order
/// given, that resolves on the menu; else the safe fallback.
pub open spec fn spec_choose_ranked(ranked: Seq<BlueprintActionKind>, legal: Seq<AbstractAction>) -> Option<
    AbstractAction,
>
    decreases ranked.len(),
{
    if ranked.len() == 0 {
        spec_safe_fallback(legal)
    } else if spec_resolve(ranked[0], legal) is Some {
        spec_resolve(ranked[0], legal)
    } else {
        spec_choose_ranked(ranked.drop_first(), legal)
    }
}

/// Picks an action from a policy's kinds ranked most likely first (see
/// `spec_choose_ranked`).
pub fn choose_ranked_action(ranked: &[BlueprintActionKind], legal: &[AbstractAction]) -> (r: Option<
    AbstractAction,
>)
    ensures
        r == spec_choose_ranked(ranked@, legal@),
{
    let mut i: usize = 0;
    proof {
        assert(ranked@.skip(0) =~= ranked@);
    }
    while i < ranked.len()
        invariant
            i <= ranked@.len(),
            spec_choose_ranked(ranked@, legal@) == spec_choose_ranked(ranked@.skip(i as int), legal@),
        decreases ranked@.len() - i,
    {
        proof {
            assert(ranked@.skip(i as int).drop_first() =~= ranked@.skip(i + 1));
            assert(ranked@.skip(i as int)[0] == ranked@[i as int]);
        }
        let action = resolve_action_kind(ranked[i], legal);
        if action.is_some() {
            return action;
        }
        i = i + 1;
    }
    safe_fallback_action(legal)
}

/// How many smaller facing-bet buckets a bucket can fall back through.
pub open spec fn fallback_depth(bucket: PreflopFacingBetBucket) -> nat {
    match bucket {
        PreflopFacingBetBucket::AllIn => 4,
        PreflopFacingBetBucket::Over16Bb => 3,
        PreflopFacingBetBucket::Bb71To16Bb => 2,
        PreflopFacingBetBucket::Bb31To7Bb => 1,
        _ => 0,
    }
}

/// The last policy of the list for exactly this context (a later entry for the same
/// context replaces an earlier one).
pub open spec fn last_policy_for(policies: Seq<PreflopPolicyEntry>, context: PreflopContextKey) -> Option<int>
    decreases policies.len(),
{
    if policies.len() == 0 {
        None
    } else if policies.last().context == context {
        Some(policies.len() - 1)
    } else {
        last_policy_for(policies.drop_last(), context)
    }
}

/// The policy used for a context: the one for the context, else the one for the
/// next smaller facing-bet bucket, and so on.
pub open spec fn spec_find_preflop_policy(policies: Seq<PreflopPolicyEntry>, context: PreflopContextKey) -> Option<
    int,
>
    decreases fallback_depth(context.facing_bet_bucket),
{
    match last_policy_for(policies, context) {
        Some(i) => Some(i),
        None => match context.facing_bet_bucket {
            PreflopFacingBetBucket::AllIn => spec_find_preflop_policy(
                policies,
                PreflopContextKey { facing_bet_bucket: PreflopFacingBetBucket::Over16Bb, ..context },
            ),
            PreflopFacingBetBucket::Over16Bb => spec_find_preflop_policy(
                policies,
                PreflopContextKey { facing_bet_bucket: PreflopFacingBetBucket::Bb71To16Bb, ..context },
            ),
            PreflopFacingBetBucket::Bb71To16Bb => spec_find_preflop_policy(
                policies,
                PreflopContextKey { facing_bet_bucket: PreflopFacingBetBucket::Bb31To7Bb, ..context },
            ),
            PreflopFacingBetBucket::Bb31To7Bb => spec_find_preflop_policy(
                policies,
                PreflopContextKey { facing_bet_bucket: PreflopFacingBetBucket::UpTo3Bb, ..context },
            ),
            _ => None,
        },
    }
}

fn last_policy_index(policies: &[PreflopPolicyEntry], context: PreflopContextKey) -> (r: Option<usize>)
    ensures
        r matches Some(i) ==> last_policy_for(policies@, context) == Some(i as int) && i
            < policies@.len(),
        r is None ==> last_policy_for(policies@, context) is None,
{
    let mut i: usize = policies.len();
    proof {
        assert(policies@.take(i as int) =~= policies@);
    }
    while i > 0
        invariant
            i <= policies@.len(),
            last_policy_for(policies@, context) == last_policy_for(policies@.take(i as int), context),
        decreases i,
    {
        proof {
            assert(policies@.take(i as int).drop_last() =~= policies@.take(i - 1));
            assert(policies@.take(i as int).last() == policies@[i - 1]);
        }
        if policies[i - 1].context == context {
            return Some(i - 1);
        }
        i = i - 1;
    }
    None
}

/// Finds the policy used for a context (see `spec_find_preflop_policy`): its
/// position in the list.
pub fn find_preflop_policy(policies: &[PreflopPolicyEntry], context: PreflopContextKey) -> (r: Option<usize>)
    ensures
        r matches Some(i) ==> spec_find_preflop_policy(policies@, context) == Some(i as int)
            && i < policies@.len(),
        r is None ==> spec_find_preflop_policy(policies@, context) is None,
    decreases fallback_depth(context.facing_bet_bucket),
{
    if let Some(i) = last_policy_index(policies, context) {
        return Some(i);
    }
    match fallback_preflop_facing_bucket(context.facing_bet_bucket) {
        Some(bucket) => find_preflop_policy(
            policies,
            PreflopContextKey { facing_bet_bucket: bucket, ..context },
        ),
        None => None,
    }
}


/// What the blueprint bot does at a preflop decision: the preflop chart's answer for
/// its situation and hand.
pub open spec fn spec_blueprint_preflop(
    profile: AbstractionProfile,
    ranges: StartingRanges,
    policies: Seq<PreflopPolicyEntry>,
    bot_player: Player,
    m: HandModel,
) -> Result<PlayerAction, BlueprintBotError> {
    if m.actor() != Some(bot_player) {
        Err(BlueprintBotError::NotActorsTurn { expected: m.actor(), actual: bot_player })
    } else {
        match spec_abstract_actions(m, profile) {
            Err(e) => Err(BlueprintBotError::State(e)),
            Ok(legal) => if legal.len() == 0 {
                Err(BlueprintBotError::NoLegalAbstractActions)
            } else {
                match spec_preflop_context(m) {
                    Err(s) => Err(BlueprintBotError::UnsupportedStreetState(s)),
                    Ok(context) => match spec_find_preflop_policy(policies, context) {
                        None => Err(BlueprintBotError::MissingPreflopPolicy(context)),
                        Some(i) => match spec_choose_preflop(
                            policies[i].rules@,
                            policies[i].default_action,
                            ranges,
                            m.seat(bot_player).hole_cards,
                            legal,
                        ) {
                            None => Err(BlueprintBotError::NoMatchingPolicyAction),
                            Some(a) => Ok(a.spec_to_player_action()),
                        },
                    },
                }
            },
        }
    }
}

/// The blueprint bot's action at a preflop decision: after checking that it is the
/// bot's turn and that it has abstract actions, it looks up the policy of its
/// situation (falling back through coarser facing-bet buckets) and takes the first
/// rule of the policy whose range holds its hand and whose action is on the menu.
pub fn choose_blueprint_preflop_action(
    profile: &AbstractionProfile,
    ranges: &StartingRanges,
    policies: &[PreflopPolicyEntry],
    bot_player: Player,
    state: &HoldemHandState,
) -> (r: Result<PlayerAction, BlueprintBotError>)
    requires
        state.wf(),
        state@.street == Street::Preflop,
    ensures
        r == spec_blueprint_preflop(*profile, *ranges, policies@, bot_player, state@),
{
    let actor = state.current_actor();
    if actor != Some(bot_player) {
        return Err(BlueprintBotError::NotActorsTurn { expected: actor, actual: bot_player });
    }
    let legal = match abstract_actions(state, profile) {
        Ok(legal) => legal,
        Err(e) => {
            return Err(BlueprintBotError::State(e));
        },
    };
    if legal.len() == 0 {
        return Err(BlueprintBotError::NoLegalAbstractActions);
    }
    let context = match preflop_context_from_state(state) {
        Ok(context) => context,
        Err(e) => {
            return Err(e);
        },
    };
    let index = match find_preflop_policy(policies, context) {
        Some(index) => index,
        None => {
            return Err(BlueprintBotError::MissingPreflopPolicy(context));
        },
    };
    let policy = &policies[index];
    let hole_cards = state.player(bot_player).hole_cards;
    match choose_preflop_action(policy, ranges, hole_cards, legal.as_slice()) {
        Some(action) => Ok(action.to_player_action()),
        None => Err(BlueprintBotError::NoMatchingPolicyAction),
    }
}

} // verus!
