use vstd::prelude::*;

use crate::card_text::{cards_text, hole_cards_text, push_card, push_cards};
use crate::cards::{Card, HoleCards};
use crate::rules_text::{player_text, push_player, push_street, street_text};
use crate::text::{decimal, join, join_strings, push_char, push_decimal, push_str, views};
use crate::holdem::{
    Chips, HandModel, HoldemHandState, HoldemStateError, LegalActions, Player, PlayerAction,
    PlayerSnapshot, Street, WagerRange, MAX_CHIPS,
};

verus! {

// ---------------------------------------------------------------------------
// Bet sizes.
// ---------------------------------------------------------------------------

/// How an opening bet (or an opening raise of the blinds) is sized, in basis points.
#[derive(Debug, Clone, Copy, PartialEq, Eq, Structural)]
pub enum OpeningSize {
    /// A multiple of the big blind.
    BigBlindMultipleBps(u32),
    /// A fraction of the pot.
    PotFractionBps(u32),
}

/// How a raise is sized, in basis points.
#[derive(Debug, Clone, Copy, PartialEq, Eq, Structural)]
pub enum RaiseSize {
    /// A multiple of the bet to be raised.
    CurrentBetMultipleBps(u32),
    /// The bet to be raised plus a fraction of the pot after calling it.
    PotFractionAfterCallBps(u32),
}

/// The sizes one street offers.
#[derive(Debug, Clone, PartialEq, Eq)]
pub struct StreetProfile {
    pub opening_sizes: Vec<OpeningSize>,
    pub raise_sizes: Vec<RaiseSize>,
    pub include_all_in: bool,
}

/// The sizes each street offers.
#[derive(Debug, Clone, PartialEq, Eq)]
pub struct AbstractionProfile {
    preflop: StreetProfile,
    flop: StreetProfile,
    turn: StreetProfile,
    river: StreetProfile,
}

/// One action of the abstract game.
#[derive(Debug, Clone, Copy, PartialEq, Eq, Hash, Structural)]
pub enum AbstractAction {
    Fold,
    Check,
    Call,
    BetTo(Chips),
    RaiseTo(Chips),
    /// All in, to the given street total.
    AllIn(Chips),
}

impl StreetProfile {
    /// The same sizes as `other`.
    pub open spec fn same_sizes(self, other: Self) -> bool {
        &&& self.opening_sizes@ == other.opening_sizes@
        &&& self.raise_sizes@ == other.raise_sizes@
        &&& self.include_all_in == other.include_all_in
    }

    /// A copy of the sizes.
    pub fn duplicate(&self) -> (r: Self)
        ensures
            r.same_sizes(*self),
    {
        let opening_sizes = self.opening_sizes.clone();
        let raise_sizes = self.raise_sizes.clone();
        proof {
            assert(opening_sizes@ =~= self.opening_sizes@);
            assert(raise_sizes@ =~= self.raise_sizes@);
        }
        StreetProfile { opening_sizes, raise_sizes, include_all_in: self.include_all_in }
    }
}

impl AbstractionProfile {
    /// The sizes of one street.
    pub closed spec fn street_profile(self, street: Street) -> StreetProfile {
        match street {
            Street::Preflop => self.preflop,
            Street::Flop => self.flop,
            Street::Turn => self.turn,
            Street::River => self.river,
        }
    }

    pub fn new(
        preflop: StreetProfile,
        flop: StreetProfile,
        turn: StreetProfile,
        river: StreetProfile,
    ) -> (r: Self)
        ensures
            r.street_profile(Street::Preflop) == preflop,
            r.street_profile(Street::Flop) == flop,
            r.street_profile(Street::Turn) == turn,
            r.street_profile(Street::River) == river,
    {
        AbstractionProfile { preflop, flop, turn, river }
    }

    /// The same sizes as `other` on every street.
    pub open spec fn same_sizes(self, other: Self) -> bool {
        forall|s: Street| #[trigger] self.street_profile(s).same_sizes(other.street_profile(s))
    }

    /// A copy of the profile.
    pub fn duplicate(&self) -> (r: Self)
        ensures
            r.same_sizes(*self),
    {
        let r = AbstractionProfile {
            preflop: self.preflop.duplicate(),
            flop: self.flop.duplicate(),
            turn: self.turn.duplicate(),
            river: self.river.duplicate(),
        };
        proof {
            assert forall|s: Street| #[trigger] r.street_profile(s).same_sizes(self.street_profile(s)) by {
                match s {
                    Street::Preflop => {},
                    Street::Flop => {},
                    Street::Turn => {},
                    Street::River => {},
                }
            }
        }
        r
    }

    pub fn for_street(&self, street: Street) -> (r: &StreetProfile)
        ensures
            *r == self.street_profile(street),
    {
        match street {
            Street::Preflop => &self.preflop,
            Street::Flop => &self.flop,
            Street::Turn => &self.turn,
            Street::River => &self.river,
        }
    }

    /// A small profile: preflop opens to 2.5 big blinds, raises to 2.5 times the bet
    /// or all in; later streets bet the pot and never raise.
    pub fn river_smoke() -> (r: Self)
        ensures
            r.street_profile(Street::Preflop).opening_sizes@ == seq![
                OpeningSize::BigBlindMultipleBps(25_000),
            ],
            r.street_profile(Street::Preflop).raise_sizes@ == seq![
                RaiseSize::CurrentBetMultipleBps(25_000),
            ],
            r.street_profile(Street::Preflop).include_all_in,
            forall|s: Street|
                s != Street::Preflop ==> (#[trigger] r.street_profile(s)).opening_sizes@ == seq![
                    OpeningSize::PotFractionBps(10_000),
                ] && r.street_profile(s).raise_sizes@ == Seq::<RaiseSize>::empty()
                    && !r.street_profile(s).include_all_in,
    {
        let postflop_a = StreetProfile {
            opening_sizes: vec![OpeningSize::PotFractionBps(10_000)],
            raise_sizes: Vec::new(),
            include_all_in: false,
        };
        let postflop_b = StreetProfile {
            opening_sizes: vec![OpeningSize::PotFractionBps(10_000)],
            raise_sizes: Vec::new(),
            include_all_in: false,
        };
        let postflop_c = StreetProfile {
            opening_sizes: vec![OpeningSize::PotFractionBps(10_000)],
            raise_sizes: Vec::new(),
            include_all_in: false,
        };
        let r = AbstractionProfile::new(
            StreetProfile {
                opening_sizes: vec![OpeningSize::BigBlindMultipleBps(25_000)],
                raise_sizes: vec![RaiseSize::CurrentBetMultipleBps(25_000)],
                include_all_in: true,
            },
            postflop_a,
            postflop_b,
            postflop_c,
        );
        proof {
            assert forall|s: Street| s != Street::Preflop implies (#[trigger] r.street_profile(
                s,
            )).opening_sizes@ == seq![OpeningSize::PotFractionBps(10_000)]
                && r.street_profile(s).raise_sizes@ == Seq::<RaiseSize>::empty()
                && !r.street_profile(s).include_all_in by {
                match s {
                    Street::Flop => {},
                    Street::Turn => {},
                    Street::River => {},
                    Street::Preflop => {},
                }
            }
        }
        r
    }
}

impl AbstractAction {
    /// The exact action an abstract action stands for.
    pub open spec fn spec_to_player_action(self) -> PlayerAction {
        match self {
            AbstractAction::Fold => PlayerAction::Fold,
            AbstractAction::Check => PlayerAction::Check,
            AbstractAction::Call => PlayerAction::Call,
            AbstractAction::BetTo(total) => PlayerAction::BetTo(total),
            AbstractAction::RaiseTo(total) => PlayerAction::RaiseTo(total),
            AbstractAction::AllIn(_) => PlayerAction::AllIn,
        }
    }

    pub fn to_player_action(self) -> (r: PlayerAction)
        ensures
            r == self.spec_to_player_action(),
    {
        match self {
            AbstractAction::Fold => PlayerAction::Fold,
            AbstractAction::Check => PlayerAction::Check,
            AbstractAction::Call => PlayerAction::Call,
            AbstractAction::BetTo(total) => PlayerAction::BetTo(total),
            AbstractAction::RaiseTo(total) => PlayerAction::RaiseTo(total),
            AbstractAction::AllIn(_) => PlayerAction::AllIn,
        }
    }
}

// ---------------------------------------------------------------------------
// Keys that identify public states and information sets.
// ---------------------------------------------------------------------------

/// What both players see of a hand.
#[derive(Debug, Clone, PartialEq, Eq, Hash)]
pub struct PublicStateKey {
    pub street: Street,
    pub board: Vec<Card>,
    pub actor: Option<Player>,
    pub pot: Chips,
    pub button_stack: Chips,
    pub big_blind_stack: Chips,
    pub button_total_contribution: Chips,
    pub big_blind_total_contribution: Chips,
    pub button_street_contribution: Chips,
    pub big_blind_street_contribution: Chips,
}

/// What one player knows: the public state, the player's cards and the actions
/// taken in the abstract game.
#[derive(Debug, Clone, PartialEq, Eq, Hash)]
pub struct HoldemInfoSetKey {
    pub player: Player,
    pub hole_cards: HoleCards,
    pub public_state: PublicStateKey,
    pub public_history: Vec<AbstractAction>,
}

impl PublicStateKey {
    /// The key holds exactly the public parts of the hand.
    pub open spec fn describes(self, m: HandModel) -> bool {
        &&& self.street == m.street
        &&& self.board@ == m.board
        &&& self.actor == m.actor()
        &&& self.pot == m.pot()
        &&& self.button_stack == m.button.stack
        &&& self.big_blind_stack == m.big_blind.stack
        &&& self.button_total_contribution == m.button.total_contribution
        &&& self.big_blind_total_contribution == m.big_blind.total_contribution
        &&& self.button_street_contribution == m.button.street_contribution
        &&& self.big_blind_street_contribution == m.big_blind.street_contribution
    }

    pub fn from_state(state: &HoldemHandState) -> (r: Self)
        requires
            state.wf(),
        ensures
            r.describes(state@),
    {
        let button = state.player(Player::Button);
        let big_blind = state.player(Player::BigBlind);
        let board = state.board().cards_vec().clone();
        proof {
            assert(board@ =~= state@.board);
        }
        PublicStateKey {
            street: state.street(),
            board,
            actor: state.current_actor(),
            pot: state.pot(),
            button_stack: button.stack,
            big_blind_stack: big_blind.stack,
            button_total_contribution: button.total_contribution,
            big_blind_total_contribution: big_blind.total_contribution,
            button_street_contribution: button.street_contribution,
            big_blind_street_contribution: big_blind.street_contribution,
        }
    }
}

impl HoldemInfoSetKey {
    pub fn from_state(
        player: Player,
        hole_cards: HoleCards,
        state: &HoldemHandState,
        public_history: Vec<AbstractAction>,
    ) -> (r: Self)
        requires
            state.wf(),
        ensures
            r.player == player,
            r.hole_cards == hole_cards,
            r.public_state.describes(state@),
            r.public_history@ == public_history@,
    {
        HoldemInfoSetKey {
            player,
            hole_cards,
            public_state: PublicStateKey::from_state(state),
            public_history,
        }
    }
}

// ---------------------------------------------------------------------------
// Candidate totals: distinct and in increasing order.
// ---------------------------------------------------------------------------

/// Every total is smaller than the next.
pub open spec fn strictly_ascending(t: Seq<u64>) -> bool {
    forall|i: int, j: int| 0 <= i < j < t.len() ==> #[trigger] t[i] < #[trigger] t[j]
}

/// The distinct values of `s` in increasing order.
pub open spec fn ascending_distinct(s: Seq<u64>) -> Seq<u64> {
    choose|t: Seq<u64>| strictly_ascending(t) && t.to_set() == s.to_set()
}

/// Two increasing sequences with the same values are the same sequence.
pub proof fn lemma_ascending_unique(a: Seq<u64>, b: Seq<u64>)
    requires
        strictly_ascending(a),
        strictly_ascending(b),
        a.to_set() == b.to_set(),
    ensures
        a == b,
    decreases a.len() + b.len(),
{
    if a.len() == 0 || b.len() == 0 {
        if a.len() > 0 {
            assert(a.to_set().contains(a[0]));
        }
        if b.len() > 0 {
            assert(b.to_set().contains(b[0]));
        }
        assert(a =~= b);
    } else {
        assert(a.to_set().contains(a[0]));
        assert(b.to_set().contains(a[0]));
        let j = choose|j: int| 0 <= j < b.len() && b[j] == a[0];
        assert(b[0] <= b[j]);
        assert(b.to_set().contains(b[0]));
        assert(a.to_set().contains(b[0]));
        let i = choose|i: int| 0 <= i < a.len() && a[i] == b[0];
        assert(a[0] <= a[i]);
        assert(a[0] == b[0]);
        let a1 = a.drop_first();
        let b1 = b.drop_first();
        assert forall|x: u64| a1.to_set().contains(x) <==> b1.to_set().contains(x) by {
            if a1.to_set().contains(x) {
                let k = choose|k: int| 0 <= k < a1.len() && a1[k] == x;
                assert(a[k + 1] == x);
                assert(a.to_set().contains(x));
                let m = choose|m: int| 0 <= m < b.len() && b[m] == x;
                if m == 0 {
                    assert(a[0] < a[k + 1]);
                } else {
                    assert(b1[m - 1] == x);
                }
            }
            if b1.to_set().contains(x) {
                let k = choose|k: int| 0 <= k < b1.len() && b1[k] == x;
                assert(b[k + 1] == x);
                assert(b.to_set().contains(x));
                let m = choose|m: int| 0 <= m < a.len() && a[m] == x;
                if m == 0 {
                    assert(b[0] < b[k + 1]);
                } else {
                    assert(a1[m - 1] == x);
                }
            }
        }
        assert(a1.to_set() =~= b1.to_set());
        assert forall|i: int, j: int| 0 <= i < j < a1.len() implies #[trigger] a1[i] < #[trigger] a1[j] by {
            assert(a[i + 1] < a[j + 1]);
        }
        assert forall|i: int, j: int| 0 <= i < j < b1.len() implies #[trigger] b1[i] < #[trigger] b1[j] by {
            assert(b[i + 1] < b[j + 1]);
        }
        lemma_ascending_unique(a1, b1);
        assert(a =~= b) by {
            assert forall|k: int| 0 <= k < a.len() implies a[k] == b[k] by {
                if k > 0 {
                    assert(a[k] == a1[k - 1]);
                    assert(b[k] == b1[k - 1]);
                }
            }
        }
    }
}

/// An increasing sequence with the values of `s` is `ascending_distinct(s)`.
proof fn lemma_is_ascending_distinct(t: Seq<u64>, s: Seq<u64>)
    requires
        strictly_ascending(t),
        t.to_set() == s.to_set(),
    ensures
        ascending_distinct(s) == t,
{
    let c = ascending_distinct(s);
    assert(strictly_ascending(c) && c.to_set() == s.to_set());
    lemma_ascending_unique(c, t);
}

/// Adds `x` to an increasing list unless it is already there.
fn insert_ascending(v: &mut Vec<u64>, x: u64)
    requires
        strictly_ascending(old(v)@),
    ensures
        strictly_ascending(final(v)@),
        final(v)@.to_set() == old(v)@.to_set().insert(x),
{
    let mut pos: usize = 0;
    while pos < v.len() && v[pos] < x
        invariant
            pos <= v@.len(),
            v@ == old(v)@,
            strictly_ascending(v@),
            forall|k: int| 0 <= k < pos ==> #[trigger] v@[k] < x,
        decreases v@.len() - pos,
    {
        pos = pos + 1;
    }
    if pos < v.len() && v[pos] == x {
        proof {
            assert(v@.to_set().contains(x));
            assert(v@.to_set().insert(x) =~= v@.to_set());
        }
        return;
    }
    let ghost before = v@;
    v.insert(pos, x);
    proof {
        assert(v@ == before.insert(pos as int, x));
        assert forall|i: int, j: int| 0 <= i < j < v@.len() implies #[trigger] v@[i] < #[trigger] v@[j] by {
            if pos < before.len() {
                assert(before[pos as int] > x);
            }
            if i < pos && j > pos {
                assert(v@[j] == before[j - 1]);
            }
        }
        assert forall|y: u64| #[trigger] v@.to_set().contains(y) <==> before.to_set().insert(
            x,
        ).contains(y) by {
            if y == x {
                assert(v@[pos as int] == x);
            }
            if v@.to_set().contains(y) {
                let k = choose|k: int| 0 <= k < v@.len() && v@[k] == y;
                if k < pos {
                    assert(before[k] == y);
                } else if k > pos {
                    assert(before[k - 1] == y);
                }
            }
            if before.to_set().contains(y) {
                let k = choose|k: int| 0 <= k < before.len() && before[k] == y;
                if k < pos {
                    assert(v@[k] == y);
                } else {
                    assert(v@[k + 1] == y);
                }
            }
        }
        assert(v@.to_set() =~= before.to_set().insert(x));
    }
}

/// The distinct values of `s` that lie in `range`, in increasing order.
fn ascending_in_range(s: &Vec<u64>, range: WagerRange) -> (r: Vec<u64>)
    ensures
        r@ == ascending_distinct(s@.filter(|t: u64| range.spec_contains(t))),
{
    let mut out: Vec<u64> = Vec::new();
    let mut i: usize = 0;
    while i < s.len()
        invariant
            i <= s@.len(),
            strictly_ascending(out@),
            out@.to_set() == s@.take(i as int).filter(|t: u64| range.spec_contains(t)).to_set(),
        decreases s@.len() - i,
    {
        let t = s[i];
        let ghost prev = s@.take(i as int).filter(|t: u64| range.spec_contains(t));
        proof {
            reveal_with_fuel(Seq::<_>::filter, 1);
            assert(s@.take(i + 1).drop_last() =~= s@.take(i as int));
        }
        if range.contains(t) {
            insert_ascending(&mut out, t);
            proof {
                assert(s@.take(i + 1).filter(|t: u64| range.spec_contains(t)) == prev.push(t));
                assert(prev.push(t).to_set() =~= prev.to_set().insert(t)) by {
                    assert forall|y: u64| prev.push(t).to_set().contains(y) <==> prev.to_set().insert(
                        t,
                    ).contains(y) by {
                        if prev.push(t).to_set().contains(y) {
                            let k = choose|k: int| 0 <= k < prev.len() + 1 && prev.push(t)[k] == y;
                            if k < prev.len() {
                                assert(prev[k] == y);
                            }
                        }
                        if prev.to_set().contains(y) && y != t {
                            let k = choose|k: int| 0 <= k < prev.len() && prev[k] == y;
                            assert(prev.push(t)[k] == y);
                        }
                        if y == t {
                            assert(prev.push(t)[prev.len() as int] == t);
                        }
                    }
                }
            }
        } else {
            proof {
                assert(s@.take(i + 1).filter(|t: u64| range.spec_contains(t)) == prev);
            }
        }
        i = i + 1;
    }
    proof {
        assert(s@.take(i as int) =~= s@);
        lemma_is_ascending_distinct(out@, s@.filter(|t: u64| range.spec_contains(t)));
    }
    out
}

// ---------------------------------------------------------------------------
// The abstract actions of a state.
// ---------------------------------------------------------------------------

/// `base` scaled by `bps` basis points and rounded up; the product saturates at the
/// largest 64-bit value before the division.
pub open spec fn spec_scale_bps(base: Chips, bps: u32) -> Chips {
    if base == 0 || bps == 0 {
        0
    } else {
        let product = if base * bps > u64::MAX {
            u64::MAX as int
        } else {
            base * bps
        };
        ((product + 9999) / 10000) as u64
    }
}

/// The street total an opening size asks for.
pub open spec fn spec_opening_total(m: HandModel, size: OpeningSize) -> Chips {
    match size {
        OpeningSize::BigBlindMultipleBps(bps) => spec_scale_bps(m.config.big_blind, bps),
        OpeningSize::PotFractionBps(bps) => spec_scale_bps(m.pot() as u64, bps),
    }
}

/// What the player to act must put in to call (zero when nothing is owed).
pub open spec fn spec_to_call(legal: LegalActions) -> Chips {
    match legal.call_amount {
        Some(amount) => amount,
        None => 0,
    }
}

/// The bet that a raise by `p` raises: the larger of what `p` has in after calling
/// and what the opponent has in.
pub open spec fn spec_bet_to_raise(m: HandModel, p: Player, legal: LegalActions) -> int {
    let after_call = m.seat(p).street_contribution + spec_to_call(legal);
    let other = m.seat(p.spec_opponent()).street_contribution;
    if after_call >= other {
        after_call
    } else {
        other as int
    }
}

/// The street total a raise size asks for.
pub open spec fn spec_raise_total(m: HandModel, p: Player, legal: LegalActions, size: RaiseSize) -> Chips {
    let bet = spec_bet_to_raise(m, p, legal);
    match size {
        RaiseSize::CurrentBetMultipleBps(bps) => spec_scale_bps(bet as u64, bps),
        RaiseSize::PotFractionAfterCallBps(bps) => (bet + spec_scale_bps(
            (m.pot() + spec_to_call(legal)) as u64,
            bps,
        )) as u64,
    }
}

/// The button's first decision preflop with only the blinds in: raises there are
/// sized like opening bets too.
pub open spec fn is_opening_raise_spot(m: HandModel, p: Player) -> bool {
    &&& m.street == Street::Preflop
    &&& m.board.len() == 0
    &&& m.actor() == Some(Player::Button)
    &&& m.seat(p).street_contribution == m.config.small_blind
    &&& m.seat(p.spec_opponent()).street_contribution == m.config.big_blind
    &&& m.pot() == m.config.small_blind + m.config.big_blind
}

/// The street total of going all in.
pub open spec fn spec_all_in_total(m: HandModel, p: Player) -> Chips {
    (m.seat(p).street_contribution + m.seat(p).stack) as u64
}

/// A wager to `total`: all in when it is all the chips and the profile shows all-ins,
/// else a bet or a raise.
pub open spec fn wager_action(total: Chips, all_in_total: Chips, include_all_in: bool, raise: bool) -> AbstractAction {
    if include_all_in && total == all_in_total {
        AbstractAction::AllIn(total)
    } else if raise {
        AbstractAction::RaiseTo(total)
    } else {
        AbstractAction::BetTo(total)
    }
}

pub open spec fn wager_actions(totals: Seq<u64>, all_in_total: Chips, include_all_in: bool, raise: bool) -> Seq<
    AbstractAction,
> {
    totals.map_values(|t: u64| wager_action(t, all_in_total, include_all_in, raise))
}

/// Fold, check and call, those that are legal, in that order.
pub open spec fn passive_actions(legal: LegalActions) -> Seq<AbstractAction> {
    (if legal.fold {
        seq![AbstractAction::Fold]
    } else {
        Seq::empty()
    }) + (if legal.check {
        seq![AbstractAction::Check]
    } else {
        Seq::empty()
    }) + (if legal.call_amount is Some {
        seq![AbstractAction::Call]
    } else {
        Seq::empty()
    })
}

/// The opening totals of a street's sizes.
pub open spec fn opening_totals(m: HandModel, sizes: Seq<OpeningSize>) -> Seq<u64> {
    sizes.map_values(|size: OpeningSize| spec_opening_total(m, size))
}

/// The passive actions, then the bets that the street's opening sizes allow.
pub open spec fn bet_stage(m: HandModel, p: Player, legal: LegalActions, sp: StreetProfile) -> Seq<
    AbstractAction,
> {
    let base = passive_actions(legal);
    let all_in = spec_all_in_total(m, p);
    match legal.bet_range {
        None => base,
        Some(range) => {
            let totals = ascending_distinct(
                opening_totals(m, sp.opening_sizes@).filter(|t: u64| range.spec_contains(t)),
            );
            let with_bets = base + wager_actions(totals, all_in, sp.include_all_in, false);
            if sp.include_all_in && legal.all_in_to == Some(all_in) && !with_bets.contains(
                AbstractAction::AllIn(all_in),
            ) {
                with_bets.push(AbstractAction::AllIn(all_in))
            } else {
                with_bets
            }
        },
    }
}

/// The raise totals that a street's sizes ask for (opening sizes too in the
/// button's first preflop decision).
pub open spec fn raise_candidates(m: HandModel, p: Player, legal: LegalActions, sp: StreetProfile) -> Seq<
    u64,
> {
    (if is_opening_raise_spot(m, p) {
        opening_totals(m, sp.opening_sizes@)
    } else {
        Seq::empty()
    }) + sp.raise_sizes@.map_values(|size: RaiseSize| spec_raise_total(m, p, legal, size))
}

/// Whether going all in is legal, as a short all-in or as the largest bet or raise.
pub open spec fn all_in_is_legal(legal: LegalActions, all_in: Chips) -> bool {
    ||| legal.all_in_to == Some(all_in)
    ||| legal.bet_range matches Some(range) && range.max_total == all_in
    ||| legal.raise_range matches Some(range) && range.max_total == all_in
}

/// The abstract actions of the player to act: fold, check and call where legal; the
/// bets, then the raises, that the street's sizes allow, each total once and in
/// increasing order; and going all in where the profile shows all-ins and it is legal.
pub open spec fn spec_abstract_actions(m: HandModel, profile: AbstractionProfile) -> Result<
    Seq<AbstractAction>,
    HoldemStateError,
> {
    match m.actor() {
        None => Err(HoldemStateError::ActionNotAllowedInCurrentPhase),
        Some(p) => {
            let legal = m.legal(p);
            let sp = profile.street_profile(m.street);
            let all_in = spec_all_in_total(m, p);
            let bets = bet_stage(m, p, legal, sp);
            let raises = match legal.raise_range {
                None => bets,
                Some(range) => bets + wager_actions(
                    ascending_distinct(
                        raise_candidates(m, p, legal, sp).filter(|t: u64| range.spec_contains(t)),
                    ),
                    all_in,
                    sp.include_all_in,
                    true,
                ),
            };
            if sp.include_all_in && all_in_is_legal(legal, all_in) && !raises.contains(
                AbstractAction::AllIn(all_in),
            ) {
                Ok(raises.push(AbstractAction::AllIn(all_in)))
            } else {
                Ok(raises)
            }
        },
    }
}

fn scale_bps(base: Chips, bps: u32) -> (r: Chips)
    ensures
        r == spec_scale_bps(base, bps),
{
    if base == 0 || bps == 0 {
        return 0;
    }
    let product: u64 = match base.checked_mul(bps as u64) {
        Some(p) => p,
        None => u64::MAX,
    };
    let q = product / 10000;
    let r = if product % 10000 != 0 {
        q + 1
    } else {
        q
    };
    assert(r == (product + 9999) / 10000) by (nonlinear_arith)
        requires
            q == product / 10000,
            product % 10000 != 0 ==> r == q + 1,
            product % 10000 == 0 ==> r == q,
    ;
    r
}

fn opening_total(state: &HoldemHandState, size: OpeningSize) -> (r: Chips)
    requires
        state.wf(),
    ensures
        r == spec_opening_total(state@, size),
{
    match size {
        OpeningSize::BigBlindMultipleBps(bps) => scale_bps(state.config().big_blind, bps),
        OpeningSize::PotFractionBps(bps) => scale_bps(state.pot(), bps),
    }
}

fn raise_total(state: &HoldemHandState, actor: Player, legal: LegalActions, size: RaiseSize) -> (r: Chips)
    requires
        state.wf(),
        state@.actor() == Some(actor),
        legal == state@.legal(actor),
    ensures
        r == spec_raise_total(state@, actor, legal, size),
{
    let actor_seat = state.player(actor);
    let other_seat = state.player(actor.opponent());
    let to_call = match legal.call_amount {
        Some(amount) => amount,
        None => 0,
    };
    let after_call = actor_seat.street_contribution + to_call;
    let bet = if after_call >= other_seat.street_contribution {
        after_call
    } else {
        other_seat.street_contribution
    };
    match size {
        RaiseSize::CurrentBetMultipleBps(bps) => scale_bps(bet, bps),
        RaiseSize::PotFractionAfterCallBps(bps) => {
            let pot_after_call = state.pot() + to_call;
            let extra = scale_bps(pot_after_call, bps);
            assert(extra <= u64::MAX / 10000 + 1) by (nonlinear_arith)
                requires
                    extra == spec_scale_bps(pot_after_call, bps),
            ;
            bet + extra
        },
    }
}

fn push_opening_totals(state: &HoldemHandState, sizes: &Vec<OpeningSize>, out: &mut Vec<u64>)
    requires
        state.wf(),
    ensures
        final(out)@ == old(out)@ + opening_totals(state@, sizes@),
{
    let ghost start = out@;
    let mut i: usize = 0;
    while i < sizes.len()
        invariant
            state.wf(),
            i <= sizes@.len(),
            out@ == start + opening_totals(state@, sizes@.take(i as int)),
        decreases sizes@.len() - i,
    {
        let t = opening_total(state, sizes[i]);
        out.push(t);
        proof {
            assert(opening_totals(state@, sizes@.take(i + 1)) =~= opening_totals(
                state@,
                sizes@.take(i as int),
            ).push(t));
        }
        i = i + 1;
    }
    proof {
        assert(sizes@.take(i as int) =~= sizes@);
    }
}

fn push_raise_totals(
    state: &HoldemHandState,
    actor: Player,
    legal: LegalActions,
    sizes: &Vec<RaiseSize>,
    out: &mut Vec<u64>,
)
    requires
        state.wf(),
        state@.actor() == Some(actor),
        legal == state@.legal(actor),
    ensures
        final(out)@ == old(out)@ + sizes@.map_values(
            |size: RaiseSize| spec_raise_total(state@, actor, legal, size),
        ),
{
    let ghost start = out@;
    let mut i: usize = 0;
    while i < sizes.len()
        invariant
            state.wf(),
            state@.actor() == Some(actor),
            legal == state@.legal(actor),
            i <= sizes@.len(),
            out@ == start + sizes@.take(i as int).map_values(
                |size: RaiseSize| spec_raise_total(state@, actor, legal, size),
            ),
        decreases sizes@.len() - i,
    {
        let t = raise_total(state, actor, legal, sizes[i]);
        out.push(t);
        proof {
            assert(sizes@.take(i + 1).map_values(
                |size: RaiseSize| spec_raise_total(state@, actor, legal, size),
            ) =~= sizes@.take(i as int).map_values(
                |size: RaiseSize| spec_raise_total(state@, actor, legal, size),
            ).push(t));
        }
        i = i + 1;
    }
    proof {
        assert(sizes@.take(i as int) =~= sizes@);
    }
}

fn push_wager_actions(
    actions: &mut Vec<AbstractAction>,
    totals: &Vec<u64>,
    all_in: Chips,
    include_all_in: bool,
    raise: bool,
)
    ensures
        final(actions)@ == old(actions)@ + wager_actions(totals@, all_in, include_all_in, raise),
{
    let ghost start = actions@;
    let mut i: usize = 0;
    while i < totals.len()
        invariant
            i <= totals@.len(),
            actions@ == start + wager_actions(totals@.take(i as int), all_in, include_all_in, raise),
        decreases totals@.len() - i,
    {
        let t = totals[i];
        let a = if include_all_in && t == all_in {
            AbstractAction::AllIn(t)
        } else if raise {
            AbstractAction::RaiseTo(t)
        } else {
            AbstractAction::BetTo(t)
        };
        actions.push(a);
        proof {
            assert(wager_actions(totals@.take(i + 1), all_in, include_all_in, raise) =~= wager_actions(
                totals@.take(i as int),
                all_in,
                include_all_in,
                raise,
            ).push(a));
        }
        i = i + 1;
    }
    proof {
        assert(totals@.take(i as int) =~= totals@);
    }
}

fn contains_action(actions: &Vec<AbstractAction>, action: AbstractAction) -> (r: bool)
    ensures
        r == actions@.contains(action),
{
    let mut i: usize = 0;
    while i < actions.len()
        invariant
            i <= actions@.len(),
            forall|k: int| 0 <= k < i ==> actions@[k] != action,
        decreases actions@.len() - i,
    {
        if actions[i] == action {
            return true;
        }
        i = i + 1;
    }
    false
}

/// The abstract actions of the player to act (see `spec_abstract_actions`).
pub fn abstract_actions(state: &HoldemHandState, profile: &AbstractionProfile) -> (r: Result<
    Vec<AbstractAction>,
    HoldemStateError,
>)
    requires
        state.wf(),
    ensures
        match spec_abstract_actions(state@, *profile) {
            Ok(actions) => r matches Ok(v) && v@ == actions,
            Err(e) => r == Err::<Vec<AbstractAction>, HoldemStateError>(e),
        },
{
    let legal = state.legal_actions()?;
    let actor = match state.current_actor() {
        Some(actor) => actor,
        None => {
            return Err(HoldemStateError::ActionNotAllowedInCurrentPhase);
        },
    };
    let street_profile = profile.for_street(state.street());
    let mut actions: Vec<AbstractAction> = Vec::new();
    if legal.fold {
        actions.push(AbstractAction::Fold);
    }
    if legal.check {
        actions.push(AbstractAction::Check);
    }
    if legal.call_amount.is_some() {
        actions.push(AbstractAction::Call);
    }
    proof {
        assert(actions@ =~= passive_actions(legal));
    }
    let actor_seat = state.player(actor);
    let all_in_total = actor_seat.street_contribution + actor_seat.stack;

    if let Some(range) = legal.bet_range {
        let mut candidates: Vec<u64> = Vec::new();
        push_opening_totals(state, &street_profile.opening_sizes, &mut candidates);
        proof {
            assert(candidates@ =~= opening_totals(state@, street_profile.opening_sizes@));
        }
        let totals = ascending_in_range(&candidates, range);
        push_wager_actions(&mut actions, &totals, all_in_total, street_profile.include_all_in, false);
        if street_profile.include_all_in && legal.all_in_to == Some(all_in_total) && !contains_action(
            &actions,
            AbstractAction::AllIn(all_in_total),
        ) {
            actions.push(AbstractAction::AllIn(all_in_total));
        }
    }
    proof {
        assert(actions@ == bet_stage(state@, actor, legal, *street_profile));
    }

    if let Some(range) = legal.raise_range {
        let mut candidates: Vec<u64> = Vec::new();
        if is_preflop_opening_raise_spot(state, actor) {
            push_opening_totals(state, &street_profile.opening_sizes, &mut candidates);
        }
        push_raise_totals(state, actor, legal, &street_profile.raise_sizes, &mut candidates);
        proof {
            assert(candidates@ =~= raise_candidates(state@, actor, legal, *street_profile));
        }
        let totals = ascending_in_range(&candidates, range);
        push_wager_actions(&mut actions, &totals, all_in_total, street_profile.include_all_in, true);
    }
    maybe_append_live_all_in_action(&mut actions, all_in_total, legal, street_profile);
    Ok(actions)
}

fn is_preflop_opening_raise_spot(state: &HoldemHandState, actor: Player) -> (r: bool)
    requires
        state.wf(),
    ensures
        r == is_opening_raise_spot(state@, actor),
{
    let config = state.config();
    let actor_seat = state.player(actor);
    let other_seat = state.player(actor.opponent());
    state.street() == Street::Preflop && state.board().is_empty() && state.current_actor() == Some(
        Player::Button,
    ) && actor_seat.street_contribution == config.small_blind && other_seat.street_contribution
        == config.big_blind && state.pot() == config.small_blind + config.big_blind
}

fn maybe_append_live_all_in_action(
    actions: &mut Vec<AbstractAction>,
    all_in_total: Chips,
    legal: LegalActions,
    street_profile: &StreetProfile,
)
    ensures
        final(actions)@ == if street_profile.include_all_in && all_in_is_legal(legal, all_in_total)
            && !old(actions)@.contains(AbstractAction::AllIn(all_in_total)) {
            old(actions)@.push(AbstractAction::AllIn(all_in_total))
        } else {
            old(actions)@
        },
{
    if !street_profile.include_all_in {
        return;
    }
    let by_bet = match legal.bet_range {
        Some(range) => range.max_total == all_in_total,
        None => false,
    };
    let by_raise = match legal.raise_range {
        Some(range) => range.max_total == all_in_total,
        None => false,
    };
    let legal_all_in = legal.all_in_to == Some(all_in_total) || by_bet || by_raise;
    if legal_all_in && !contains_action(actions, AbstractAction::AllIn(all_in_total)) {
        actions.push(AbstractAction::AllIn(all_in_total));
    }
}

// ---------------------------------------------------------------------------
// Laws of the abstraction.
// ---------------------------------------------------------------------------

/// `x` added to an increasing list at its place, unless it is already there.
spec fn insert_sorted(t: Seq<u64>, x: u64) -> Seq<u64>
    decreases t.len(),
{
    if t.len() == 0 {
        seq![x]
    } else if x < t[0] {
        seq![x] + t
    } else if x == t[0] {
        t
    } else {
        seq![t[0]] + insert_sorted(t.drop_first(), x)
    }
}

proof fn lemma_insert_sorted(t: Seq<u64>, x: u64)
    requires
        strictly_ascending(t),
    ensures
        strictly_ascending(insert_sorted(t, x)),
        insert_sorted(t, x).to_set() == t.to_set().insert(x),
    decreases t.len(),
{
    let r = insert_sorted(t, x);
    if t.len() == 0 {
        assert(r.to_set() =~= t.to_set().insert(x)) by {
            assert(r[0] == x);
        }
    } else if x < t[0] {
        assert forall|i: int, j: int| 0 <= i < j < r.len() implies #[trigger] r[i] < #[trigger] r[j] by {
            if i > 0 {
                assert(r[i] == t[i - 1] && r[j] == t[j - 1]);
            } else {
                assert(r[j] == t[j - 1]);
                assert(t[0] <= t[j - 1]);
            }
        }
        assert forall|y: u64| #[trigger] r.to_set().contains(y) <==> t.to_set().insert(x).contains(y) by {
            if r.to_set().contains(y) {
                let k = choose|k: int| 0 <= k < r.len() && r[k] == y;
                if k > 0 {
                    assert(t[k - 1] == y);
                }
            }
            if t.to_set().contains(y) {
                let k = choose|k: int| 0 <= k < t.len() && t[k] == y;
                assert(r[k + 1] == y);
            }
            if y == x {
                assert(r[0] == x);
            }
        }
        assert(r.to_set() =~= t.to_set().insert(x));
    } else if x == t[0] {
        assert(t.to_set().contains(x));
        assert(t.to_set().insert(x) =~= t.to_set());
    } else {
        let d = t.drop_first();
        assert forall|i: int, j: int| 0 <= i < j < d.len() implies #[trigger] d[i] < #[trigger] d[j] by {
            assert(t[i + 1] < t[j + 1]);
        }
        lemma_insert_sorted(d, x);
        let q = insert_sorted(d, x);
        assert forall|k: int| 0 <= k < q.len() implies t[0] < #[trigger] q[k] by {
            assert(q.to_set().contains(q[k]));
            if q[k] != x {
                assert(d.to_set().contains(q[k]));
                let m = choose|m: int| 0 <= m < d.len() && d[m] == q[k];
                assert(t[0] < t[m + 1]);
            }
        }
        assert forall|i: int, j: int| 0 <= i < j < r.len() implies #[trigger] r[i] < #[trigger] r[j] by {
            assert(r[j] == q[j - 1]);
            if i > 0 {
                assert(r[i] == q[i - 1]);
            }
        }
        assert forall|y: u64| #[trigger] r.to_set().contains(y) <==> t.to_set().insert(x).contains(y) by {
            if r.to_set().contains(y) {
                let k = choose|k: int| 0 <= k < r.len() && r[k] == y;
                if k > 0 {
                    assert(q[k - 1] == y);
                    assert(q.to_set().contains(y));
                    if y != x {
                        assert(d.to_set().contains(y));
                        let m = choose|m: int| 0 <= m < d.len() && d[m] == y;
                        assert(t[m + 1] == y);
                    }
                }
            }
            if t.to_set().contains(y) {
                let k = choose|k: int| 0 <= k < t.len() && t[k] == y;
                if k == 0 {
                    assert(r[0] == y);
                } else {
                    assert(d[k - 1] == y);
                    assert(d.to_set().contains(y));
                    assert(q.to_set().contains(y));
                    let m = choose|m: int| 0 <= m < q.len() && q[m] == y;
                    assert(r[m + 1] == y);
                }
            }
            if y == x {
                assert(q.to_set().contains(x));
                let m = choose|m: int| 0 <= m < q.len() && q[m] == x;
                assert(r[m + 1] == x);
            }
        }
        assert(r.to_set() =~= t.to_set().insert(x));
    }
}

/// Every list of totals has an increasing list with its values.
proof fn lemma_ascending_exists(s: Seq<u64>) -> (t: Seq<u64>)
    ensures
        strictly_ascending(t),
        t.to_set() == s.to_set(),
    decreases s.len(),
{
    if s.len() == 0 {
        assert(Seq::<u64>::empty().to_set() =~= s.to_set());
        Seq::<u64>::empty()
    } else {
        let t0 = lemma_ascending_exists(s.drop_last());
        lemma_insert_sorted(t0, s.last());
        assert(s.drop_last().push(s.last()) =~= s);
        assert(s.to_set() =~= s.drop_last().to_set().insert(s.last())) by {
            assert forall|y: u64| #[trigger] s.to_set().contains(y) <==> s.drop_last().to_set().insert(
                s.last(),
            ).contains(y) by {
                if s.to_set().contains(y) {
                    let k = choose|k: int| 0 <= k < s.len() && s[k] == y;
                    if k < s.len() - 1 {
                        assert(s.drop_last()[k] == y);
                    }
                }
                if s.drop_last().to_set().contains(y) {
                    let k = choose|k: int| 0 <= k < s.len() - 1 && s.drop_last()[k] == y;
                    assert(s[k] == y);
                }
                if y == s.last() {
                    assert(s[s.len() - 1] == y);
                }
            }
        }
        insert_sorted(t0, s.last())
    }
}

/// `ascending_distinct(s)` is increasing and holds exactly the values of `s`.
pub proof fn lemma_ascending_distinct(s: Seq<u64>)
    ensures
        strictly_ascending(ascending_distinct(s)),
        ascending_distinct(s).to_set() == s.to_set(),
{
    let t = lemma_ascending_exists(s);
    lemma_is_ascending_distinct(t, s);
}

/// The hand accepts the exact action that an abstract action stands for.
pub open spec fn accepted(m: HandModel, a: AbstractAction) -> bool {
    m.apply(a.spec_to_player_action()).1 is Ok
}

/// Every value of the increasing distinct totals in `range` lies in `range`.
proof fn lemma_totals_in_range(s: Seq<u64>, range: WagerRange, i: int)
    requires
        0 <= i < ascending_distinct(s.filter(|t: u64| range.spec_contains(t))).len(),
    ensures
        range.spec_contains(ascending_distinct(s.filter(|t: u64| range.spec_contains(t)))[i]),
{
    let f = s.filter(|t: u64| range.spec_contains(t));
    let t = ascending_distinct(f);
    lemma_ascending_distinct(f);
    assert(t.to_set().contains(t[i]));
    assert(f.to_set().contains(t[i]));
    let k = choose|k: int| 0 <= k < f.len() && f[k] == t[i];
    s.lemma_filter_pred(|t: u64| range.spec_contains(t), k);
}

/// Every action in the abstraction of a state is one the hand accepts.
pub proof fn lemma_abstract_actions_are_legal(m: HandModel, profile: AbstractionProfile, k: int)
    requires
        m.wf(),
        spec_abstract_actions(m, profile) is Ok,
        0 <= k < spec_abstract_actions(m, profile)->Ok_0.len(),
    ensures
        accepted(m, spec_abstract_actions(m, profile)->Ok_0[k]),
{
    let p = m.actor()->0;
    let legal = m.legal(p);
    let sp = profile.street_profile(m.street);
    let all_in = spec_all_in_total(m, p);
    let base = passive_actions(legal);
    let bets = bet_stage(m, p, legal, sp);
    let s = spec_abstract_actions(m, profile)->Ok_0;
    let a = s[k];
    crate::holdem::lemma_actions_fail_only_by_refusal(m, a.spec_to_player_action());
    // Where the action comes from.
    let raises = match legal.raise_range {
        None => bets,
        Some(range) => bets + wager_actions(
            ascending_distinct(
                raise_candidates(m, p, legal, sp).filter(|t: u64| range.spec_contains(t)),
            ),
            all_in,
            sp.include_all_in,
            true,
        ),
    };
    if k >= raises.len() {
        // The live all-in appended last.
        assert(a == AbstractAction::AllIn(all_in));
    } else if k >= bets.len() {
        let range = legal.raise_range->0;
        let totals = ascending_distinct(
            raise_candidates(m, p, legal, sp).filter(|t: u64| range.spec_contains(t)),
        );
        let i = k - bets.len();
        assert(a == raises[k]);
        assert(raises[k] == wager_actions(totals, all_in, sp.include_all_in, true)[i]);
        lemma_totals_in_range(raise_candidates(m, p, legal, sp), range, i);
    } else {
        assert(a == bets[k]);
        match legal.bet_range {
            None => {
                assert(a == base[k]);
            },
            Some(range) => {
                let totals = ascending_distinct(
                    opening_totals(m, sp.opening_sizes@).filter(|t: u64| range.spec_contains(t)),
                );
                let with_bets = base + wager_actions(totals, all_in, sp.include_all_in, false);
                if k >= with_bets.len() {
                    assert(a == AbstractAction::AllIn(all_in));
                } else if k >= base.len() {
                    let i = k - base.len();
                    assert(a == wager_actions(totals, all_in, sp.include_all_in, false)[i]);
                    lemma_totals_in_range(opening_totals(m, sp.opening_sizes@), range, i);
                } else {
                    assert(a == base[k]);
                }
            },
        }
    }
}

/// Whether an action is a wager (a bet, a raise or all in).
pub open spec fn is_wager(a: AbstractAction) -> bool {
    a is BetTo || a is RaiseTo || a is AllIn
}

proof fn lemma_wager_actions_distinct(totals: Seq<u64>, all_in: Chips, include_all_in: bool, raise: bool)
    requires
        strictly_ascending(totals),
    ensures
        wager_actions(totals, all_in, include_all_in, raise).no_duplicates(),
        forall|i: int|
            0 <= i < totals.len() ==> is_wager(
                #[trigger] wager_actions(totals, all_in, include_all_in, raise)[i],
            ),
{
    let w = wager_actions(totals, all_in, include_all_in, raise);
    assert forall|i: int, j: int| 0 <= i < w.len() && 0 <= j < w.len() && i != j implies w[i]
        != w[j] by {
        if i < j {
            assert(totals[i] < totals[j]);
        } else {
            assert(totals[j] < totals[i]);
        }
    }
}

proof fn lemma_concat_distinct(a: Seq<AbstractAction>, b: Seq<AbstractAction>)
    requires
        a.no_duplicates(),
        b.no_duplicates(),
        forall|i: int, j: int| 0 <= i < a.len() && 0 <= j < b.len() ==> a[i] != b[j],
    ensures
        (a + b).no_duplicates(),
{
    let c = a + b;
    assert forall|i: int, j: int| 0 <= i < c.len() && 0 <= j < c.len() && i != j implies c[i]
        != c[j] by {
        if i < a.len() && j >= a.len() {
            assert(c[j] == b[j - a.len()]);
        } else if j < a.len() && i >= a.len() {
            assert(c[i] == b[i - a.len()]);
        } else if i >= a.len() && j >= a.len() {
            assert(c[i] == b[i - a.len()] && c[j] == b[j - a.len()]);
        }
    }
}

proof fn lemma_push_distinct(a: Seq<AbstractAction>, x: AbstractAction)
    requires
        a.no_duplicates(),
        !a.contains(x),
    ensures
        a.push(x).no_duplicates(),
{
    let c = a.push(x);
    assert forall|i: int, j: int| 0 <= i < c.len() && 0 <= j < c.len() && i != j implies c[i]
        != c[j] by {
        if i == a.len() {
            assert(!a.contains(x));
            assert(c[j] == a[j]);
        } else if j == a.len() {
            assert(c[i] == a[i]);
        }
    }
}

/// An all-in of the abstraction always names all the chips the player to act can put
/// in this street: its street contribution and its stack.
pub proof fn lemma_abstract_all_in_total(m: HandModel, profile: AbstractionProfile, k: int)
    requires
        spec_abstract_actions(m, profile) is Ok,
        0 <= k < spec_abstract_actions(m, profile)->Ok_0.len(),
        spec_abstract_actions(m, profile)->Ok_0[k] is AllIn,
    ensures
        spec_abstract_actions(m, profile)->Ok_0[k]->AllIn_0 == spec_all_in_total(m, m.actor()->0),
{
    let p = m.actor()->0;
    let legal = m.legal(p);
    let sp = profile.street_profile(m.street);
    let all_in = spec_all_in_total(m, p);
    let base = passive_actions(legal);
    assert forall|i: int| 0 <= i < base.len() implies !(#[trigger] base[i] is AllIn) by {
        if legal.fold {
            if i == 0 {
            }
        }
    }
    let bets = bet_stage(m, p, legal, sp);
    assert forall|i: int| 0 <= i < bets.len() && (#[trigger] bets[i] is AllIn) implies bets[i]->AllIn_0
        == all_in by {
        match legal.bet_range {
            None => {},
            Some(range) => {
                let totals = ascending_distinct(
                    opening_totals(m, sp.opening_sizes@).filter(|t: u64| range.spec_contains(t)),
                );
                let with_bets = base + wager_actions(totals, all_in, sp.include_all_in, false);
                if i < with_bets.len() {
                    if i >= base.len() {
                        assert(with_bets[i] == wager_action(totals[i - base.len()], all_in, sp.include_all_in, false));
                    }
                }
            },
        }
    }
    let raises = match legal.raise_range {
        None => bets,
        Some(range) => bets + wager_actions(
            ascending_distinct(raise_candidates(m, p, legal, sp).filter(|t: u64| range.spec_contains(t))),
            all_in,
            sp.include_all_in,
            true,
        ),
    };
    assert forall|i: int| 0 <= i < raises.len() && (#[trigger] raises[i] is AllIn) implies raises[i]->AllIn_0
        == all_in by {
        match legal.raise_range {
            None => {},
            Some(range) => {
                let totals = ascending_distinct(
                    raise_candidates(m, p, legal, sp).filter(|t: u64| range.spec_contains(t)),
                );
                if i >= bets.len() {
                    assert(raises[i] == wager_action(totals[i - bets.len()], all_in, sp.include_all_in, true));
                } else {
                    assert(raises[i] == bets[i]);
                }
            },
        }
    }
}

/// The abstraction of a state offers each action once.
pub proof fn lemma_abstract_actions_distinct(m: HandModel, profile: AbstractionProfile)
    requires
        m.wf(),
        spec_abstract_actions(m, profile) is Ok,
    ensures
        spec_abstract_actions(m, profile)->Ok_0.no_duplicates(),
{
    let p = m.actor()->0;
    let legal = m.legal(p);
    let sp = profile.street_profile(m.street);
    let all_in = spec_all_in_total(m, p);
    let base = passive_actions(legal);
    let bets = bet_stage(m, p, legal, sp);
    assert(base.no_duplicates());
    assert(forall|i: int| 0 <= i < base.len() ==> !is_wager(#[trigger] base[i]));
    match legal.bet_range {
        None => {},
        Some(range) => {
            let totals = ascending_distinct(
                opening_totals(m, sp.opening_sizes@).filter(|t: u64| range.spec_contains(t)),
            );
            lemma_ascending_distinct(
                opening_totals(m, sp.opening_sizes@).filter(|t: u64| range.spec_contains(t)),
            );
            let w = wager_actions(totals, all_in, sp.include_all_in, false);
            lemma_wager_actions_distinct(totals, all_in, sp.include_all_in, false);
            assert forall|i: int, j: int| 0 <= i < base.len() && 0 <= j < w.len() implies base[i]
                != w[j] by {
                assert(!is_wager(base[i]));
                assert(is_wager(w[j]));
            }
            lemma_concat_distinct(base, w);
            let with_bets = base + w;
            if sp.include_all_in && legal.all_in_to == Some(all_in) && !with_bets.contains(
                AbstractAction::AllIn(all_in),
            ) {
                lemma_push_distinct(with_bets, AbstractAction::AllIn(all_in));
            }
        },
    }
    assert(bets.no_duplicates());
    let raises = match legal.raise_range {
        None => bets,
        Some(range) => bets + wager_actions(
            ascending_distinct(
                raise_candidates(m, p, legal, sp).filter(|t: u64| range.spec_contains(t)),
            ),
            all_in,
            sp.include_all_in,
            true,
        ),
    };
    match legal.raise_range {
        None => {},
        Some(range) => {
            assert(legal.bet_range is None);
            assert(bets == base);
            let f = raise_candidates(m, p, legal, sp).filter(|t: u64| range.spec_contains(t));
            let totals = ascending_distinct(f);
            lemma_ascending_distinct(f);
            let w = wager_actions(totals, all_in, sp.include_all_in, true);
            lemma_wager_actions_distinct(totals, all_in, sp.include_all_in, true);
            assert forall|i: int, j: int| 0 <= i < base.len() && 0 <= j < w.len() implies base[i]
                != w[j] by {
                assert(!is_wager(base[i]));
                assert(is_wager(w[j]));
            }
            lemma_concat_distinct(base, w);
        },
    }
    assert(raises.no_duplicates());
    if sp.include_all_in && all_in_is_legal(legal, all_in) && !raises.contains(
        AbstractAction::AllIn(all_in),
    ) {
        lemma_push_distinct(raises, AbstractAction::AllIn(all_in));
    }
}

// ---------------------------------------------------------------------------
// Stable keys.
// ---------------------------------------------------------------------------

/// The key of an abstract action in stored strategies.
pub open spec fn action_key_text(a: AbstractAction) -> Seq<char> {
    match a {
        AbstractAction::Fold => "fold"@,
        AbstractAction::Check => "check"@,
        AbstractAction::Call => "call"@,
        AbstractAction::BetTo(total) => "bet:"@ + decimal(total as nat),
        AbstractAction::RaiseTo(total) => "raise:"@ + decimal(total as nat),
        AbstractAction::AllIn(total) => "allin:"@ + decimal(total as nat),
    }
}

/// Writes the key of an abstract action.
pub fn stable_action_key(action: AbstractAction) -> (r: String)
    ensures
        r@ == action_key_text(action),
{
    let mut s = String::new();
    match action {
        AbstractAction::Fold => push_str(&mut s, "fold"),
        AbstractAction::Check => push_str(&mut s, "check"),
        AbstractAction::Call => push_str(&mut s, "call"),
        AbstractAction::BetTo(total) => {
            push_str(&mut s, "bet:");
            push_decimal(&mut s, total);
        },
        AbstractAction::RaiseTo(total) => {
            push_str(&mut s, "raise:");
            push_decimal(&mut s, total);
        },
        AbstractAction::AllIn(total) => {
            push_str(&mut s, "allin:");
            push_decimal(&mut s, total);
        },
    }
    s
}

/// The key of an information set in stored strategies: the player, the cards, the
/// public state field by field and the abstract history, separated by `|`.
pub open spec fn infoset_key_text(k: HoldemInfoSetKey) -> Seq<char> {
    let p = k.public_state;
    let bar = seq!['|'];
    player_text(k.player) + bar + hole_cards_text(k.hole_cards) + bar + street_text(p.street) + bar
        + cards_text(p.board@) + bar + match p.actor {
        Some(a) => player_text(a),
        None => seq!['-'],
    } + bar + decimal(p.pot as nat) + bar + decimal(p.button_stack as nat) + bar + decimal(
        p.big_blind_stack as nat,
    ) + bar + decimal(p.button_total_contribution as nat) + bar + decimal(
        p.big_blind_total_contribution as nat,
    ) + bar + decimal(p.button_street_contribution as nat) + bar + decimal(
        p.big_blind_street_contribution as nat,
    ) + bar + join(k.public_history@.map_values(|a: AbstractAction| action_key_text(a)), seq![','])
}

/// The keys of a history's actions, separated by commas.
fn history_key(history: &Vec<AbstractAction>) -> (r: String)
    ensures
        r@ == join(history@.map_values(|a: AbstractAction| action_key_text(a)), seq![',']),
{
    let mut keys: Vec<String> = Vec::new();
    let mut k: usize = 0;
    while k < history.len()
        invariant
            k <= history@.len(),
            views(keys@) == history@.take(k as int).map_values(|a: AbstractAction| action_key_text(a)),
        decreases history@.len() - k,
    {
        let ghost before = keys@;
        keys.push(stable_action_key(history[k]));
        proof {
            assert(views(keys@) =~= views(before).push(action_key_text(history@[k as int])));
            assert(history@.take(k + 1).map_values(|a: AbstractAction| action_key_text(a)) =~= history@.take(
                k as int,
            ).map_values(|a: AbstractAction| action_key_text(a)).push(action_key_text(history@[k as int])));
        }
        k = k + 1;
    }
    proof {
        assert(history@.take(k as int) =~= history@);
    }
    join_strings(&keys, ',')
}

/// Writes the key of an information set.
#[verifier::rlimit(20)]
pub fn stable_infoset_key(infoset: &HoldemInfoSetKey) -> (r: String)
    ensures
        r@ == infoset_key_text(*infoset),
{
    let p = &infoset.public_state;
    let mut s = String::new();
    push_player(&mut s, infoset.player);
    push_char(&mut s, '|');
    let c = infoset.hole_cards.cards();
    push_card(&mut s, c[0]);
    push_card(&mut s, c[1]);
    push_char(&mut s, '|');
    push_street(&mut s, p.street);
    push_char(&mut s, '|');
    push_cards(&mut s, p.board.as_slice());
    push_char(&mut s, '|');
    match p.actor {
        Some(a) => push_player(&mut s, a),
        None => push_char(&mut s, '-'),
    }
    push_char(&mut s, '|');
    push_decimal(&mut s, p.pot);
    push_char(&mut s, '|');
    push_decimal(&mut s, p.button_stack);
    push_char(&mut s, '|');
    push_decimal(&mut s, p.big_blind_stack);
    push_char(&mut s, '|');
    push_decimal(&mut s, p.button_total_contribution);
    push_char(&mut s, '|');
    push_decimal(&mut s, p.big_blind_total_contribution);
    push_char(&mut s, '|');
    push_decimal(&mut s, p.button_street_contribution);
    push_char(&mut s, '|');
    push_decimal(&mut s, p.big_blind_street_contribution);
    push_char(&mut s, '|');
    push_str(&mut s, history_key(&infoset.public_history).as_str());
    proof {
        assert(s@ =~= infoset_key_text(*infoset));
    }
    s
}

} // verus!
