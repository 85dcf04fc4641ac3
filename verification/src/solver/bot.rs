//! The postflop solver bot's decisions: when it falls back to the stub bot, which
//! opponent hands it solves against, and the spot it hands to the solver.

use vstd::prelude::*;

use crate::cards::{CardMask, HoleCards};
use crate::holdem::{HandModel, HoldemHandState, Player, PlayerAction, Street};
use crate::range::{avoids, hands_of, Range};
use crate::solver::abstraction::{AbstractionProfile, HoldemInfoSetKey, OpeningSize, RaiseSize, StreetProfile};
use crate::solver::blueprint::{actions_for_street, chart_range, chart_range_read, street_actions};
use crate::solver::eval::PostflopScriptedSpot;
use crate::solver::spots::{
    FlopSolveError, RiverSolveError, ScriptedFlopSpot, ScriptedRiverSpot, ScriptedTurnSpot,
    TurnSolveError,
};
use crate::solver::stub::{stub_choice, StubBot, StubBotError};

verus! {

/// What the postflop solver bot plays with: the bet sizes, each seat's range before
/// the hand's cards are known, how many opponent hands to solve against, and how
/// long to solve each street (none: fall back to the stub bot).
#[derive(Debug, Clone, PartialEq, Eq)]
pub struct PostflopSolverBotConfig {
    pub profile: AbstractionProfile,
    pub button_base_range: Range,
    pub big_blind_base_range: Range,
    pub max_opponent_combos: usize,
    pub flop_iterations: u64,
    pub turn_iterations: u64,
    pub river_iterations: u64,
}

/// The button's base range of the small configuration.
pub open spec fn smoke_button_range_text() -> Seq<char> {
    "22+,A2s+,K9s+,QTs+,JTs,T9s,98s,87s,AJo+,KQo"@
}

/// The big blind's base range of the small configuration.
pub open spec fn smoke_big_blind_range_text() -> Seq<char> {
    "22+,A2s+,K8s+,Q9s+,J9s+,T9s,98s,87s,76s,A9o+,KTo+,QTo+,JTo"@
}

impl PostflopSolverBotConfig {
    /// A small configuration: preflop opens to 2.5 big blinds and raises to 2.5 times
    /// the bet, later streets bet the pot and never raise; no all-ins; two opponent
    /// hands; no solving on the flop and one iteration on the turn and river.
    pub fn smoke_default() -> (r: Self)
        ensures
            r.profile.street_profile(Street::Preflop).opening_sizes@ == seq![
                OpeningSize::BigBlindMultipleBps(25_000),
            ],
            r.profile.street_profile(Street::Preflop).raise_sizes@ == seq![
                RaiseSize::CurrentBetMultipleBps(25_000),
            ],
            !r.profile.street_profile(Street::Preflop).include_all_in,
            forall|s: Street|
                s != Street::Preflop ==> (#[trigger] r.profile.street_profile(s)).opening_sizes@
                    == seq![OpeningSize::PotFractionBps(10_000)] && r.profile.street_profile(
                    s,
                ).raise_sizes@ == Seq::<RaiseSize>::empty() && !r.profile.street_profile(
                    s,
                ).include_all_in,
            chart_range_read(r.button_base_range, smoke_button_range_text()),
            chart_range_read(r.big_blind_base_range, smoke_big_blind_range_text()),
            r.max_opponent_combos == 2,
            r.flop_iterations == 0,
            r.turn_iterations == 1,
            r.river_iterations == 1,
    {
        let preflop = StreetProfile {
            opening_sizes: vec![OpeningSize::BigBlindMultipleBps(25_000)],
            raise_sizes: vec![RaiseSize::CurrentBetMultipleBps(25_000)],
            include_all_in: false,
        };
        proof {
            assert(preflop.opening_sizes@ =~= seq![OpeningSize::BigBlindMultipleBps(25_000)]);
            assert(preflop.raise_sizes@ =~= seq![RaiseSize::CurrentBetMultipleBps(25_000)]);
        }
        let profile = AbstractionProfile::new(
            preflop,
            pot_bet_profile(),
            pot_bet_profile(),
            pot_bet_profile(),
        );
        proof {
            assert forall|s: Street| s != Street::Preflop implies (#[trigger] profile.street_profile(
                s,
            )).opening_sizes@ == seq![OpeningSize::PotFractionBps(10_000)]
                && profile.street_profile(s).raise_sizes@ == Seq::<RaiseSize>::empty()
                && !profile.street_profile(s).include_all_in by {
                match s {
                    Street::Flop => {},
                    Street::Turn => {},
                    Street::River => {},
                    Street::Preflop => {},
                }
            }
        }
        PostflopSolverBotConfig {
            profile,
            button_base_range: chart_range("22+,A2s+,K9s+,QTs+,JTs,T9s,98s,87s,AJo+,KQo"),
            big_blind_base_range: chart_range(
                "22+,A2s+,K8s+,Q9s+,J9s+,T9s,98s,87s,76s,A9o+,KTo+,QTo+,JTo",
            ),
            max_opponent_combos: 2,
            flop_iterations: 0,
            turn_iterations: 1,
            river_iterations: 1,
        }
    }
}

fn pot_bet_profile() -> (r: StreetProfile)
    ensures
        r.opening_sizes@ == seq![OpeningSize::PotFractionBps(10_000)],
        r.raise_sizes@ == Seq::<RaiseSize>::empty(),
        !r.include_all_in,
{
    let r = StreetProfile {
        opening_sizes: vec![OpeningSize::PotFractionBps(10_000)],
        raise_sizes: Vec::new(),
        include_all_in: false,
    };
    proof {
        assert(r.opening_sizes@ =~= seq![OpeningSize::PotFractionBps(10_000)]);
    }
    r
}

/// A bot that solves the current postflop street against a few opponent hands.
#[derive(Debug, Clone, PartialEq, Eq)]
pub struct PostflopSolverBot {
    config: PostflopSolverBotConfig,
}

/// Why the postflop solver bot could not decide.
#[derive(Debug)]
pub enum PostflopSolverBotError {
    OpponentRangeEmpty,
    NoStrategyAction,
    UnsupportedStreetState(Street),
    NotActorsTurn { expected: Option<Player>, actual: Player },
    FlopSolve(FlopSolveError),
    TurnSolve(TurnSolveError),
    RiverSolve(RiverSolveError),
    Fallback(StubBotError),
}

/// What the bot does at a decision: the stub bot's action, or a spot to solve.
pub enum PostflopBotPlan {
    Fallback(PlayerAction),
    /// The public line to the decision, both ranges (the bot's own hand against a
    /// few opponent hands), the sizes, the iterations, and the bot's information set
    /// whose strongest action it will take.
    Solve {
        spot: PostflopScriptedSpot,
        button_range: Range,
        big_blind_range: Range,
        profile: AbstractionProfile,
        iterations: u64,
        infoset: HoldemInfoSetKey,
    },
}

/// The cards no opponent hand can hold: the board and the bot's hand.
pub open spec fn dead_cards(m: HandModel, bot_hand: HoleCards) -> Set<int> {
    Set::new(|i: int| exists|k: int| 0 <= k < m.board.len() && m.board[k].code() == i).union(
        bot_hand.card_set(),
    )
}

/// The opponent hands to solve against: the first `max` hands of the base range
/// that hold no dead card, in the range's order; none when there are none.
pub open spec fn opponent_hands(base: Seq<HoleCards>, dead: Set<int>, max: nat) -> Seq<HoleCards> {
    let live = base.filter(|h: HoleCards| avoids(h, dead));
    if live.len() <= max {
        live
    } else {
        live.take(max as int)
    }
}

impl PostflopSolverBot {
    pub closed spec fn spec_config(&self) -> PostflopSolverBotConfig {
        self.config
    }

    pub fn new(config: PostflopSolverBotConfig) -> (r: Self)
        ensures
            r.spec_config() == config,
    {
        PostflopSolverBot { config }
    }

    /// The bot with the small configuration.
    pub fn default() -> (r: Self)
        ensures
            r.spec_config().max_opponent_combos == 2,
            r.spec_config().flop_iterations == 0,
            chart_range_read(r.spec_config().button_base_range, smoke_button_range_text()),
            chart_range_read(r.spec_config().big_blind_base_range, smoke_big_blind_range_text()),
    {
        Self::new(PostflopSolverBotConfig::smoke_default())
    }

    /// The iterations the configuration gives a street.
    pub open spec fn street_iterations(&self, street: Street) -> u64 {
        match street {
            Street::Flop => self.spec_config().flop_iterations,
            Street::Turn => self.spec_config().turn_iterations,
            Street::River => self.spec_config().river_iterations,
            Street::Preflop => 0,
        }
    }

    /// The base range of a seat.
    pub open spec fn base_range(&self, p: Player) -> Range {
        match p {
            Player::Button => self.spec_config().button_base_range,
            Player::BigBlind => self.spec_config().big_blind_base_range,
        }
    }

    fn opponent_range(&self, opponent: Player, state: &HoldemHandState, bot_hand: HoleCards) -> (r:
        Option<Range>)
        requires
            self.base_range(opponent).wf(),
            state.wf(),
        ensures
            ({
                let hands = opponent_hands(
                    self.base_range(opponent)@,
                    dead_cards(state@, bot_hand),
                    self.spec_config().max_opponent_combos as nat,
                );
                if hands.len() == 0 {
                    r is None
                } else {
                    r matches Some(range) && range.wf() && range.hands() == hands_of(hands)
                }
            }),
    {
        let base = match opponent {
            Player::Button => &self.config.button_base_range,
            Player::BigBlind => &self.config.big_blind_base_range,
        };
        let dead = state.board().mask().union(bot_hand.mask());
        proof {
            assert(dead@ =~= dead_cards(state@, bot_hand));
        }
        let filtered = base.without_dead_cards(dead);
        let live = filtered.combos();
        let max = self.config.max_opponent_combos;
        let mut kept: Vec<HoleCards> = Vec::new();
        let mut i: usize = 0;
        while i < live.len() && i < max
            invariant
                i <= live@.len(),
                i <= max,
                kept@ == live@.take(i as int),
            decreases live@.len() - i,
        {
            kept.push(live[i]);
            proof {
                assert(kept@ =~= live@.take(i + 1));
            }
            i = i + 1;
        }
        proof {
            if live@.len() <= max {
                assert(kept@ =~= live@);
            }
        }
        if kept.len() == 0 {
            return None;
        }
        Some(Range::from_hole_cards(kept.as_slice()))
    }

    /// What the bot does at a decision: after checking that it is the bot's turn, it
    /// falls back to the stub bot preflop, on a street it does not solve, and when no
    /// opponent hand is left; otherwise it hands the decision's street to the solver.
    pub fn plan(&self, bot_player: Player, state: &HoldemHandState) -> (r: Result<
        PostflopBotPlan,
        PostflopSolverBotError,
    >)
        requires
            state.wf(),
            self.base_range(bot_player.spec_opponent()).wf(),
        ensures
            ({
                let m = state@;
                if m.actor() != Some(bot_player) {
                    r matches Err(PostflopSolverBotError::NotActorsTurn { expected, actual })
                        && expected == m.actor() && actual == bot_player
                } else {
                    let fallback = match stub_choice(m.legal(bot_player)) {
                        Some(a) => r matches Ok(PostflopBotPlan::Fallback(b)) && b == a,
                        None => r matches Err(
                            PostflopSolverBotError::Fallback(StubBotError::NoLegalAction),
                        ),
                    };
                    let bot_hand = m.seat(bot_player).hole_cards;
                    let hands = opponent_hands(
                        self.base_range(bot_player.spec_opponent())@,
                        dead_cards(m, bot_hand),
                        self.spec_config().max_opponent_combos as nat,
                    );
                    if m.street == Street::Preflop || self.street_iterations(m.street) == 0
                        || hands.len() == 0 {
                        fallback
                    } else if m.board.len() < m.street.cards_dealt() {
                        r matches Err(PostflopSolverBotError::UnsupportedStreetState(s)) && s
                            == m.street
                    } else {
                        r matches Ok(
                            PostflopBotPlan::Solve {
                                spot,
                                button_range,
                                big_blind_range,
                                profile,
                                iterations,
                                infoset,
                            },
                        ) && {
                            let (mine, theirs) = match bot_player {
                                Player::Button => (button_range, big_blind_range),
                                Player::BigBlind => (big_blind_range, button_range),
                            };
                            &&& spot.spec_street() == m.street
                            &&& scripted_from(spot, m)
                            &&& mine.hands() == set![bot_hand@]
                            &&& theirs.hands() == hands_of(hands)
                            &&& profile.same_sizes(self.spec_config().profile)
                            &&& iterations == self.street_iterations(m.street)
                            &&& infoset.player == bot_player
                            &&& infoset.hole_cards == bot_hand
                            &&& infoset.public_state.describes(m)
                            &&& infoset.public_history@ == Seq::<crate::solver::abstraction::AbstractAction>::empty()
                        }
                    }
                }
            }),
    {
        let actor = state.current_actor();
        if actor != Some(bot_player) {
            return Err(PostflopSolverBotError::NotActorsTurn { expected: actor, actual: bot_player });
        }
        let street = state.street();
        let iterations = match street {
            Street::Flop => self.config.flop_iterations,
            Street::Turn => self.config.turn_iterations,
            Street::River => self.config.river_iterations,
            Street::Preflop => 0,
        };
        if street == Street::Preflop || iterations == 0 {
            return stub_fallback(state);
        }
        let bot_hand = state.player(bot_player).hole_cards;
        let opponent = bot_player.opponent();
        let opponent_range = match self.opponent_range(opponent, state, bot_hand) {
            Some(range) => range,
            None => {
                return stub_fallback(state);
            },
        };
        let own = [bot_hand];
        proof {
            assert(own@ =~= seq![bot_hand]);
            assert(hands_of(seq![bot_hand]) =~= set![bot_hand@]) by {
                assert(seq![bot_hand][0] == bot_hand);
            }
        }
        let bot_range = Range::from_hole_cards(&own);
        let (button_range, big_blind_range) = match bot_player {
            Player::Button => (bot_range, opponent_range),
            Player::BigBlind => (opponent_range, bot_range),
        };
        let infoset = HoldemInfoSetKey::from_state(bot_player, bot_hand, state, Vec::new());
        let spot = match street {
            Street::Flop => match scripted_flop_spot_from_state(state) {
                Ok(spot) => PostflopScriptedSpot::Flop(spot),
                Err(e) => {
                    return Err(e);
                },
            },
            Street::Turn => match scripted_turn_spot_from_state(state) {
                Ok(spot) => PostflopScriptedSpot::Turn(spot),
                Err(e) => {
                    return Err(e);
                },
            },
            _ => match scripted_river_spot_from_state(state) {
                Ok(spot) => PostflopScriptedSpot::River(spot),
                Err(e) => {
                    return Err(e);
                },
            },
        };
        Ok(
            PostflopBotPlan::Solve {
                spot,
                button_range,
                big_blind_range,
                profile: self.config.profile.duplicate(),
                iterations,
                infoset,
            },
        )
    }
}

fn stub_fallback(state: &HoldemHandState) -> (r: Result<PostflopBotPlan, PostflopSolverBotError>)
    requires
        state.wf(),
        state@.actor() is Some,
    ensures
        match stub_choice(state@.legal(state@.actor()->0)) {
            Some(a) => r matches Ok(PostflopBotPlan::Fallback(b)) && b == a,
            None => r matches Err(PostflopSolverBotError::Fallback(StubBotError::NoLegalAction)),
        },
{
    match StubBot.choose_action(state) {
        Ok(action) => Ok(PostflopBotPlan::Fallback(action)),
        Err(e) => Err(PostflopSolverBotError::Fallback(e)),
    }
}

/// The spot replays the hand's public line: its configuration, the actions of each
/// street and the board dealt, at the configured stacks.
pub open spec fn scripted_from(spot: PostflopScriptedSpot, m: HandModel) -> bool {
    match spot {
        PostflopScriptedSpot::Flop(s) => {
            &&& s.config == m.config
            &&& s.button_starting_stack is None
            &&& s.big_blind_starting_stack is None
            &&& s.preflop_actions@ == street_actions(m.history, Street::Preflop)
            &&& s.flop@ == m.board.take(3)
            &&& s.flop_prefix_actions@ == street_actions(m.history, Street::Flop)
        },
        PostflopScriptedSpot::Turn(s) => {
            &&& s.config == m.config
            &&& s.button_starting_stack is None
            &&& s.big_blind_starting_stack is None
            &&& s.preflop_actions@ == street_actions(m.history, Street::Preflop)
            &&& s.flop@ == m.board.take(3)
            &&& s.flop_actions@ == street_actions(m.history, Street::Flop)
            &&& s.turn == m.board[3]
            &&& s.turn_prefix_actions@ == street_actions(m.history, Street::Turn)
        },
        PostflopScriptedSpot::River(s) => {
            &&& s.config == m.config
            &&& s.button_starting_stack is None
            &&& s.big_blind_starting_stack is None
            &&& s.preflop_actions@ == street_actions(m.history, Street::Preflop)
            &&& s.flop@ == m.board.take(3)
            &&& s.flop_actions@ == street_actions(m.history, Street::Flop)
            &&& s.turn == m.board[3]
            &&& s.turn_actions@ == street_actions(m.history, Street::Turn)
            &&& s.river == m.board[4]
            &&& s.river_prefix_actions@ == street_actions(m.history, Street::River)
        },
    }
}

/// The flop spot of the hand's public line so far.
pub fn scripted_flop_spot_from_state(state: &HoldemHandState) -> (r: Result<
    ScriptedFlopSpot,
    PostflopSolverBotError,
>)
    ensures
        state@.board.len() < 3 ==> (r matches Err(PostflopSolverBotError::UnsupportedStreetState(s))
            && s == state@.street),
        state@.board.len() >= 3 ==> (r matches Ok(s) && scripted_from(
            PostflopScriptedSpot::Flop(s),
            state@,
        )),
{
    let board = state.board().cards();
    if board.len() < 3 {
        return Err(PostflopSolverBotError::UnsupportedStreetState(state.street()));
    }
    let flop = [board[0], board[1], board[2]];
    proof {
        assert(flop@ =~= state@.board.take(3));
    }
    Ok(
        ScriptedFlopSpot {
            config: state.config(),
            button_starting_stack: None,
            big_blind_starting_stack: None,
            preflop_actions: actions_for_street(state, Street::Preflop),
            flop,
            flop_prefix_actions: actions_for_street(state, Street::Flop),
        },
    )
}

/// The turn spot of the hand's public line so far.
pub fn scripted_turn_spot_from_state(state: &HoldemHandState) -> (r: Result<
    ScriptedTurnSpot,
    PostflopSolverBotError,
>)
    ensures
        state@.board.len() < 4 ==> (r matches Err(PostflopSolverBotError::UnsupportedStreetState(s))
            && s == state@.street),
        state@.board.len() >= 4 ==> (r matches Ok(s) && scripted_from(
            PostflopScriptedSpot::Turn(s),
            state@,
        )),
{
    let board = state.board().cards();
    if board.len() < 4 {
        return Err(PostflopSolverBotError::UnsupportedStreetState(state.street()));
    }
    let flop = [board[0], board[1], board[2]];
    proof {
        assert(flop@ =~= state@.board.take(3));
    }
    Ok(
        ScriptedTurnSpot {
            config: state.config(),
            button_starting_stack: None,
            big_blind_starting_stack: None,
            preflop_actions: actions_for_street(state, Street::Preflop),
            flop,
            flop_actions: actions_for_street(state, Street::Flop),
            turn: board[3],
            turn_prefix_actions: actions_for_street(state, Street::Turn),
        },
    )
}

/// The river spot of the hand's public line so far.
pub fn scripted_river_spot_from_state(state: &HoldemHandState) -> (r: Result<
    ScriptedRiverSpot,
    PostflopSolverBotError,
>)
    ensures
        state@.board.len() < 5 ==> (r matches Err(PostflopSolverBotError::UnsupportedStreetState(s))
            && s == state@.street),
        state@.board.len() >= 5 ==> (r matches Ok(s) && scripted_from(
            PostflopScriptedSpot::River(s),
            state@,
        )),
{
    let board = state.board().cards();
    if board.len() < 5 {
        return Err(PostflopSolverBotError::UnsupportedStreetState(state.street()));
    }
    let flop = [board[0], board[1], board[2]];
    proof {
        assert(flop@ =~= state@.board.take(3));
    }
    Ok(
        ScriptedRiverSpot {
            config: state.config(),
            button_starting_stack: None,
            big_blind_starting_stack: None,
            preflop_actions: actions_for_street(state, Street::Preflop),
            flop,
            flop_actions: actions_for_street(state, Street::Flop),
            turn: board[3],
            turn_actions: actions_for_street(state, Street::Turn),
            river: board[4],
            river_prefix_actions: actions_for_street(state, Street::River),
        },
    )
}

} // verus!
