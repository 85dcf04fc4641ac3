//! Exact heads-up no-limit hold'em rules, card handling, ranges and the public
//! abstraction layer used by the strategy bots; the command-line session against the
//! stub bot, the export of spots to TexasSolver, and the texts a browser front end
//! shows; all with machine-checked contracts.

pub mod card_text;
pub mod cli;
pub mod cards;
pub mod deck;
pub mod hand_eval;
pub mod holdem;
pub mod matchplay;
pub mod range;
pub mod range_parse;
pub mod meta;
pub mod phase_text;
pub mod rules_text;
pub mod solver;
pub mod tasks;
pub mod web;
pub mod text;

pub use cards::{Board, BoardError, Card, CardMask, DuplicateCardError, HoleCards, ParseCardError, Rank, Suit};
pub use hand_eval::{
    award_pot_heads_up, evaluate_five, evaluate_seven, resolve_holdem_showdown, EvaluateHandError,
    HandCategory, HandRank, HeadsUpPayout, OddChipRecipient, ShowdownError, ShowdownResult,
};
pub use holdem::{
    Chips, HandOutcome, HandPhase, HistoryEvent, HoldemConfig, HoldemConfigError, HoldemHandState,
    HoldemStateError, LegalActions, Player, PlayerAction, PlayerSnapshot, Street, WagerRange,
};
pub use matchplay::{
    HeadsUpMatchState, MatchConfig, MatchConfigError, MatchPlayer, MatchSeating, MatchSnapshot,
    MatchStateError,
};
pub use meta::{build_info, CoreBuildInfo};
pub use deck::{default_rng, rng_from_seed, undealt_cards, Deck, DeterministicRng, DEFAULT_RNG_SEED};
pub use range::Range;
pub use range_parse::ParseRangeError;
