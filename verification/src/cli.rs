//! The interactive heads-up session against the stub bot: reading the player's
//! answers, what is printed, and the session as a state machine that the program
//! around it feeds with input lines.

use vstd::prelude::*;

use crate::card_text::{card_text, hole_cards_text, push_card};
use crate::cards::{Card, DuplicateCardError, HoleCards};
use crate::deck::{fisher_yates, rng_from_seed, standard_cards, DeterministicRng, Deck, DEFAULT_RNG_SEED};
use crate::hand_eval::HandRank;
use crate::holdem::{
    Chips, HandModel, HandOutcome, HandPhase, HoldemConfig, HoldemHandState, HoldemStateError,
    holds_card, LegalActions, Player, lemma_deal_keeps_wf, PlayerAction, Street, MAX_CHIPS,
};
use crate::rules_text::{hand_rank_text, player_text, push_player, push_street, street_text};
use crate::solver::stub::{build_info, lemma_stub_choice_is_legal, stub_choice, SolverProfile, StubBot};
use crate::solver::abstraction::AbstractAction;
use crate::solver::tree::{betting_room, lemma_apply_makes_progress};
use crate::rules_text::state_error_text;
use crate::text::{
    ascii_lower, chars_eq, chars_of, decimal, is_white_space, is_white_space_char, join,
    join_strings, join_strings_with, lower_chars, parse_u64, push_char, push_decimal, push_str,
    spec_parse_u64, string_of, trim, trim_chars, views,
};

verus! {

// ---------------------------------------------------------------------------
// Configuration and banner.
// ---------------------------------------------------------------------------

/// How a session runs: the seed of its deals, and how many hands to play (none: ask
/// after each hand).
#[derive(Debug, Clone, Copy, PartialEq, Eq)]
pub struct CliConfig {
    pub seed: u64,
    pub max_hands: Option<usize>,
}

impl CliConfig {
    /// The default seed, and ask after each hand.
    pub fn default() -> (r: Self)
        ensures
            r.seed == DEFAULT_RNG_SEED,
            r.max_hands is None,
    {
        CliConfig { seed: DEFAULT_RNG_SEED, max_hands: None }
    }
}

/// The banner a session opens with.
pub open spec fn banner_text() -> Seq<char> {
    "gto-solver"@ + seq![' '] + "0.1.0"@ + "\nstatus: milestones M4-M7 CLI demos and river solver integration\nsolver-profile: "@
        + "bootstrap-placeholder"@ + "\nwasm-safe-core: true"@
}

/// The banner: the solver's name and version, the project's status, the bot profile
/// and whether the rules and the solver are safe for the web build.
pub fn startup_banner() -> (r: String)
    ensures
        r@ == banner_text(),
{
    let build = build_info();
    let profile = SolverProfile::placeholder();
    let mut s = String::new();
    push_str(&mut s, build.crate_name);
    push_char(&mut s, ' ');
    push_str(&mut s, build.crate_version);
    push_str(&mut s, "\nstatus: milestones M4-M7 CLI demos and river solver integration\nsolver-profile: ");
    push_str(&mut s, profile.name());
    if build.wasm_safe && build.core.wasm_safe {
        push_str(&mut s, "\nwasm-safe-core: true");
    } else {
        push_str(&mut s, "\nwasm-safe-core: false");
    }
    s
}

// ---------------------------------------------------------------------------
// Reading the player's answers.
// ---------------------------------------------------------------------------

/// The text between white space, empty pieces included.
pub open spec fn space_pieces(s: Seq<char>) -> Seq<Seq<char>>
    decreases s.len(),
{
    if s.len() == 0 {
        seq![Seq::<char>::empty()]
    } else {
        let prev = space_pieces(s.drop_last());
        if is_white_space(s.last()) {
            prev.push(Seq::<char>::empty())
        } else {
            prev.update(prev.len() - 1, prev.last().push(s.last()))
        }
    }
}

/// The words of a text (`str::split_whitespace`).
pub open spec fn words(s: Seq<char>) -> Seq<Seq<char>> {
    space_pieces(s).filter(|t: Seq<char>| t.len() > 0)
}

fn words_of(s: &[char]) -> (r: Vec<Vec<char>>)
    ensures
        r@.map_values(|t: Vec<char>| t@) == words(s@),
{
    let mut done: Vec<Vec<char>> = Vec::new();
    let mut cur: Vec<char> = Vec::new();
    let mut i: usize = 0;
    while i < s.len()
        invariant
            i <= s@.len(),
            space_pieces(s@.take(i as int)).len() >= 1,
            cur@ == space_pieces(s@.take(i as int)).last(),
            done@.map_values(|t: Vec<char>| t@) == space_pieces(s@.take(i as int)).drop_last().filter(
                |t: Seq<char>| t.len() > 0,
            ),
        decreases s@.len() - i,
    {
        let c = s[i];
        let ghost pieces = space_pieces(s@.take(i as int));
        proof {
            assert(s@.take(i + 1).drop_last() =~= s@.take(i as int));
            assert(s@.take(i + 1).last() == c);
            reveal_with_fuel(Seq::<_>::filter, 1);
        }
        if is_white_space_char(c) {
            let mut piece: Vec<char> = Vec::new();
            std::mem::swap(&mut piece, &mut cur);
            let ghost piece_view = piece@;
            if piece.len() > 0 {
                done.push(piece);
            }
            proof {
                let next = space_pieces(s@.take(i + 1));
                assert(next == pieces.push(Seq::<char>::empty()));
                assert(next.drop_last() =~= pieces);
                assert(pieces.drop_last().push(pieces.last()) =~= pieces);
                assert(pieces.filter(|t: Seq<char>| t.len() > 0) == (if piece_view.len() > 0 {
                    pieces.drop_last().filter(|t: Seq<char>| t.len() > 0).push(piece_view)
                } else {
                    pieces.drop_last().filter(|t: Seq<char>| t.len() > 0)
                }));
                assert(done@.map_values(|t: Vec<char>| t@) =~= next.drop_last().filter(
                    |t: Seq<char>| t.len() > 0,
                ));
            }
        } else {
            cur.push(c);
            proof {
                let next = space_pieces(s@.take(i + 1));
                assert(next == pieces.update(pieces.len() - 1, pieces.last().push(c)));
                assert(next.drop_last() =~= pieces.drop_last());
            }
        }
        i = i + 1;
    }
    let ghost pieces = space_pieces(s@.take(i as int));
    let ghost cur_view = cur@;
    if cur.len() > 0 {
        done.push(cur);
    }
    proof {
        assert(s@.take(i as int) =~= s@);
        reveal_with_fuel(Seq::<_>::filter, 1);
        assert(pieces.drop_last().push(pieces.last()) =~= pieces);
        assert(pieces.filter(|t: Seq<char>| t.len() > 0) == (if cur_view.len() > 0 {
            pieces.drop_last().filter(|t: Seq<char>| t.len() > 0).push(cur_view)
        } else {
            pieces.drop_last().filter(|t: Seq<char>| t.len() > 0)
        }));
        assert(done@.map_values(|t: Vec<char>| t@) =~= words(s@));
    }
    done
}

/// An answer trimmed and in lower case.
pub open spec fn normalized_answer(s: Seq<char>) -> Seq<char> {
    trim(s).map_values(|c: char| ascii_lower(c))
}

/// What an answer at a decision means: an action, `None` to quit, or what is wrong
/// with it. Single words name the actions without amounts; a bet or raise is a word
/// and an amount.
pub open spec fn spec_parse_user_action(s: Seq<char>) -> Result<Option<PlayerAction>, Seq<char>> {
    let n = normalized_answer(s);
    if n.len() == 0 {
        Err("enter an action such as `call`, `check`, `bet 100`, or `quit`"@)
    } else if n == "fold"@ || n == "f"@ {
        Ok(Some(PlayerAction::Fold))
    } else if n == "check"@ || n == "k"@ {
        Ok(Some(PlayerAction::Check))
    } else if n == "call"@ || n == "c"@ {
        Ok(Some(PlayerAction::Call))
    } else if n == "allin"@ || n == "all-in"@ || n == "jam"@ {
        Ok(Some(PlayerAction::AllIn))
    } else if n == "quit"@ || n == "q"@ || n == "exit"@ {
        Ok(None)
    } else {
        let w = words(n);
        if w.len() == 0 {
            Err("enter an action"@)
        } else if w.len() == 1 {
            Err("expected an amount after the action"@)
        } else if w.len() > 2 {
            Err("too many tokens in action"@)
        } else {
            match spec_parse_u64(w[1]) {
                None => Err("amount must be a positive integer"@),
                Some(amount) => if w[0] == "bet"@ || w[0] == "b"@ {
                    Ok(Some(PlayerAction::BetTo(amount as u64)))
                } else if w[0] == "raise"@ || w[0] == "r"@ || w[0] == "raise-to"@ {
                    Ok(Some(PlayerAction::RaiseTo(amount as u64)))
                } else {
                    Err("unknown action"@)
                },
            }
        }
    }
}

/// Reads an answer at a decision.
pub fn parse_user_action(input: &str) -> (r: Result<Option<PlayerAction>, &'static str>)
    ensures
        match spec_parse_user_action(input@) {
            Ok(a) => r == Ok::<Option<PlayerAction>, &'static str>(a),
            Err(m) => r matches Err(e) && e@ == m,
        },
{
    let raw = chars_of(input);
    let trimmed = trim_chars(raw.as_slice());
    let n = lower_chars(trimmed.as_slice());
    let ns = n.as_slice();
    if n.len() == 0 {
        return Err("enter an action such as `call`, `check`, `bet 100`, or `quit`");
    }
    if chars_eq(ns, "fold") || chars_eq(ns, "f") {
        return Ok(Some(PlayerAction::Fold));
    }
    if chars_eq(ns, "check") || chars_eq(ns, "k") {
        return Ok(Some(PlayerAction::Check));
    }
    if chars_eq(ns, "call") || chars_eq(ns, "c") {
        return Ok(Some(PlayerAction::Call));
    }
    if chars_eq(ns, "allin") || chars_eq(ns, "all-in") || chars_eq(ns, "jam") {
        return Ok(Some(PlayerAction::AllIn));
    }
    if chars_eq(ns, "quit") || chars_eq(ns, "q") || chars_eq(ns, "exit") {
        return Ok(None);
    }
    let w = words_of(ns);
    proof {
        assert(w@.len() == words(n@).len());
        if w@.len() >= 2 {
            assert(w@.map_values(|t: Vec<char>| t@)[0] == w@[0]@);
            assert(w@.map_values(|t: Vec<char>| t@)[1] == w@[1]@);
        }
    }
    if w.len() == 0 {
        return Err("enter an action");
    }
    if w.len() == 1 {
        return Err("expected an amount after the action");
    }
    if w.len() > 2 {
        return Err("too many tokens in action");
    }
    let amount = match parse_u64(w[1].as_slice()) {
        Some(a) => a,
        None => {
            return Err("amount must be a positive integer");
        },
    };
    let keyword = w[0].as_slice();
    if chars_eq(keyword, "bet") || chars_eq(keyword, "b") {
        Ok(Some(PlayerAction::BetTo(amount)))
    } else if chars_eq(keyword, "raise") || chars_eq(keyword, "r") || chars_eq(keyword, "raise-to") {
        Ok(Some(PlayerAction::RaiseTo(amount)))
    } else {
        Err("unknown action")
    }
}

/// The answer to "play another hand?": yes, no, or neither.
pub open spec fn spec_play_again(s: Seq<char>) -> Option<bool> {
    let n = normalized_answer(s);
    if n == "y"@ || n == "yes"@ {
        Some(true)
    } else if n == "n"@ || n == "no"@ {
        Some(false)
    } else {
        None
    }
}

/// Reads the answer to "play another hand?".
pub fn play_again_answer(input: &str) -> (r: Option<bool>)
    ensures
        r == spec_play_again(input@),
{
    let raw = chars_of(input);
    let trimmed = trim_chars(raw.as_slice());
    let n = lower_chars(trimmed.as_slice());
    let ns = n.as_slice();
    if chars_eq(ns, "y") || chars_eq(ns, "yes") {
        Some(true)
    } else if chars_eq(ns, "n") || chars_eq(ns, "no") {
        Some(false)
    } else {
        None
    }
}


// ---------------------------------------------------------------------------
// What the session prints.
// ---------------------------------------------------------------------------

/// Board cards separated by spaces, or `-` before the flop.
pub open spec fn board_text(b: Seq<Card>) -> Seq<char> {
    if b.len() == 0 {
        seq!['-']
    } else {
        join(b.map_values(|c: Card| card_text(c)), seq![' '])
    }
}

/// A hand's two cards separated by a space.
pub open spec fn hole_text(h: HoleCards) -> Seq<char> {
    card_text(h@.0) + seq![' '] + card_text(h@.1)
}

/// How an action is announced; an all-in names the street total it reaches.
pub open spec fn describe_text(a: PlayerAction, m: HandModel) -> Seq<char> {
    match a {
        PlayerAction::Fold => "fold"@,
        PlayerAction::Check => "check"@,
        PlayerAction::Call => "call"@,
        PlayerAction::BetTo(total) => "bet to "@ + decimal(total as nat),
        PlayerAction::RaiseTo(total) => "raise to "@ + decimal(total as nat),
        PlayerAction::AllIn => {
            let s = m.seat(m.actor()->0);
            "all-in to "@ + decimal((s.street_contribution + s.stack) as nat)
        },
    }
}

/// The options of a decision, separated by ` | `.
pub open spec fn legal_text(l: LegalActions) -> Seq<char> {
    join(legal_parts(l), " | "@)
}

/// The prompt at the player's decision: street, board, pot, both stacks, the
/// player's hand and the options.
pub open spec fn prompt_text(m: HandModel, human: Player) -> Seq<char> {
    let bot = human.spec_opponent();
    "\nStreet: "@ + street_text(m.street) + "\nBoard: "@ + board_text(m.board) + "\nPot: "@ + decimal(
        m.pot() as nat,
    ) + "\nYou ("@ + player_text(human) + "): stack="@ + decimal(m.seat(human).stack as nat)
        + " hand="@ + hole_text(m.seat(human).hole_cards) + "\nBot ("@ + player_text(bot)
        + "): stack="@ + decimal(m.seat(bot).stack as nat) + "\nOptions: "@ + legal_text(
        m.legal(human),
    ) + "\n> "@
}

/// `You` for the player, `Bot` for the other seat.
pub open spec fn seat_label(p: Player, human: Player) -> Seq<char> {
    if p == human {
        "You"@
    } else {
        "Bot"@
    }
}

/// The rank a seat showed down.
pub open spec fn shown_rank_text(result: crate::hand_eval::ShowdownResult, p: Player) -> Seq<char> {
    match p {
        Player::Button => hand_rank_text(result.player_one_rank),
        Player::BigBlind => hand_rank_text(result.player_two_rank),
    }
}

/// The board and both hands at the end of a hand.
pub open spec fn outcome_head(m: HandModel, human: Player) -> Seq<char> {
    "\nFinal board: "@ + board_text(m.board) + "\nYour cards: "@ + hole_text(m.seat(human).hole_cards)
        + "\nBot cards: "@ + hole_text(m.seat(human.spec_opponent()).hole_cards) + seq!['\n']
}

/// Who won what.
pub open spec fn outcome_body(human: Player, outcome: HandOutcome) -> Seq<char> {
    match outcome {
        HandOutcome::Uncontested { winner, pot, street, .. } => seat_label(winner, human) + " wins "@
            + decimal(pot as nat) + " chips without showdown on "@ + street_text(street) + ".\n"@,
        HandOutcome::Showdown { result, pot, payout } => "Showdown for "@ + decimal(pot as nat)
            + " chips.\nYou: "@ + shown_rank_text(result, human) + "\nBot: "@ + shown_rank_text(
            result,
            human.spec_opponent(),
        ) + seq!['\n'] + if payout.player_one > payout.player_two {
            seat_label(Player::Button, human) + " wins the pot.\n"@
        } else if payout.player_two > payout.player_one {
            seat_label(Player::BigBlind, human) + " wins the pot.\n"@
        } else {
            "The pot is split.\n"@
        },
    }
}

/// The end of a hand: the board, both hands, and who won what.
pub open spec fn outcome_text(m: HandModel, human: Player, outcome: HandOutcome) -> Seq<char> {
    outcome_head(m, human) + outcome_body(human, outcome)
}

/// The start of a hand: its number, the player's seat and cards.
pub open spec fn hand_header_text(number: nat, human: Player, cards: HoleCards) -> Seq<char> {
    "\nHand "@ + decimal(number) + "\nYou are the "@ + player_text(human) + ".\nYour cards: "@
        + hole_text(cards) + seq!['\n']
}

/// The bot's action as announced.
pub open spec fn bot_line(m: HandModel, human: Player, a: PlayerAction) -> Seq<char> {
    "Bot ("@ + player_text(human.spec_opponent()) + ") -> "@ + describe_text(a, m) + seq!['\n']
}

/// A newly dealt street with the whole board.
pub open spec fn reveal_line(street: Street, board: Seq<Card>) -> Seq<char> {
    let label = match street {
        Street::Flop => "Flop: "@,
        Street::Turn => "Turn: "@,
        _ => "River: "@,
    };
    label + board_text(board) + seq!['\n']
}

/// The question after a hand.
pub open spec fn replay_prompt_text() -> Seq<char> {
    "\nPlay another hand? [y/n]\n> "@
}

fn push_hole_cards(s: &mut String, cards: HoleCards)
    ensures
        final(s)@ == old(s)@ + hole_text(cards),
{
    let ghost before = s@;
    let c = cards.cards();
    push_card(s, c[0]);
    push_char(s, ' ');
    push_card(s, c[1]);
    proof {
        assert(s@ =~= before + hole_text(cards));
    }
}

fn push_board(s: &mut String, cards: &[Card])
    ensures
        final(s)@ == old(s)@ + board_text(cards@),
{
    if cards.len() == 0 {
        push_char(s, '-');
        return;
    }
    let mut texts: Vec<String> = Vec::new();
    let mut k: usize = 0;
    while k < cards.len()
        invariant
            k <= cards@.len(),
            views(texts@) == cards@.take(k as int).map_values(|c: Card| card_text(c)),
        decreases cards@.len() - k,
    {
        let ghost before = texts@;
        texts.push(cards[k].to_string());
        proof {
            assert(views(texts@) =~= views(before).push(card_text(cards@[k as int])));
            assert(cards@.take(k + 1).map_values(|c: Card| card_text(c)) =~= cards@.take(
                k as int,
            ).map_values(|c: Card| card_text(c)).push(card_text(cards@[k as int])));
        }
        k = k + 1;
    }
    proof {
        assert(cards@.take(k as int) =~= cards@);
    }
    push_str(s, join_strings(&texts, ' ').as_str());
}

/// The board of a hand as printed.
pub fn format_board(state: &HoldemHandState) -> (r: String)
    ensures
        r@ == board_text(state@.board),
{
    let mut s = String::new();
    push_board(&mut s, state.board().cards());
    s
}

/// A hand's two cards as printed.
pub fn format_hole_cards(cards: HoleCards) -> (r: String)
    ensures
        r@ == hole_text(cards),
{
    let mut s = String::new();
    push_hole_cards(&mut s, cards);
    s
}

/// Announces an action.
pub fn describe_action(action: PlayerAction, state: &HoldemHandState) -> (r: String)
    requires
        state.wf(),
        action == PlayerAction::AllIn ==> state@.actor() is Some,
    ensures
        r@ == describe_text(action, state@),
{
    let mut s = String::new();
    match action {
        PlayerAction::Fold => push_str(&mut s, "fold"),
        PlayerAction::Check => push_str(&mut s, "check"),
        PlayerAction::Call => push_str(&mut s, "call"),
        PlayerAction::BetTo(total) => {
            push_str(&mut s, "bet to ");
            push_decimal(&mut s, total);
        },
        PlayerAction::RaiseTo(total) => {
            push_str(&mut s, "raise to ");
            push_decimal(&mut s, total);
        },
        PlayerAction::AllIn => {
            let actor = match state.current_actor() {
                Some(actor) => actor,
                None => {
                    return vstd::pervasive::unreached();
                },
            };
            let seat = state.player(actor);
            push_str(&mut s, "all-in to ");
            push_decimal(&mut s, seat.street_contribution + seat.stack);
        },
    }
    s
}

/// The options of a decision.
pub fn format_legal_actions(legal: LegalActions) -> (r: String)
    ensures
        r@ == legal_text(legal),
{
    let mut parts: Vec<String> = Vec::new();
    if legal.fold {
        push_part(&mut parts, string_of("fold"));
    }
    proof {
        assert(views(parts@) =~= fold_part(legal));
    }
    if legal.check {
        push_part(&mut parts, string_of("check"));
    }
    proof {
        assert(views(parts@) =~= fold_part(legal) + check_part(legal));
    }
    if let Some(call_amount) = legal.call_amount {
        let mut t = string_of("call (");
        push_decimal(&mut t, call_amount);
        push_char(&mut t, ')');
        proof {
            assert(seq![t@] =~~= call_part(legal));
        }
        push_part(&mut parts, t);
    }
    let ghost p3 = fold_part(legal) + check_part(legal) + call_part(legal);
    proof {
        assert(views(parts@) =~= p3);
    }
    if let Some(range) = legal.bet_range {
        let mut t = string_of("bet <");
        push_decimal(&mut t, range.min_total);
        push_char(&mut t, '-');
        push_decimal(&mut t, range.max_total);
        push_char(&mut t, '>');
        proof {
            assert(seq![t@] =~~= range_part("bet <"@, legal.bet_range));
        }
        push_part(&mut parts, t);
    }
    let ghost p4 = p3 + range_part("bet <"@, legal.bet_range);
    proof {
        assert(views(parts@) =~= p4);
    }
    if let Some(range) = legal.raise_range {
        let mut t = string_of("raise <");
        push_decimal(&mut t, range.min_total);
        push_char(&mut t, '-');
        push_decimal(&mut t, range.max_total);
        push_char(&mut t, '>');
        proof {
            assert(seq![t@] =~~= range_part("raise <"@, legal.raise_range));
        }
        push_part(&mut parts, t);
    }
    let ghost p5 = p4 + range_part("raise <"@, legal.raise_range);
    proof {
        assert(views(parts@) =~= p5);
    }
    if let Some(total) = legal.all_in_to {
        let mut t = string_of("all-in (");
        push_decimal(&mut t, total);
        push_char(&mut t, ')');
        proof {
            assert(seq![t@] =~~= all_in_part(legal));
        }
        push_part(&mut parts, t);
    }
    proof {
        assert(views(parts@) =~= legal_parts(legal));
    }
    join_strings_with(&parts, " | ")
}

pub open spec fn fold_part(l: LegalActions) -> Seq<Seq<char>> {
    if l.fold {
        seq!["fold"@]
    } else {
        seq![]
    }
}

pub open spec fn check_part(l: LegalActions) -> Seq<Seq<char>> {
    if l.check {
        seq!["check"@]
    } else {
        seq![]
    }
}

pub open spec fn call_part(l: LegalActions) -> Seq<Seq<char>> {
    match l.call_amount {
        Some(a) => seq!["call ("@ + decimal(a as nat) + seq![')']],
        None => seq![],
    }
}

pub open spec fn range_part(label: Seq<char>, r: Option<crate::holdem::WagerRange>) -> Seq<Seq<char>> {
    match r {
        Some(r) => seq![
            label + decimal(r.min_total as nat) + seq!['-'] + decimal(r.max_total as nat) + seq!['>'],
        ],
        None => seq![],
    }
}

pub open spec fn all_in_part(l: LegalActions) -> Seq<Seq<char>> {
    match l.all_in_to {
        Some(t) => seq!["all-in ("@ + decimal(t as nat) + seq![')']],
        None => seq![],
    }
}

/// The options of a decision, one text each: fold, check, call with its amount, the
/// bet and raise totals allowed, and all in with its total.
pub open spec fn legal_parts(l: LegalActions) -> Seq<Seq<char>> {
    fold_part(l) + check_part(l) + call_part(l) + range_part("bet <"@, l.bet_range) + range_part(
        "raise <"@,
        l.raise_range,
    ) + all_in_part(l)
}

fn push_part(parts: &mut Vec<String>, t: String)
    ensures
        views(final(parts)@) == views(old(parts)@).push(t@),
{
    let ghost before = parts@;
    parts.push(t);
    proof {
        assert(views(parts@) =~= views(before).push(t@));
    }
}

/// The prompt at the player's decision.
pub fn decision_prompt(state: &HoldemHandState, human: Player) -> (r: String)
    requires
        state.wf(),
        state@.actor() == Some(human),
    ensures
        r@ == prompt_text(state@, human),
{
    let bot = human.opponent();
    let legal = match state.legal_actions() {
        Ok(legal) => legal,
        Err(_) => {
            return vstd::pervasive::unreached();
        },
    };
    let mut s = string_of("\nStreet: ");
    push_street(&mut s, state.street());
    push_str(&mut s, "\nBoard: ");
    push_board(&mut s, state.board().cards());
    push_str(&mut s, "\nPot: ");
    push_decimal(&mut s, state.pot());
    push_str(&mut s, "\nYou (");
    push_player(&mut s, human);
    push_str(&mut s, "): stack=");
    let me = state.player(human);
    push_decimal(&mut s, me.stack);
    push_str(&mut s, " hand=");
    push_hole_cards(&mut s, me.hole_cards);
    push_str(&mut s, "\nBot (");
    push_player(&mut s, bot);
    push_str(&mut s, "): stack=");
    push_decimal(&mut s, state.player(bot).stack);
    push_str(&mut s, "\nOptions: ");
    push_str(&mut s, format_legal_actions(legal).as_str());
    push_str(&mut s, "\n> ");
    proof {
        assert(s@ =~= prompt_text(state@, human));
    }
    s
}

fn push_label(s: &mut String, p: Player, human: Player)
    ensures
        final(s)@ == old(s)@ + seat_label(p, human),
{
    if p == human {
        push_str(s, "You");
    } else {
        push_str(s, "Bot");
    }
}

fn shown_rank(result: crate::hand_eval::ShowdownResult, p: Player) -> (r: String)
    ensures
        r@ == shown_rank_text(result, p),
{
    match p {
        Player::Button => result.player_one_rank.to_string(),
        Player::BigBlind => result.player_two_rank.to_string(),
    }
}

fn outcome_body_string(human: Player, outcome: HandOutcome) -> (r: String)
    ensures
        r@ == outcome_body(human, outcome),
{
    let mut s = String::new();
    match outcome {
        HandOutcome::Uncontested { winner, pot, street, .. } => {
            push_label(&mut s, winner, human);
            push_str(&mut s, " wins ");
            push_decimal(&mut s, pot);
            push_str(&mut s, " chips without showdown on ");
            push_street(&mut s, street);
            push_str(&mut s, ".\n");
        },
        HandOutcome::Showdown { result, pot, payout } => {
            push_str(&mut s, "Showdown for ");
            push_decimal(&mut s, pot);
            push_str(&mut s, " chips.\nYou: ");
            push_str(&mut s, shown_rank(result, human).as_str());
            push_str(&mut s, "\nBot: ");
            push_str(&mut s, shown_rank(result, human.opponent()).as_str());
            push_char(&mut s, '\n');
            if payout.player_one > payout.player_two {
                push_label(&mut s, Player::Button, human);
                push_str(&mut s, " wins the pot.\n");
            } else if payout.player_two > payout.player_one {
                push_label(&mut s, Player::BigBlind, human);
                push_str(&mut s, " wins the pot.\n");
            } else {
                push_str(&mut s, "The pot is split.\n");
            }
        },
    }
    proof {
        assert(s@ =~= outcome_body(human, outcome));
    }
    s
}

/// The end of a hand as printed.
pub fn render_outcome(state: &HoldemHandState, human: Player, outcome: HandOutcome) -> (r: String)
    ensures
        r@ == outcome_text(state@, human, outcome),
{
    let bot = human.opponent();
    let mut s = string_of("\nFinal board: ");
    push_board(&mut s, state.board().cards());
    push_str(&mut s, "\nYour cards: ");
    push_hole_cards(&mut s, state.player(human).hole_cards);
    push_str(&mut s, "\nBot cards: ");
    push_hole_cards(&mut s, state.player(bot).hole_cards);
    push_char(&mut s, '\n');
    proof {
        assert(s@ =~= outcome_head(state@, human));
    }
    push_str(&mut s, outcome_body_string(human, outcome).as_str());
    s
}

// ---------------------------------------------------------------------------
// Playing until the player must answer.
// ---------------------------------------------------------------------------

/// Betting rounds come before the wait for cards, which comes before the end.
pub open spec fn phase_rank(m: HandModel) -> int {
    match m.phase {
        HandPhase::BettingRound { .. } => 2,
        HandPhase::AwaitingBoard { .. } => 1,
        HandPhase::Terminal { .. } => 0,
    }
}

/// The cards of the dealt board that a street reveals.
pub open spec fn street_cards(street: Street, board: Seq<Card>) -> Seq<Card> {
    match street {
        Street::Flop => board.take(3),
        Street::Turn => seq![board[3]],
        _ => seq![board[4]],
    }
}

/// A check or call that the hand accepts stays on the street, and either keeps the
/// round going or ends it.
pub proof fn lemma_bot_action_keeps_street(m: HandModel, a: PlayerAction)
    requires
        m.wf(),
        a == PlayerAction::Check || a == PlayerAction::Call,
        m.apply(a).1 is Ok,
    ensures
        m.apply(a).0.street == m.street,
        m.apply(a).0.phase is BettingRound || phase_rank(m.apply(a).0) < 2,
{
}

/// The hand played from `m` until the player must answer or it ends: the bot's
/// actions (the stub bot's choice) and the board's streets as they are announced,
/// then the player's prompt or the end of the hand; the hand reached; and the error
/// that stopped the play, if one did.
#[verifier::opaque]
pub open spec fn spec_auto(m: HandModel, human: Player, board: Seq<Card>) -> (
    Seq<char>,
    HandModel,
    Option<HoldemStateError>,
)
    decreases 5 - m.street.cards_dealt(), phase_rank(m), betting_room(m),
{
    if !m.wf() {
        (seq![], m, None)
    } else {
        match m.phase {
            HandPhase::BettingRound { actor, .. } => if actor == human {
                (prompt_text(m, human), m, None)
            } else {
                let a = stub_choice(m.legal(actor))->0;
                let (m2, r) = m.apply(a);
                match r {
                    Ok(()) => {
                        proof {
                            lemma_stub_choice_is_legal(m, actor);
                            lemma_bot_action_keeps_street(m, a);
                            if m2.phase is BettingRound {
                                lemma_apply_makes_progress(m, a);
                            }
                        }
                        let (t, m3, e) = spec_auto(m2, human, board);
                        (bot_line(m, human, a) + t, m3, e)
                    },
                    Err(e) => (seq![], m, Some(e)),
                }
            },
            HandPhase::AwaitingBoard { next_street } => {
                let (m2, r) = m.deal(next_street, street_cards(next_street, board));
                match r {
                    Ok(()) => {
                        let (t, m3, e) = spec_auto(m2, human, board);
                        (reveal_line(next_street, m2.board) + t, m3, e)
                    },
                    Err(e) => (seq![], m, Some(e)),
                }
            },
            HandPhase::Terminal { outcome } => (outcome_text(m, human, outcome), m, None),
        }
    }
}

/// At the player's decision the play stops with the prompt.
pub proof fn lemma_auto_at_decision(m: HandModel, human: Player, board: Seq<Card>)
    requires
        m.wf(),
        m.actor() == Some(human),
    ensures
        spec_auto(m, human, board) == (prompt_text(m, human), m, None::<HoldemStateError>),
{
    reveal(spec_auto);
}

/// At the end of the hand the play stops with the outcome.
pub proof fn lemma_auto_at_end(m: HandModel, human: Player, board: Seq<Card>)
    requires
        m.wf(),
        m.phase is Terminal,
    ensures
        spec_auto(m, human, board) == (
            outcome_text(m, human, m.phase->outcome),
            m,
            None::<HoldemStateError>,
        ),
{
    reveal(spec_auto);
}

/// At the bot's decision the play announces the stub bot's action and goes on.
pub proof fn lemma_auto_bot_acts(m: HandModel, human: Player, board: Seq<Card>)
    requires
        m.wf(),
        m.actor() matches Some(p) && p != human,
    ensures
        ({
            let a = stub_choice(m.legal(m.actor()->0))->0;
            let next = m.apply(a).0;
            let rest = spec_auto(next, human, board);
            &&& m.apply(a).1 is Ok
            &&& spec_auto(m, human, board) == (bot_line(m, human, a) + rest.0, rest.1, rest.2)
        }),
{
    lemma_stub_choice_is_legal(m, m.actor()->0);
    reveal_with_fuel(spec_auto, 2);
}

/// Waiting for cards, the play deals the next street from the board and goes on, or
/// stops at a refused deal.
pub proof fn lemma_auto_deals(m: HandModel, human: Player, board: Seq<Card>)
    requires
        m.wf(),
        m.phase is AwaitingBoard,
    ensures
        ({
            let street = m.phase->next_street;
            let (next, r) = m.deal(street, street_cards(street, board));
            let rest = spec_auto(next, human, board);
            match r {
                Err(e) => spec_auto(m, human, board) == (Seq::<char>::empty(), m, Some(e)),
                Ok(()) => spec_auto(m, human, board) == (
                    reveal_line(street, next.board) + rest.0,
                    rest.1,
                    rest.2,
                ),
            }
        }),
{
    reveal_with_fuel(spec_auto, 2);
}

#[verifier::rlimit(60)]
proof fn lemma_bot_action_keeps_wf(m: HandModel, a: PlayerAction)
    requires
        m.wf(),
        a == PlayerAction::Check || a == PlayerAction::Call,
        m.apply(a).1 is Ok,
    ensures
        m.apply(a).0.wf(),
{
}

/// Unless a deal is refused, the bot's play always stops where the player must act or
/// where the hand has ended.
pub proof fn lemma_auto_stops_for_the_player(m: HandModel, human: Player, board: Seq<Card>)
    requires
        m.wf(),
    ensures
        spec_auto(m, human, board).2 is None ==> {
            let end = spec_auto(m, human, board).1;
            end.phase is Terminal || end.actor() == Some(human)
        },
    decreases 5 - m.street.cards_dealt(), phase_rank(m), betting_room(m),
{
    match m.phase {
        HandPhase::BettingRound { actor, .. } => {
            if actor == human {
                lemma_auto_at_decision(m, human, board);
            } else {
                let a = stub_choice(m.legal(actor))->0;
                lemma_stub_choice_is_legal(m, actor);
                let next = m.apply(a).0;
                lemma_bot_action_keeps_street(m, a);
                lemma_bot_action_keeps_wf(m, a);
                if next.phase is BettingRound {
                    lemma_apply_makes_progress(m, a);
                }
                lemma_auto_bot_acts(m, human, board);
                lemma_auto_stops_for_the_player(next, human, board);
            }
        },
        HandPhase::AwaitingBoard { next_street } => {
            lemma_auto_deals(m, human, board);
            let cards = street_cards(next_street, board);
            let (next, r) = m.deal(next_street, cards);
            if r is Ok {
                lemma_deal_keeps_wf(m, next_street, cards);
                lemma_auto_stops_for_the_player(next, human, board);
            }
        },
        HandPhase::Terminal { .. } => {
            lemma_auto_at_end(m, human, board);
        },
    }
}

// ---------------------------------------------------------------------------
// The solver's menu of actions.
// ---------------------------------------------------------------------------

/// How an action of the solver's menu is shown.
pub open spec fn abstract_action_text(a: AbstractAction) -> Seq<char> {
    match a {
        AbstractAction::Fold => "fold"@,
        AbstractAction::Check => "check"@,
        AbstractAction::Call => "call"@,
        AbstractAction::BetTo(total) => "bet to "@ + decimal(total as nat),
        AbstractAction::RaiseTo(total) => "raise to "@ + decimal(total as nat),
        AbstractAction::AllIn(total) => "all-in to "@ + decimal(total as nat),
    }
}

/// Shows an action of the solver's menu.
pub fn describe_abstract_action(action: AbstractAction) -> (r: String)
    ensures
        r@ == abstract_action_text(action),
{
    let mut s = String::new();
    match action {
        AbstractAction::Fold => push_str(&mut s, "fold"),
        AbstractAction::Check => push_str(&mut s, "check"),
        AbstractAction::Call => push_str(&mut s, "call"),
        AbstractAction::BetTo(total) => {
            push_str(&mut s, "bet to ");
            push_decimal(&mut s, total);
        },
        AbstractAction::RaiseTo(total) => {
            push_str(&mut s, "raise to ");
            push_decimal(&mut s, total);
        },
        AbstractAction::AllIn(total) => {
            push_str(&mut s, "all-in to ");
            push_decimal(&mut s, total);
        },
    }
    s
}

/// The menu's entries, numbered from one.
pub open spec fn menu_parts(actions: Seq<AbstractAction>) -> Seq<Seq<char>> {
    Seq::new(
        actions.len(),
        |i: int| decimal((i + 1) as nat) + ": "@ + abstract_action_text(actions[i]),
    )
}

/// The prompt at the player's decision in a solved spot: street, board, pot and the
/// numbered menu.
pub open spec fn menu_prompt_text(m: HandModel, actions: Seq<AbstractAction>) -> Seq<char> {
    "\nStreet: "@ + street_text(m.street) + "\nBoard: "@ + board_text(m.board) + "\nPot: "@ + decimal(
        m.pot() as nat,
    ) + "\nOptions: "@ + join(menu_parts(actions), " | "@) + "\n> "@
}

/// The prompt at the player's decision in a solved spot.
pub fn menu_prompt(state: &HoldemHandState, actions: &[AbstractAction]) -> (r: String)
    requires
        state.wf(),
    ensures
        r@ == menu_prompt_text(state@, actions@),
{
    let mut parts: Vec<String> = Vec::new();
    let mut i: usize = 0;
    while i < actions.len()
        invariant
            i <= actions@.len(),
            views(parts@) == menu_parts(actions@).take(i as int),
        decreases actions@.len() - i,
    {
        let mut t = String::new();
        push_decimal(&mut t, (i + 1) as u64);
        push_str(&mut t, ": ");
        push_str(&mut t, describe_abstract_action(actions[i]).as_str());
        let ghost before = parts@;
        parts.push(t);
        proof {
            assert(views(parts@) =~= views(before).push(t@));
            assert(menu_parts(actions@).take(i + 1) =~= menu_parts(actions@).take(i as int).push(
                t@,
            ));
        }
        i = i + 1;
    }
    proof {
        assert(menu_parts(actions@).take(i as int) =~= menu_parts(actions@));
    }
    let mut s = string_of("\nStreet: ");
    push_street(&mut s, state.street());
    push_str(&mut s, "\nBoard: ");
    push_board(&mut s, state.board().cards());
    push_str(&mut s, "\nPot: ");
    push_decimal(&mut s, state.pot());
    push_str(&mut s, "\nOptions: ");
    push_str(&mut s, join_strings_with(&parts, " | ").as_str());
    push_str(&mut s, "\n> ");
    proof {
        assert(s@ =~= menu_prompt_text(state@, actions@));
    }
    s
}

/// The first action of the menu that stands for `a`.
pub open spec fn first_standing_for(actions: Seq<AbstractAction>, a: PlayerAction) -> Option<
    AbstractAction,
>
    decreases actions.len(),
{
    if actions.len() == 0 {
        None
    } else if actions[0].spec_to_player_action() == a {
        Some(actions[0])
    } else {
        first_standing_for(actions.drop_first(), a)
    }
}

/// What an answer in a solved spot means: the menu entry it names by number or by
/// the action it stands for, `None` to quit, or what is wrong with it.
pub open spec fn spec_parse_menu_answer(s: Seq<char>, actions: Seq<AbstractAction>) -> Result<
    Option<AbstractAction>,
    Seq<char>,
> {
    let n = normalized_answer(s);
    if n.len() == 0 {
        Err("enter a listed action, its number, or `quit`"@)
    } else if n == "quit"@ || n == "q"@ || n == "exit"@ {
        Ok(None)
    } else if spec_parse_u64(n) is Some && spec_parse_u64(n)->0 <= usize::MAX {
        let k = spec_parse_u64(n)->0;
        let index = if k == 0 {
            0
        } else {
            k - 1
        };
        if index < actions.len() {
            Ok(Some(actions[index as int]))
        } else {
            Err("option number is out of range"@)
        }
    } else {
        match spec_parse_user_action(n) {
            Err(e) => Err(e),
            Ok(None) => Ok(None),
            Ok(Some(a)) => match first_standing_for(actions, a) {
                Some(b) => Ok(Some(b)),
                None => Err("that action is not in the solver menu for this spot"@),
            },
        }
    }
}

proof fn lemma_first_standing_for_is_offered(actions: Seq<AbstractAction>, a: PlayerAction)
    ensures
        first_standing_for(actions, a) matches Some(b) ==> actions.contains(b)
            && b.spec_to_player_action() == a,
    decreases actions.len(),
{
    if actions.len() > 0 && actions[0].spec_to_player_action() != a {
        lemma_first_standing_for_is_offered(actions.drop_first(), a);
        if let Some(b) = first_standing_for(actions.drop_first(), a) {
            let i = choose|i: int| 0 <= i < actions.drop_first().len() && actions.drop_first()[i] == b;
            assert(actions[i + 1] == b);
        }
    } else if actions.len() > 0 {
        assert(actions[0] == actions[0]);
    }
}

/// An answer in a solved spot that picks an action picks one of the menu's actions.
pub proof fn lemma_menu_answer_is_offered(s: Seq<char>, actions: Seq<AbstractAction>)
    ensures
        spec_parse_menu_answer(s, actions) matches Ok(Some(b)) ==> actions.contains(b),
{
    let n = normalized_answer(s);
    if let Ok(Some(a)) = spec_parse_user_action(n) {
        lemma_first_standing_for_is_offered(actions, a);
    }
    if spec_parse_u64(n) is Some && spec_parse_u64(n)->0 <= usize::MAX {
        let k = spec_parse_u64(n)->0;
        let index: int = if k == 0 {
            0
        } else {
            k - 1
        };
        if index < actions.len() {
            assert(actions[index] == actions[index]);
        }
    }
}

/// Reads an answer in a solved spot.
pub fn parse_human_abstract_action(input: &str, actions: &[AbstractAction]) -> (r: Result<
    Option<AbstractAction>,
    &'static str,
>)
    ensures
        match spec_parse_menu_answer(input@, actions@) {
            Ok(a) => r == Ok::<Option<AbstractAction>, &'static str>(a),
            Err(m) => r matches Err(e) && e@ == m,
        },
{
    let raw = chars_of(input);
    let trimmed = trim_chars(raw.as_slice());
    let n = lower_chars(trimmed.as_slice());
    let ns = n.as_slice();
    if n.len() == 0 {
        return Err("enter a listed action, its number, or `quit`");
    }
    if chars_eq(ns, "quit") || chars_eq(ns, "q") || chars_eq(ns, "exit") {
        return Ok(None);
    }
    if let Some(k) = parse_u64(ns) {
        if k as u128 <= usize::MAX as u128 {
            let index: u64 = if k == 0 {
                0
            } else {
                k - 1
            };
            if (index as u128) < (actions.len() as u128) {
                return Ok(Some(actions[index as usize]));
            }
            return Err("option number is out of range");
        }
    }
    let text = crate::text::string_of_chars(ns);
    let exact = parse_user_action(text.as_str());
    match exact {
        Err(e) => Err(e),
        Ok(None) => Ok(None),
        Ok(Some(a)) => {
            let mut i: usize = 0;
            proof {
                assert(actions@.skip(0) =~= actions@);
            }
            let ghost answer = spec_parse_menu_answer(input@, actions@);
            assert(answer == match first_standing_for(actions@, a) {
                Some(b) => Ok(Some(b)),
                None => Err("that action is not in the solver menu for this spot"@),
            });
            while i < actions.len()
                invariant
                    i <= actions@.len(),
                    answer == spec_parse_menu_answer(input@, actions@),
                    answer == match first_standing_for(actions@, a) {
                        Some(b) => Ok(Some(b)),
                        None => Err("that action is not in the solver menu for this spot"@),
                    },
                    first_standing_for(actions@, a) == first_standing_for(
                        actions@.skip(i as int),
                        a,
                    ),
                decreases actions@.len() - i,
            {
                proof {
                    assert(actions@.skip(i as int).drop_first() =~= actions@.skip(i + 1));
                    assert(actions@.skip(i as int)[0] == actions@[i as int]);
                }
                if actions[i].to_player_action() == a {
                    return Ok(Some(actions[i]));
                }
                i = i + 1;
            }
            Err("that action is not in the solver menu for this spot")
        },
    }
}

// ---------------------------------------------------------------------------
// Dealing from a board fixed in advance.
// ---------------------------------------------------------------------------

/// The five board cards of a hand are fixed in advance: all different, none in
/// either player's hand, and the hand's board is the part dealt so far.
pub open spec fn board_ahead(m: HandModel, board: Seq<Card>) -> bool {
    &&& board.len() == 5
    &&& board.no_duplicates()
    &&& forall|k: int|
        0 <= k < 5 ==> !holds_card(m.button.hole_cards, #[trigger] board[k]) && !holds_card(
            m.big_blind.hole_cards,
            board[k],
        )
    &&& m.board == board.take(m.street.cards_dealt() as int)
}

/// An accepted action leaves the board, the street and both hands as they were.
#[verifier::rlimit(80)]
proof fn lemma_apply_keeps_board(m: HandModel, a: PlayerAction)
    requires
        m.apply(a).1 is Ok,
    ensures
        m.apply(a).0.board == m.board,
        m.apply(a).0.street == m.street,
        m.apply(a).0.button.hole_cards == m.button.hole_cards,
        m.apply(a).0.big_blind.hole_cards == m.big_blind.hole_cards,
{
    match a {
        PlayerAction::Fold => {},
        PlayerAction::Check => {},
        PlayerAction::Call => {},
        PlayerAction::BetTo(_) => {},
        PlayerAction::RaiseTo(_) => {},
        PlayerAction::AllIn => {},
    }
}

/// Adding the board cards from position `i` to `j` to a hand whose board holds the
/// first `i` of them succeeds and leaves the first `j` on the board.
proof fn lemma_add_board_prefix(m: HandModel, board: Seq<Card>, i: int, j: int)
    requires
        board.len() == 5,
        board.no_duplicates(),
        forall|k: int|
            0 <= k < 5 ==> !holds_card(m.button.hole_cards, #[trigger] board[k]) && !holds_card(
                m.big_blind.hole_cards,
                board[k],
            ),
        0 <= i <= j <= 5,
        m.board == board.take(i),
    ensures
        m.add_board_cards(board.subrange(i, j)) == (
            HandModel { board: board.take(j), ..m },
            Ok::<(), HoldemStateError>(()),
        ),
    decreases j - i,
{
    if j > i {
        lemma_add_board_prefix(m, board, i, j - 1);
        assert(board.subrange(i, j).drop_last() =~= board.subrange(i, j - 1));
        assert(board.subrange(i, j).last() == board[j - 1]);
        let p = HandModel { board: board.take(j - 1), ..m };
        let card = board[j - 1];
        assert(!board.take(j - 1).contains(card)) by {
            if board.take(j - 1).contains(card) {
                let k = choose|k: int| 0 <= k < j - 1 && #[trigger] board.take(j - 1)[k] == card;
                assert(board[k] == board[j - 1]);
            }
        }
        assert(!holds_card(m.button.hole_cards, board[j - 1]));
        assert(!holds_card(m.big_blind.hole_cards, board[j - 1]));
        assert(board.take(j - 1).push(card) =~= board.take(j));
        assert(p.add_board_card(card) == (
            HandModel { board: board.take(j), ..m },
            Ok::<(), HoldemStateError>(()),
        ));
    } else {
        assert(board.subrange(i, i) =~= Seq::<Card>::empty());
        assert(board.take(i) == m.board);
    }
}

/// Dealing the next street from a board fixed in advance always succeeds and keeps
/// the board fixed in advance.
proof fn lemma_deal_from_board(m: HandModel, board: Seq<Card>)
    requires
        m.wf(),
        board_ahead(m, board),
        m.phase is AwaitingBoard,
    ensures
        ({
            let street = m.phase->next_street;
            let (next, r) = m.deal(street, street_cards(street, board));
            &&& r is Ok
            &&& next.wf()
            &&& board_ahead(next, board)
        }),
{
    let street = m.phase->next_street;
    let v = street_cards(street, board);
    let i = m.street.cards_dealt() as int;
    let j = street.cards_dealt() as int;
    match street {
        Street::Flop => {
            assert(v =~= board.subrange(0, 3));
        },
        Street::Turn => {
            assert(v =~= board.subrange(3, 4));
        },
        Street::River => {
            assert(v =~= board.subrange(4, 5));
        },
        Street::Preflop => {},
    }
    assert(v =~= board.subrange(i, j));
    lemma_add_board_prefix(m, board, i, j);
    let added = HandModel { board: board.take(j), ..m };
    let mm = HandModel {
        history: added.history.push(crate::holdem::EventRecord::BoardDealt { street, cards: v }),
        street,
        ..added
    };
    if mm.players_all_in() && street == Street::River {
        let probe = HandModel {
            phase: HandPhase::BettingRound { street: Street::River, actor: Player::Button },
            ..mm
        };
        assert(board.take(5) =~= board);
        assert forall|k: int| 0 <= k < probe.board.len() implies !holds_card(
            probe.button.hole_cards,
            #[trigger] probe.board[k],
        ) && !holds_card(probe.big_blind.hole_cards, probe.board[k]) by {
            assert(probe.board[k] == board[k]);
        }
        crate::holdem::lemma_river_showdown_resolves(probe);
    }
    lemma_deal_keeps_wf(m, street, v);
}

/// From a board fixed in advance the bot's play never stops at a refused deal, and
/// the board stays fixed in advance.
proof fn lemma_auto_never_fails(m: HandModel, human: Player, board: Seq<Card>)
    requires
        m.wf(),
        board_ahead(m, board),
    ensures
        spec_auto(m, human, board).2 is None,
        board_ahead(spec_auto(m, human, board).1, board),
    decreases 5 - m.street.cards_dealt(), phase_rank(m), betting_room(m),
{
    match m.phase {
        HandPhase::BettingRound { actor, .. } => {
            if actor == human {
                lemma_auto_at_decision(m, human, board);
            } else {
                let a = stub_choice(m.legal(actor))->0;
                lemma_stub_choice_is_legal(m, actor);
                let next = m.apply(a).0;
                lemma_bot_action_keeps_street(m, a);
                lemma_bot_action_keeps_wf(m, a);
                lemma_apply_keeps_board(m, a);
                if next.phase is BettingRound {
                    lemma_apply_makes_progress(m, a);
                }
                lemma_auto_bot_acts(m, human, board);
                lemma_auto_never_fails(next, human, board);
            }
        },
        HandPhase::AwaitingBoard { next_street } => {
            lemma_auto_deals(m, human, board);
            lemma_deal_from_board(m, board);
            let next = m.deal(next_street, street_cards(next_street, board)).0;
            lemma_auto_never_fails(next, human, board);
        },
        HandPhase::Terminal { .. } => {
            lemma_auto_at_end(m, human, board);
        },
    }
}

// ---------------------------------------------------------------------------
// The session.
// ---------------------------------------------------------------------------

/// Why a session stopped early.
#[derive(Debug)]
pub enum CliError {
    DuplicateCard(DuplicateCardError),
    State(HoldemStateError),
}

impl CliError {
    pub fn to_string(&self) -> (r: String)
        ensures
            r@ == match *self {
                CliError::DuplicateCard(e) => "duplicate card "@ + card_text(e.spec_card()),
                CliError::State(e) => state_error_text(e),
            },
    {
        match self {
            CliError::DuplicateCard(e) => e.to_string(),
            CliError::State(e) => e.to_string(),
        }
    }
}

/// The cards of one hand: both players' hands and the five board cards.
#[derive(Debug, Clone, Copy, PartialEq, Eq)]
pub struct DealtHand {
    pub button: HoleCards,
    pub big_blind: HoleCards,
    pub board: [Card; 5],
}

/// The nine cards drawn with a generator in state `rng`, in the order they are drawn:
/// a standard deck is shuffled and dealt from the back.
pub open spec fn spec_drawn_cards(rng: DeterministicRng) -> Seq<Card> {
    let d = fisher_yates(standard_cards(), rng).0;
    seq![d[51], d[50], d[49], d[48], d[47], d[46], d[45], d[44], d[43]]
}

/// The deal that draws `cards`: the button's hand from the first two, the big
/// blind's from the next two, then the board.
pub open spec fn deals(d: DealtHand, cards: Seq<Card>) -> bool {
    &&& d.button@ == HoleCards::spec_of(cards[0], cards[1])
    &&& d.big_blind@ == HoleCards::spec_of(cards[2], cards[3])
    &&& d.board@ == cards.subrange(4, 9)
}

/// The nine cards of a deal: both hands, then the board.
pub open spec fn dealt_cards(d: DealtHand) -> Seq<Card> {
    seq![d.button@.0, d.button@.1, d.big_blind@.0, d.big_blind@.1] + d.board@
}

fn draw_card(deck: &mut Deck) -> (r: Card)
    requires
        old(deck)@.len() > 0,
    ensures
        final(deck)@ == old(deck)@.drop_last(),
        r == old(deck)@.last(),
{
    match deck.draw() {
        Some(card) => card,
        None => vstd::pervasive::unreached(),
    }
}

impl DealtHand {
    /// Shuffles a full deck with the generator and deals the button's hand, the big
    /// blind's hand and the board, in that order, from the back of the deck: nine
    /// different cards, so the deal always succeeds.
    pub fn deal(rng: &mut DeterministicRng) -> (r: Result<DealtHand, CliError>)
        ensures
            r matches Ok(d) && dealt_cards(d).no_duplicates() && deals(d, spec_drawn_cards(*old(rng))),
            *final(rng) == fisher_yates(standard_cards(), *old(rng)).1,
    {
        let ghost old_rng = *rng;
        let mut deck = Deck::standard();
        deck.shuffle(rng);
        let ghost full = deck@;
        assert(full.len() == 52 && full.no_duplicates());
        let a = draw_card(&mut deck);
        let b = draw_card(&mut deck);
        let c = draw_card(&mut deck);
        let d = draw_card(&mut deck);
        let e0 = draw_card(&mut deck);
        let e1 = draw_card(&mut deck);
        let e2 = draw_card(&mut deck);
        let e3 = draw_card(&mut deck);
        let e4 = draw_card(&mut deck);
        assert(a == full[51] && b == full[50] && c == full[49] && d == full[48]);
        assert(e0 == full[47] && e1 == full[46] && e2 == full[45] && e3 == full[44] && e4 == full[43]);
        let button = match HoleCards::new(a, b) {
            Ok(h) => h,
            Err(e) => {
                return Err(CliError::DuplicateCard(e));
            },
        };
        let big_blind = match HoleCards::new(c, d) {
            Ok(h) => h,
            Err(e) => {
                return Err(CliError::DuplicateCard(e));
            },
        };
        let r = DealtHand { button, big_blind, board: [e0, e1, e2, e3, e4] };
        proof {
            assert(r.board@ =~= spec_drawn_cards(old_rng).subrange(4, 9));
            let v = dealt_cards(r);
            assert(v.len() == 9);
            assert forall|i: int, j: int| 0 <= i < 9 && 0 <= j < 9 && i != j implies v[i] != v[j] by {
                assert(v[0] == a || v[0] == b);
                assert(v[1] == a || v[1] == b);
                assert(v[0] != v[1]);
                assert(v[2] == c || v[2] == d);
                assert(v[3] == c || v[3] == d);
                assert(v[2] != v[3]);
                assert(v[4] == e0 && v[5] == e1 && v[6] == e2 && v[7] == e3 && v[8] == e4);
            }
        }
        Ok(r)
    }
}

/// What a session waits for.
#[derive(Debug, Clone, Copy, PartialEq, Eq, Structural)]
pub enum SessionMode {
    /// A new hand is to be dealt.
    NeedsDeal,
    /// The player is to answer at a decision.
    AwaitingAction,
    /// The player is to say whether to play another hand.
    AwaitingReplay,
    Finished,
}

/// The player's seat in a hand: the button in odd hands, the big blind in even ones.
pub open spec fn human_role(number: nat) -> Player {
    if number % 2 == 1 {
        Player::Button
    } else {
        Player::BigBlind
    }
}

/// What comes after a hand ends: another hand while the count allows, or the question
/// when there is no count.
pub open spec fn after_hand(config: CliConfig, number: nat) -> (Seq<char>, SessionMode) {
    match config.max_hands {
        Some(max) => if number >= max {
            (seq![], SessionMode::Finished)
        } else {
            (seq![], SessionMode::NeedsDeal)
        },
        None => (replay_prompt_text(), SessionMode::AwaitingReplay),
    }
}

/// Another hand may be dealt after `number` hands.
pub open spec fn deal_allowed(config: CliConfig, number: nat) -> bool {
    ||| number == 0
    ||| config.max_hands is None
    ||| (config.max_hands matches Some(m) && number < m)
}

/// The rest of a hand from `m`: what is printed (or the error that stops the
/// session), the hand reached, and what the session waits for next.
pub open spec fn spec_continue(config: CliConfig, number: nat, m: HandModel, board: Seq<Card>) -> (
    Result<Seq<char>, HoldemStateError>,
    HandModel,
    SessionMode,
) {
    let (t, m2, e) = spec_auto(m, human_role(number), board);
    match e {
        Some(err) => (Err(err), m2, SessionMode::Finished),
        None => if m2.phase is Terminal {
            let (more, mode) = after_hand(config, number);
            (Ok(t + more), m2, mode)
        } else {
            (Ok(t), m2, SessionMode::AwaitingAction)
        },
    }
}

/// The count of hands allows another after `number` hands.
pub open spec fn deal_counted(config: CliConfig, number: nat) -> bool {
    config.max_hands matches Some(max) && number < max
}

/// A session against the stub bot, fed one event at a time: deal a hand, or read an
/// answer.
pub struct CliSession {
    config: CliConfig,
    rng: DeterministicRng,
    hand_number: usize,
    state: Option<HoldemHandState>,
    dealt: Option<(HoleCards, HoleCards)>,
    board: [Card; 5],
    mode: SessionMode,
}

impl CliSession {
    pub closed spec fn spec_mode(&self) -> SessionMode {
        self.mode
    }

    pub closed spec fn spec_hand_number(&self) -> nat {
        self.hand_number as nat
    }

    pub closed spec fn spec_config(&self) -> CliConfig {
        self.config
    }

    /// The current hand (or the last one played).
    pub closed spec fn spec_hand(&self) -> HandModel {
        self.state->0@
    }

    /// The board cards dealt for the current hand.
    pub closed spec fn spec_board(&self) -> Seq<Card> {
        self.board@
    }

    /// The state of the session's generator.
    pub closed spec fn spec_rng(&self) -> DeterministicRng {
        self.rng
    }

    /// The hands dealt for the current hand: the button's and the big blind's.
    pub closed spec fn spec_dealt(&self) -> (HoleCards, HoleCards) {
        self.dealt->0
    }

    pub closed spec fn wf(&self) -> bool {
        &&& self.state is Some ==> self.state->0.wf() && self.hand_number >= 1
        &&& self.state is None ==> (self.mode == SessionMode::NeedsDeal && self.hand_number == 0)
            || self.mode == SessionMode::Finished
        &&& self.mode == SessionMode::AwaitingAction ==> self.state is Some && self.state->0@.actor()
            == Some(human_role(self.hand_number as nat)) && board_ahead(self.state->0@, self.board@)
        &&& self.mode == SessionMode::AwaitingReplay ==> self.config.max_hands is None
            && self.state is Some
        &&& self.mode == SessionMode::NeedsDeal ==> self.hand_number < usize::MAX && deal_allowed(
            self.config,
            self.hand_number as nat,
        )
    }

    /// A session that has dealt nothing yet, and the banner it opens with.
    pub fn new(config: CliConfig) -> (r: (CliSession, String))
        ensures
            r.0.wf(),
            r.0.spec_mode() == SessionMode::NeedsDeal,
            r.0.spec_hand_number() == 0,
            r.0.spec_config() == config,
            r.0.spec_rng() == crate::deck::seeded_generator(crate::deck::spec_expand_seed(config.seed)),
            r.1@ == banner_text() + seq!['\n'],
    {
        let mut banner = startup_banner();
        push_char(&mut banner, '\n');
        let session = CliSession {
            config,
            rng: rng_from_seed(config.seed),
            hand_number: 0,
            state: None,
            dealt: None,
            board: [
                Card::new(crate::cards::Rank::Two, crate::cards::Suit::Clubs),
                Card::new(crate::cards::Rank::Two, crate::cards::Suit::Clubs),
                Card::new(crate::cards::Rank::Two, crate::cards::Suit::Clubs),
                Card::new(crate::cards::Rank::Two, crate::cards::Suit::Clubs),
                Card::new(crate::cards::Rank::Two, crate::cards::Suit::Clubs),
            ],
            mode: SessionMode::NeedsDeal,
        };
        (session, banner)
    }

    pub fn mode(&self) -> (r: SessionMode)
        ensures
            r == self.spec_mode(),
    {
        self.mode
    }

    pub fn hand_number(&self) -> (r: usize)
        ensures
            r == self.spec_hand_number(),
    {
        self.hand_number
    }

    /// Deals the next hand from the session's generator, announces it and plays it
    /// until the player must answer or it ends.
    pub fn deal_next_hand(&mut self) -> (r: Result<String, CliError>)
        requires
            old(self).wf(),
            old(self).spec_mode() == SessionMode::NeedsDeal,
        ensures
            final(self).wf(),
            final(self).spec_config() == old(self).spec_config(),
            final(self).spec_hand_number() == old(self).spec_hand_number() + 1,
            r is Ok,
            final(self).spec_rng() == fisher_yates(standard_cards(), old(self).spec_rng()).1,
            ({
                let c = spec_drawn_cards(old(self).spec_rng());
                &&& final(self).spec_dealt().0@ == HoleCards::spec_of(c[0], c[1])
                &&& final(self).spec_dealt().1@ == HoleCards::spec_of(c[2], c[3])
                &&& final(self).spec_board() == c.subrange(4, 9)
            }),
            final(self).spec_mode() == SessionMode::NeedsDeal ==> deal_counted(
                final(self).spec_config(),
                final(self).spec_hand_number(),
            ),
            r is Ok ==> ({
                let n = final(self).spec_hand_number();
                let (button, big_blind) = final(self).spec_dealt();
                let start = crate::holdem::spec_new_hand(
                    HoldemConfig { starting_stack: 10_000, small_blind: 50, big_blind: 100 },
                    button,
                    big_blind,
                    10_000,
                    10_000,
                );
                let human = human_role(n);
                let (out, m, mode) = spec_continue(
                    old(self).spec_config(),
                    n,
                    start,
                    final(self).spec_board(),
                );
                &&& out is Ok
                &&& r->Ok_0@ == hand_header_text(n, human, start.seat(human).hole_cards) + out->Ok_0
                &&& final(self).spec_hand() == m
                &&& final(self).spec_mode() == mode
            }),
    {
        self.hand_number = self.hand_number + 1;
        let deal = match DealtHand::deal(&mut self.rng) {
            Ok(deal) => deal,
            Err(e) => {
                self.mode = SessionMode::Finished;
                return Err(e);
            },
        };
        proof {
            let v = dealt_cards(deal);
            assert(v[0] == deal.button@.0 && v[1] == deal.button@.1);
            assert(v[2] == deal.big_blind@.0 && v[3] == deal.big_blind@.1);
            assert(crate::holdem::shared_hole_card(deal.button, deal.big_blind) is None);
        }
        let state = match HoldemHandState::new(HoldemConfig::default(), deal.button, deal.big_blind) {
            Ok(state) => state,
            Err(e) => {
                self.mode = SessionMode::Finished;
                return Err(CliError::State(e));
            },
        };
        let human = if self.hand_number % 2 == 1 {
            Player::Button
        } else {
            Player::BigBlind
        };
        let mut out = string_of("\nHand ");
        push_decimal(&mut out, self.hand_number as u64);
        push_str(&mut out, "\nYou are the ");
        push_player(&mut out, human);
        push_str(&mut out, ".\nYour cards: ");
        push_hole_cards(&mut out, state.player(human).hole_cards);
        push_char(&mut out, '\n');
        proof {
            assert(out@ =~= hand_header_text(
                self.hand_number as nat,
                human,
                state@.seat(human).hole_cards,
            ));
        }
        proof {
            let v = dealt_cards(deal);
            assert(v[0] == deal.button@.0 && v[1] == deal.button@.1);
            assert(v[2] == deal.big_blind@.0 && v[3] == deal.big_blind@.1);
            assert forall|k: int| 0 <= k < 5 implies !holds_card(state@.button.hole_cards, #[trigger] deal.board@[k])
                && !holds_card(state@.big_blind.hole_cards, deal.board@[k]) by {
                assert(v[k + 4] == deal.board@[k]);
            }
            assert forall|i: int, j: int| 0 <= i < 5 && 0 <= j < 5 && i != j implies deal.board@[i]
                != deal.board@[j] by {
                assert(v[i + 4] == deal.board@[i]);
                assert(v[j + 4] == deal.board@[j]);
            }
            assert(deal.board@.take(0) =~= Seq::<Card>::empty());
        }
        self.state = Some(state);
        self.dealt = Some((deal.button, deal.big_blind));
        self.board = deal.board;
        let rest = self.play_until_input()?;
        push_str(&mut out, rest.as_str());
        Ok(out)
    }

    /// Reads the player's answer (`None` when the input has ended): an action at a
    /// decision, or whether to play another hand.
    pub fn answer(&mut self, line: Option<&str>) -> (r: Result<String, CliError>)
        requires
            old(self).wf(),
            old(self).spec_mode() == SessionMode::AwaitingAction || old(self).spec_mode()
                == SessionMode::AwaitingReplay,
        ensures
            final(self).wf(),
            r is Ok,
            final(self).spec_config() == old(self).spec_config(),
            final(self).spec_hand_number() == old(self).spec_hand_number(),
            final(self).spec_rng() == old(self).spec_rng(),
            final(self).spec_board() == old(self).spec_board(),
            ({
                let n = old(self).spec_hand_number();
                let m = old(self).spec_hand();
                let human = human_role(n);
                match line {
                    None => r matches Ok(out) && out@ == "Input closed; exiting.\n"@
                        && final(self).spec_mode() == SessionMode::Finished,
                    Some(l) => if old(self).spec_mode() == SessionMode::AwaitingAction {
                        match spec_parse_user_action(l@) {
                            Err(msg) => r matches Ok(out) && out@ == "Invalid action: "@ + msg
                                + seq!['\n'] + prompt_text(m, human) && final(self).spec_mode()
                                == SessionMode::AwaitingAction && final(self).spec_hand() == m,
                            Ok(None) => r matches Ok(out) && out@ == "Exiting.\n"@
                                && final(self).spec_mode() == SessionMode::Finished,
                            Ok(Some(a)) => match m.apply(a) {
                                (_, Err(e)) => r matches Ok(out) && out@ == "Invalid action: "@
                                    + state_error_text(e) + seq!['\n'] + prompt_text(m, human)
                                    && final(self).spec_mode() == SessionMode::AwaitingAction
                                    && final(self).spec_hand() == m,
                                (next, Ok(())) => {
                                    let (out, m2, mode) = spec_continue(
                                        old(self).spec_config(),
                                        n,
                                        next,
                                        old(self).spec_board(),
                                    );
                                    &&& final(self).spec_mode() == mode
                                    &&& match out {
                                        Err(e) => r matches Err(CliError::State(x)) && x == e,
                                        Ok(t) => r matches Ok(o) && o@ == t && final(self).spec_hand()
                                            == m2,
                                    }
                                },
                            },
                        }
                    } else {
                        match spec_play_again(l@) {
                            Some(true) => r matches Ok(out) && out@ == Seq::<char>::empty()
                                && final(self).spec_mode() == if n < usize::MAX {
                                SessionMode::NeedsDeal
                            } else {
                                SessionMode::Finished
                            },
                            Some(false) => r matches Ok(out) && out@ == Seq::<char>::empty()
                                && final(self).spec_mode() == SessionMode::Finished,
                            None => r matches Ok(out) && out@ == "Please answer `y` or `n`.\n"@
                                + replay_prompt_text() && final(self).spec_mode()
                                == SessionMode::AwaitingReplay,
                        }
                    },
                }
            }),
    {
        let text = match line {
            None => {
                self.mode = SessionMode::Finished;
                return Ok(string_of("Input closed; exiting.\n"));
            },
            Some(text) => text,
        };
        if self.mode == SessionMode::AwaitingReplay {
            self.answer_replay(text)
        } else {
            self.answer_action(text)
        }
    }

    fn answer_replay(&mut self, text: &str) -> (r: Result<String, CliError>)
        requires
            old(self).wf(),
            old(self).spec_mode() == SessionMode::AwaitingReplay,
        ensures
            final(self).spec_board() == old(self).spec_board(),
            final(self).spec_rng() == old(self).spec_rng(),
            final(self).wf(),
            final(self).spec_config() == old(self).spec_config(),
            final(self).spec_hand_number() == old(self).spec_hand_number(),
            match spec_play_again(text@) {
                Some(true) => r matches Ok(out) && out@ == Seq::<char>::empty()
                    && final(self).spec_mode() == if old(self).spec_hand_number() < usize::MAX {
                    SessionMode::NeedsDeal
                } else {
                    SessionMode::Finished
                },
                Some(false) => r matches Ok(out) && out@ == Seq::<char>::empty()
                    && final(self).spec_mode() == SessionMode::Finished,
                None => r matches Ok(out) && out@ == "Please answer `y` or `n`.\n"@
                    + replay_prompt_text() && final(self).spec_mode() == SessionMode::AwaitingReplay,
            },
    {
        match play_again_answer(text) {
            Some(true) => {
                if self.hand_number < usize::MAX {
                    self.mode = SessionMode::NeedsDeal;
                } else {
                    self.mode = SessionMode::Finished;
                }
                Ok(String::new())
            },
            Some(false) => {
                self.mode = SessionMode::Finished;
                Ok(String::new())
            },
            None => {
                let mut out = string_of("Please answer `y` or `n`.\n");
                push_str(&mut out, "\nPlay another hand? [y/n]\n> ");
                Ok(out)
            },
        }
    }

    #[verifier::rlimit(40)]
    fn answer_action(&mut self, text: &str) -> (r: Result<String, CliError>)
        requires
            old(self).wf(),
            old(self).spec_mode() == SessionMode::AwaitingAction,
        ensures
            final(self).spec_board() == old(self).spec_board(),
            final(self).spec_rng() == old(self).spec_rng(),
            final(self).wf(),
            r is Ok,
            final(self).spec_config() == old(self).spec_config(),
            final(self).spec_hand_number() == old(self).spec_hand_number(),
            ({
                let n = old(self).spec_hand_number();
                let m = old(self).spec_hand();
                let human = human_role(n);
                match spec_parse_user_action(text@) {
                    Err(msg) => r matches Ok(out) && out@ == "Invalid action: "@ + msg + seq!['\n']
                        + prompt_text(m, human) && final(self).spec_mode()
                        == SessionMode::AwaitingAction && final(self).spec_hand() == m,
                    Ok(None) => r matches Ok(out) && out@ == "Exiting.\n"@ && final(self).spec_mode()
                        == SessionMode::Finished,
                    Ok(Some(a)) => match m.apply(a) {
                        (_, Err(e)) => r matches Ok(out) && out@ == "Invalid action: "@
                            + state_error_text(e) + seq!['\n'] + prompt_text(m, human)
                            && final(self).spec_mode() == SessionMode::AwaitingAction
                            && final(self).spec_hand() == m,
                        (next, Ok(())) => {
                            let (out, m2, mode) = spec_continue(
                                old(self).spec_config(),
                                n,
                                next,
                                old(self).spec_board(),
                            );
                            &&& final(self).spec_mode() == mode
                            &&& match out {
                                Err(e) => r matches Err(CliError::State(x)) && x == e,
                                Ok(t) => r matches Ok(o) && o@ == t && final(self).spec_hand() == m2,
                            }
                        },
                    },
                }
            }),
    {
        let human = if self.hand_number % 2 == 1 {
            Player::Button
        } else {
            Player::BigBlind
        };
        let mut state = match self.state.take() {
            Some(state) => state,
            None => vstd::pervasive::unreached(),
        };
        let ghost m = state@;
        match parse_user_action(text) {
            Err(message) => {
                let mut out = string_of("Invalid action: ");
                push_str(&mut out, message);
                push_char(&mut out, '\n');
                push_str(&mut out, decision_prompt(&state, human).as_str());
                self.state = Some(state);
                Ok(out)
            },
            Ok(None) => {
                self.state = Some(state);
                self.mode = SessionMode::Finished;
                Ok(string_of("Exiting.\n"))
            },
            Ok(Some(action)) => {
                match state.apply_action(action) {
                    Ok(()) => {
                        proof {
                            lemma_apply_keeps_board(m, action);
                        }
                        self.state = Some(state);
                        self.play_until_input()
                    },
                    Err(e) => {
                        proof {
                            crate::holdem::lemma_refused_action_changes_nothing(m, action);
                        }
                        let mut out = string_of("Invalid action: ");
                        push_str(&mut out, e.to_string().as_str());
                        push_char(&mut out, '\n');
                        push_str(&mut out, decision_prompt(&state, human).as_str());
                        self.state = Some(state);
                        Ok(out)
                    },
                }
            },
        }
    }

    /// Plays the current hand until the player must answer or it ends, then moves on
    /// as the session's count says.
    fn play_until_input(&mut self) -> (r: Result<String, CliError>)
        requires
            old(self).state is Some,
            old(self).state->0.wf(),
            old(self).hand_number >= 1,
            board_ahead(old(self).state->0@, old(self).board@),
        ensures
            final(self).spec_rng() == old(self).spec_rng(),
            final(self).wf(),
            r is Ok,
            final(self).spec_hand_number() == old(self).spec_hand_number(),
            final(self).spec_config() == old(self).spec_config(),
            final(self).spec_board() == old(self).spec_board(),
            final(self).spec_dealt() == old(self).spec_dealt(),
            ({
                let (out, m, mode) = spec_continue(
                    old(self).spec_config(),
                    old(self).spec_hand_number(),
                    old(self).spec_hand(),
                    old(self).spec_board(),
                );
                &&& final(self).spec_mode() == mode
                &&& match out {
                    Err(e) => r matches Err(CliError::State(x)) && x == e,
                    Ok(t) => r matches Ok(o) && o@ == t && final(self).spec_hand() == m,
                }
            }),
    {
        let human = if self.hand_number % 2 == 1 {
            Player::Button
        } else {
            Player::BigBlind
        };
        let mut state = match self.state.take() {
            Some(state) => state,
            None => vstd::pervasive::unreached(),
        };
        let ghost start = state@;
        let ghost board = self.board@;
        proof {
            lemma_auto_never_fails(start, human, board);
        }
        let mut out = String::new();
        loop
            invariant
                state.wf(),
                spec_auto(start, human, board).2 is None,
                board_ahead(spec_auto(start, human, board).1, board),
                self.state is None,
                self.board@ == board,
                self.hand_number == old(self).hand_number,
                self.config == old(self).config,
                self.mode == old(self).mode,
                self.dealt == old(self).dealt,
                self.rng == old(self).rng,
                board == old(self).board@,
                start == old(self).state->0@,
                human == human_role(self.hand_number as nat),
                1 <= self.hand_number,
                ({
                    let (t0, m0, e0) = spec_auto(start, human, board);
                    let (t1, m1, e1) = spec_auto(state@, human, board);
                    t0 == out@ + t1 && m0 == m1 && e0 == e1
                }),
            decreases 5 - state@.street.cards_dealt(), phase_rank(state@), betting_room(state@),
        {
            match state.phase() {
                HandPhase::BettingRound { actor, .. } => {
                    if actor == human {
                        proof {
                            lemma_auto_at_decision(state@, human, board);
                        }
                        let prompt = decision_prompt(&state, human);
                        push_str(&mut out, prompt.as_str());
                        self.state = Some(state);
                        self.mode = SessionMode::AwaitingAction;
                        return Ok(out);
                    }
                    bot_step(&mut state, human, Ghost(board), &mut out);
                },
                HandPhase::AwaitingBoard { next_street } => {
                    match board_step(&mut state, human, &self.board, &mut out) {
                        Ok(()) => {},
                        Err(e) => {
                            self.state = Some(state);
                            self.mode = SessionMode::Finished;
                            return Err(CliError::State(e));
                        },
                    }
                },
                HandPhase::Terminal { outcome } => {
                    proof {
                        lemma_auto_at_end(state@, human, board);
                    }
                    let text = render_outcome(&state, human, outcome);
                    push_str(&mut out, text.as_str());
                    self.state = Some(state);
                    match self.config.max_hands {
                        Some(max) => {
                            if self.hand_number >= max {
                                self.mode = SessionMode::Finished;
                            } else {
                                self.mode = SessionMode::NeedsDeal;
                            }
                        },
                        None => {
                            push_str(&mut out, "\nPlay another hand? [y/n]\n> ");
                            self.mode = SessionMode::AwaitingReplay;
                        },
                    }
                    return Ok(out);
                },
            }
        }
    }
}

/// The play position `b` comes after `a`.
pub open spec fn auto_progress(a: HandModel, b: HandModel) -> bool {
    let ka = 5 - a.street.cards_dealt();
    let kb = 5 - b.street.cards_dealt();
    &&& 0 <= kb
    &&& 0 <= betting_room(b)
    &&& (kb < ka || (kb == ka && (phase_rank(b) < phase_rank(a) || (phase_rank(b) == phase_rank(a)
        && betting_room(b) < betting_room(a)))))
}

/// One action of the bot, announced.
fn bot_step(state: &mut HoldemHandState, human: Player, Ghost(board): Ghost<Seq<Card>>, out: &mut String)
    requires
        old(state).wf(),
        old(state)@.actor() matches Some(p) && p != human,
    ensures
        final(state).wf(),
        auto_progress(old(state)@, final(state)@),
        ({
            let (t0, m0, e0) = spec_auto(old(state)@, human, board);
            let (t1, m1, e1) = spec_auto(final(state)@, human, board);
            &&& t0 == (final(out)@.skip(old(out)@.len() as int)) + t1
            &&& final(out)@.take(old(out)@.len() as int) == old(out)@
            &&& final(out)@.len() >= old(out)@.len()
            &&& m0 == m1
            &&& e0 == e1
        }),
{
    let actor = match state.current_actor() {
        Some(a) => a,
        None => vstd::pervasive::unreached(),
    };
    let action = match StubBot.choose_action(state) {
        Ok(a) => a,
        Err(_) => vstd::pervasive::unreached(),
    };
    proof {
        lemma_stub_choice_is_legal(state@, actor);
        lemma_auto_bot_acts(state@, human, board);
    }
    let line = describe_action(action, state);
    let ghost m = state@;
    match state.apply_action(action) {
        Ok(()) => {},
        Err(_) => vstd::pervasive::unreached(),
    }
    proof {
        lemma_bot_action_keeps_street(m, action);
        if state@.phase is BettingRound {
            lemma_apply_makes_progress(m, action);
        }
    }
    let ghost before = out@;
    push_str(out, "Bot (");
    push_player(out, human.opponent());
    push_str(out, ") -> ");
    push_str(out, line.as_str());
    push_char(out, '\n');
    proof {
        assert(out@.skip(before.len() as int) =~= bot_line(m, human, action));
        assert(out@.take(before.len() as int) =~= before);
    }
}

/// The next street dealt from the board, announced.
fn board_step(state: &mut HoldemHandState, human: Player, board: &[Card; 5], out: &mut String) -> (r:
    Result<(), HoldemStateError>)
    requires
        old(state).wf(),
        old(state)@.phase is AwaitingBoard,
    ensures
        final(state).wf(),
        ({
            let (t0, m0, e0) = spec_auto(old(state)@, human, board@);
            match r {
                Err(e) => e0 == Some(e),
                Ok(()) => {
                    let (t1, m1, e1) = spec_auto(final(state)@, human, board@);
                    &&& auto_progress(old(state)@, final(state)@)
                    &&& t0 == (final(out)@.skip(old(out)@.len() as int)) + t1
                    &&& final(out)@.take(old(out)@.len() as int) == old(out)@
                    &&& final(out)@.len() >= old(out)@.len()
                    &&& m0 == m1
                    &&& e0 == e1
                },
            }
        }),
{
    let next_street = match state.phase() {
        HandPhase::AwaitingBoard { next_street } => next_street,
        _ => vstd::pervasive::unreached(),
    };
    let ghost m = state@;
    proof {
        lemma_auto_deals(m, human, board@);
    }
    let dealt = match next_street {
        Street::Flop => state.deal_flop([board[0], board[1], board[2]]),
        Street::Turn => state.deal_turn(board[3]),
        _ => state.deal_river(board[4]),
    };
    proof {
        let cards = street_cards(next_street, board@);
        if next_street == Street::Flop {
            assert([board[0], board[1], board[2]]@ =~= cards);
        } else if next_street == Street::Turn {
            assert(seq![board[3]] =~= cards);
        } else {
            assert(seq![board[4]] =~= cards);
        }
    }
    match dealt {
        Ok(()) => {},
        Err(e) => {
            return Err(e);
        },
    }
    let ghost before = out@;
    match next_street {
        Street::Flop => push_str(out, "Flop: "),
        Street::Turn => push_str(out, "Turn: "),
        _ => push_str(out, "River: "),
    }
    push_board(out, state.board().cards());
    push_char(out, '\n');
    proof {
        assert(out@.skip(before.len() as int) =~= reveal_line(next_street, state@.board));
        assert(out@.take(before.len() as int) =~= before);
    }
    Ok(())
}


// ---------------------------------------------------------------------------
// A whole session over scripted input.
// ---------------------------------------------------------------------------

/// The text between line breaks, empty pieces included.
pub open spec fn line_pieces(s: Seq<char>) -> Seq<Seq<char>>
    decreases s.len(),
{
    if s.len() == 0 {
        seq![Seq::<char>::empty()]
    } else {
        let prev = line_pieces(s.drop_last());
        if s.last() == '\n' {
            prev.push(Seq::<char>::empty())
        } else {
            prev.update(prev.len() - 1, prev.last().push(s.last()))
        }
    }
}

/// The lines of an input as they are read one by one: the text after the last line
/// break is a line only when it is not empty.
pub open spec fn input_lines(s: Seq<char>) -> Seq<Seq<char>> {
    let p = line_pieces(s);
    if p.last().len() == 0 {
        p.drop_last()
    } else {
        p
    }
}

fn lines_of(s: &[char]) -> (r: Vec<Vec<char>>)
    ensures
        r@.map_values(|t: Vec<char>| t@) == input_lines(s@),
{
    let mut done: Vec<Vec<char>> = Vec::new();
    let mut cur: Vec<char> = Vec::new();
    let mut i: usize = 0;
    while i < s.len()
        invariant
            i <= s@.len(),
            line_pieces(s@.take(i as int)).len() >= 1,
            cur@ == line_pieces(s@.take(i as int)).last(),
            done@.map_values(|t: Vec<char>| t@) == line_pieces(s@.take(i as int)).drop_last(),
        decreases s@.len() - i,
    {
        let c = s[i];
        let ghost pieces = line_pieces(s@.take(i as int));
        proof {
            assert(s@.take(i + 1).drop_last() =~= s@.take(i as int));
            assert(s@.take(i + 1).last() == c);
        }
        if c == '\n' {
            let mut piece: Vec<char> = Vec::new();
            std::mem::swap(&mut piece, &mut cur);
            let ghost before = done@;
            done.push(piece);
            proof {
                let next = line_pieces(s@.take(i + 1));
                assert(next == pieces.push(Seq::<char>::empty()));
                assert(next.drop_last() =~= pieces);
                assert(pieces.drop_last().push(pieces.last()) =~= pieces);
                assert(done@.map_values(|t: Vec<char>| t@) =~= before.map_values(|t: Vec<char>| t@).push(
                    pieces.last(),
                ));
            }
        } else {
            cur.push(c);
            proof {
                let next = line_pieces(s@.take(i + 1));
                assert(next == pieces.update(pieces.len() - 1, pieces.last().push(c)));
                assert(next.drop_last() =~= pieces.drop_last());
            }
        }
        i = i + 1;
    }
    let ghost pieces = line_pieces(s@.take(i as int));
    proof {
        assert(s@.take(i as int) =~= s@);
    }
    if cur.len() > 0 {
        let ghost before = done@;
        done.push(cur);
        proof {
            assert(pieces.drop_last().push(pieces.last()) =~= pieces);
            assert(done@.map_values(|t: Vec<char>| t@) =~= before.map_values(|t: Vec<char>| t@).push(
                pieces.last(),
            ));
        }
    }
    done
}

/// Where a session stands, as far as what it prints next depends on it: the state of
/// its generator, the number of hands dealt, what it waits for, and (while it waits
/// for an action) the hand and the board cards dealt for it.
pub type SessionPoint = (DeterministicRng, nat, SessionMode, HandModel, Seq<Card>);

/// A session stands at `p` under `config`.
pub open spec fn stands_at(s: CliSession, config: CliConfig, p: SessionPoint) -> bool {
    &&& s.spec_config() == config
    &&& s.spec_rng() == p.0
    &&& s.spec_hand_number() == p.1
    &&& s.spec_mode() == p.2
    &&& p.2 == SessionMode::AwaitingAction ==> s.spec_hand() == p.3 && s.spec_board() == p.4
}

/// The hand made of two distinct cards, the higher first.
pub open spec fn hole_of(a: Card, b: Card) -> HoleCards {
    choose|h: HoleCards| h@ == HoleCards::spec_of(a, b)
}

/// Dealing the next hand: the nine cards the generator draws, the hand played until
/// the player must answer or it ends; where the session then stands and what it
/// prints.
pub open spec fn deal_step(config: CliConfig, p: SessionPoint) -> (SessionPoint, Seq<char>) {
    let c = spec_drawn_cards(p.0);
    let n = p.1 + 1;
    let start = crate::holdem::spec_new_hand(
        HoldemConfig { starting_stack: 10_000, small_blind: 50, big_blind: 100 },
        hole_of(c[0], c[1]),
        hole_of(c[2], c[3]),
        10_000,
        10_000,
    );
    let human = human_role(n);
    let board = c.subrange(4, 9);
    let (out, m, mode) = spec_continue(config, n, start, board);
    (
        (fisher_yates(standard_cards(), p.0).1, n, mode, m, board),
        hand_header_text(n, human, start.seat(human).hole_cards) + out->Ok_0,
    )
}

/// Reading one answer (`None` at the end of input): where the session then stands and
/// what it prints.
pub open spec fn answer_step(config: CliConfig, p: SessionPoint, line: Option<Seq<char>>) -> (
    SessionPoint,
    Seq<char>,
) {
    let (rng, n, mode, m, board) = p;
    let human = human_role(n);
    match line {
        None => ((rng, n, SessionMode::Finished, m, board), "Input closed; exiting.\n"@),
        Some(l) => if mode == SessionMode::AwaitingAction {
            match spec_parse_user_action(l) {
                Err(msg) => (
                    (rng, n, SessionMode::AwaitingAction, m, board),
                    "Invalid action: "@ + msg + seq!['\n'] + prompt_text(m, human),
                ),
                Ok(None) => ((rng, n, SessionMode::Finished, m, board), "Exiting.\n"@),
                Ok(Some(a)) => match m.apply(a) {
                    (_, Err(e)) => (
                        (rng, n, SessionMode::AwaitingAction, m, board),
                        "Invalid action: "@ + state_error_text(e) + seq!['\n'] + prompt_text(m, human),
                    ),
                    (next, Ok(())) => {
                        let (out, m2, mode2) = spec_continue(config, n, next, board);
                        ((rng, n, mode2, m2, board), out->Ok_0)
                    },
                },
            }
        } else {
            match spec_play_again(l) {
                Some(true) => (
                    (
                        rng,
                        n,
                        if n < usize::MAX {
                            SessionMode::NeedsDeal
                        } else {
                            SessionMode::Finished
                        },
                        m,
                        board,
                    ),
                    Seq::empty(),
                ),
                Some(false) => ((rng, n, SessionMode::Finished, m, board), Seq::empty()),
                None => (
                    (rng, n, SessionMode::AwaitingReplay, m, board),
                    "Please answer `y` or `n`.\n"@ + replay_prompt_text(),
                ),
            }
        },
    }
}

/// The hands the count of hands still allows after `number` hands.
pub open spec fn hands_left(config: CliConfig, number: nat) -> int {
    match config.max_hands {
        Some(m) => if number < m {
            m - number
        } else {
            0
        },
        None => 0,
    }
}

/// What a session standing at `p` prints from there on, fed the lines `lines`: it
/// deals when a hand is due and otherwise reads the next line, or the end of input
/// when none is left, until it finishes.
pub open spec fn session_run(config: CliConfig, p: SessionPoint, lines: Seq<Seq<char>>) -> Seq<char>
    decreases lines.len() + (if p.2 == SessionMode::Finished {
        0int
    } else {
        1int
    }), hands_left(config, p.1), (if p.2 == SessionMode::NeedsDeal {
        1int
    } else {
        0int
    }),
{
    if p.2 == SessionMode::Finished {
        Seq::empty()
    } else if p.2 == SessionMode::NeedsDeal {
        let (q, t) = deal_step(config, p);
        t + session_run(config, q, lines)
    } else if lines.len() == 0 {
        let (q, t) = answer_step(config, p, None);
        t + session_run(config, q, lines)
    } else {
        let (q, t) = answer_step(config, p, Some(lines[0]));
        t + session_run(config, q, lines.drop_first())
    }
}

/// Where a new session stands: its generator seeded, no hand dealt, a deal due.
pub open spec fn session_start(config: CliConfig) -> SessionPoint {
    (
        crate::deck::seeded_generator(crate::deck::spec_expand_seed(config.seed)),
        0,
        SessionMode::NeedsDeal,
        vstd::pervasive::arbitrary(),
        Seq::empty(),
    )
}

/// The whole text of a session fed `input`: the banner, then what it prints.
pub open spec fn session_transcript(config: CliConfig, input: Seq<char>) -> Seq<char> {
    banner_text() + seq!['\n'] + session_run(config, session_start(config), input_lines(input))
}

/// What is left of a session: the unread lines (and the end of input, while the
/// session runs), the hands the count still allows, and whether a deal is due.
pub open spec fn session_left(s: CliSession, unread: nat) -> (int, int, int) {
    let running = if s.spec_mode() == SessionMode::Finished {
        0int
    } else {
        1int
    };
    let deal = if s.spec_mode() == SessionMode::NeedsDeal {
        1int
    } else {
        0int
    };
    (unread + running, hands_left(s.spec_config(), s.spec_hand_number()), deal)
}

/// Plays a whole session with the given input, one line per answer, and returns all
/// it printed. It stops when the player quits, when the input ends, when the count
/// of hands is reached, or when the player declines another hand. It never fails:
/// every deal gives nine different cards, so no board card is ever refused.
#[verifier::rlimit(100)]
pub fn run_session(input: &str, config: CliConfig) -> (r: Result<String, CliError>)
    ensures
        r matches Ok(t) && t@ == session_transcript(config, input@),
{
    let (mut session, banner) = CliSession::new(config);
    let mut out = banner;
    let chars = chars_of(input);
    let lines = lines_of(chars.as_slice());
    let ghost all = input_lines(input@);
    let ghost start = session_start(config);
    let ghost mut p = start;
    let mut next: usize = 0;
    proof {
        assert(all.skip(0) =~= all);
    }
    loop
        invariant
            session.wf(),
            next <= lines@.len(),
            lines@.map_values(|t: Vec<char>| t@) == all,
            all == input_lines(input@),
            start == session_start(config),
            stands_at(session, config, p),
            out@ + session_run(config, p, all.skip(next as int)) == banner_text() + seq!['\n']
                + session_run(config, start, all),
        decreases session_left(session, (lines@.len() - next) as nat).0, session_left(
            session,
            (lines@.len() - next) as nat,
        ).1, session_left(session, (lines@.len() - next) as nat).2,
    {
        let ghost before = out@;
        let ghost rest = all.skip(next as int);
        match session.mode() {
            SessionMode::Finished => {
                proof {
                    assert(session_run(config, p, rest) == Seq::<char>::empty());
                    assert(out@ + session_run(config, p, rest) =~= out@);
                    assert(out@ == banner_text() + seq!['\n'] + session_run(config, start, all));
                    assert(session_transcript(config, input@) == banner_text() + seq!['\n'] + session_run(config, start, all));
                }
                return Ok(out);
            },
            SessionMode::NeedsDeal => {
                let ghost old_session = session;
                let text = session.deal_next_hand()?;
                proof {
                    let c = spec_drawn_cards(p.0);
                    lemma_hole_of(c[0], c[1], session.spec_dealt().0);
                    lemma_hole_of(c[2], c[3], session.spec_dealt().1);
                    lemma_run_deal(config, p, rest);
                    let (q, t) = deal_step(config, p);
                    assert(text@ == t);
                    p = q;
                }
                push_str(&mut out, text.as_str());
                proof {
                    assert(out@ + session_run(config, p, rest) =~= before + (text@ + session_run(config, p, rest)));
                }
            },
            _ => {
                if next < lines.len() {
                    let line = crate::text::string_of_chars(lines[next].as_slice());
                    proof {
                        assert(line@ == all[next as int]);
                        assert(rest[0] == all[next as int]);
                        assert(rest.drop_first() =~= all.skip(next + 1));
                    }
                    next = next + 1;
                    let text = session.answer(Some(line.as_str()))?;
                    proof {
                        lemma_run_answer(config, p, rest);
                        let (q, t) = answer_step(config, p, Some(rest[0]));
                        assert(text@ == t);
                        p = q;
                    }
                    push_str(&mut out, text.as_str());
                } else {
                    let text = session.answer(None)?;
                    proof {
                        assert(rest.len() == 0);
                        lemma_run_end(config, p, rest);
                        let (q, t) = answer_step(config, p, None);
                        assert(text@ == t);
                        p = q;
                    }
                    push_str(&mut out, text.as_str());
                }
                proof {
                    assert(out@ + session_run(config, p, all.skip(next as int)) =~= before + (
                        out@.skip(before.len() as int) + session_run(config, p, all.skip(next as int))
                    ));
                }
            },
        }
    }
}

proof fn lemma_run_deal(config: CliConfig, p: SessionPoint, lines: Seq<Seq<char>>)
    requires
        p.2 == SessionMode::NeedsDeal,
    ensures
        session_run(config, p, lines) == deal_step(config, p).1 + session_run(
            config,
            deal_step(config, p).0,
            lines,
        ),
{
}

proof fn lemma_run_answer(config: CliConfig, p: SessionPoint, lines: Seq<Seq<char>>)
    requires
        p.2 == SessionMode::AwaitingAction || p.2 == SessionMode::AwaitingReplay,
        lines.len() > 0,
    ensures
        session_run(config, p, lines) == answer_step(config, p, Some(lines[0])).1 + session_run(
            config,
            answer_step(config, p, Some(lines[0])).0,
            lines.drop_first(),
        ),
{
}

proof fn lemma_run_end(config: CliConfig, p: SessionPoint, lines: Seq<Seq<char>>)
    requires
        p.2 == SessionMode::AwaitingAction || p.2 == SessionMode::AwaitingReplay,
        lines.len() == 0,
    ensures
        session_run(config, p, lines) == answer_step(config, p, None).1 + session_run(
            config,
            answer_step(config, p, None).0,
            lines,
        ),
{
}

/// The hand made of two distinct cards is the one that holds them.
proof fn lemma_hole_of(a: Card, b: Card, h: HoleCards)
    requires
        h@ == HoleCards::spec_of(a, b),
    ensures
        hole_of(a, b) == h,
{
    let g = hole_of(a, b);
    assert(g@ == HoleCards::spec_of(a, b));
    crate::cards::lemma_hole_cards_view_injective(g, h);
}

} // verus!
