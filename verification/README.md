# gto_core

Heads-up no-limit hold'em: the rules of a hand and of a match, cards, hand
evaluation, ranges, the betting abstraction and public game tree used by the
strategy bots, a stub bot, blueprint charts, scripted spots, the export of spots to
the TexasSolver text format, and the interactive command-line session. The library
is written in Verus, and Verus proves the contracts of its functions. Three small
wrappers around outside code are trusted rather than proved: `push_char`
(`String::push`), `chacha_from_seed` (`ChaCha8Rng::from_seed`) and `random_index_up_to`
(`Rng::random_range`). Their doc comments say what each contract claims.

Layout:

- `src/` — the verified library. `holdem.rs` (a hand as a state machine over a
  mathematical model `HandModel`), `matchplay.rs`, `cards.rs`, `card_text.rs`,
  `hand_eval.rs`, `range.rs`, `range_parse.rs`, `deck.rs` (the seeded ChaCha8 deck,
  through `rand` and `rand_chacha`), `text.rs`, `rules_text.rs` and `phase_text.rs` (texts
  and their read-back laws), `cli.rs` (the session as events in, text out), `tasks.rs`,
  `web.rs`, and `solver/` (abstraction, tree, stub and blueprint policies, scripted
  spots, TexasSolver export and grading decisions, Kuhn poker).
- `tests/` — tests run against the compiled library.
- `app/` — the command-line program: standard input and output, files, the
  floating-point CFR+ solver for flop, turn and river spots (board cards still to
  come are dealt by chance) that the river demo, the grading and the solver bot use,
  and the bot's pick of the most likely action.
