use std::cmp::Ordering;

use gto_core::{
    award_pot_heads_up, evaluate_five, evaluate_seven, resolve_holdem_showdown, Board, Card,
    EvaluateHandError, HandCategory, HeadsUpPayout, OddChipRecipient, ShowdownError,
};

fn parse_cards<const N: usize>(input: &str) -> [Card; N] {
    assert_eq!(input.len(), N * 2, "input should contain exactly {N} cards");
    (0..N)
        .map(|index| {
            let start = index * 2;
            let end = start + 2;
            input[start..end]
                .parse::<Card>()
                .expect("test card text should parse")
        })
        .collect::<Vec<_>>()
        .try_into()
        .expect("test input should contain the expected card count")
}

fn slow_evaluate_seven(cards: [Card; 7]) -> gto_core::HandRank {
    let cards = cards.to_vec();
    let mut best = None;
    let mut current = Vec::with_capacity(5);
    choose_five(&cards, 0, &mut current, &mut best);
    best.expect("slow evaluator should produce a result")
}

fn choose_five(
    cards: &[Card],
    start: usize,
    current: &mut Vec<Card>,
    best: &mut Option<gto_core::HandRank>,
) {
    if current.len() == 5 {
        let rank = evaluate_five(current.clone().try_into().unwrap())
            .expect("slow evaluator combinations should be valid");
        if best.is_none_or(|candidate| rank > candidate) {
            *best = Some(rank);
        }
        return;
    }

    for index in start..cards.len() {
        current.push(cards[index]);
        choose_five(cards, index + 1, current, best);
        current.pop();
    }
}

#[test]
fn five_card_categories_have_the_expected_strength_order() {
    let high_card = evaluate_five(parse_cards::<5>("AsKd9c7h3s")).unwrap();
    let one_pair = evaluate_five(parse_cards::<5>("AsAd9c7h3s")).unwrap();
    let two_pair = evaluate_five(parse_cards::<5>("AsAd9c9h3s")).unwrap();
    let trips = evaluate_five(parse_cards::<5>("AsAdAh7h3s")).unwrap();
    let straight = evaluate_five(parse_cards::<5>("9s8d7c6h5s")).unwrap();
    let flush = evaluate_five(parse_cards::<5>("AsTs8s5s2s")).unwrap();
    let full_house = evaluate_five(parse_cards::<5>("AsAdAh7h7s")).unwrap();
    let quads = evaluate_five(parse_cards::<5>("AsAdAhAc7s")).unwrap();
    let straight_flush = evaluate_five(parse_cards::<5>("9s8s7s6s5s")).unwrap();

    assert_eq!(high_card.category(), HandCategory::HighCard);
    assert_eq!(straight_flush.category(), HandCategory::StraightFlush);
    assert!(
        high_card < one_pair
            && one_pair < two_pair
            && two_pair < trips
            && trips < straight
            && straight < flush
            && flush < full_house
            && full_house < quads
            && quads < straight_flush
    );
}

#[test]
fn five_card_tie_breakers_are_ranked_correctly() {
    let ace_high_straight = evaluate_five(parse_cards::<5>("AsKdQhJcTs")).unwrap();
    let wheel = evaluate_five(parse_cards::<5>("As2d3h4c5s")).unwrap();
    let aces_full = evaluate_five(parse_cards::<5>("AsAdAhKcKd")).unwrap();
    let kings_full = evaluate_five(parse_cards::<5>("KsKdKhAcAd")).unwrap();

    assert!(ace_high_straight > wheel);
    assert!(aces_full > kings_full);
}

#[test]
fn showdown_detects_ties_and_splits_the_pot() {
    let board: Board = "AsKsQsJsTs".parse().unwrap();
    let showdown = resolve_holdem_showdown(&board, "2c3d".parse().unwrap(), "4h5c".parse().unwrap())
        .expect("showdown should resolve");

    assert_eq!(showdown.ordering(), Ordering::Equal);
    assert_eq!(
        showdown.payout(100, OddChipRecipient::PlayerOne),
        HeadsUpPayout {
            player_one: 50,
            player_two: 50,
        }
    );
    assert_eq!(
        showdown.payout(101, OddChipRecipient::PlayerTwo),
        HeadsUpPayout {
            player_one: 50,
            player_two: 51,
        }
    );
}

#[test]
fn showdown_detects_duplicate_cards() {
    let board: Board = "AhKhQh2c2d".parse().unwrap();
    let error = resolve_holdem_showdown(&board, "JhTh".parse().unwrap(), "AcAh".parse().unwrap())
        .expect_err("showdown should reject duplicate cards");

    assert_eq!(error, ShowdownError::DuplicateCard { card: "Ah".parse().unwrap() });
}

#[test]
fn showdown_rejects_incomplete_boards() {
    let board: Board = "AhKhQh".parse().unwrap();
    let error = resolve_holdem_showdown(&board, "JhTh".parse().unwrap(), "AcAd".parse().unwrap())
        .expect_err("showdown should reject boards with fewer than five cards");

    assert_eq!(error, ShowdownError::BoardMustContainFiveCards { actual_len: 3 });
}

#[test]
fn award_pot_heads_up_pays_the_winner() {
    assert_eq!(
        award_pot_heads_up(64, Ordering::Greater, OddChipRecipient::PlayerOne),
        HeadsUpPayout {
            player_one: 64,
            player_two: 0,
        }
    );
    assert_eq!(
        award_pot_heads_up(64, Ordering::Less, OddChipRecipient::PlayerOne),
        HeadsUpPayout {
            player_one: 0,
            player_two: 64,
        }
    );
}

#[test]
fn award_pot_heads_up_splits_odd_chips_by_configuration() {
    assert_eq!(
        award_pot_heads_up(101, Ordering::Equal, OddChipRecipient::PlayerOne),
        HeadsUpPayout {
            player_one: 51,
            player_two: 50,
        }
    );
    assert_eq!(
        award_pot_heads_up(101, Ordering::Equal, OddChipRecipient::PlayerTwo),
        HeadsUpPayout {
            player_one: 50,
            player_two: 51,
        }
    );
}

#[test]
fn seven_card_evaluator_matches_independent_combination_search() {
    // A deterministic sweep over many seven-card sets in place of random sampling.
    let mut checked = 0;
    let mut seed: u64 = 0x2545_f491_4f6c_dd1d;
    while checked < 300 {
        let mut indices = Vec::new();
        while indices.len() < 7 {
            seed ^= seed << 13;
            seed ^= seed >> 7;
            seed ^= seed << 17;
            let index = (seed % 52) as usize;
            if !indices.contains(&index) {
                indices.push(index);
            }
        }
        indices.sort();
        let cards: [Card; 7] = indices
            .into_iter()
            .map(|index| Card::from_index(index).expect("generated card should be valid"))
            .collect::<Vec<_>>()
            .try_into()
            .expect("generated set should contain exactly seven cards");

        let fast = evaluate_seven(cards).expect("generated seven-card hand should be valid");
        let slow = slow_evaluate_seven(cards);

        assert_eq!(fast, slow);
        checked += 1;
    }
}

#[test]
fn duplicate_cards_are_rejected_by_the_evaluators() {
    assert_eq!(
        evaluate_five(parse_cards::<5>("AsKdAs7h3s")).unwrap_err(),
        EvaluateHandError::DuplicateCard { card: "As".parse().unwrap() }
    );
    assert_eq!(
        evaluate_seven(parse_cards::<7>("AsKd9c7h3s2d3s")).unwrap_err(),
        EvaluateHandError::DuplicateCard { card: "3s".parse().unwrap() }
    );
}

#[test]
fn hand_values_render_category_and_tie_breakers() {
    let pair = evaluate_five(parse_cards::<5>("AsAd9c7h3s")).unwrap();
    assert_eq!(pair.to_string(), "one-pair(A,9,7,3,2)");
    let wheel = evaluate_five(parse_cards::<5>("As2d3h4c5s")).unwrap();
    assert_eq!(wheel.to_string(), "straight(5,2,2,2,2)");
    let two_pair = evaluate_five(parse_cards::<5>("KsKd9c9h3s")).unwrap();
    assert_eq!(two_pair.to_string(), "two-pair(K,9,3,2,2)");
    let high = evaluate_five(parse_cards::<5>("AsKd9c7h3s")).unwrap();
    assert_eq!(high.to_string(), "high-card(A,K,9,7,3)");
}

#[test]
fn scores_order_hand_values_like_the_derived_order() {
    let weaker = evaluate_five(parse_cards::<5>("AsAd9c7h3s")).unwrap();
    let stronger = evaluate_five(parse_cards::<5>("AsAd9c9h3s")).unwrap();
    assert!(weaker.score() < stronger.score());
    assert!(weaker < stronger);
}
