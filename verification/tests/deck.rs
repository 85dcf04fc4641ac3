use gto_core::{default_rng, rng_from_seed, CardMask, Deck};
use rand::Rng;

#[test]
fn standard_deck_contains_52_unique_cards() {
    let deck = Deck::standard();
    let unique_cards = CardMask::from_cards(deck.cards());

    assert_eq!(deck.len(), 52);
    assert_eq!(unique_cards.len(), 52);
}

#[test]
fn dead_cards_are_removed_from_deck() {
    let mut deck = Deck::standard();
    let dead_cards = CardMask::from_cards(&[
        "As".parse().unwrap(),
        "Kd".parse().unwrap(),
        "Tc".parse().unwrap(),
    ]);

    deck.remove_dead_cards(dead_cards);

    assert_eq!(deck.len(), 49);
    assert!(!deck.cards().contains(&"As".parse().unwrap()));
    assert!(!deck.cards().contains(&"Kd".parse().unwrap()));
    assert!(!deck.cards().contains(&"Tc".parse().unwrap()));
}

#[test]
fn shuffle_is_deterministic_for_the_same_seed() {
    let mut left = Deck::standard();
    let mut right = Deck::standard();
    let mut left_rng = rng_from_seed(7);
    let mut right_rng = rng_from_seed(7);

    left.shuffle(&mut left_rng);
    right.shuffle(&mut right_rng);

    assert_eq!(left, right);
}

#[test]
fn shuffle_keeps_every_card_once() {
    let mut deck = Deck::standard();
    let mut rng = rng_from_seed(11);
    deck.shuffle(&mut rng);
    assert_eq!(deck.len(), 52);
    assert_eq!(CardMask::from_cards(deck.cards()).len(), 52);
    assert_ne!(deck, Deck::standard());
}

#[test]
fn drawing_takes_cards_from_the_back() {
    let mut deck = Deck::standard();
    let last = deck.cards()[51];
    assert_eq!(deck.draw(), Some(last));
    assert_eq!(deck.len(), 51);
}

#[test]
fn equal_seeds_produce_equal_rng_streams() {
    let mut left = rng_from_seed(42);
    let mut right = rng_from_seed(42);

    assert_eq!(left.random::<u64>(), right.random::<u64>());
    assert_eq!(left.random::<u64>(), right.random::<u64>());
}

#[test]
fn default_rng_is_stable() {
    let mut first = default_rng();
    let mut second = default_rng();

    assert_eq!(first.random::<u64>(), second.random::<u64>());
}

#[test]
fn different_seeds_give_different_streams() {
    let mut left = rng_from_seed(1);
    let mut right = rng_from_seed(2);
    assert_ne!(left.random::<u64>(), right.random::<u64>());
}
