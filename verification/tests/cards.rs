use gto_core::{Board, Card, CardMask, HoleCards, Rank, Suit};

#[test]
fn card_parser_round_trips() {
    let card: Card = "As".parse().expect("card should parse");

    assert_eq!(card.rank(), Rank::Ace);
    assert_eq!(card.suit(), Suit::Spades);
    assert_eq!(card.to_string(), "As");
}

#[test]
fn hole_cards_are_canonicalized() {
    let cards: HoleCards = "KdAs".parse().expect("hole cards should parse");

    assert_eq!(cards.to_string(), "AsKd");
    assert!(cards.contains("As".parse().unwrap()));
    assert!(cards.contains("Kd".parse().unwrap()));
}

#[test]
fn board_parser_round_trips() {
    let board: Board = "AsKdTc".parse().expect("board should parse");

    assert_eq!(board.len(), 3);
    assert_eq!(board.to_string(), "AsKdTc");
    assert_eq!(board.mask().len(), 3);
}

#[test]
fn board_rejects_duplicate_cards() {
    let error = "AsKdAs"
        .parse::<Board>()
        .expect_err("board should reject duplicates");

    assert_eq!(error.to_string(), "duplicate board card As");
}

#[test]
fn empty_board_round_trips() {
    let board: Board = "".parse().expect("empty board should parse");

    assert!(board.is_empty());
    assert_eq!(board.to_string(), "");
}

#[test]
fn board_try_from_cards_rejects_more_than_five_cards() {
    let error = Board::try_from_cards(&[
        "As".parse().unwrap(),
        "Kd".parse().unwrap(),
        "Qc".parse().unwrap(),
        "Jh".parse().unwrap(),
        "Ts".parse().unwrap(),
        "9d".parse().unwrap(),
    ])
    .expect_err("board should reject a sixth card");

    assert_eq!(error.to_string(), "board cannot contain 6 cards");
}

#[test]
fn card_mask_tracks_insertions() {
    let ace_spades: Card = "As".parse().unwrap();
    let king_diamonds: Card = "Kd".parse().unwrap();
    let mut mask = CardMask::empty();

    assert!(mask.insert(ace_spades));
    assert!(!mask.insert(ace_spades));
    assert!(mask.insert(king_diamonds));
    assert!(mask.contains(ace_spades));
    assert!(mask.contains(king_diamonds));
    assert_eq!(mask.len(), 2);
}

#[test]
fn card_indices_round_trip_over_the_whole_deck() {
    for index in 0..52 {
        let card = Card::from_index(index).unwrap();
        assert_eq!(card.index(), index);
    }
    assert!(Card::from_index(52).is_none());
}

#[test]
fn card_parsing_accepts_lower_case_ranks_and_upper_case_suits() {
    let card: Card = "tH".parse().unwrap();
    assert_eq!(card.to_string(), "Th");
}

#[test]
fn card_parsing_reports_each_error() {
    assert_eq!(
        "A".parse::<Card>().unwrap_err().to_string(),
        "card must contain exactly two characters"
    );
    assert_eq!("Xs".parse::<Card>().unwrap_err().to_string(), "invalid rank character");
    assert_eq!("Ax".parse::<Card>().unwrap_err().to_string(), "invalid suit character");
    assert_eq!(
        "AsAs".parse::<HoleCards>().unwrap_err().to_string(),
        "hole cards cannot repeat a card"
    );
    assert_eq!(
        "AsK".parse::<HoleCards>().unwrap_err().to_string(),
        "hole cards must contain exactly four characters"
    );
    assert_eq!(
        "AsK".parse::<Board>().unwrap_err().to_string(),
        "board text must contain an even number of characters"
    );
    assert_eq!(
        "ss".parse::<Suit>().unwrap_err().to_string(),
        "suit must contain exactly one character"
    );
    assert_eq!(
        "".parse::<Rank>().unwrap_err().to_string(),
        "rank must contain exactly one character"
    );
}

#[test]
fn card_mask_union_and_intersection() {
    let left = CardMask::from_cards(&["As".parse().unwrap(), "Kd".parse().unwrap()]);
    let right = CardMask::from_cards(&["Kd".parse().unwrap(), "2c".parse().unwrap()]);
    let other = CardMask::from_card("3h".parse().unwrap());

    assert!(left.intersects(right));
    assert!(!left.intersects(other));
    assert_eq!(left.union(right).len(), 3);
    assert!(CardMask::empty().is_empty());
    assert!(!left.is_empty());
}

#[test]
fn build_info_matches_crate_metadata() {
    assert_eq!(
        gto_core::build_info(),
        gto_core::CoreBuildInfo {
            crate_name: "gto-core",
            crate_version: "0.1.0",
            wasm_safe: true,
        }
    );
}

#[test]
fn ranks_and_cards_order_by_their_index() {
    let ranks = [
        Rank::Two, Rank::Three, Rank::Four, Rank::Five, Rank::Six, Rank::Seven, Rank::Eight,
        Rank::Nine, Rank::Ten, Rank::Jack, Rank::Queen, Rank::King, Rank::Ace,
    ];
    for a in ranks {
        for b in ranks {
            assert_eq!(a < b, a.index() < b.index());
            assert_eq!(a.cmp(&b), a.index().cmp(&b.index()));
        }
    }
    let low: Card = "Ks".parse().unwrap();
    let high: Card = "Ac".parse().unwrap();
    assert!(low < high);
    assert!(low.index() < high.index());
    let clubs: Card = "Ac".parse().unwrap();
    let spades: Card = "As".parse().unwrap();
    assert!(clubs < spades);
    assert_eq!(clubs.partial_cmp(&clubs), Some(std::cmp::Ordering::Equal));
}

#[test]
fn hole_cards_do_not_depend_on_the_order_of_their_cards() {
    let a: Card = "7h".parse().unwrap();
    let b: Card = "Qd".parse().unwrap();
    assert_eq!(HoleCards::new(a, b), HoleCards::new(b, a));
    assert_eq!(HoleCards::new(a, a), HoleCards::new(a, a));
    assert_eq!(HoleCards::new(a, a).unwrap_err().card(), a);
}

#[test]
fn rank_symbols_read_back_in_either_case() {
    let ranks = [
        Rank::Two, Rank::Three, Rank::Four, Rank::Five, Rank::Six, Rank::Seven, Rank::Eight,
        Rank::Nine, Rank::Ten, Rank::Jack, Rank::Queen, Rank::King, Rank::Ace,
    ];
    for r in ranks {
        assert_eq!("23456789TJQKA".chars().nth(r.index()).unwrap(), r.symbol());
        assert_eq!(r.symbol().to_string().parse::<Rank>(), Ok(r));
        assert_eq!(r.symbol().to_ascii_lowercase().to_string().parse::<Rank>(), Ok(r));
    }
}
