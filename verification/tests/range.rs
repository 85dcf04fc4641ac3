use gto_core::{Card, CardMask, HoleCards, ParseRangeError, Range};

#[test]
fn common_range_notation_expands_to_expected_combo_counts() {
    assert_eq!("AA".parse::<Range>().unwrap().len(), 6);
    assert_eq!("AKs".parse::<Range>().unwrap().len(), 4);
    assert_eq!("AKo".parse::<Range>().unwrap().len(), 12);
    assert_eq!("AK".parse::<Range>().unwrap().len(), 16);
    assert_eq!("TT+".parse::<Range>().unwrap().len(), 30);
    assert_eq!("ATs+".parse::<Range>().unwrap().len(), 16);
}

#[test]
fn range_round_trips_through_canonical_display() {
    let range: Range = "AKs,AA,AsKd".parse().expect("range should parse");
    let reparsed: Range = range.to_string().parse().expect("range should reparse");

    assert_eq!(range, reparsed);
}

#[test]
fn dead_card_filtering_removes_conflicting_combos() {
    let range: Range = "AK".parse().expect("range should parse");
    let dead_cards = CardMask::from_cards(&["As".parse().unwrap(), "Kh".parse().unwrap()]);

    let filtered = range.without_dead_cards(dead_cards);

    assert_eq!(filtered.len(), 9);
    assert!(filtered.iter().all(|combo| !combo.mask().intersects(dead_cards)));
}

#[test]
fn explicit_combo_parsing_is_supported() {
    let range: Range = "AsKd,AcKh".parse().expect("range should parse");

    assert_eq!(range.len(), 2);
    assert!(range.contains("AsKd".parse().unwrap()));
    assert!(range.contains("AcKh".parse().unwrap()));
}

#[test]
fn range_filtering_never_returns_dead_cards() {
    // A fixed sweep in place of random sampling: pairs of card indices and dead sets.
    for seed in 0usize..40 {
        let mut combos = Vec::new();
        for step in 0usize..30 {
            let left = Card::from_index((seed * 7 + step * 11) % 52).unwrap();
            let right = Card::from_index((seed * 13 + step * 5 + 3) % 52).unwrap();
            if let Ok(cards) = HoleCards::new(left, right) {
                combos.push(cards);
            }
        }
        let range = Range::from_hole_cards(&combos);
        let dead: Vec<Card> = (0..(seed % 8))
            .map(|k| Card::from_index((seed * 3 + k * 17) % 52).unwrap())
            .collect();
        let dead_cards = CardMask::from_cards(&dead);

        let filtered = range.without_dead_cards(dead_cards);
        assert!(filtered.iter().all(|combo| !combo.mask().intersects(dead_cards)));
        for combo in range.iter() {
            let kept = !combo.mask().intersects(dead_cards);
            assert_eq!(filtered.contains(*combo), kept);
        }
    }
}

#[test]
fn range_text_is_sorted_by_higher_card_then_lower_card() {
    let range: Range = "QQ".parse().unwrap();
    assert_eq!(range.to_string(), "QdQc,QhQc,QhQd,QsQc,QsQd,QsQh");
    let range: Range = "AKs".parse().unwrap();
    assert_eq!(range.to_string(), "AcKc,AdKd,AhKh,AsKs");
}

#[test]
fn plus_classes_cover_every_stronger_kicker() {
    let range: Range = "K9o+".parse().unwrap();
    // K9, KT, KJ, KQ offsuit: 4 kickers * 12 combos.
    assert_eq!(range.len(), 48);
    assert!(range.contains("KsQd".parse().unwrap()));
    assert!(!range.contains("KsQs".parse().unwrap()));
    assert!(!range.contains("Ks8d".parse().unwrap()));
    let pairs: Range = "22+".parse().unwrap();
    assert_eq!(pairs.len(), 78);
}

#[test]
fn separators_may_be_commas_or_any_white_space() {
    let range: Range = " AA,\tKK\u{a0}QQ ,, ".parse().unwrap();
    assert_eq!(range.len(), 18);
    let empty: Range = "".parse().unwrap();
    assert!(empty.is_empty());
}

#[test]
fn malformed_tokens_report_the_reason() {
    let message = |text: &str| -> String {
        let error: ParseRangeError = text.parse::<Range>().unwrap_err();
        error.to_string()
    };
    assert_eq!(message("AKx"), "invalid suitedness marker");
    assert_eq!(message("AAs"), "pair range tokens cannot use suited or offsuit markers");
    assert_eq!(
        message("KAs"),
        "range class tokens must use descending rank order, for example AKs"
    );
    assert_eq!(
        message("AKQJ"),
        "range token must be a combo like AsKd or a class like AKs"
    );
    assert_eq!(message("AX"), "invalid rank character");
    assert_eq!(message("AA,ZZ,QQ"), "invalid rank character");
}

#[test]
fn inserting_a_known_hand_reports_it() {
    let mut range = Range::empty();
    let hand: HoleCards = "AsKd".parse().unwrap();
    assert!(range.insert(hand));
    assert!(!range.insert(hand));
    assert_eq!(range.len(), 1);
    assert_eq!(range.combos().len(), 1);
}
