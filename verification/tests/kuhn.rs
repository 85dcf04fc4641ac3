use gto_core::solver::{KuhnAction, KuhnCard, KuhnInfoSet, KuhnNode, KuhnState};

#[test]
fn root_state_starts_with_a_chance_node() {
    let node = KuhnState::new().node();

    let KuhnNode::Chance { outcomes } = node else {
        panic!("expected a chance node");
    };
    assert_eq!(outcomes.len(), 6);
}

#[test]
fn first_player_infoset_contains_private_card_and_history() {
    let state = KuhnState::with_cards([KuhnCard::King, KuhnCard::Jack], vec![]);

    let KuhnNode::Decision { infoset, .. } = state.node() else {
        panic!("expected a decision node");
    };
    assert_eq!(
        infoset,
        KuhnInfoSet {
            player: 0,
            private_card: KuhnCard::King,
            history: vec![],
        }
    );
}

#[test]
fn facing_a_bet_offers_fold_or_call() {
    let state = KuhnState::with_cards([KuhnCard::Queen, KuhnCard::Jack], vec![KuhnAction::Bet]);

    let KuhnNode::Decision { actions, .. } = state.node() else {
        panic!("expected a decision node");
    };
    assert_eq!(actions, vec![KuhnAction::Fold, KuhnAction::Call]);
}

#[test]
fn chance_outcomes_are_the_six_deals_in_card_order() {
    let KuhnNode::Chance { outcomes } = KuhnState::new().node() else {
        panic!("expected a chance node");
    };
    let expected = [
        [KuhnCard::Jack, KuhnCard::Queen],
        [KuhnCard::Jack, KuhnCard::King],
        [KuhnCard::Queen, KuhnCard::Jack],
        [KuhnCard::Queen, KuhnCard::King],
        [KuhnCard::King, KuhnCard::Jack],
        [KuhnCard::King, KuhnCard::Queen],
    ];
    for (outcome, cards) in outcomes.iter().zip(expected.iter()) {
        assert_eq!(*outcome, KuhnState::with_cards(*cards, vec![]));
    }
}

#[test]
fn check_check_pays_the_higher_card_one_ante() {
    let state = KuhnState::with_cards(
        [KuhnCard::Jack, KuhnCard::King],
        vec![KuhnAction::Check, KuhnAction::Check],
    );
    assert_eq!(state.node(), KuhnNode::Terminal { utilities: [-1, 1] });
}

#[test]
fn called_bet_pays_two_antes() {
    let state = KuhnState::with_cards(
        [KuhnCard::King, KuhnCard::Queen],
        vec![KuhnAction::Bet, KuhnAction::Call],
    );
    assert_eq!(state.node(), KuhnNode::Terminal { utilities: [2, -2] });
    let late = KuhnState::with_cards(
        [KuhnCard::Queen, KuhnCard::King],
        vec![KuhnAction::Check, KuhnAction::Bet, KuhnAction::Call],
    );
    assert_eq!(late.node(), KuhnNode::Terminal { utilities: [-2, 2] });
}

#[test]
fn a_fold_gives_the_bettor_one_ante() {
    let state = KuhnState::with_cards(
        [KuhnCard::Jack, KuhnCard::King],
        vec![KuhnAction::Bet, KuhnAction::Fold],
    );
    assert_eq!(state.node(), KuhnNode::Terminal { utilities: [1, -1] });
    let late = KuhnState::with_cards(
        [KuhnCard::King, KuhnCard::Jack],
        vec![KuhnAction::Check, KuhnAction::Bet, KuhnAction::Fold],
    );
    assert_eq!(late.node(), KuhnNode::Terminal { utilities: [-1, 1] });
}

#[test]
fn next_state_appends_the_action() {
    let state = KuhnState::with_cards([KuhnCard::Queen, KuhnCard::Jack], vec![]);
    let next = state.next_state(KuhnAction::Check);
    assert_eq!(next, KuhnState::with_cards([KuhnCard::Queen, KuhnCard::Jack], vec![KuhnAction::Check]));
    let KuhnNode::Decision { player, infoset, actions } = next.node() else {
        panic!("expected a decision node");
    };
    assert_eq!(player, 1);
    assert_eq!(infoset.private_card, KuhnCard::Jack);
    assert_eq!(actions, vec![KuhnAction::Check, KuhnAction::Bet]);
}
