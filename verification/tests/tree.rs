use gto_core::solver::{
    build_public_tree, AbstractionProfile, OpeningSize, PublicTree, PublicTreeNodeKind, RaiseSize,
    StreetProfile,
};
use gto_core::{HandPhase, HoldemConfig, HoldemHandState};

fn sample_profile() -> AbstractionProfile {
    let preflop = StreetProfile {
        opening_sizes: vec![OpeningSize::BigBlindMultipleBps(25_000)],
        raise_sizes: vec![RaiseSize::CurrentBetMultipleBps(25_000)],
        include_all_in: false,
    };
    let postflop = StreetProfile {
        opening_sizes: vec![OpeningSize::PotFractionBps(10_000)],
        raise_sizes: vec![RaiseSize::PotFractionAfterCallBps(10_000)],
        include_all_in: false,
    };
    AbstractionProfile::new(preflop, postflop.clone(), postflop.clone(), postflop)
}

fn default_state() -> HoldemHandState {
    HoldemHandState::new(
        HoldemConfig::default(),
        "AsKd".parse().unwrap(),
        "QcJh".parse().unwrap(),
    )
    .unwrap()
}

#[test]
fn public_tree_is_deterministic() {
    let state = default_state();
    let profile = sample_profile();

    let left = build_public_tree(&state, &profile).unwrap();
    let right = build_public_tree(&state, &profile).unwrap();

    assert_eq!(left, right);
}

#[test]
fn public_tree_stops_at_board_chance_boundaries() {
    let state = default_state();
    let tree = build_public_tree(&state, &sample_profile()).unwrap();

    let root = &tree.nodes[tree.root];
    let PublicTreeNodeKind::Decision { actions } = &root.kind else {
        panic!("expected a decision root");
    };
    assert!(!actions.is_empty());
    assert!(actions.iter().any(|edge| matches!(
        tree.nodes[edge.child].kind,
        PublicTreeNodeKind::AwaitingBoard { .. } | PublicTreeNodeKind::Terminal { .. }
    )));
}

fn visit(state: HoldemHandState, node_index: usize, tree: &PublicTree) {
    match &tree.nodes[node_index].kind {
        PublicTreeNodeKind::Decision { actions } => {
            assert!(matches!(state.phase(), HandPhase::BettingRound { .. }));
            for edge in actions {
                let mut next_state = state.clone();
                next_state
                    .apply_action(edge.action.to_player_action())
                    .expect("tree edge should be legal");
                visit(next_state, edge.child, tree);
            }
        }
        PublicTreeNodeKind::AwaitingBoard { .. } => {
            assert!(matches!(state.phase(), HandPhase::AwaitingBoard { .. }));
        }
        PublicTreeNodeKind::Terminal { .. } => {
            assert!(matches!(state.phase(), HandPhase::Terminal { .. }));
        }
    }
}

#[test]
fn every_tree_edge_corresponds_to_a_legal_exact_action() {
    let state = default_state();
    let tree = build_public_tree(&state, &sample_profile()).unwrap();

    visit(state, tree.root, &tree);
}

#[test]
fn tree_nodes_are_laid_out_depth_first() {
    let state = default_state();
    let tree = build_public_tree(&state, &sample_profile()).unwrap();
    assert_eq!(tree.root, 0);
    // The first child of a decision node follows it directly.
    for (index, node) in tree.nodes.iter().enumerate() {
        if let PublicTreeNodeKind::Decision { actions } = &node.kind {
            assert_eq!(actions[0].child, index + 1);
            for pair in actions.windows(2) {
                assert!(pair[0].child < pair[1].child);
            }
        }
    }
}

#[test]
fn a_tree_from_a_board_wait_is_a_single_node() {
    let mut state = default_state();
    state.apply_action(gto_core::PlayerAction::Call).unwrap();
    let tree = build_public_tree(&state, &sample_profile()).unwrap();
    assert_eq!(tree.nodes.len(), 1);
    assert!(matches!(tree.nodes[0].kind, PublicTreeNodeKind::AwaitingBoard { .. }));
}
