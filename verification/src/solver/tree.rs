use vstd::prelude::*;

use crate::holdem::{
    HandModel, HandOutcome, HandPhase, HoldemHandState, HoldemStateError, PlayerAction, Street,
};
use crate::solver::abstraction::{
    abstract_actions, accepted, lemma_abstract_actions_are_legal, spec_abstract_actions,
    AbstractAction, AbstractionProfile, PublicStateKey,
};

verus! {

/// The public game tree of the abstraction, stored as a list of nodes.
#[derive(Debug, Clone, PartialEq, Eq)]
pub struct PublicTree {
    pub root: usize,
    pub nodes: Vec<PublicTreeNode>,
}

/// One public state and what happens there.
#[derive(Debug, Clone, PartialEq, Eq)]
pub struct PublicTreeNode {
    pub state: PublicStateKey,
    pub kind: PublicTreeNodeKind,
}

#[derive(Debug, Clone, PartialEq, Eq)]
pub enum PublicTreeNodeKind {
    /// A player acts; one edge per abstract action.
    Decision { actions: Vec<PublicTreeEdge> },
    /// The betting round is over and board cards are due: the tree stops here.
    AwaitingBoard { next_street: Street },
    /// The hand is over.
    Terminal { outcome: HandOutcome },
}

/// An abstract action and the node it leads to.
#[derive(Debug, Clone, Copy, PartialEq, Eq)]
pub struct PublicTreeEdge {
    pub action: AbstractAction,
    pub child: usize,
}

// ---------------------------------------------------------------------------
// The shape of a tree.
//
// A tree is described together with the hand at each node (`models`) and, for
// each node, the index just past its subtree (`ends`): nodes are laid out depth
// first, each node followed by the subtrees of its edges in order.
// ---------------------------------------------------------------------------

/// The edges of node `i` (hand `m`) are the abstract actions `acts`, in order, each
/// leading to the hand after that action, and the children's subtrees follow node `i`
/// one after the other.
pub open spec fn edges_match(
    edges: Seq<PublicTreeEdge>,
    acts: Seq<AbstractAction>,
    i: int,
    m: HandModel,
    models: Seq<HandModel>,
    ends: Seq<int>,
) -> bool {
    &&& edges.len() == acts.len()
    &&& forall|k: int|
        0 <= k < edges.len() ==> {
            let c = (#[trigger] edges[k]).child as int;
            &&& edges[k].action == acts[k]
            &&& i < c < models.len()
            &&& models[c] == m.apply(acts[k].spec_to_player_action()).0
        }
    &&& edges.len() == 0 ==> ends[i] == i + 1
    &&& edges.len() > 0 ==> edges[0].child == i + 1 && ends[i] == ends[edges.last().child as int]
    &&& forall|k: int|
        0 <= k < edges.len() - 1 ==> #[trigger] edges[k + 1].child == ends[edges[k].child as int]
}

/// Node `node` at index `i` shows hand `models[i]`: its public state, and either its
/// outcome, the street awaiting cards, or its abstract actions and their children.
pub open spec fn node_matches(
    node: PublicTreeNode,
    i: int,
    profile: AbstractionProfile,
    models: Seq<HandModel>,
    ends: Seq<int>,
) -> bool {
    let m = models[i];
    &&& 0 <= i < models.len()
    &&& i < ends[i] <= models.len()
    &&& m.wf()
    &&& node.state.describes(m)
    &&& match m.phase {
        HandPhase::Terminal { outcome } => node.kind == (PublicTreeNodeKind::Terminal { outcome })
            && ends[i] == i + 1,
        HandPhase::AwaitingBoard { next_street } => node.kind == (PublicTreeNodeKind::AwaitingBoard {
            next_street,
        }) && ends[i] == i + 1,
        HandPhase::BettingRound { .. } => match node.kind {
            PublicTreeNodeKind::Decision { actions } => spec_abstract_actions(
                m,
                profile,
            ) matches Ok(acts) && edges_match(actions@, acts, i, m, models, ends),
            _ => false,
        },
    }
}

/// Every node of `nodes` shows its hand in `models`, with subtrees ending at `ends`.
pub open spec fn tree_layout(
    nodes: Seq<PublicTreeNode>,
    profile: AbstractionProfile,
    models: Seq<HandModel>,
    ends: Seq<int>,
) -> bool {
    &&& models.len() == nodes.len()
    &&& ends.len() == nodes.len()
    &&& forall|j: int| 0 <= j < nodes.len() ==> node_matches(#[trigger] nodes[j], j, profile, models, ends)
}

/// `tree` is the public tree of the abstraction from hand `m`: its root, the first
/// node, shows `m`, and its subtree is the whole list.
pub open spec fn is_public_tree(tree: PublicTree, m: HandModel, profile: AbstractionProfile) -> bool {
    exists|models: Seq<HandModel>, ends: Seq<int>|
        #[trigger] tree_layout(tree.nodes@, profile, models, ends) && tree.root == 0
            && tree.nodes@.len() > 0 && models[0] == m && ends[0] == tree.nodes@.len()
}

// ---------------------------------------------------------------------------
// Why building the tree ends.
// ---------------------------------------------------------------------------

/// 1 while a betting round is on, else 0.
pub open spec fn betting_rank(m: HandModel) -> int {
    if m.phase is BettingRound {
        1
    } else {
        0
    }
}

/// What is left to bet: twice the chips behind, plus one before the first check of a
/// round.
pub open spec fn betting_room(m: HandModel) -> int {
    2 * (m.button.stack + m.big_blind.stack) + 1 - m.checks_in_round
}

/// An accepted action that keeps the betting round going puts chips in, or is the
/// round's first check: either way less room is left.
pub proof fn lemma_apply_makes_progress(m: HandModel, action: PlayerAction)
    requires
        m.wf(),
        m.phase is BettingRound,
        m.apply(action).1 is Ok,
        m.apply(action).0.phase is BettingRound,
    ensures
        0 <= betting_room(m.apply(action).0) < betting_room(m),
{
    let p = m.actor()->0;
    let legal = m.legal(p);
    let s = m.seat(p);
    let next = m.apply(action).0;
    assert(m.config.big_blind >= 1);
    match action {
        PlayerAction::Fold => {},
        PlayerAction::Check => {
            assert(m.checks_in_round == 0);
        },
        PlayerAction::Call => {},
        PlayerAction::BetTo(total) => {
            assert(m.current_bet == 0);
            assert(s.street_contribution == 0);
            assert(total >= 1);
        },
        PlayerAction::RaiseTo(total) => {
            assert(m.current_bet > s.street_contribution);
        },
        PlayerAction::AllIn => {
            let all_in_total = (s.street_contribution + s.stack) as u64;
            if legal.all_in_to == Some(all_in_total) {
                assert(s.stack > 0);
            } else if legal.bet_range matches Some(range) && range.max_total == all_in_total {
                assert(s.street_contribution == 0);
            } else if legal.raise_range matches Some(range) && range.max_total == all_in_total {
                assert(m.current_bet > s.street_contribution);
            }
        },
    }
}

// ---------------------------------------------------------------------------
// Building the tree.
// ---------------------------------------------------------------------------

/// A node's description reads only its own entry and those after it, up to the end of
/// its subtree.
proof fn lemma_node_matches_frame(
    node: PublicTreeNode,
    j: int,
    profile: AbstractionProfile,
    models1: Seq<HandModel>,
    ends1: Seq<int>,
    models2: Seq<HandModel>,
    ends2: Seq<int>,
)
    requires
        node_matches(node, j, profile, models1, ends1),
        models1.len() <= models2.len(),
        forall|x: int| j <= x < models1.len() ==> models2[x] == models1[x] && ends2[x] == ends1[x],
    ensures
        node_matches(node, j, profile, models2, ends2),
{
    let m = models1[j];
    assert(models2[j] == m);
    assert(ends2[j] == ends1[j]);
    match m.phase {
        HandPhase::BettingRound { .. } => {
            let edges = node.kind->Decision_actions@;
            let acts = spec_abstract_actions(m, profile)->Ok_0;
            assert forall|k: int| 0 <= k < edges.len() implies {
                let c = (#[trigger] edges[k]).child as int;
                &&& edges[k].action == acts[k]
                &&& j < c < models2.len()
                &&& models2[c] == m.apply(acts[k].spec_to_player_action()).0
            } by {
                let c = edges[k].child as int;
                assert(models2[c] == models1[c]);
            }
            if edges.len() > 0 {
                assert(ends2[edges.last().child as int] == ends1[edges.last().child as int]);
            }
            assert forall|k: int| 0 <= k < edges.len() - 1 implies #[trigger] edges[k + 1].child
                == ends2[edges[k].child as int] by {
                assert(ends2[edges[k].child as int] == ends1[edges[k].child as int]);
            }
        },
        _ => {},
    }
}

/// The nodes from `start` on are the subtree of hand `m`, laid out after the
/// untouched nodes before `start`.
pub open spec fn subtree_built(
    nodes0: Seq<PublicTreeNode>,
    models0: Seq<HandModel>,
    ends0: Seq<int>,
    nodes: Seq<PublicTreeNode>,
    models: Seq<HandModel>,
    ends: Seq<int>,
    m: HandModel,
    profile: AbstractionProfile,
) -> bool {
    let start = nodes0.len() as int;
    &&& models0.len() == start
    &&& ends0.len() == start
    &&& nodes.len() > start
    &&& models.len() == nodes.len()
    &&& ends.len() == nodes.len()
    &&& nodes.subrange(0, start) == nodes0
    &&& models.subrange(0, start) == models0
    &&& ends.subrange(0, start) == ends0
    &&& models[start] == m
    &&& ends[start] == nodes.len()
    &&& forall|j: int| start <= j < nodes.len() ==> node_matches(#[trigger] nodes[j], j, profile, models, ends)
}

fn build_node(
    state: HoldemHandState,
    profile: &AbstractionProfile,
    nodes: &mut Vec<PublicTreeNode>,
    Ghost(models): Ghost<Seq<HandModel>>,
    Ghost(ends): Ghost<Seq<int>>,
) -> (r: (usize, Ghost<Seq<HandModel>>, Ghost<Seq<int>>))
    requires
        state.wf(),
        models.len() == old(nodes)@.len(),
        ends.len() == old(nodes)@.len(),
    ensures
        r.0 == old(nodes)@.len(),
        subtree_built(old(nodes)@, models, ends, final(nodes)@, r.1@, r.2@, state@, *profile),
    decreases betting_rank(state@), betting_room(state@),
{
    let start = nodes.len();
    let key = PublicStateKey::from_state(&state);
    match state.phase() {
        HandPhase::Terminal { outcome } => {
            nodes.push(PublicTreeNode { state: key, kind: PublicTreeNodeKind::Terminal { outcome } });
            let ghost ms = models.push(state@);
            let ghost es = ends.push(start + 1);
            proof {
                assert(nodes@.subrange(0, start as int) =~= old(nodes)@);
                assert(ms.subrange(0, start as int) =~= models);
                assert(es.subrange(0, start as int) =~= ends);
            }
            return (start, Ghost(ms), Ghost(es));
        },
        HandPhase::AwaitingBoard { next_street } => {
            nodes.push(
                PublicTreeNode { state: key, kind: PublicTreeNodeKind::AwaitingBoard { next_street } },
            );
            let ghost ms = models.push(state@);
            let ghost es = ends.push(start + 1);
            proof {
                assert(nodes@.subrange(0, start as int) =~= old(nodes)@);
                assert(ms.subrange(0, start as int) =~= models);
                assert(es.subrange(0, start as int) =~= ends);
            }
            return (start, Ghost(ms), Ghost(es));
        },
        HandPhase::BettingRound { .. } => {},
    }
    let ghost acts = spec_abstract_actions(state@, *profile)->Ok_0;
    let actions = match abstract_actions(&state, profile) {
        Ok(actions) => actions,
        Err(_) => {
            proof {
                assert(false);
            }
            Vec::new()
        },
    };
    nodes.push(
        PublicTreeNode {
            state: key,
            kind: PublicTreeNodeKind::AwaitingBoard { next_street: state.street() },
        },
    );
    let ghost mut ms = models.push(state@);
    let ghost mut es = ends.push(start + 1);
    let mut edges: Vec<PublicTreeEdge> = Vec::new();
    let mut k: usize = 0;
    proof {
        assert(nodes@.subrange(0, start as int) =~= old(nodes)@);
        assert(ms.subrange(0, start as int) =~= models);
        assert(es.subrange(0, start as int) =~= ends);
    }
    while k < actions.len()
        invariant
            state.wf(),
            state@.phase is BettingRound,
            actions@ == acts,
            spec_abstract_actions(state@, *profile) == Ok::<Seq<AbstractAction>, HoldemStateError>(
                acts,
            ),
            start == old(nodes)@.len(),
            models.len() == start,
            ends.len() == start,
            nodes@.len() > start,
            ms.len() == nodes@.len(),
            es.len() == nodes@.len(),
            nodes@.subrange(0, start as int) == old(nodes)@,
            ms.subrange(0, start as int) == models,
            es.subrange(0, start as int) == ends,
            ms[start as int] == state@,
            forall|j: int|
                start < j < nodes@.len() ==> node_matches(#[trigger] nodes@[j], j, *profile, ms, es),
            k <= actions@.len(),
            edges@.len() == k,
            forall|q: int|
                0 <= q < k ==> {
                    let c = (#[trigger] edges@[q]).child as int;
                    &&& edges@[q].action == acts[q]
                    &&& start < c < nodes@.len()
                    &&& ms[c] == state@.apply(acts[q].spec_to_player_action()).0
                },
            k == 0 ==> nodes@.len() == start + 1,
            k > 0 ==> edges@[0].child == start + 1 && es[edges@[k - 1].child as int]
                == nodes@.len(),
            forall|q: int|
                0 <= q < k - 1 ==> #[trigger] edges@[q + 1].child == es[edges@[q].child as int],
        decreases actions@.len() - k,
    {
        let action = actions[k];
        let mut next_state = state.duplicate();
        let applied = next_state.apply_action(action.to_player_action());
        proof {
            lemma_abstract_actions_are_legal(state@, *profile, k as int);
        }
        match applied {
            Ok(()) => {},
            Err(_) => {
                proof {
                    assert(false);
                }
            },
        }
        proof {
            if next_state@.phase is BettingRound {
                lemma_apply_makes_progress(state@, action.spec_to_player_action());
            }
        }
        let ghost nodes_before = nodes@;
        let ghost ms_before = ms;
        let ghost es_before = es;
        let (child, Ghost(ms2), Ghost(es2)) = build_node(next_state, profile, nodes, Ghost(ms), Ghost(es));
        proof {
            assert forall|x: int| 0 <= x < ms_before.len() implies ms2[x] == ms_before[x]
                && es2[x] == es_before[x] && nodes@[x] == nodes_before[x] by {
                assert(ms2.subrange(0, ms_before.len() as int)[x] == ms2[x]);
                assert(es2.subrange(0, es_before.len() as int)[x] == es2[x]);
                assert(nodes@.subrange(0, nodes_before.len() as int)[x] == nodes@[x]);
            }
            assert forall|j: int| start < j < nodes@.len() implies node_matches(
                #[trigger] nodes@[j],
                j,
                *profile,
                ms2,
                es2,
            ) by {
                if j < nodes_before.len() {
                    lemma_node_matches_frame(nodes@[j], j, *profile, ms_before, es_before, ms2, es2);
                }
            }
            ms = ms2;
            es = es2;
        }
        edges.push(PublicTreeEdge { action, child });
        k = k + 1;
    }
    let final_key = PublicStateKey::from_state(&state);
    let ghost edge_seq = edges@;
    nodes.set(
        start,
        PublicTreeNode { state: final_key, kind: PublicTreeNodeKind::Decision { actions: edges } },
    );
    let ghost es_final = es.update(start as int, nodes@.len() as int);
    proof {
        assert forall|j: int| start < j < nodes@.len() implies node_matches(
            #[trigger] nodes@[j],
            j,
            *profile,
            ms,
            es_final,
        ) by {
            lemma_node_matches_frame(nodes@[j], j, *profile, ms, es, ms, es_final);
        }
        assert forall|q: int| 0 <= q < edge_seq.len() - 1 implies #[trigger] edge_seq[q + 1].child
            == es_final[edge_seq[q].child as int] by {
            assert(edge_seq[q].child > start);
        }
        if edge_seq.len() > 0 {
            assert(edge_seq.last().child > start);
        }
        assert(edges_match(edge_seq, acts, start as int, state@, ms, es_final));
        assert(node_matches(nodes@[start as int], start as int, *profile, ms, es_final));
        assert(nodes@.subrange(0, start as int) =~= old(nodes)@);
        assert(es_final.subrange(0, start as int) =~= ends) by {
            assert forall|x: int| 0 <= x < start implies es_final[x] == ends[x] by {
                assert(es.subrange(0, start as int)[x] == es[x]);
            }
        }
    }
    (start, Ghost(ms), Ghost(es_final))
}

/// Builds the public tree of the abstraction from a hand: every abstract action of
/// every betting decision, depth first, stopping where board cards are due or the
/// hand ends.
pub fn build_public_tree(initial_state: &HoldemHandState, profile: &AbstractionProfile) -> (r: Result<
    PublicTree,
    HoldemStateError,
>)
    requires
        initial_state.wf(),
    ensures
        r matches Ok(tree) && is_public_tree(tree, initial_state@, *profile),
{
    let mut nodes: Vec<PublicTreeNode> = Vec::new();
    let (root, Ghost(models), Ghost(ends)) = build_node(
        initial_state.duplicate(),
        profile,
        &mut nodes,
        Ghost(Seq::empty()),
        Ghost(Seq::empty()),
    );
    let tree = PublicTree { root, nodes };
    proof {
        assert(tree_layout(tree.nodes@, *profile, models, ends));
    }
    Ok(tree)
}

/// Every edge of the public tree is an action that the hand at its node accepts, and
/// leads to a later node that shows the hand the action makes: a decision while a
/// betting round goes on, else the street awaiting cards or the outcome.
pub proof fn lemma_tree_edges_are_legal(
    tree: PublicTree,
    m: HandModel,
    profile: AbstractionProfile,
    models: Seq<HandModel>,
    ends: Seq<int>,
    i: int,
    k: int,
)
    requires
        tree_layout(tree.nodes@, profile, models, ends),
        0 <= i < tree.nodes@.len(),
        tree.nodes@[i].kind matches PublicTreeNodeKind::Decision { actions } && 0 <= k
            < actions@.len(),
    ensures
        ({
            let edge = tree.nodes@[i].kind->Decision_actions@[k];
            let c = edge.child as int;
            &&& models[i].apply(edge.action.spec_to_player_action()).1 is Ok
            &&& models[c] == models[i].apply(edge.action.spec_to_player_action()).0
            &&& i < c < tree.nodes@.len()
            &&& match models[c].phase {
                HandPhase::BettingRound { .. } => tree.nodes@[c].kind is Decision,
                HandPhase::AwaitingBoard { next_street } => tree.nodes@[c].kind
                    == (PublicTreeNodeKind::AwaitingBoard { next_street }),
                HandPhase::Terminal { outcome } => tree.nodes@[c].kind == (PublicTreeNodeKind::Terminal {
                    outcome,
                }),
            }
        }),
{
    assert(node_matches(tree.nodes@[i], i, profile, models, ends));
    let c = tree.nodes@[i].kind->Decision_actions@[k].child as int;
    assert(tree.nodes@[i].kind->Decision_actions@[k].child as int == c);
    assert(node_matches(tree.nodes@[c], c, profile, models, ends));
    let m_i = models[i];
    assert(m_i.phase is BettingRound);
    lemma_abstract_actions_are_legal(m_i, profile, k);
}


/// Two public states with the same fields, the board read as its cards.
pub open spec fn same_public_state(a: PublicStateKey, b: PublicStateKey) -> bool {
    &&& a.street == b.street
    &&& a.board@ == b.board@
    &&& a.actor == b.actor
    &&& a.pot == b.pot
    &&& a.button_stack == b.button_stack
    &&& a.big_blind_stack == b.big_blind_stack
    &&& a.button_total_contribution == b.button_total_contribution
    &&& a.big_blind_total_contribution == b.big_blind_total_contribution
    &&& a.button_street_contribution == b.button_street_contribution
    &&& a.big_blind_street_contribution == b.big_blind_street_contribution
}

/// Two nodes that show the same public state and the same outcome, street awaiting
/// cards, or edges (the same actions to the same child positions).
pub open spec fn same_node(a: PublicTreeNode, b: PublicTreeNode) -> bool {
    &&& same_public_state(a.state, b.state)
    &&& match (a.kind, b.kind) {
        (
            PublicTreeNodeKind::Decision { actions: x },
            PublicTreeNodeKind::Decision { actions: y },
        ) => x@ == y@,
        (PublicTreeNodeKind::Decision { .. }, _) => false,
        (_, PublicTreeNodeKind::Decision { .. }) => false,
        (x, y) => x == y,
    }
}

/// Position `j` holds the same hand, subtree end and node in both layouts.
spec fn same_at(
    nodes1: Seq<PublicTreeNode>,
    models1: Seq<HandModel>,
    ends1: Seq<int>,
    nodes2: Seq<PublicTreeNode>,
    models2: Seq<HandModel>,
    ends2: Seq<int>,
    j: int,
) -> bool {
    &&& j < nodes2.len()
    &&& models1[j] == models2[j]
    &&& ends1[j] == ends2[j]
    &&& same_node(nodes1[j], nodes2[j])
}

/// The subtree of each child of a decision node ends within the node's own subtree.
proof fn lemma_child_subtree_within(
    nodes: Seq<PublicTreeNode>,
    profile: AbstractionProfile,
    models: Seq<HandModel>,
    ends: Seq<int>,
    i: int,
    k: int,
)
    requires
        tree_layout(nodes, profile, models, ends),
        0 <= i < nodes.len(),
        nodes[i].kind matches PublicTreeNodeKind::Decision { actions } && 0 <= k < actions@.len(),
    ensures
        ({
            let c = nodes[i].kind->Decision_actions@[k].child as int;
            &&& i < c < ends[c] <= ends[i]
            &&& ends[i] <= nodes.len()
        }),
    decreases nodes[i].kind->Decision_actions@.len() - k,
{
    let e = nodes[i].kind->Decision_actions@;
    assert(node_matches(nodes[i], i, profile, models, ends));
    let c = e[k].child as int;
    assert(node_matches(nodes[c], c, profile, models, ends));
    if k + 1 < e.len() {
        lemma_child_subtree_within(nodes, profile, models, ends, i, k + 1);
        assert(e[k + 1].child == ends[e[k].child as int]);
    }
}

/// Two layouts that show the same hand at position `i` agree on the whole subtree there.
proof fn lemma_same_subtree(
    nodes1: Seq<PublicTreeNode>,
    models1: Seq<HandModel>,
    ends1: Seq<int>,
    nodes2: Seq<PublicTreeNode>,
    models2: Seq<HandModel>,
    ends2: Seq<int>,
    profile: AbstractionProfile,
    i: int,
)
    requires
        tree_layout(nodes1, profile, models1, ends1),
        tree_layout(nodes2, profile, models2, ends2),
        0 <= i < nodes1.len(),
        i < nodes2.len(),
        models1[i] == models2[i],
    ensures
        ends1[i] == ends2[i],
        forall|j: int| i <= j < ends1[i] ==> #[trigger] same_at(nodes1, models1, ends1, nodes2, models2, ends2, j),
    decreases ends1[i] - i, 1int,
{
    assert(node_matches(nodes1[i], i, profile, models1, ends1));
    assert(node_matches(nodes2[i], i, profile, models2, ends2));
    let m = models1[i];
    match m.phase {
        HandPhase::BettingRound { .. } => {
            let e1 = nodes1[i].kind->Decision_actions@;
            let e2 = nodes2[i].kind->Decision_actions@;
            if e1.len() > 0 {
                lemma_same_children(nodes1, models1, ends1, nodes2, models2, ends2, profile, i, 0);
                assert(e1 =~= e2);
                assert forall|j: int| i <= j < ends1[i] implies #[trigger] same_at(
                    nodes1,
                    models1,
                    ends1,
                    nodes2,
                    models2,
                    ends2,
                    j,
                ) by {
                    if j > i {
                        assert(same_at(nodes1, models1, ends1, nodes2, models2, ends2, j));
                    }
                }
            } else {
                assert(e1 =~= e2);
            }
        },
        _ => {},
    }
}

/// From the `k`-th child of a decision node on, two layouts that show the same hand at
/// the node agree: the same edges and the same subtrees, up to the node's end.
proof fn lemma_same_children(
    nodes1: Seq<PublicTreeNode>,
    models1: Seq<HandModel>,
    ends1: Seq<int>,
    nodes2: Seq<PublicTreeNode>,
    models2: Seq<HandModel>,
    ends2: Seq<int>,
    profile: AbstractionProfile,
    i: int,
    k: int,
)
    requires
        tree_layout(nodes1, profile, models1, ends1),
        tree_layout(nodes2, profile, models2, ends2),
        0 <= i < nodes1.len(),
        i < nodes2.len(),
        models1[i] == models2[i],
        models1[i].phase is BettingRound,
        0 <= k < nodes1[i].kind->Decision_actions@.len(),
        k < nodes2[i].kind->Decision_actions@.len(),
        nodes1[i].kind->Decision_actions@[k].child == nodes2[i].kind->Decision_actions@[k].child,
    ensures
        ends1[i] == ends2[i],
        forall|k2: int|
            k <= k2 < nodes1[i].kind->Decision_actions@.len() ==> nodes1[i].kind->Decision_actions@[k2]
                == nodes2[i].kind->Decision_actions@[k2],
        forall|j: int|
            nodes1[i].kind->Decision_actions@[k].child <= j < ends1[i] ==> #[trigger] same_at(
                nodes1,
                models1,
                ends1,
                nodes2,
                models2,
                ends2,
                j,
            ),
    decreases ends1[i] - nodes1[i].kind->Decision_actions@[k].child, 2int,
{
    assert(node_matches(nodes1[i], i, profile, models1, ends1));
    assert(node_matches(nodes2[i], i, profile, models2, ends2));
    let e1 = nodes1[i].kind->Decision_actions@;
    let e2 = nodes2[i].kind->Decision_actions@;
    let c = e1[k].child as int;
    assert(models1[c] == models2[c]);
    lemma_child_subtree_within(nodes1, profile, models1, ends1, i, k);
    lemma_same_subtree(nodes1, models1, ends1, nodes2, models2, ends2, profile, c);
    if k + 1 < e1.len() {
        assert(e1[k + 1].child == ends1[e1[k].child as int]);
        assert(e2[k + 1].child == ends2[e2[k].child as int]);
        lemma_same_children(nodes1, models1, ends1, nodes2, models2, ends2, profile, i, k + 1);
        assert forall|j: int| c <= j < ends1[i] implies #[trigger] same_at(
            nodes1,
            models1,
            ends1,
            nodes2,
            models2,
            ends2,
            j,
        ) by {
            if j < ends1[c] {
                assert(same_at(nodes1, models1, ends1, nodes2, models2, ends2, j));
            } else {
                assert(same_at(nodes1, models1, ends1, nodes2, models2, ends2, j));
            }
        }
    }
}

/// The public tree of a hand under a profile is determined by them, so building it
/// twice (`build_public_tree` ensures `is_public_tree`) gives the same tree: the same
/// root, the same number of nodes, and the same node at each position.
pub proof fn lemma_public_tree_is_unique(
    t1: PublicTree,
    t2: PublicTree,
    m: HandModel,
    profile: AbstractionProfile,
)
    requires
        is_public_tree(t1, m, profile),
        is_public_tree(t2, m, profile),
    ensures
        t1.root == t2.root,
        t1.nodes@.len() == t2.nodes@.len(),
        forall|j: int| 0 <= j < t1.nodes@.len() ==> same_node(#[trigger] t1.nodes@[j], t2.nodes@[j]),
{
    let (models1, ends1) = choose|models: Seq<HandModel>, ends: Seq<int>|
        #[trigger] tree_layout(t1.nodes@, profile, models, ends) && t1.root == 0 && t1.nodes@.len()
            > 0 && models[0] == m && ends[0] == t1.nodes@.len();
    let (models2, ends2) = choose|models: Seq<HandModel>, ends: Seq<int>|
        #[trigger] tree_layout(t2.nodes@, profile, models, ends) && t2.root == 0 && t2.nodes@.len()
            > 0 && models[0] == m && ends[0] == t2.nodes@.len();
    lemma_same_subtree(t1.nodes@, models1, ends1, t2.nodes@, models2, ends2, profile, 0);
    assert forall|j: int| 0 <= j < t1.nodes@.len() implies same_node(
        #[trigger] t1.nodes@[j],
        t2.nodes@[j],
    ) by {
        assert(same_at(t1.nodes@, models1, ends1, t2.nodes@, models2, ends2, j));
    }
}

} // verus!
