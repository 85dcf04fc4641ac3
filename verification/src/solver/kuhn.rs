use vstd::prelude::*;

verus! {

/// The three cards of Kuhn poker, weakest first.
#[derive(Debug, Clone, Copy, PartialEq, Eq, PartialOrd, Ord, Hash, Structural)]
pub enum KuhnCard {
    Jack,
    Queen,
    King,
}

#[derive(Debug, Clone, Copy, PartialEq, Eq, Hash, Structural)]
pub enum KuhnAction {
    Check,
    Bet,
    Call,
    Fold,
}

/// What the player to act knows: the own card and the actions so far.
#[derive(Debug, Clone, PartialEq, Eq, Hash)]
pub struct KuhnInfoSet {
    pub player: usize,
    pub private_card: KuhnCard,
    pub history: Vec<KuhnAction>,
}

/// A Kuhn poker game: the dealt cards, once dealt, and the actions so far.
#[derive(Debug, Clone, PartialEq, Eq)]
pub struct KuhnState {
    private_cards: Option<[KuhnCard; 2]>,
    history: Vec<KuhnAction>,
}

/// A node of the Kuhn game: the deal, a decision, or the end with each player's
/// winnings in antes.
#[derive(Debug, Clone, PartialEq, Eq)]
pub enum KuhnNode {
    Terminal { utilities: [i64; 2] },
    /// The six deals, equally likely.
    Chance { outcomes: Vec<KuhnState> },
    Decision { player: usize, infoset: KuhnInfoSet, actions: Vec<KuhnAction> },
}

impl KuhnCard {
    pub open spec fn rank(self) -> int {
        match self {
            KuhnCard::Jack => 0,
            KuhnCard::Queen => 1,
            KuhnCard::King => 2,
        }
    }
}

/// The six deals of two different cards, in card order.
pub open spec fn kuhn_deals() -> Seq<(KuhnCard, KuhnCard)> {
    seq![
        (KuhnCard::Jack, KuhnCard::Queen),
        (KuhnCard::Jack, KuhnCard::King),
        (KuhnCard::Queen, KuhnCard::Jack),
        (KuhnCard::Queen, KuhnCard::King),
        (KuhnCard::King, KuhnCard::Jack),
        (KuhnCard::King, KuhnCard::Queen),
    ]
}

/// The antes won by the first player when the hand ends after `history`, if it does:
/// the higher card takes one ante after two checks and two after a called bet; a
/// fold loses one.
pub open spec fn kuhn_payoff(cards: (KuhnCard, KuhnCard), history: Seq<KuhnAction>) -> Option<int> {
    let sign = if cards.0.rank() > cards.1.rank() {
        1int
    } else {
        -1int
    };
    if history == seq![KuhnAction::Check, KuhnAction::Check] {
        Some(sign)
    } else if history == seq![KuhnAction::Bet, KuhnAction::Fold] {
        Some(1)
    } else if history == seq![KuhnAction::Bet, KuhnAction::Call] {
        Some(2 * sign)
    } else if history == seq![KuhnAction::Check, KuhnAction::Bet, KuhnAction::Fold] {
        Some(-1)
    } else if history == seq![KuhnAction::Check, KuhnAction::Bet, KuhnAction::Call] {
        Some(2 * sign)
    } else {
        None
    }
}

/// The histories of an unfinished hand, with who acts and what they may do.
pub open spec fn kuhn_turn(history: Seq<KuhnAction>) -> Option<(usize, Seq<KuhnAction>)> {
    if history.len() == 0 {
        Some((0usize, seq![KuhnAction::Check, KuhnAction::Bet]))
    } else if history == seq![KuhnAction::Check] {
        Some((1usize, seq![KuhnAction::Check, KuhnAction::Bet]))
    } else if history == seq![KuhnAction::Bet] {
        Some((1usize, seq![KuhnAction::Fold, KuhnAction::Call]))
    } else if history == seq![KuhnAction::Check, KuhnAction::Bet] {
        Some((0usize, seq![KuhnAction::Fold, KuhnAction::Call]))
    } else {
        None
    }
}

/// The actions offered after `history` (none once the hand is over).
pub open spec fn kuhn_options(history: Seq<KuhnAction>) -> Seq<KuhnAction> {
    match kuhn_turn(history) {
        Some((_, acts)) => acts,
        None => Seq::empty(),
    }
}

impl View for KuhnState {
    type V = (Option<(KuhnCard, KuhnCard)>, Seq<KuhnAction>);

    closed spec fn view(&self) -> (Option<(KuhnCard, KuhnCard)>, Seq<KuhnAction>) {
        (
            match self.private_cards {
                Some(c) => Some((c[0], c[1])),
                None => None,
            },
            self.history@,
        )
    }
}

impl KuhnState {
    /// A game that can reach a node: before the deal with no actions, or with two
    /// different cards and a history that is either unfinished or just finished.
    pub open spec fn wf(&self) -> bool {
        match self@.0 {
            None => self@.1.len() == 0,
            Some(cards) => cards.0 != cards.1 && (kuhn_turn(self@.1) is Some || kuhn_payoff(
                cards,
                self@.1,
            ) is Some),
        }
    }

    /// The game before the deal.
    pub fn new() -> (r: Self)
        ensures
            r@ == (None::<(KuhnCard, KuhnCard)>, Seq::<KuhnAction>::empty()),
            r.wf(),
    {
        KuhnState { private_cards: None, history: Vec::new() }
    }

    /// The game with `cards` dealt and `history` played.
    pub fn with_cards(cards: [KuhnCard; 2], history: Vec<KuhnAction>) -> (r: Self)
        ensures
            r@ == (Some((cards[0], cards[1])), history@),
    {
        KuhnState { private_cards: Some(cards), history }
    }

    /// The game after one more action.
    pub fn next_state(&self, action: KuhnAction) -> (r: Self)
        ensures
            r@ == (self@.0, self@.1.push(action)),
    {
        let mut history = Vec::new();
        let mut i: usize = 0;
        while i < self.history.len()
            invariant
                i <= self.history@.len(),
                history@ == self.history@.take(i as int),
            decreases self.history@.len() - i,
        {
            history.push(self.history[i]);
            proof {
                assert(history@ =~= self.history@.take(i + 1));
            }
            i = i + 1;
        }
        history.push(action);
        proof {
            assert(history@ =~= self.history@.push(action));
        }
        KuhnState { private_cards: self.private_cards, history }
    }

    fn history_copy(&self) -> (r: Vec<KuhnAction>)
        ensures
            r@ == self.history@,
    {
        let mut history = Vec::new();
        let mut i: usize = 0;
        while i < self.history.len()
            invariant
                i <= self.history@.len(),
                history@ == self.history@.take(i as int),
            decreases self.history@.len() - i,
        {
            history.push(self.history[i]);
            proof {
                assert(history@ =~= self.history@.take(i + 1));
            }
            i = i + 1;
        }
        proof {
            assert(self.history@.take(i as int) =~= self.history@);
        }
        history
    }

    /// What happens at this point of the game: the deal, the payoff, or a decision.
    pub fn node(&self) -> (r: KuhnNode)
        requires
            self.wf(),
        ensures
            match self@.0 {
                None => r matches KuhnNode::Chance { outcomes } && outcomes@.len() == 6 && forall|i: int|
                    0 <= i < 6 ==> (#[trigger] outcomes@[i])@ == (
                        Some(kuhn_deals()[i]),
                        Seq::<KuhnAction>::empty(),
                    ),
                Some(cards) => match kuhn_payoff(cards, self@.1) {
                    Some(u) => r matches KuhnNode::Terminal { utilities } && utilities@ == seq![
                        u as i64,
                        -u as i64,
                    ],
                    None => r matches KuhnNode::Decision { player, infoset, actions } && ({
                        let (p, acts) = kuhn_turn(self@.1)->0;
                        &&& player == p
                        &&& infoset.player == p
                        &&& infoset.private_card == if p == 0 {
                            cards.0
                        } else {
                            cards.1
                        }
                        &&& infoset.history@ == self@.1
                        &&& actions@ == acts
                    }),
                },
            },
    {
        let cards = match self.private_cards {
            None => {
                let mut outcomes: Vec<KuhnState> = Vec::new();
                outcomes.push(KuhnState::with_cards([KuhnCard::Jack, KuhnCard::Queen], Vec::new()));
                outcomes.push(KuhnState::with_cards([KuhnCard::Jack, KuhnCard::King], Vec::new()));
                outcomes.push(KuhnState::with_cards([KuhnCard::Queen, KuhnCard::Jack], Vec::new()));
                outcomes.push(KuhnState::with_cards([KuhnCard::Queen, KuhnCard::King], Vec::new()));
                outcomes.push(KuhnState::with_cards([KuhnCard::King, KuhnCard::Jack], Vec::new()));
                outcomes.push(KuhnState::with_cards([KuhnCard::King, KuhnCard::Queen], Vec::new()));
                return KuhnNode::Chance { outcomes };
            },
            Some(cards) => cards,
        };
        let first_wins = card_rank(cards[0]) > card_rank(cards[1]);
        let sign: i64 = if first_wins {
            1
        } else {
            -1
        };
        let h = &self.history;
        let n = h.len();
        proof {
            assert(self@.1 == h@);
        }
        if n == 2 && h[0] == KuhnAction::Check && h[1] == KuhnAction::Check {
            proof {
                assert(h@ =~= seq![KuhnAction::Check, KuhnAction::Check]);
            }
            return KuhnNode::Terminal { utilities: [sign, -sign] };
        }
        if n == 2 && h[0] == KuhnAction::Bet && h[1] == KuhnAction::Fold {
            proof {
                assert(h@ =~= seq![KuhnAction::Bet, KuhnAction::Fold]);
            }
            return KuhnNode::Terminal { utilities: [1, -1] };
        }
        if n == 2 && h[0] == KuhnAction::Bet && h[1] == KuhnAction::Call {
            proof {
                assert(h@ =~= seq![KuhnAction::Bet, KuhnAction::Call]);
            }
            return KuhnNode::Terminal { utilities: [2 * sign, -2 * sign] };
        }
        if n == 3 && h[0] == KuhnAction::Check && h[1] == KuhnAction::Bet && h[2] == KuhnAction::Fold {
            proof {
                assert(h@ =~= seq![KuhnAction::Check, KuhnAction::Bet, KuhnAction::Fold]);
            }
            return KuhnNode::Terminal { utilities: [-1, 1] };
        }
        if n == 3 && h[0] == KuhnAction::Check && h[1] == KuhnAction::Bet && h[2] == KuhnAction::Call {
            proof {
                assert(h@ =~= seq![KuhnAction::Check, KuhnAction::Bet, KuhnAction::Call]);
            }
            return KuhnNode::Terminal { utilities: [2 * sign, -2 * sign] };
        }
        proof {
            assert(n == 2 ==> h@ == seq![h@[0], h@[1]]);
            assert(n == 3 ==> h@ == seq![h@[0], h@[1], h@[2]]);
        }
        let (player, actions) = if n == 0 {
            (0usize, vec![KuhnAction::Check, KuhnAction::Bet])
        } else if n == 1 && h[0] == KuhnAction::Check {
            proof {
                assert(h@ =~= seq![KuhnAction::Check]);
            }
            (1usize, vec![KuhnAction::Check, KuhnAction::Bet])
        } else if n == 1 {
            proof {
                assert(h@ =~= seq![KuhnAction::Bet]);
            }
            (1usize, vec![KuhnAction::Fold, KuhnAction::Call])
        } else {
            proof {
                assert(h@ =~= seq![KuhnAction::Check, KuhnAction::Bet]);
            }
            (0usize, vec![KuhnAction::Fold, KuhnAction::Call])
        };
        let private_card = if player == 0 {
            cards[0]
        } else {
            cards[1]
        };
        KuhnNode::Decision {
            player,
            infoset: KuhnInfoSet { player, private_card, history: self.history_copy() },
            actions,
        }
    }
}

fn card_rank(card: KuhnCard) -> (r: u8)
    ensures
        r == card.rank(),
{
    match card {
        KuhnCard::Jack => 0,
        KuhnCard::Queen => 1,
        KuhnCard::King => 2,
    }
}

/// Every action offered at a decision leads to a point of the game that has a node
/// again, and every hand ends within three actions.
pub proof fn lemma_kuhn_actions_stay_in_game(cards: (KuhnCard, KuhnCard), history: Seq<KuhnAction>, a: KuhnAction)
    requires
        cards.0 != cards.1,
        kuhn_turn(history) is Some,
        kuhn_options(history).contains(a),
    ensures
        kuhn_turn(history.push(a)) is Some || kuhn_payoff(cards, history.push(a)) is Some,
        history.push(a).len() <= 3,
{
    let acts = kuhn_options(history);
    let k = choose|k: int| 0 <= k < acts.len() && acts[k] == a;
    if history.len() == 0 {
        assert(history.push(a) =~= seq![a]);
    } else if history == seq![KuhnAction::Check] {
        assert(history.push(a) =~= seq![KuhnAction::Check, a]);
    } else if history == seq![KuhnAction::Bet] {
        assert(history.push(a) =~= seq![KuhnAction::Bet, a]);
    } else {
        assert(history.push(a) =~= seq![KuhnAction::Check, KuhnAction::Bet, a]);
    }
}

} // verus!
