//! The automated player.
//!
//! The agent estimates every hand with the belief estimator, enumerates the
//! actions legal for it (including bluffs it can plausibly sustain), scores
//! them with its utility table, and answers challenge and block queries from
//! its two trained risk cutoffs.  Its entire decision policy is published
//! through spec functions, and every method is proved to follow it.

use vstd::prelude::*;
use vstd::multiset::Multiset;

use crate::Card;
use crate::Action;
use crate::hand_has;
use crate::wiped;
use crate::real_count;
use crate::selection_ok;
use crate::action_target;
use crate::gainful;
use crate::belief::PerceivedHand;
use crate::belief::is_public_hand;
use crate::belief::is_private_hand;
use crate::belief::compute_beliefs;
use crate::player::Player;
use crate::player::PlayerMetadata;
use crate::player::ActionUtilities;
use crate::player::pair_multiset;
use crate::player::sat_add_i64;
use crate::player::random_delta;
use crate::player::CUTOFF_NOISE;
use crate::player::UNIT;
use crate::rng::random_in;
use crate::rng::random_bool;

verus! {

/// Holds the information and performs the actions of an automated player.
#[derive(Clone, Debug)]
pub struct Agent {
    /// This player's seat.
    id: usize,
    /// The first hand slot.
    hand0: Card,
    /// The second hand slot.
    hand1: Card,
    /// The coin purse.
    coins: u8,
    /// Cutoff probability (in millionths) below which a claim is disbelieved.
    liar_cutoff: i64,
    /// Cutoff probability (in millionths) above which a bluff looks safe.
    lying_cutoff: i64,
    /// The utility table scoring each action kind.
    utilities: ActionUtilities,
    /// The number of opponents.
    opponents: usize,
    /// The perceived hand of every seat, refreshed each turn.
    perceived_hands: Vec<PerceivedHand>,
}

/// The kinds of targeted actions.
#[derive(Copy, Clone)]
pub enum TargetKind {
    Coup,
    Steal,
    Assassinate,
}

/// The targeted action of the given kind against `t`.
pub open spec fn mk_action(kind: TargetKind, t: usize) -> Action {
    match kind {
        TargetKind::Coup => Action::Coup(t),
        TargetKind::Steal => Action::Steal(t),
        TargetKind::Assassinate => Action::Assassinate(t),
    }
}

/// The actions of the given kind against every seat below `n` that is
/// neither the selector nor eliminated, in ascending seat order.
pub open spec fn target_actions(kind: TargetKind, id: usize, elim: Seq<usize>, n: int) -> Seq<Action>
    decreases n,
{
    if n <= 0 {
        Seq::empty()
    } else {
        let prev = target_actions(kind, id, elim, n - 1);
        if n - 1 != id && !elim.contains((n - 1) as usize) {
            prev.push(mk_action(kind, (n - 1) as usize))
        } else {
            prev
        }
    }
}

/// A targeted action enumerated against live, existing, other seats.
pub open spec fn target_elem_ok(
    a: Action,
    kind: TargetKind,
    id: usize,
    opp: usize,
    elim: Seq<usize>,
) -> bool {
    match action_target(a) {
        Some(t) => a == mk_action(kind, t) && t != id && t <= opp && !elim.contains(t),
        None => false,
    }
}

impl Agent {
    /// The perceived hands, abstractly.
    pub closed spec fn beliefs(self) -> Seq<PerceivedHand> {
        self.perceived_hands@
    }

    /// The liar cutoff, abstractly.
    pub closed spec fn liar_cutoff_s(self) -> i64 {
        self.liar_cutoff
    }

    /// The lying cutoff, abstractly.
    pub closed spec fn lying_cutoff_s(self) -> i64 {
        self.lying_cutoff
    }

    /// The utility table, abstractly.
    pub closed spec fn utilities_s(self) -> ActionUtilities {
        self.utilities
    }

    /// The actions available to this agent: an eliminated agent only passes;
    /// ten coins or more force a Coup; otherwise Income and ForeignAid are
    /// always available, Coup needs seven coins, each claiming action needs
    /// its card — or, as a bluff, a public-pool belief above the lying
    /// cutoff — and Assassinate needs three coins besides.
    pub open spec fn avail_spec(self, elim: Seq<usize>) -> Seq<Action> {
        let hand = self.hand_s();
        let me = self.beliefs()[self.id_s() as int];
        let n = self.opp_s() + 1;
        if wiped(hand) {
            seq![Action::Pass]
        } else if self.coins_s() >= 10 {
            target_actions(TargetKind::Coup, self.id_s(), elim, n)
        } else {
            seq![Action::Income, Action::ForeignAid] + (if self.coins_s() >= 7 {
                target_actions(TargetKind::Coup, self.id_s(), elim, n)
            } else {
                Seq::empty()
            }) + (if hand_has(hand, Card::Duke) {
                seq![Action::Tax]
            } else {
                Seq::empty()
            }) + (if hand_has(hand, Card::Captain) {
                target_actions(TargetKind::Steal, self.id_s(), elim, n)
            } else {
                Seq::empty()
            }) + (if hand_has(hand, Card::Ambassador) {
                seq![Action::Exchange]
            } else {
                Seq::empty()
            }) + (if hand_has(hand, Card::Assassin) && self.coins_s() >= 3 {
                target_actions(TargetKind::Assassinate, self.id_s(), elim, n)
            } else {
                Seq::empty()
            }) + (if !hand_has(hand, Card::Duke) && me.duke.gt_cutoff(self.lying_cutoff_s()) {
                seq![Action::Tax]
            } else {
                Seq::empty()
            }) + (if !hand_has(hand, Card::Captain) && me.captain.gt_cutoff(
                self.lying_cutoff_s(),
            ) {
                target_actions(TargetKind::Steal, self.id_s(), elim, n)
            } else {
                Seq::empty()
            }) + (if !hand_has(hand, Card::Ambassador) && me.ambassador.gt_cutoff(
                self.lying_cutoff_s(),
            ) {
                seq![Action::Exchange]
            } else {
                Seq::empty()
            }) + (if !hand_has(hand, Card::Assassin) && me.assassin.gt_cutoff(
                self.lying_cutoff_s(),
            ) && self.coins_s() >= 3 {
                target_actions(TargetKind::Assassinate, self.id_s(), elim, n)
            } else {
                Seq::empty()
            })
        }
    }

    /// The utility an action scores: its table weight (Pass scores zero),
    /// discounted to zero for ForeignAid when some other seat looks like a
    /// Duke holder, and for Steal when the target looks like a Captain or
    /// Ambassador holder.
    pub open spec fn utility_spec(self, a: Action) -> int {
        let base: int = match a {
            Action::Income => self.utilities_s().income as int,
            Action::ForeignAid => self.utilities_s().foreignaid as int,
            Action::Coup(_) => self.utilities_s().coup as int,
            Action::Tax => self.utilities_s().tax as int,
            Action::Assassinate(_) => self.utilities_s().assassinate as int,
            Action::Exchange => self.utilities_s().exchange as int,
            Action::Steal(_) => self.utilities_s().steal as int,
            Action::Pass => 0,
        };
        if a == Action::ForeignAid && self.fears_duke() {
            0
        } else if (a matches Action::Steal(t) && self.fears_steal_block(t)) {
            0
        } else {
            base
        }
    }

    /// Some other seat is believed to hold a Duke beyond the liar cutoff.
    pub open spec fn fears_duke(self) -> bool {
        exists|q: int|
            0 <= q < self.beliefs().len() && q != self.id_s() && (#[trigger] self.beliefs()[q]).duke.gt_cutoff(
                self.liar_cutoff_s(),
            )
    }

    /// The steal target is believed to hold a Captain or Ambassador beyond
    /// the liar cutoff.
    pub open spec fn fears_steal_block(self, t: usize) -> bool {
        self.beliefs()[t as int].captain.gt_cutoff(self.liar_cutoff_s()) || self.beliefs()[
            t as int
        ].ambassador.gt_cutoff(self.liar_cutoff_s())
    }

    /// The first-seen maximum-utility action among the first `i` of `s`.
    pub open spec fn best_prefix(self, s: Seq<Action>, i: int) -> Action
        decreases i,
    {
        if i <= 1 {
            s[0]
        } else {
            let prev = self.best_prefix(s, i - 1);
            if self.utility_spec(s[i - 1]) > self.utility_spec(prev) {
                s[i - 1]
            } else {
                prev
            }
        }
    }

    /// The chosen prefix maximum is an element of the prefix.
    proof fn lemma_best_prefix_contains(self, s: Seq<Action>, i: int)
        requires
            1 <= i <= s.len(),
        ensures
            s.contains(self.best_prefix(s, i)),
        decreases i,
    {
        if i <= 1 {
            assert(s[0] == self.best_prefix(s, i));
        } else {
            self.lemma_best_prefix_contains(s, i - 1);
        }
    }

    /// A claim of `card` by `claimant` is challenged exactly when the claim
    /// can be tested, this agent is still playing, and the claimant's
    /// perceived probability of the card falls below the liar cutoff.
    pub open spec fn challenge_decision(self, claimant: usize, card: Card) -> bool {
        if card == Card::Empty {
            false
        } else if wiped(self.hand_s()) {
            false
        } else {
            self.beliefs()[claimant as int].value_of(card).lt_cutoff(self.liar_cutoff_s())
        }
    }

    /// This agent blocks only actions against itself (ForeignAid hurts
    /// everyone, so it counts): ForeignAid claiming Duke, Assassinate
    /// claiming Contessa, Steal claiming whichever of Captain or Ambassador
    /// it looks likelier to hold — each only when the public pool makes the
    /// counter-claim convincing beyond the lying cutoff.
    pub open spec fn block_decision(self, action: Action) -> (bool, Card) {
        if wiped(self.hand_s()) {
            (false, Card::Empty)
        } else {
            let me = self.beliefs()[self.id_s() as int];
            match action {
                Action::ForeignAid => (
                    me.duke.gt_cutoff(self.lying_cutoff_s()),
                    Card::Duke,
                ),
                Action::Assassinate(i) => (
                    i == self.id_s() && me.contessa.gt_cutoff(self.lying_cutoff_s()),
                    Card::Contessa,
                ),
                Action::Steal(i) => if i != self.id_s() {
                    (false, Card::Empty)
                } else if me.captain.gt_frac(me.ambassador) {
                    (me.captain.gt_cutoff(self.lying_cutoff_s()), Card::Captain)
                } else {
                    (me.ambassador.gt_cutoff(self.lying_cutoff_s()), Card::Ambassador)
                },
                _ => (false, Card::Empty),
            }
        }
    }

    /// The selected action is the first-seen maximum-utility available
    /// action, or Pass when nothing is available.
    pub open spec fn select_decision(self, eliminated: Seq<usize>) -> Action {
        let avail = self.avail_spec(eliminated);
        if avail.len() == 0 {
            Action::Pass
        } else {
            self.best_prefix(avail, avail.len() as int)
        }
    }

    /// Generates a new player with random strategy parameters.
    pub fn new(id: usize, opponents: usize) -> (agent: Agent)
        ensures
            agent.id_s() == id,
            agent.opp_s() == opponents,
            agent.hand_s() == (Card::Empty, Card::Empty),
            agent.coins_s() == 2,
            0 <= agent.liar_cutoff_s() < UNIT,
            0 <= agent.lying_cutoff_s() < UNIT,
            agent.utilities_s().income < UNIT && agent.utilities_s().foreignaid < UNIT
                && agent.utilities_s().coup < UNIT && agent.utilities_s().tax < UNIT
                && agent.utilities_s().assassinate < UNIT && agent.utilities_s().exchange < UNIT
                && agent.utilities_s().steal < UNIT,
            agent.meta_s() matches PlayerMetadata::Computer { .. },
            agent.beliefs() == Seq::<PerceivedHand>::empty(),
    {
        Agent {
            id,
            hand0: Card::Empty,
            hand1: Card::Empty,
            coins: 2,
            liar_cutoff: random_in(0, UNIT) as i64,
            lying_cutoff: random_in(0, UNIT) as i64,
            utilities: ActionUtilities::random(),
            opponents,
            perceived_hands: Vec::new(),
        }
    }

    /// Creates a new player with the specified parameters.
    pub fn from_metadata(id: usize, opponents: usize, metadata: PlayerMetadata) -> (agent: Agent)
        requires
            metadata matches PlayerMetadata::Computer { .. },
        ensures
            agent.id_s() == id,
            agent.opp_s() == opponents,
            agent.hand_s() == (Card::Empty, Card::Empty),
            agent.coins_s() == 2,
            agent.meta_s() == metadata,
            agent.beliefs() == Seq::<PerceivedHand>::empty(),
    {
        match metadata {
            PlayerMetadata::Computer { lying_cutoff, liar_cutoff, utilities } => Agent {
                id,
                hand0: Card::Empty,
                hand1: Card::Empty,
                coins: 2,
                liar_cutoff,
                lying_cutoff,
                utilities,
                opponents,
                perceived_hands: Vec::new(),
            },
            PlayerMetadata::Human => Agent {
                id,
                hand0: Card::Empty,
                hand1: Card::Empty,
                coins: 2,
                liar_cutoff: 0,
                lying_cutoff: 0,
                utilities: ActionUtilities {
                    income: 0,
                    foreignaid: 0,
                    coup: 0,
                    tax: 0,
                    assassinate: 0,
                    exchange: 0,
                    steal: 0,
                },
                opponents,
                perceived_hands: Vec::new(),
            },
        }
    }

    /// Sets the seat of this player.
    pub fn set_id(&mut self, id: usize)
        ensures
            final(self).id_s() == id,
            final(self).opp_s() == old(self).opp_s(),
            final(self).hand_s() == old(self).hand_s(),
            final(self).coins_s() == old(self).coins_s(),
            final(self).meta_s() == old(self).meta_s(),
    {
        self.id = id;
    }

    /// Consumes this player and returns one reseated at the given seat.
    pub fn with_id(self, id: usize) -> (agent: Agent)
        ensures
            agent.id_s() == id,
            agent.opp_s() == self.opp_s(),
            agent.hand_s() == self.hand_s(),
            agent.coins_s() == self.coins_s(),
            agent.meta_s() == self.meta_s(),
    {
        Agent {
            id,
            hand0: self.hand0,
            hand1: self.hand1,
            coins: self.coins,
            liar_cutoff: self.liar_cutoff,
            lying_cutoff: self.lying_cutoff,
            utilities: self.utilities,
            opponents: self.opponents,
            perceived_hands: self.perceived_hands,
        }
    }

    /// Mutates this player: the offspring starts a fresh game with the two
    /// cutoffs perturbed by independent noise up to a hundredth each way and
    /// every utility weight raised by independent noise below a tenth.
    pub fn mutate(&self) -> (agent: Agent)
        ensures
            agent.id_s() == self.id_s(),
            agent.opp_s() == self.opp_s(),
            agent.hand_s() == (Card::Empty, Card::Empty),
            agent.coins_s() == 2,
            -(CUTOFF_NOISE as int) <= agent.liar_cutoff_s() - self.liar_cutoff_s()
                <= CUTOFF_NOISE as int,
            -(CUTOFF_NOISE as int) <= agent.lying_cutoff_s() - self.lying_cutoff_s()
                <= CUTOFF_NOISE as int,
            self.utilities_s().income <= agent.utilities_s().income && agent.utilities_s().income
                - self.utilities_s().income < crate::player::UTILITY_NOISE,
            self.utilities_s().foreignaid <= agent.utilities_s().foreignaid
                && agent.utilities_s().foreignaid - self.utilities_s().foreignaid
                < crate::player::UTILITY_NOISE,
            self.utilities_s().coup <= agent.utilities_s().coup && agent.utilities_s().coup
                - self.utilities_s().coup < crate::player::UTILITY_NOISE,
            self.utilities_s().tax <= agent.utilities_s().tax && agent.utilities_s().tax
                - self.utilities_s().tax < crate::player::UTILITY_NOISE,
            self.utilities_s().assassinate <= agent.utilities_s().assassinate
                && agent.utilities_s().assassinate - self.utilities_s().assassinate
                < crate::player::UTILITY_NOISE,
            self.utilities_s().exchange <= agent.utilities_s().exchange
                && agent.utilities_s().exchange - self.utilities_s().exchange
                < crate::player::UTILITY_NOISE,
            self.utilities_s().steal <= agent.utilities_s().steal && agent.utilities_s().steal
                - self.utilities_s().steal < crate::player::UTILITY_NOISE,
            agent.beliefs() == Seq::<PerceivedHand>::empty(),
    {
        Agent {
            id: self.id,
            hand0: Card::Empty,
            hand1: Card::Empty,
            coins: 2,
            liar_cutoff: sat_add_i64(self.liar_cutoff, random_delta(CUTOFF_NOISE)),
            lying_cutoff: sat_add_i64(self.lying_cutoff, random_delta(CUTOFF_NOISE)),
            utilities: self.utilities.mutate(),
            opponents: self.opponents,
            perceived_hands: Vec::new(),
        }
    }

    /// Prepares this player for the next game: hand, purse and beliefs are
    /// reset, strategy parameters kept.
    pub fn clear(&mut self)
        ensures
            final(self).hand_s() == (Card::Empty, Card::Empty),
            final(self).coins_s() == 2,
            final(self).id_s() == old(self).id_s(),
            final(self).opp_s() == old(self).opp_s(),
            final(self).meta_s() == old(self).meta_s(),
            final(self).beliefs() == Seq::<PerceivedHand>::empty(),
    {
        self.hand0 = Card::Empty;
        self.hand1 = Card::Empty;
        self.coins = 2;
        self.perceived_hands = Vec::new();
    }

    /// Enumerates the actions available to the player, exactly as
    /// `avail_spec` lists them.
    #[verifier::rlimit(100)]
    pub fn get_available_actions(&self, eliminated_players: &[usize]) -> (actions: Vec<Action>)
        requires
            self.ready_s(),
            self.id_s() <= self.opp_s(),
            self.opp_s() < usize::MAX,
        ensures
            actions@ == self.avail_spec(eliminated_players@),
            forall|j: int|
                0 <= j < actions@.len() ==> sel_elem_ok(#[trigger] actions@[j], *self),
    {
        // An eliminated player must Pass.
        if self.is_eliminated() {
            let mut actions: Vec<Action> = Vec::new();
            actions.push(Action::Pass);
            proof {
                assert(actions@ =~= seq![Action::Pass]);
            }
            return actions;
        }
        // With ten coins or more, the player must Coup.
        if self.coins >= 10 {
            let mut actions: Vec<Action> = Vec::new();
            self.append_targets(&mut actions, TargetKind::Coup, eliminated_players);
            proof {
                assert(actions@ =~= self.avail_spec(eliminated_players@));
                assert(forall|j: int|
                    0 <= j < actions@.len() ==> sel_elem_ok(#[trigger] actions@[j], *self));
            }
            return actions;
        }
        self.build_open_menu(eliminated_players)
    }

    /// Builds the menu for a live player below ten coins: the always-legal
    /// actions, the card-backed claims, and the cutoff-gated bluffs.
    #[verifier::rlimit(100)]
    fn build_open_menu(&self, eliminated_players: &[usize]) -> (actions: Vec<Action>)
        requires
            self.ready_s(),
            self.id_s() <= self.opp_s(),
            self.opp_s() < usize::MAX,
            !wiped(self.hand_s()),
            self.coins_s() < 10,
        ensures
            actions@ == self.avail_spec(eliminated_players@),
            forall|j: int|
                0 <= j < actions@.len() ==> sel_elem_ok(#[trigger] actions@[j], *self),
    {
        let mut actions: Vec<Action> = Vec::new();
        let ghost me_g = self.beliefs()[self.id_s() as int];
        let ghost n_g = self.opp_s() + 1;
        let ghost elim_g = eliminated_players@;

        // Income and ForeignAid are always available.
        actions.push(Action::Income);
        actions.push(Action::ForeignAid);
        let ghost p1 = seq![Action::Income, Action::ForeignAid];
        proof {
            assert(actions@ =~= p1);
            assert(forall|j: int|
                0 <= j < actions@.len() ==> sel_elem_ok(#[trigger] actions@[j], *self));
        }

        // Coup is available against any live opponent with seven coins.
        if self.coins >= 7 {
            self.append_targets(&mut actions, TargetKind::Coup, eliminated_players);
        }
        let ghost p2 = p1 + (if self.coins_s() >= 7 {
            target_actions(TargetKind::Coup, self.id_s(), elim_g, n_g)
        } else {
            Seq::empty()
        });
        proof {
            assert(actions@ =~= p2);
            assert(forall|j: int|
                0 <= j < actions@.len() ==> sel_elem_ok(#[trigger] actions@[j], *self));
        }

        // Safe actions, backed by a card actually held.
        if self.check(Card::Duke) {
            actions.push(Action::Tax);
        }
        let ghost p3 = p2 + (if hand_has(self.hand_s(), Card::Duke) {
            seq![Action::Tax]
        } else {
            Seq::empty()
        });
        proof {
            assert(actions@ =~= p3);
        }
        if self.check(Card::Captain) {
            self.append_targets(&mut actions, TargetKind::Steal, eliminated_players);
        }
        let ghost p4 = p3 + (if hand_has(self.hand_s(), Card::Captain) {
            target_actions(TargetKind::Steal, self.id_s(), elim_g, n_g)
        } else {
            Seq::empty()
        });
        proof {
            assert(actions@ =~= p4);
            assert(forall|j: int|
                0 <= j < actions@.len() ==> sel_elem_ok(#[trigger] actions@[j], *self));
        }
        if self.check(Card::Ambassador) {
            actions.push(Action::Exchange);
        }
        let ghost p5 = p4 + (if hand_has(self.hand_s(), Card::Ambassador) {
            seq![Action::Exchange]
        } else {
            Seq::empty()
        });
        proof {
            assert(actions@ =~= p5);
        }
        if self.check(Card::Assassin) && self.coins >= 3 {
            self.append_targets(&mut actions, TargetKind::Assassinate, eliminated_players);
        }
        let ghost p6 = p5 + (if hand_has(self.hand_s(), Card::Assassin) && self.coins_s() >= 3 {
            target_actions(TargetKind::Assassinate, self.id_s(), elim_g, n_g)
        } else {
            Seq::empty()
        });
        proof {
            assert(actions@ =~= p6);
            assert(forall|j: int|
                0 <= j < actions@.len() ==> sel_elem_ok(#[trigger] actions@[j], *self));
        }

        // Bluffs: claims not backed by a card, made only when the public
        // pool makes the claim convincing beyond the lying cutoff.
        let me = self.perceived_hands[self.id];
        proof {
            assert(me == me_g);
        }
        if !self.check(Card::Duke) && me.duke.is_gt_cutoff(self.lying_cutoff) {
            actions.push(Action::Tax);
        }
        let ghost p7 = p6 + (if !hand_has(self.hand_s(), Card::Duke) && me_g.duke.gt_cutoff(
            self.lying_cutoff_s(),
        ) {
            seq![Action::Tax]
        } else {
            Seq::empty()
        });
        proof {
            assert(actions@ =~= p7);
        }
        if !self.check(Card::Captain) && me.captain.is_gt_cutoff(self.lying_cutoff) {
            self.append_targets(&mut actions, TargetKind::Steal, eliminated_players);
        }
        let ghost p8 = p7 + (if !hand_has(self.hand_s(), Card::Captain) && me_g.captain.gt_cutoff(
            self.lying_cutoff_s(),
        ) {
            target_actions(TargetKind::Steal, self.id_s(), elim_g, n_g)
        } else {
            Seq::empty()
        });
        proof {
            assert(actions@ =~= p8);
            assert(forall|j: int|
                0 <= j < actions@.len() ==> sel_elem_ok(#[trigger] actions@[j], *self));
        }
        if !self.check(Card::Ambassador) && me.ambassador.is_gt_cutoff(self.lying_cutoff) {
            actions.push(Action::Exchange);
        }
        let ghost p9 = p8 + (if !hand_has(self.hand_s(), Card::Ambassador)
            && me_g.ambassador.gt_cutoff(self.lying_cutoff_s()) {
            seq![Action::Exchange]
        } else {
            Seq::empty()
        });
        proof {
            assert(actions@ =~= p9);
        }
        if !self.check(Card::Assassin) && me.assassin.is_gt_cutoff(self.lying_cutoff)
            && self.coins >= 3 {
            self.append_targets(&mut actions, TargetKind::Assassinate, eliminated_players);
        }
        let ghost p10 = p9 + (if !hand_has(self.hand_s(), Card::Assassin) && me_g.assassin.gt_cutoff(
            self.lying_cutoff_s(),
        ) && self.coins_s() >= 3 {
            target_actions(TargetKind::Assassinate, self.id_s(), elim_g, n_g)
        } else {
            Seq::empty()
        });
        proof {
            assert(actions@ =~= p10);
            assert(self.avail_spec(elim_g) == p10);
            assert(forall|j: int|
                0 <= j < actions@.len() ==> sel_elem_ok(#[trigger] actions@[j], *self));
        }
        actions
    }

    /// Appends the targeted actions of one kind    /// Appends the targeted actions of one kind against every live other
    /// seat, in ascending seat order.
    fn append_targets(&self, actions: &mut Vec<Action>, kind: TargetKind, elim: &[usize])
        requires
            self.opp_s() < usize::MAX,
        ensures
            final(actions)@ == old(actions)@ + target_actions(
                kind,
                self.id_s(),
                elim@,
                self.opp_s() + 1,
            ),
            forall|j: int|
                old(actions)@.len() <= j < final(actions)@.len() ==> target_elem_ok(
                    #[trigger] final(actions)@[j],
                    kind,
                    self.id_s(),
                    self.opp_s(),
                    elim@,
                ),
    {
        let ghost orig = actions@;
        let mut i: usize = 0;
        while i < self.opponents + 1
            invariant
                i <= self.opponents + 1,
                self.opponents < usize::MAX,
                actions@ == orig + target_actions(kind, self.id_s(), elim@, i as int),
                forall|j: int|
                    orig.len() <= j < actions@.len() ==> target_elem_ok(
                        #[trigger] actions@[j],
                        kind,
                        self.id_s(),
                        self.opp_s(),
                        elim@,
                    ),
            decreases self.opponents + 1 - i,
        {
            if i != self.id && !contains_id(elim, i) {
                let a = match kind {
                    TargetKind::Coup => Action::Coup(i),
                    TargetKind::Steal => Action::Steal(i),
                    TargetKind::Assassinate => Action::Assassinate(i),
                };
                proof {
                    assert(a == mk_action(kind, i));
                    assert(target_elem_ok(a, kind, self.id_s(), self.opp_s(), elim@));
                }
                actions.push(a);
                proof {
                    assert(actions@ =~= orig + target_actions(
                        kind,
                        self.id_s(),
                        elim@,
                        i + 1,
                    ));
                }
            }
            i = i + 1;
        }
    }

    /// Computes the utility of a given action according to the utility
    /// table, exactly as `utility_spec` scores it.
    pub fn compute_utility(&self, action: Action) -> (u: u64)
        requires
            self.ready_s(),
            self.id_s() <= self.opp_s(),
            action matches Action::Steal(t) ==> t <= self.opp_s(),
        ensures
            u == self.utility_spec(action),
    {
        let base: u64 = match action {
            Action::Income => self.utilities.income,
            Action::ForeignAid => self.utilities.foreignaid,
            Action::Coup(_) => self.utilities.coup,
            Action::Tax => self.utilities.tax,
            Action::Assassinate(_) => self.utilities.assassinate,
            Action::Exchange => self.utilities.exchange,
            Action::Steal(_) => self.utilities.steal,
            Action::Pass => 0,
        };
        if action == Action::ForeignAid {
            // Somebody probably has a Duke.
            let mut feared = false;
            let mut j: usize = 0;
            while j < self.perceived_hands.len()
                invariant
                    j <= self.perceived_hands@.len(),
                    feared == exists|q: int|
                        0 <= q < j && q != self.id_s() && (#[trigger] self.beliefs()[q]).duke.gt_cutoff(
                            self.liar_cutoff_s(),
                        ),
                decreases self.perceived_hands@.len() - j,
            {
                let ph = self.perceived_hands[j];
                proof {
                    assert(ph == self.beliefs()[j as int]);
                }
                if j != self.id && ph.duke.is_gt_cutoff(self.liar_cutoff) {
                    feared = true;
                }
                j = j + 1;
            }
            if feared {
                0
            } else {
                base
            }
        } else if let Action::Steal(target) = action {
            let ph = &self.perceived_hands[target];
            if ph.captain.is_gt_cutoff(self.liar_cutoff) || ph.ambassador.is_gt_cutoff(
                self.liar_cutoff,
            ) {
                0
            } else {
                base
            }
        } else {
            base
        }
    }
}

/// Whether the slice of seat indices contains `x`.
pub(crate) fn contains_id(s: &[usize], x: usize) -> (r: bool)
    ensures
        r == s@.contains(x),
{
    let mut i: usize = 0;
    while i < s.len()
        invariant
            i <= s@.len(),
            forall|j: int| 0 <= j < i ==> s@[j] != x,
        decreases s@.len() - i,
    {
        if s[i] == x {
            return true;
        }
        i = i + 1;
    }
    false
}

impl Player for Agent {
    closed spec fn id_s(&self) -> usize {
        self.id
    }

    closed spec fn opp_s(&self) -> usize {
        self.opponents
    }

    closed spec fn hand_s(&self) -> (Card, Card) {
        (self.hand0, self.hand1)
    }

    closed spec fn coins_s(&self) -> u8 {
        self.coins
    }

    closed spec fn ready_s(&self) -> bool {
        self.perceived_hands@.len() == self.opponents + 1
    }

    closed spec fn meta_s(&self) -> PlayerMetadata {
        PlayerMetadata::Computer {
            lying_cutoff: self.lying_cutoff,
            liar_cutoff: self.liar_cutoff,
            utilities: self.utilities,
        }
    }

    /// The agent's beliefs are exactly the two-pool estimates: his own seat
    /// from the public pool, every other seat from the private pool.
    open spec fn beliefs_ok(&self, killed: Seq<Card>) -> bool {
        &&& self.beliefs().len() == self.opp_s() + 1
        &&& forall|j: int|
            0 <= j < self.beliefs().len() && j == self.id_s() ==> is_public_hand(
                #[trigger] self.beliefs()[j],
                killed,
            )
        &&& forall|j: int|
            0 <= j < self.beliefs().len() && j != self.id_s() ==> is_private_hand(
                #[trigger] self.beliefs()[j],
                killed,
                self.hand_s(),
            )
    }

    /// The agent challenges exactly when `challenge_decision` says so.
    open spec fn challenge_ok(&self, claimant: usize, card: Card, r: bool) -> bool {
        r == self.challenge_decision(claimant, card)
    }

    /// The agent blocks exactly when and how `block_decision` says.
    open spec fn block_ok(&self, action: Action, r: (bool, Card)) -> bool {
        r == self.block_decision(action)
    }

    /// The agent picks exactly the action `select_decision` names.
    open spec fn selection_rule(&self, eliminated: Seq<usize>, a: Action) -> bool {
        a == self.select_decision(eliminated)
    }

    fn get_metadata(&self) -> (m: PlayerMetadata) {
        PlayerMetadata::Computer {
            lying_cutoff: self.lying_cutoff,
            liar_cutoff: self.liar_cutoff,
            utilities: self.utilities,
        }
    }

    fn check(&self, card: Card) -> (r: bool) {
        self.hand0 == card || self.hand1 == card
    }

    fn replace(&mut self, current: Card, new: Card) {
        if self.hand0 == current {
            self.hand0 = new;
        } else {
            self.hand1 = new;
        }
    }

    /// The baseline exchange policy hands the drawn cards straight back and
    /// keeps the current hand: a deliberately replaceable extension point,
    /// not yet strategic.
    fn exchange(&mut self, cards: &[Card]) -> (ret: Vec<Card>) {
        let mut ret: Vec<Card> = Vec::new();
        let mut i: usize = 0;
        while i < cards.len()
            invariant
                i <= cards@.len(),
                ret@ == cards@.take(i as int),
            decreases cards@.len() - i,
        {
            proof {
                assert(cards@.take(i + 1) =~= cards@.take(i as int).push(cards@[i as int]));
            }
            ret.push(cards[i]);
            i = i + 1;
        }
        proof {
            assert(cards@.take(cards@.len() as int) =~= cards@);
            assert(pair_multiset(self.hand_s()).add(ret@.to_multiset()) =~= pair_multiset(
                self.hand_s(),
            ).add(cards@.to_multiset()));
        }
        ret
    }

    fn get_coins(&self) -> (c: u8) {
        self.coins
    }

    fn compute_hands(&mut self, killed: &[Card]) {
        self.perceived_hands = compute_beliefs(
            (self.hand0, self.hand1),
            self.id,
            self.opponents,
            killed,
        );
    }

    fn deal(&mut self, hand: [Card; 2]) {
        self.hand0 = hand[0];
        self.hand1 = hand[1];
    }

    fn gain_coins(&mut self, coins: u8) {
        self.coins = self.coins + coins;
    }

    fn lose_coins(&mut self, coins: u8) -> (lost: u8) {
        if self.coins >= coins {
            self.coins = self.coins - coins;
            coins
        } else {
            let stolen = self.coins;
            self.coins = 0;
            stolen
        }
    }

    /// When both slots still hold real cards the discard is a coin flip;
    /// the contract promises only that one real slot was discarded.
    fn lose_influence(&mut self) -> (c: Card) {
        if self.hand0 == Card::Empty && self.hand1 != Card::Empty {
            let card = self.hand1;
            self.hand1 = Card::Empty;
            card
        } else if self.hand1 == Card::Empty && self.hand0 != Card::Empty {
            let card = self.hand0;
            self.hand0 = Card::Empty;
            card
        } else if self.hand0 == Card::Empty && self.hand1 == Card::Empty {
            Card::Empty
        } else if random_bool() {
            let card = self.hand1;
            self.hand1 = Card::Empty;
            card
        } else {
            let card = self.hand0;
            self.hand0 = Card::Empty;
            card
        }
    }

    fn check_challenge(&self, claimant: usize, card: Card) -> (r: bool) {
        if card == Card::Empty {
            // Claimless actions cannot be challenged.
            return false;
        }
        if self.is_eliminated() {
            // An eliminated player cannot challenge.
            return false;
        }
        match self.perceived_hands[claimant].get(&card) {
            Some(p) => p.is_lt_cutoff(self.liar_cutoff),
            Option::None => false,
        }
    }

    fn check_block(&self, action: Action) -> (r: (bool, Card)) {
        if self.is_eliminated() {
            // An eliminated player cannot block.
            return (false, Card::Empty);
        }
        let me = self.perceived_hands[self.id];
        match action {
            Action::ForeignAid => (me.duke.is_gt_cutoff(self.lying_cutoff), Card::Duke),
            Action::Assassinate(i) => (
                i == self.id && me.contessa.is_gt_cutoff(self.lying_cutoff),
                Card::Contessa,
            ),
            Action::Steal(i) => {
                // Only actions against this very player are blocked.
                if i != self.id {
                    return (false, Card::Empty);
                }
                if me.captain.is_gt_frac(&me.ambassador) {
                    (me.captain.is_gt_cutoff(self.lying_cutoff), Card::Captain)
                } else {
                    (me.ambassador.is_gt_cutoff(self.lying_cutoff), Card::Ambassador)
                }
            },
            _ => (false, Card::Empty),
        }
    }

    fn is_eliminated(&self) -> (r: bool) {
        self.hand0 == Card::Empty && self.hand1 == Card::Empty
    }

    fn select_action(&self, eliminated_players: &[usize]) -> (a: Action) {
        let actions = self.get_available_actions(eliminated_players);
        if actions.len() == 0 {
            return Action::Pass;
        }
        let mut best: Action = actions[0];
        let mut i: usize = 1;
        while i < actions.len()
            invariant
                1 <= i <= actions@.len(),
                actions@ == self.avail_spec(eliminated_players@),
                self.ready_s(),
                self.id_s() <= self.opp_s(),
                best == self.best_prefix(actions@, i as int),
                forall|j: int|
                    0 <= j < actions@.len() ==> sel_elem_ok(#[trigger] actions@[j], *self),
                sel_elem_ok(best, *self),
            decreases actions@.len() - i,
        {
            let u_best = self.compute_utility(best);
            let u_next = self.compute_utility(actions[i]);
            if u_next > u_best {
                best = actions[i];
            }
            i = i + 1;
        }
        proof {
            self.lemma_best_prefix_contains(actions@, actions@.len() as int);
        }
        best
    }
}

/// An agent's exported parameters always take the computer shape.
pub proof fn lemma_agent_meta_shape(a: Agent)
    ensures
        a.meta_s() matches PlayerMetadata::Computer { .. },
{
}

/// The facts `selection_ok` needs of one available action, relative to the
/// agent that enumerated it.
pub open spec fn sel_elem_ok(a: Action, agent: Agent) -> bool {
    &&& (wiped(agent.hand_s()) ==> a == Action::Pass)
    &&& (match action_target(a) {
        Some(t) => t != agent.id_s() && t <= agent.opp_s(),
        None => true,
    })
    &&& (agent.coins_s() >= 10 ==> (a matches Action::Coup(_) || a == Action::Pass))
    &&& (gainful(a) ==> agent.coins_s() <= 9)
    &&& (a matches Action::Coup(_) ==> agent.coins_s() >= 7)
    &&& (a matches Action::Assassinate(_) ==> agent.coins_s() >= 3)
}

} // verus!
