//! The pure core of the interactive player.
//!
//! An interactive front-end answers challenge, block and selection queries
//! by prompting a person; that dialogue lives outside this crate.  What can
//! be verified lives here: the player's state, its bookkeeping, and the menu
//! of actions it may legally choose from.  Unlike the agent, a person sees
//! his own cards, so every claiming action stays on the menu — bluffing is
//! his own business.

use vstd::prelude::*;

use crate::Card;
use crate::Action;
use crate::hand_has;
use crate::wiped;
use crate::selection_ok;
use crate::agent::TargetKind;
use crate::agent::target_actions;
use crate::agent::contains_id;
use crate::agent::target_elem_ok;

verus! {

/// Holds the state of an interactive player.
#[derive(Clone, Debug)]
pub struct Human {
    /// This player's seat.
    id: usize,
    /// The number of opponents.
    opponents: usize,
    /// The first hand slot.
    hand0: Card,
    /// The second hand slot.
    hand1: Card,
    /// The coin purse.
    coins: u8,
}

impl Human {
    /// This player's seat, abstractly.
    pub closed spec fn id_s(self) -> usize {
        self.id
    }

    /// The number of opponents, abstractly.
    pub closed spec fn opp_s(self) -> usize {
        self.opponents
    }

    /// The two hand slots, abstractly.
    pub closed spec fn hand_s(self) -> (Card, Card) {
        (self.hand0, self.hand1)
    }

    /// The coin purse, abstractly.
    pub closed spec fn coins_s(self) -> u8 {
        self.coins
    }

    /// The menu of actions an interactive player may choose from: an
    /// eliminated player only passes; ten coins or more force a Coup;
    /// otherwise Income and ForeignAid are free, Coup needs seven coins,
    /// every claimable action is offered whether or not the card is held,
    /// and Assassinate needs three coins.
    pub open spec fn menu_spec(self, elim: Seq<usize>) -> Seq<Action> {
        let n = self.opp_s() + 1;
        if wiped(self.hand_s()) {
            seq![Action::Pass]
        } else if self.coins_s() >= 10 {
            target_actions(TargetKind::Coup, self.id_s(), elim, n)
        } else {
            seq![Action::Income, Action::ForeignAid] + (if self.coins_s() >= 7 {
                target_actions(TargetKind::Coup, self.id_s(), elim, n)
            } else {
                Seq::empty()
            }) + seq![Action::Tax] + target_actions(TargetKind::Steal, self.id_s(), elim, n)
                + seq![Action::Exchange] + (if self.coins_s() >= 3 {
                target_actions(TargetKind::Assassinate, self.id_s(), elim, n)
            } else {
                Seq::empty()
            })
        }
    }

    /// Constructs a new player with the given seat and number of opponents.
    pub fn new(id: usize, opponents: usize) -> (h: Human)
        ensures
            h.id_s() == id,
            h.opp_s() == opponents,
            h.hand_s() == (Card::Empty, Card::Empty),
            h.coins_s() == 2,
    {
        Human { id, opponents, hand0: Card::Empty, hand1: Card::Empty, coins: 2 }
    }

    /// Gets this player's seat.
    pub fn get_id(&self) -> (r: usize)
        ensures
            r == self.id_s(),
    {
        self.id
    }

    /// Gets the two hand slots.
    pub fn get_hand(&self) -> (r: [Card; 2])
        ensures
            (r[0], r[1]) == self.hand_s(),
    {
        [self.hand0, self.hand1]
    }

    /// Checks whether or not this player has a given card.
    pub fn check(&self, card: Card) -> (r: bool)
        ensures
            r == hand_has(self.hand_s(), card),
    {
        self.hand0 == card || self.hand1 == card
    }

    /// Replaces one card in this player's hand with the given card.
    pub fn replace(&mut self, current: Card, new: Card)
        requires
            hand_has(old(self).hand_s(), current),
        ensures
            final(self).hand_s() == (if old(self).hand_s().0 == current {
                (new, old(self).hand_s().1)
            } else {
                (old(self).hand_s().0, new)
            }),
            final(self).id_s() == old(self).id_s(),
            final(self).opp_s() == old(self).opp_s(),
            final(self).coins_s() == old(self).coins_s(),
    {
        if self.hand0 == current {
            self.hand0 = new;
        } else {
            self.hand1 = new;
        }
    }

    /// Deals the given cards to the player.
    pub fn deal(&mut self, hand: [Card; 2])
        ensures
            final(self).hand_s() == (hand[0], hand[1]),
            final(self).id_s() == old(self).id_s(),
            final(self).opp_s() == old(self).opp_s(),
            final(self).coins_s() == old(self).coins_s(),
    {
        self.hand0 = hand[0];
        self.hand1 = hand[1];
    }

    /// Gets the number of coins this player has.
    pub fn get_coins(&self) -> (c: u8)
        ensures
            c == self.coins_s(),
    {
        self.coins
    }

    /// Gains the number of coins specified.
    pub fn gain_coins(&mut self, coins: u8)
        requires
            old(self).coins_s() + coins <= u8::MAX,
        ensures
            final(self).coins_s() == old(self).coins_s() + coins,
            final(self).hand_s() == old(self).hand_s(),
            final(self).id_s() == old(self).id_s(),
            final(self).opp_s() == old(self).opp_s(),
    {
        self.coins = self.coins + coins;
    }

    /// Loses the number of coins specified, clamped at the available
    /// balance; returns the number of coins actually lost.
    pub fn lose_coins(&mut self, coins: u8) -> (lost: u8)
        ensures
            lost == (if old(self).coins_s() >= coins {
                coins as int
            } else {
                old(self).coins_s() as int
            }),
            final(self).coins_s() == old(self).coins_s() - lost,
            final(self).hand_s() == old(self).hand_s(),
            final(self).id_s() == old(self).id_s(),
            final(self).opp_s() == old(self).opp_s(),
    {
        if self.coins >= coins {
            self.coins = self.coins - coins;
            coins
        } else {
            let lost = self.coins;
            self.coins = 0;
            lost
        }
    }

    /// Discards the named card from the hand, if held: the first slot
    /// holding it becomes the sentinel.
    pub fn discard(&mut self, card: Card)
        requires
            hand_has(old(self).hand_s(), card),
        ensures
            final(self).hand_s() == (if old(self).hand_s().0 == card {
                (Card::Empty, old(self).hand_s().1)
            } else {
                (old(self).hand_s().0, Card::Empty)
            }),
            final(self).id_s() == old(self).id_s(),
            final(self).opp_s() == old(self).opp_s(),
            final(self).coins_s() == old(self).coins_s(),
    {
        if self.hand0 == card {
            self.hand0 = Card::Empty;
        } else {
            self.hand1 = Card::Empty;
        }
    }

    /// Checks whether or not this player is still in the game.
    pub fn is_eliminated(&self) -> (r: bool)
        ensures
            r == wiped(self.hand_s()),
    {
        self.hand0 == Card::Empty && self.hand1 == Card::Empty
    }

    /// Gets the actions available to this player, exactly as `menu_spec`
    /// lists them.
    pub fn get_available_actions(&self, eliminated_players: &[usize]) -> (actions: Vec<Action>)
        requires
            self.opp_s() < usize::MAX,
            self.id_s() <= self.opp_s(),
        ensures
            actions@ == self.menu_spec(eliminated_players@),
            forall|j: int|
                0 <= j < actions@.len() ==> selection_ok(
                    #[trigger] actions@[j],
                    self.id_s(),
                    self.opp_s(),
                    self.coins_s(),
                    wiped(self.hand_s()),
                ),
    {
        // An eliminated player must Pass.
        if self.is_eliminated() {
            let mut actions: Vec<Action> = Vec::new();
            actions.push(Action::Pass);
            proof {
                assert(actions@ =~= seq![Action::Pass]);
                assert(forall|j: int|
                    0 <= j < actions@.len() ==> selection_ok(
                        #[trigger] actions@[j],
                        self.id_s(),
                        self.opp_s(),
                        self.coins_s(),
                        wiped(self.hand_s()),
                    ));
            }
            return actions;
        }
        // With ten coins or more, the player must Coup.
        if self.coins >= 10 {
            let mut actions: Vec<Action> = Vec::new();
            self.append_targets(&mut actions, TargetKind::Coup, eliminated_players);
            proof {
                assert(actions@ =~= self.menu_spec(eliminated_players@));
                assert(forall|j: int|
                    0 <= j < actions@.len() ==> selection_ok(
                        #[trigger] actions@[j],
                        self.id_s(),
                        self.opp_s(),
                        self.coins_s(),
                        wiped(self.hand_s()),
                    ));
            }
            return actions;
        }
        let mut actions: Vec<Action> = Vec::new();
        let ghost elim_g = eliminated_players@;
        let ghost n_g = self.opp_s() + 1;

        actions.push(Action::Income);
        actions.push(Action::ForeignAid);
        let ghost p1 = seq![Action::Income, Action::ForeignAid];
        proof {
            assert(actions@ =~= p1);
        }
        if self.coins >= 7 {
            self.append_targets(&mut actions, TargetKind::Coup, eliminated_players);
        }
        let ghost p2 = p1 + (if self.coins_s() >= 7 {
            target_actions(TargetKind::Coup, self.id_s(), elim_g, n_g)
        } else {
            Seq::empty()
        });
        proof {
            assert(actions@ =~= p2);
            assert(forall|j: int|
                0 <= j < actions@.len() ==> selection_ok(
                    #[trigger] actions@[j],
                    self.id_s(),
                    self.opp_s(),
                    self.coins_s(),
                    wiped(self.hand_s()),
                ));
        }
        actions.push(Action::Tax);
        let ghost p3 = p2 + seq![Action::Tax];
        proof {
            assert(actions@ =~= p3);
        }
        self.append_targets(&mut actions, TargetKind::Steal, eliminated_players);
        let ghost p4 = p3 + target_actions(TargetKind::Steal, self.id_s(), elim_g, n_g);
        proof {
            assert(actions@ =~= p4);
            assert(forall|j: int|
                0 <= j < actions@.len() ==> selection_ok(
                    #[trigger] actions@[j],
                    self.id_s(),
                    self.opp_s(),
                    self.coins_s(),
                    wiped(self.hand_s()),
                ));
        }
        actions.push(Action::Exchange);
        let ghost p5 = p4 + seq![Action::Exchange];
        proof {
            assert(actions@ =~= p5);
        }
        if self.coins >= 3 {
            self.append_targets(&mut actions, TargetKind::Assassinate, eliminated_players);
        }
        let ghost p6 = p5 + (if self.coins_s() >= 3 {
            target_actions(TargetKind::Assassinate, self.id_s(), elim_g, n_g)
        } else {
            Seq::empty()
        });
        proof {
            assert(actions@ =~= p6);
            assert(self.menu_spec(elim_g) == p6);
            assert(forall|j: int|
                0 <= j < actions@.len() ==> selection_ok(
                    #[trigger] actions@[j],
                    self.id_s(),
                    self.opp_s(),
                    self.coins_s(),
                    wiped(self.hand_s()),
                ));
        }
        actions
    }

    /// Appends the targeted actions of one kind against every other seat not
    /// yet eliminated, in ascending seat order.
    fn append_targets(&self, actions: &mut Vec<Action>, kind: TargetKind, elim: &[usize])
        requires
            self.opp_s() < usize::MAX,
        ensures
            final(actions)@ == old(actions)@ + target_actions(
                kind,
                self.id_s(),
                elim@,
                self.opp_s() + 1,
            ),
            forall|j: int|
                old(actions)@.len() <= j < final(actions)@.len() ==> target_elem_ok(
                    #[trigger] final(actions)@[j],
                    kind,
                    self.id_s(),
                    self.opp_s(),
                    elim@,
                ),
    {
        let ghost orig = actions@;
        let mut i: usize = 0;
        while i < self.opponents + 1
            invariant
                i <= self.opponents + 1,
                self.opponents < usize::MAX,
                actions@ == orig + target_actions(kind, self.id_s(), elim@, i as int),
                forall|j: int|
                    orig.len() <= j < actions@.len() ==> target_elem_ok(
                        #[trigger] actions@[j],
                        kind,
                        self.id_s(),
                        self.opp_s(),
                        elim@,
                    ),
            decreases self.opponents + 1 - i,
        {
            if i != self.id && !contains_id(elim, i) {
                let a = match kind {
                    TargetKind::Coup => Action::Coup(i),
                    TargetKind::Steal => Action::Steal(i),
                    TargetKind::Assassinate => Action::Assassinate(i),
                };
                actions.push(a);
                proof {
                    assert(actions@ =~= orig + target_actions(kind, self.id_s(), elim@, i + 1));
                }
            }
            i = i + 1;
        }
    }
}

} // verus!
