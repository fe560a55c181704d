//! The player contract.
//!
//! Every participant of a game — the automated agent and any interactive
//! front-end alike — implements this capability set, and the engine drives a
//! game through it only.  The contract fixes what every implementation must
//! guarantee (coin clamping, influence bookkeeping, well-targeted actions);
//! each implementation additionally publishes its decision policy through
//! the `*_rule` spec functions.

use vstd::prelude::*;
use vstd::multiset::Multiset;

use crate::Card;
use crate::Action;
use crate::hand_has;
use crate::wiped;
use crate::real_count;
use crate::blockable;
use crate::selection_ok;
use crate::rng::random_in;

verus! {

/// Noise bound for cutoff mutation, in millionths: one hundredth.
pub const CUTOFF_NOISE: u64 = 10_000;

/// Noise bound for utility mutation, in millionths: one tenth.
pub const UTILITY_NOISE: u64 = 100_000;

/// One whole unit in millionths.
pub const UNIT: u64 = 1_000_000;

/// The seven utility weights, one per action kind, in millionths.
#[derive(PartialEq, Eq, Structural, Copy, Clone, Debug)]
pub struct ActionUtilities {
    pub income: u64,
    pub foreignaid: u64,
    pub coup: u64,
    pub tax: u64,
    pub assassinate: u64,
    pub exchange: u64,
    pub steal: u64,
}

impl ActionUtilities {
    /// Draws a fresh utility table, each weight uniform below one unit.
    pub fn random() -> (u: ActionUtilities)
        ensures
            u.income < UNIT,
            u.foreignaid < UNIT,
            u.coup < UNIT,
            u.tax < UNIT,
            u.assassinate < UNIT,
            u.exchange < UNIT,
            u.steal < UNIT,
    {
        ActionUtilities {
            income: random_in(0, UNIT),
            foreignaid: random_in(0, UNIT),
            coup: random_in(0, UNIT),
            tax: random_in(0, UNIT),
            assassinate: random_in(0, UNIT),
            exchange: random_in(0, UNIT),
            steal: random_in(0, UNIT),
        }
    }

    /// Perturbs every weight upwards by independent noise below one tenth
    /// of a unit, saturating at the integer ceiling.
    pub fn mutate(&self) -> (u: ActionUtilities)
        ensures
            self.income <= u.income && u.income - self.income < UTILITY_NOISE,
            self.foreignaid <= u.foreignaid && u.foreignaid - self.foreignaid < UTILITY_NOISE,
            self.coup <= u.coup && u.coup - self.coup < UTILITY_NOISE,
            self.tax <= u.tax && u.tax - self.tax < UTILITY_NOISE,
            self.assassinate <= u.assassinate && u.assassinate - self.assassinate < UTILITY_NOISE,
            self.exchange <= u.exchange && u.exchange - self.exchange < UTILITY_NOISE,
            self.steal <= u.steal && u.steal - self.steal < UTILITY_NOISE,
    {
        ActionUtilities {
            income: sat_add_u64(self.income, random_in(0, UTILITY_NOISE)),
            foreignaid: sat_add_u64(self.foreignaid, random_in(0, UTILITY_NOISE)),
            coup: sat_add_u64(self.coup, random_in(0, UTILITY_NOISE)),
            tax: sat_add_u64(self.tax, random_in(0, UTILITY_NOISE)),
            assassinate: sat_add_u64(self.assassinate, random_in(0, UTILITY_NOISE)),
            exchange: sat_add_u64(self.exchange, random_in(0, UTILITY_NOISE)),
            steal: sat_add_u64(self.steal, random_in(0, UTILITY_NOISE)),
        }
    }
}

/// Adds with saturation at `u64::MAX`.
pub fn sat_add_u64(a: u64, b: u64) -> (r: u64)
    ensures
        r == (if a + b <= u64::MAX { a + b } else { u64::MAX as int }),
{
    if a <= u64::MAX - b {
        a + b
    } else {
        u64::MAX
    }
}

/// Adds a signed delta with saturation at the `i64` range ends.
pub fn sat_add_i64(a: i64, d: i64) -> (r: i64)
    ensures
        r == (if a + d > i64::MAX {
            i64::MAX as int
        } else if a + d < i64::MIN {
            i64::MIN as int
        } else {
            a + d
        }),
{
    if d >= 0 {
        if a <= i64::MAX - d {
            a + d
        } else {
            i64::MAX
        }
    } else {
        if a >= i64::MIN - d {
            a + d
        } else {
            i64::MIN
        }
    }
}

/// Draws a signed delta uniform in `[-bound, bound]`.
pub fn random_delta(bound: u64) -> (d: i64)
    requires
        bound <= 1_000_000,
    ensures
        -(bound as int) <= d <= bound,
{
    let raw: u64 = random_in(0, 2 * bound + 1);
    (raw as i64) - (bound as i64)
}

/// The persisted shape of a player's strategy parameters: a computer player
/// carries its two risk cutoffs (in millionths) and its utility table; an
/// interactive player carries nothing.
#[derive(PartialEq, Eq, Structural, Copy, Clone, Debug)]
pub enum PlayerMetadata {
    Computer { lying_cutoff: i64, liar_cutoff: i64, utilities: ActionUtilities },
    Human,
}

/// The capability set every participant must implement.
///
/// The `*_s` spec functions expose the abstract state the contracts speak
/// of; the `*_rule` spec functions let each implementation publish its own
/// decision policy exactly, while the method contracts fix the guarantees
/// every implementation owes the engine.
pub trait Player: Sized {
    /// This player's seat index.
    spec fn id_s(&self) -> usize;

    /// How many opponents this player expects (seats are `0 ..= opp_s()`).
    spec fn opp_s(&self) -> usize;

    /// The two hand slots.
    spec fn hand_s(&self) -> (Card, Card);

    /// The coin purse.
    spec fn coins_s(&self) -> u8;

    /// Whether beliefs have been computed for every seat.
    spec fn ready_s(&self) -> bool;

    /// The strategy parameters this player would persist.
    spec fn meta_s(&self) -> PlayerMetadata;

    /// What the implementation's refreshed beliefs say, relative to the
    /// kill ledger they were computed from.
    spec fn beliefs_ok(&self, killed: Seq<Card>) -> bool;

    /// The implementation's challenge policy: which answers `r` it may give
    /// when asked whether it challenges the claimant's claim of `card`.
    spec fn challenge_ok(&self, claimant: usize, card: Card, r: bool) -> bool;

    /// The implementation's block policy: which answers it may give when
    /// asked whether it blocks the pending action, and with which card.
    spec fn block_ok(&self, action: Action, r: (bool, Card)) -> bool;

    /// The implementation's action-selection policy: which actions it may
    /// pick from its legal set.
    spec fn selection_rule(&self, eliminated: Seq<usize>, a: Action) -> bool;

    /// Exports this player's strategy parameters.
    fn get_metadata(&self) -> (m: PlayerMetadata)
        ensures
            m == self.meta_s(),
    ;

    /// Checks whether or not this player has a given card.
    fn check(&self, card: Card) -> (r: bool)
        ensures
            r == hand_has(self.hand_s(), card),
    ;

    /// Replaces one card in this player's hand with the given card.  The
    /// caller guarantees that the outgoing card is present; the first slot
    /// holding it is swapped.
    fn replace(&mut self, current: Card, new: Card)
        requires
            hand_has(old(self).hand_s(), current),
        ensures
            final(self).hand_s() == (if old(self).hand_s().0 == current {
                (new, old(self).hand_s().1)
            } else {
                (old(self).hand_s().0, new)
            }),
            final(self).id_s() == old(self).id_s(),
            final(self).opp_s() == old(self).opp_s(),
            final(self).coins_s() == old(self).coins_s(),
            final(self).ready_s() == old(self).ready_s(),
            final(self).meta_s() == old(self).meta_s(),
    ;

    /// Exchanges cards: offered the cards drawn for him, the player keeps
    /// two slots' worth and hands back as many cards as were offered.  The
    /// cards in play are conserved and the player's influence count does not
    /// change.
    fn exchange(&mut self, cards: &[Card]) -> (ret: Vec<Card>)
        requires
            forall|i: int| 0 <= i < cards@.len() ==> cards@[i] != Card::Empty,
        ensures
            ret@.len() == cards@.len(),
            forall|i: int| 0 <= i < ret@.len() ==> ret@[i] != Card::Empty,
            real_count(final(self).hand_s()) == real_count(old(self).hand_s()),
            pair_multiset(final(self).hand_s()).add(ret@.to_multiset()) == pair_multiset(
                old(self).hand_s(),
            ).add(cards@.to_multiset()),
            final(self).id_s() == old(self).id_s(),
            final(self).opp_s() == old(self).opp_s(),
            final(self).coins_s() == old(self).coins_s(),
            final(self).ready_s() == old(self).ready_s(),
            final(self).meta_s() == old(self).meta_s(),
    ;

    /// Gets the number of coins this player has.
    fn get_coins(&self) -> (c: u8)
        ensures
            c == self.coins_s(),
    ;

    /// Recomputes beliefs from the current kill ledger.
    fn compute_hands(&mut self, killed: &[Card])
        requires
            old(self).opp_s() < usize::MAX,
            forall|i: int| 0 <= i < killed@.len() ==> killed@[i] != Card::Empty,
        ensures
            final(self).ready_s(),
            final(self).beliefs_ok(killed@),
            final(self).hand_s() == old(self).hand_s(),
            final(self).coins_s() == old(self).coins_s(),
            final(self).id_s() == old(self).id_s(),
            final(self).opp_s() == old(self).opp_s(),
            final(self).meta_s() == old(self).meta_s(),
    ;

    /// Deals the given cards to the player.
    fn deal(&mut self, hand: [Card; 2])
        ensures
            final(self).hand_s() == (hand[0], hand[1]),
            final(self).id_s() == old(self).id_s(),
            final(self).opp_s() == old(self).opp_s(),
            final(self).coins_s() == old(self).coins_s(),
            final(self).ready_s() == old(self).ready_s(),
            final(self).meta_s() == old(self).meta_s(),
    ;

    /// Gains the number of coins specified.
    fn gain_coins(&mut self, coins: u8)
        requires
            old(self).coins_s() + coins <= u8::MAX,
        ensures
            final(self).coins_s() == old(self).coins_s() + coins,
            final(self).hand_s() == old(self).hand_s(),
            final(self).id_s() == old(self).id_s(),
            final(self).opp_s() == old(self).opp_s(),
            final(self).ready_s() == old(self).ready_s(),
            final(self).meta_s() == old(self).meta_s(),
    ;

    /// Loses the number of coins specified, clamped at the available
    /// balance; returns the number of coins actually lost.
    fn lose_coins(&mut self, coins: u8) -> (lost: u8)
        ensures
            lost == (if old(self).coins_s() >= coins {
                coins as int
            } else {
                old(self).coins_s() as int
            }),
            final(self).coins_s() == old(self).coins_s() - lost,
            final(self).hand_s() == old(self).hand_s(),
            final(self).id_s() == old(self).id_s(),
            final(self).opp_s() == old(self).opp_s(),
            final(self).ready_s() == old(self).ready_s(),
            final(self).meta_s() == old(self).meta_s(),
    ;

    /// Forces the player to lose one influence: one real slot is revealed
    /// and becomes the sentinel.  An already-eliminated player reveals
    /// nothing.
    fn lose_influence(&mut self) -> (c: Card)
        ensures
            wiped(old(self).hand_s()) ==> c == Card::Empty && final(self).hand_s() == old(
                self,
            ).hand_s(),
            !wiped(old(self).hand_s()) ==> c != Card::Empty && ((old(self).hand_s().0 == c
                && final(self).hand_s() == (Card::Empty, old(self).hand_s().1)) || (old(
                self,
            ).hand_s().1 == c && final(self).hand_s() == (old(self).hand_s().0, Card::Empty))),
            final(self).id_s() == old(self).id_s(),
            final(self).opp_s() == old(self).opp_s(),
            final(self).coins_s() == old(self).coins_s(),
            final(self).ready_s() == old(self).ready_s(),
            final(self).meta_s() == old(self).meta_s(),
    ;

    /// Asks this player whether he challenges the claimant's claim to hold
    /// `card`.  Claimless actions cannot be challenged, and an eliminated
    /// player never challenges.
    fn check_challenge(&self, claimant: usize, card: Card) -> (r: bool)
        requires
            self.ready_s(),
            claimant <= self.opp_s(),
            self.id_s() <= self.opp_s(),
        ensures
            self.challenge_ok(claimant, card, r),
            card == Card::Empty ==> !r,
            wiped(self.hand_s()) ==> !r,
    ;

    /// Asks this player whether he blocks the pending action, and with which
    /// claimed card.  Only blockable actions draw blocks, a block always
    /// names a real card, and an eliminated player never blocks.
    fn check_block(&self, action: Action) -> (r: (bool, Card))
        requires
            self.ready_s(),
            self.id_s() <= self.opp_s(),
        ensures
            self.block_ok(action, r),
            r.0 ==> r.1 != Card::Empty,
            r.0 ==> blockable(action),
            wiped(self.hand_s()) ==> !r.0,
    ;

    /// Checks whether or not this player is still in the game.
    fn is_eliminated(&self) -> (r: bool)
        ensures
            r == wiped(self.hand_s()),
    ;

    /// Selects an action.  `eliminated_players` lists the seats already out
    /// of the game; the selection is well-targeted in the sense of
    /// `selection_ok`.
    fn select_action(&self, eliminated_players: &[usize]) -> (a: Action)
        requires
            self.ready_s(),
            self.id_s() <= self.opp_s(),
            self.opp_s() < usize::MAX,
        ensures
            self.selection_rule(eliminated_players@, a),
            selection_ok(
                a,
                self.id_s(),
                self.opp_s(),
                self.coins_s(),
                wiped(self.hand_s()),
            ),
    ;
}

/// The two hand slots as a multiset of cards (sentinels included).
pub open spec fn pair_multiset(hand: (Card, Card)) -> Multiset<Card> {
    Multiset::empty().insert(hand.0).insert(hand.1)
}

} // verus!
