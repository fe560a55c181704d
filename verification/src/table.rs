//! Seats for mixed games.
//!
//! The engine drives any player through the `Player` contract.  The
//! automated agent satisfies it by itself; an interactive front-end cannot
//! be verified, so it is split: the front-end only answers the exec-only
//! `Oracle` questions (prompts, displays), and the verified `Interactive`
//! seat validates every answer before it reaches the game.  `Table` joins
//! both kinds of seat into one type an engine can hold.

use vstd::prelude::*;
use vstd::multiset::Multiset;

use crate::Card;
use crate::Action;
use crate::agent::Agent;
use crate::human::Human;
use crate::player::Player;
use crate::player::PlayerMetadata;
use crate::player::pair_multiset;
use crate::real_count;

verus! {

/// The decision surface of an interactive front-end: prompts and displays.
///
/// Nothing is promised of these answers; the `Interactive` seat validates
/// every one before acting on it, so the game stays well-formed whatever
/// the person at the terminal does.
pub trait Oracle: Sized {
    /// Picks an index into the menu of available actions.
    fn pick_action(&self, menu: &Vec<Action>) -> usize;

    /// Answers whether to challenge the claimant's claim to hold `card`.
    fn ask_challenge(&self, claimant: usize, card: Card) -> bool;

    /// Answers whether to block the pending action.
    fn ask_block(&self, action: Action) -> bool;

    /// When blocking a Steal, chooses Captain over Ambassador.
    fn block_steal_with_captain(&self) -> bool;

    /// On an Exchange, picks the two indices of `options` to keep as the
    /// new hand; the rest go back to the deck.
    fn exchange_keep(&self, options: &Vec<Card>) -> (usize, usize);

    /// When both slots still hold cards, chooses the second to discard.
    fn discard_second(&self, first: Card, second: Card) -> bool;

    /// Shows the player his own hand.
    fn show_hand(&self, first: Card, second: Card);

    /// Shows a discard-and-draw exchange of one hand card.
    fn show_replace(&self, discarded: Card, drawn: Card);

    /// Shows coins gained.
    fn show_coins_gained(&self, coins: u8);

    /// Shows coins lost.
    fn show_coins_lost(&self, coins: u8);
}

/// An interactive seat: verified bookkeeping around an unverified oracle.
pub struct Interactive<O: Oracle> {
    core: Human,
    oracle: O,
}

impl<O: Oracle> Interactive<O> {
    /// The verified bookkeeping core, abstractly.
    pub closed spec fn core_s(self) -> Human {
        self.core
    }

    /// Constructs a new interactive seat.
    pub fn new(id: usize, opponents: usize, oracle: O) -> (s: Interactive<O>)
        ensures
            s.id_s() == id,
            s.opp_s() == opponents,
            s.hand_s() == (Card::Empty, Card::Empty),
            s.coins_s() == 2,
    {
        Interactive { core: Human::new(id, opponents), oracle }
    }
}

impl<O: Oracle> Player for Interactive<O> {
    closed spec fn id_s(&self) -> usize {
        self.core.id_s()
    }

    closed spec fn opp_s(&self) -> usize {
        self.core.opp_s()
    }

    closed spec fn hand_s(&self) -> (Card, Card) {
        self.core.hand_s()
    }

    closed spec fn coins_s(&self) -> u8 {
        self.core.coins_s()
    }

    closed spec fn ready_s(&self) -> bool {
        true
    }

    closed spec fn meta_s(&self) -> PlayerMetadata {
        PlayerMetadata::Human
    }

    /// A person carries no belief estimator.
    open spec fn beliefs_ok(&self, killed: Seq<Card>) -> bool {
        true
    }

    /// A person may answer a challenge question either way.
    open spec fn challenge_ok(&self, claimant: usize, card: Card, r: bool) -> bool {
        true
    }

    /// A person may answer a block question any legal way.
    open spec fn block_ok(&self, action: Action, r: (bool, Card)) -> bool {
        true
    }

    /// A person picks any action from his legal menu, failing safe to Pass.
    open spec fn selection_rule(&self, eliminated: Seq<usize>, a: Action) -> bool {
        self.core_s().menu_spec(eliminated).contains(a) || a == Action::Pass
    }

    fn get_metadata(&self) -> (m: PlayerMetadata) {
        PlayerMetadata::Human
    }

    fn check(&self, card: Card) -> (r: bool) {
        self.core.check(card)
    }

    fn replace(&mut self, current: Card, new: Card) {
        self.oracle.show_replace(current, new);
        self.core.replace(current, new);
    }

    /// The person chooses which two of his slots and the drawn cards to
    /// keep.  The choice is validated: it must name two distinct entries
    /// and keep every sentinel slot (influence cannot be regained by
    /// exchanging); an invalid choice falls back to keeping the current
    /// hand.
    fn exchange(&mut self, cards: &[Card]) -> (ret: Vec<Card>) {
        let hand = self.core.get_hand();
        if cards.len() != 2 {
            // Only the two-draw exchange of the game is offered a choice.
            return keep_current_hand(&mut self.core, cards);
        }
        let mut options: Vec<Card> = Vec::new();
        options.push(hand[0]);
        options.push(hand[1]);
        options.push(cards[0]);
        options.push(cards[1]);
        let (first, second) = self.oracle.exchange_keep(&options);
        if first >= 4 || second >= 4 || first == second {
            return keep_current_hand(&mut self.core, cards);
        }
        let keep0 = options[first];
        let keep1 = options[second];
        // Sentinel slots must stay with the player: the exchange never
        // changes how many influences he holds.
        let empties_before: usize = (if hand[0] == Card::Empty {
            1
        } else {
            0
        }) + (if hand[1] == Card::Empty {
            1
        } else {
            0
        });
        let empties_kept: usize = (if keep0 == Card::Empty {
            1
        } else {
            0
        }) + (if keep1 == Card::Empty {
            1
        } else {
            0
        });
        if empties_kept != empties_before {
            return keep_current_hand(&mut self.core, cards);
        }
        let mut ret: Vec<Card> = Vec::new();
        let mut i: usize = 0;
        while i < 4
            invariant
                i <= 4,
                first < 4 && second < 4 && first != second,
                options@.len() == 4,
                ret@ == drop_kept(options@.take(i as int), first as int, second as int),
                ret@.len() == i - (if (first as int) < i {
                    1int
                } else {
                    0int
                }) - (if (second as int) < i {
                    1int
                } else {
                    0int
                }),
            decreases 4 - i,
        {
            if i != first && i != second {
                ret.push(options[i]);
            }
            proof {
                assert(options@.take(i + 1).drop_last() =~= options@.take(i as int));
                assert(options@.take(i + 1).last() == options@[i as int]);
            }
            i = i + 1;
        }
        self.core.deal([keep0, keep1]);
        proof {
            broadcast use vstd::seq_lib::group_to_multiset_ensures;

            assert(options@.take(4) =~= options@);
            lemma_exchange_split(options@, first as int, second as int);
            assert(cards@ =~= Seq::<Card>::empty().push(cards@[0]).push(cards@[1]));
            assert(options@ =~= Seq::<Card>::empty().push(hand[0]).push(hand[1]).push(
                cards@[0],
            ).push(cards@[1]));
            assert(options@.to_multiset() =~= pair_multiset((hand[0], hand[1])).add(
                cards@.to_multiset(),
            ));
            assert(pair_multiset(self.hand_s()) =~= Multiset::empty().insert(keep0).insert(
                keep1,
            ));
            assert(pair_multiset(self.hand_s()).add(ret@.to_multiset()) =~= pair_multiset(
                (hand[0], hand[1]),
            ).add(cards@.to_multiset()));
            // No sentinel leaves the hand: the kept slots hold every empty
            // of the four options, so everything returned is real.
            assert(options@.to_multiset().count(Card::Empty) == empties_before);
            assert(Multiset::empty().insert(keep0).insert(keep1).count(Card::Empty)
                == empties_kept);
            assert(ret@.to_multiset().count(Card::Empty) == 0);
            assert forall|q: int| 0 <= q < ret@.len() implies ret@[q] != Card::Empty by {
                assert(ret@.contains(ret@[q]));
                assert(ret@.to_multiset().count(ret@[q]) > 0);
            }
            // The influence count is conserved: two slots, the same number
            // of sentinels as before.
            assert(real_count(self.hand_s()) == 2 - empties_kept);
            assert(real_count((hand[0], hand[1])) == 2 - empties_before);
        }
        ret
    }

    fn get_coins(&self) -> (c: u8) {
        self.core.get_coins()
    }

    fn compute_hands(&mut self, killed: &[Card]) {
        let hand = self.core.get_hand();
        self.oracle.show_hand(hand[0], hand[1]);
    }

    fn deal(&mut self, hand: [Card; 2]) {
        self.core.deal(hand);
    }

    fn gain_coins(&mut self, coins: u8) {
        self.oracle.show_coins_gained(coins);
        self.core.gain_coins(coins);
    }

    fn lose_coins(&mut self, coins: u8) -> (lost: u8) {
        let lost = self.core.lose_coins(coins);
        self.oracle.show_coins_lost(lost);
        lost
    }

    fn lose_influence(&mut self) -> (c: Card) {
        let hand = self.core.get_hand();
        if hand[0] == Card::Empty && hand[1] == Card::Empty {
            Card::Empty
        } else if hand[0] == Card::Empty {
            self.core.discard(hand[1]);
            hand[1]
        } else if hand[1] == Card::Empty {
            self.core.discard(hand[0]);
            hand[0]
        } else if self.oracle.discard_second(hand[0], hand[1]) && hand[0] != hand[1] {
            self.core.discard(hand[1]);
            hand[1]
        } else {
            self.core.discard(hand[0]);
            hand[0]
        }
    }

    fn check_challenge(&self, claimant: usize, card: Card) -> (r: bool) {
        if card == Card::Empty {
            // Claimless actions cannot be challenged.
            return false;
        }
        if self.core.is_eliminated() {
            // An eliminated player cannot challenge.
            return false;
        }
        self.oracle.ask_challenge(claimant, card)
    }

    fn check_block(&self, action: Action) -> (r: (bool, Card)) {
        if self.core.is_eliminated() {
            // An eliminated player cannot block.
            return (false, Card::Empty);
        }
        match action {
            Action::ForeignAid => {
                if self.oracle.ask_block(action) {
                    (true, Card::Duke)
                } else {
                    (false, Card::Empty)
                }
            },
            Action::Assassinate(target) => {
                if target == self.core.get_id() && self.oracle.ask_block(action) {
                    (true, Card::Contessa)
                } else {
                    (false, Card::Empty)
                }
            },
            Action::Steal(target) => {
                if target == self.core.get_id() && self.oracle.ask_block(action) {
                    if self.oracle.block_steal_with_captain() {
                        (true, Card::Captain)
                    } else {
                        (true, Card::Ambassador)
                    }
                } else {
                    (false, Card::Empty)
                }
            },
            _ => (false, Card::Empty),
        }
    }

    fn is_eliminated(&self) -> (r: bool) {
        self.core.is_eliminated()
    }

    fn select_action(&self, eliminated_players: &[usize]) -> (a: Action) {
        let menu = self.core.get_available_actions(eliminated_players);
        let index = self.oracle.pick_action(&menu);
        if index < menu.len() {
            let a = menu[index];
            proof {
                assert(self.core.menu_spec(eliminated_players@).contains(a));
            }
            a
        } else {
            Action::Pass
        }
    }
}

/// The entries of `s` other than the two kept indices, in order.
pub open spec fn drop_kept(s: Seq<Card>, first: int, second: int) -> Seq<Card>
    decreases s.len(),
{
    if s.len() == 0 {
        Seq::empty()
    } else {
        let prev = drop_kept(s.drop_last(), first, second);
        if s.len() - 1 != first && s.len() - 1 != second {
            prev.push(s.last())
        } else {
            prev
        }
    }
}

/// Keeping two of four entries and returning the others conserves the
/// multiset: kept pair plus rest equals the whole.
#[verifier::rlimit(100)]
proof fn lemma_exchange_split(s: Seq<Card>, first: int, second: int)
    requires
        s.len() == 4,
        0 <= first < 4,
        0 <= second < 4,
        first != second,
    ensures
        Multiset::empty().insert(s[first]).insert(s[second]).add(
            drop_kept(s, first, second).to_multiset(),
        ) =~= s.to_multiset(),
{
    broadcast use vstd::seq_lib::group_to_multiset_ensures;

    let rest = drop_kept(s, first, second);
    assert(s =~= Seq::<Card>::empty().push(s[0]).push(s[1]).push(s[2]).push(s[3]));
    reveal_with_fuel(drop_kept, 5);
    assert(s.drop_last().drop_last().drop_last().drop_last() =~= Seq::<Card>::empty());
    assert(s.drop_last().drop_last().drop_last() =~= Seq::<Card>::empty().push(s[0]));
    assert(s.drop_last().drop_last() =~= Seq::<Card>::empty().push(s[0]).push(s[1]));
    assert(s.drop_last() =~= Seq::<Card>::empty().push(s[0]).push(s[1]).push(s[2]));
    if (first == 0 && second == 1) || (first == 1 && second == 0) {
        assert(rest =~= Seq::<Card>::empty().push(s[2]).push(s[3]));
    } else if (first == 0 && second == 2) || (first == 2 && second == 0) {
        assert(rest =~= Seq::<Card>::empty().push(s[1]).push(s[3]));
    } else if (first == 0 && second == 3) || (first == 3 && second == 0) {
        assert(rest =~= Seq::<Card>::empty().push(s[1]).push(s[2]));
    } else if (first == 1 && second == 2) || (first == 2 && second == 1) {
        assert(rest =~= Seq::<Card>::empty().push(s[0]).push(s[3]));
    } else if (first == 1 && second == 3) || (first == 3 && second == 1) {
        assert(rest =~= Seq::<Card>::empty().push(s[0]).push(s[2]));
    } else {
        assert(rest =~= Seq::<Card>::empty().push(s[0]).push(s[1]));
    }
}

/// Falls back to the baseline exchange: the drawn cards are handed
/// straight back and the current hand is kept.
fn keep_current_hand(core: &mut Human, cards: &[Card]) -> (ret: Vec<Card>)
    ensures
        *final(core) == *old(core),
        ret@ == cards@,
{
    let mut ret: Vec<Card> = Vec::new();
    let mut i: usize = 0;
    while i < cards.len()
        invariant
            i <= cards@.len(),
            ret@ == cards@.take(i as int),
            *core == *old(core),
        decreases cards@.len() - i,
    {
        proof {
            assert(cards@.take(i + 1) =~= cards@.take(i as int).push(cards@[i as int]));
        }
        ret.push(cards[i]);
        i = i + 1;
    }
    proof {
        assert(cards@.take(cards@.len() as int) =~= cards@);
    }
    ret
}

/// A seat at the table: an automated agent or a validated interactive
/// front-end, interchangeable behind the player contract.
pub enum Table<O: Oracle> {
    Auto(Agent),
    Person(Interactive<O>),
}

impl<O: Oracle> Player for Table<O> {
    closed spec fn id_s(&self) -> usize {
        match self {
            Table::Auto(a) => a.id_s(),
            Table::Person(p) => p.id_s(),
        }
    }

    closed spec fn opp_s(&self) -> usize {
        match self {
            Table::Auto(a) => a.opp_s(),
            Table::Person(p) => p.opp_s(),
        }
    }

    closed spec fn hand_s(&self) -> (Card, Card) {
        match self {
            Table::Auto(a) => a.hand_s(),
            Table::Person(p) => p.hand_s(),
        }
    }

    closed spec fn coins_s(&self) -> u8 {
        match self {
            Table::Auto(a) => a.coins_s(),
            Table::Person(p) => p.coins_s(),
        }
    }

    closed spec fn ready_s(&self) -> bool {
        match self {
            Table::Auto(a) => a.ready_s(),
            Table::Person(p) => p.ready_s(),
        }
    }

    closed spec fn meta_s(&self) -> PlayerMetadata {
        match self {
            Table::Auto(a) => a.meta_s(),
            Table::Person(p) => p.meta_s(),
        }
    }

    open spec fn beliefs_ok(&self, killed: Seq<Card>) -> bool {
        match self {
            Table::Auto(a) => a.beliefs_ok(killed),
            Table::Person(p) => p.beliefs_ok(killed),
        }
    }

    open spec fn challenge_ok(&self, claimant: usize, card: Card, r: bool) -> bool {
        match self {
            Table::Auto(a) => a.challenge_ok(claimant, card, r),
            Table::Person(p) => p.challenge_ok(claimant, card, r),
        }
    }

    open spec fn block_ok(&self, action: Action, r: (bool, Card)) -> bool {
        match self {
            Table::Auto(a) => a.block_ok(action, r),
            Table::Person(p) => p.block_ok(action, r),
        }
    }

    open spec fn selection_rule(&self, eliminated: Seq<usize>, a: Action) -> bool {
        match self {
            Table::Auto(auto) => auto.selection_rule(eliminated, a),
            Table::Person(p) => p.selection_rule(eliminated, a),
        }
    }

    fn get_metadata(&self) -> (m: PlayerMetadata) {
        match self {
            Table::Auto(a) => a.get_metadata(),
            Table::Person(p) => p.get_metadata(),
        }
    }

    fn check(&self, card: Card) -> (r: bool) {
        match self {
            Table::Auto(a) => a.check(card),
            Table::Person(p) => p.check(card),
        }
    }

    fn replace(&mut self, current: Card, new: Card) {
        match self {
            Table::Auto(a) => a.replace(current, new),
            Table::Person(p) => p.replace(current, new),
        }
    }

    fn exchange(&mut self, cards: &[Card]) -> (ret: Vec<Card>) {
        match self {
            Table::Auto(a) => a.exchange(cards),
            Table::Person(p) => p.exchange(cards),
        }
    }

    fn get_coins(&self) -> (c: u8) {
        match self {
            Table::Auto(a) => a.get_coins(),
            Table::Person(p) => p.get_coins(),
        }
    }

    fn compute_hands(&mut self, killed: &[Card]) {
        match self {
            Table::Auto(a) => a.compute_hands(killed),
            Table::Person(p) => p.compute_hands(killed),
        }
    }

    fn deal(&mut self, hand: [Card; 2]) {
        match self {
            Table::Auto(a) => a.deal(hand),
            Table::Person(p) => p.deal(hand),
        }
    }

    fn gain_coins(&mut self, coins: u8) {
        match self {
            Table::Auto(a) => a.gain_coins(coins),
            Table::Person(p) => p.gain_coins(coins),
        }
    }

    fn lose_coins(&mut self, coins: u8) -> (lost: u8) {
        match self {
            Table::Auto(a) => a.lose_coins(coins),
            Table::Person(p) => p.lose_coins(coins),
        }
    }

    fn lose_influence(&mut self) -> (c: Card) {
        match self {
            Table::Auto(a) => a.lose_influence(),
            Table::Person(p) => p.lose_influence(),
        }
    }

    fn check_challenge(&self, claimant: usize, card: Card) -> (r: bool) {
        match self {
            Table::Auto(a) => a.check_challenge(claimant, card),
            Table::Person(p) => p.check_challenge(claimant, card),
        }
    }

    fn check_block(&self, action: Action) -> (r: (bool, Card)) {
        match self {
            Table::Auto(a) => a.check_block(action),
            Table::Person(p) => p.check_block(action),
        }
    }

    fn is_eliminated(&self) -> (r: bool) {
        match self {
            Table::Auto(a) => a.is_eliminated(),
            Table::Person(p) => p.is_eliminated(),
        }
    }

    fn select_action(&self, eliminated_players: &[usize]) -> (a: Action) {
        match self {
            Table::Auto(auto) => auto.select_action(eliminated_players),
            Table::Person(p) => p.select_action(eliminated_players),
        }
    }
}

} // verus!
