//! The belief estimator.
//!
//! From the public kill ledger and (for other players) the observer's own two
//! cards, the estimator computes, per card type, the probability that a
//! specific unseen two-card hand holds at least one copy.  Two pools are
//! kept apart: the *private* pool (ledger and own cards removed) estimates
//! other players' hands; the *public* pool (ledger removed only) estimates
//! how convincing the observer's own hand looks to everyone else.

use vstd::prelude::*;

use crate::Card;
use crate::prob::Prob;
use crate::prob::belief;
use crate::prob::belief_num;
use crate::prob::belief_den;
use crate::prob::lemma_belief_range;

verus! {

/// Number of occurrences of `c` in `s`.
pub open spec fn count_of(s: Seq<Card>, c: Card) -> int
    decreases s.len(),
{
    if s.len() == 0 {
        0
    } else {
        count_of(s.drop_last(), c) + (if s.last() == c { 1int } else { 0int })
    }
}

/// Counting one more element extends the count by zero or one.
proof fn lemma_count_take_step(s: Seq<Card>, c: Card, i: int)
    requires
        0 <= i < s.len(),
    ensures
        count_of(s.take(i + 1), c) == count_of(s.take(i), c) + (if s[i] == c {
            1int
        } else {
            0int
        }),
{
    assert(s.take(i + 1).drop_last() =~= s.take(i));
    assert(s.take(i + 1).last() == s[i]);
}

/// Copies of `c` still unaccounted for after the kill ledger: three minus the
/// killed copies, floored at zero.
pub open spec fn rem_after_kills(killed: Seq<Card>, c: Card) -> int {
    if count_of(killed, c) >= 3 {
        0
    } else {
        3 - count_of(killed, c)
    }
}

/// Size of the public pool: the fifteen cards less the kill ledger.
pub open spec fn public_n(killed: Seq<Card>) -> int {
    if killed.len() <= 15 {
        15 - killed.len()
    } else {
        0
    }
}

/// Copies of `c` in the public pool, never more than the pool itself.
pub open spec fn public_k(killed: Seq<Card>, c: Card) -> int {
    if rem_after_kills(killed, c) <= public_n(killed) {
        rem_after_kills(killed, c)
    } else {
        public_n(killed)
    }
}

/// Size of the private pool: the public pool less the observer's two slots.
pub open spec fn private_n(killed: Seq<Card>) -> int {
    if public_n(killed) >= 2 {
        public_n(killed) - 2
    } else {
        0
    }
}

/// Copies of `c` in the observer's own two slots.
pub open spec fn own_in_hand(hand: (Card, Card), c: Card) -> int {
    (if hand.0 == c { 1int } else { 0int }) + (if hand.1 == c { 1int } else { 0int })
}

/// Copies of `c` in the private pool before capping at the pool size.
pub open spec fn private_rem(killed: Seq<Card>, hand: (Card, Card), c: Card) -> int {
    if rem_after_kills(killed, c) >= own_in_hand(hand, c) {
        rem_after_kills(killed, c) - own_in_hand(hand, c)
    } else {
        0
    }
}

/// Copies of `c` in the private pool, never more than the pool itself.
pub open spec fn private_k(killed: Seq<Card>, hand: (Card, Card), c: Card) -> int {
    if private_rem(killed, hand, c) <= private_n(killed) {
        private_rem(killed, hand, c)
    } else {
        private_n(killed)
    }
}

/// `p` is the belief fraction of a pool of `n` cards holding `k` copies.
pub open spec fn is_belief_of(p: Prob, n: int, k: int) -> bool {
    p.num == belief_num(n, k) && p.den == belief_den(n)
}

/// Holds a perceived hand: per card type, the estimated probability that the
/// observed player holds at least one copy.  Not a distribution: the five
/// marginals are independent.
#[derive(PartialEq, Eq, Structural, Copy, Clone, Debug)]
pub struct PerceivedHand {
    pub duke: Prob,
    pub captain: Prob,
    pub ambassador: Prob,
    pub assassin: Prob,
    pub contessa: Prob,
}

/// The perceived hand an observer assigns to his own seat: each card type is
/// estimated from the public pool.
pub open spec fn is_public_hand(h: PerceivedHand, killed: Seq<Card>) -> bool {
    &&& is_belief_of(h.duke, public_n(killed), public_k(killed, Card::Duke))
    &&& is_belief_of(h.captain, public_n(killed), public_k(killed, Card::Captain))
    &&& is_belief_of(h.ambassador, public_n(killed), public_k(killed, Card::Ambassador))
    &&& is_belief_of(h.assassin, public_n(killed), public_k(killed, Card::Assassin))
    &&& is_belief_of(h.contessa, public_n(killed), public_k(killed, Card::Contessa))
}

/// The perceived hand an observer assigns to another seat: each card type is
/// estimated from the private pool.
pub open spec fn is_private_hand(h: PerceivedHand, killed: Seq<Card>, hand: (Card, Card)) -> bool {
    &&& is_belief_of(h.duke, private_n(killed), private_k(killed, hand, Card::Duke))
    &&& is_belief_of(h.captain, private_n(killed), private_k(killed, hand, Card::Captain))
    &&& is_belief_of(h.ambassador, private_n(killed), private_k(killed, hand, Card::Ambassador))
    &&& is_belief_of(h.assassin, private_n(killed), private_k(killed, hand, Card::Assassin))
    &&& is_belief_of(h.contessa, private_n(killed), private_k(killed, hand, Card::Contessa))
}

/// Updates the slot for a real card; the sentinel names no slot and leaves
/// the hand unchanged.
pub open spec fn with_card(h: PerceivedHand, c: Card, p: Prob) -> PerceivedHand {
    match c {
        Card::Duke => PerceivedHand { duke: p, ..h },
        Card::Captain => PerceivedHand { captain: p, ..h },
        Card::Ambassador => PerceivedHand { ambassador: p, ..h },
        Card::Assassin => PerceivedHand { assassin: p, ..h },
        Card::Contessa => PerceivedHand { contessa: p, ..h },
        Card::Empty => h,
    }
}

impl PerceivedHand {
    /// The probability stored for a real card; the sentinel has no slot.
    pub open spec fn value_of(self, c: Card) -> Prob {
        match c {
            Card::Duke => self.duke,
            Card::Captain => self.captain,
            Card::Ambassador => self.ambassador,
            Card::Assassin => self.assassin,
            Card::Contessa => self.contessa,
            Card::Empty => Prob { num: 0, den: 1 },
        }
    }

    /// Constructs a new perceived hand, with every probability zero.
    pub fn new() -> (h: PerceivedHand)
        ensures
            h == (PerceivedHand {
                duke: Prob { num: 0, den: 1 },
                captain: Prob { num: 0, den: 1 },
                ambassador: Prob { num: 0, den: 1 },
                assassin: Prob { num: 0, den: 1 },
                contessa: Prob { num: 0, den: 1 },
            }),
    {
        let z = Prob::zero();
        PerceivedHand { duke: z, captain: z, ambassador: z, assassin: z, contessa: z }
    }

    /// Constructs a perceived hand from the five given probabilities.
    pub fn from(duke: Prob, captain: Prob, ambassador: Prob, assassin: Prob, contessa: Prob) -> (h:
        PerceivedHand)
        ensures
            h == (PerceivedHand { duke, captain, ambassador, assassin, contessa }),
    {
        PerceivedHand { duke, captain, ambassador, assassin, contessa }
    }

    /// Gets a probability from the hand.  Only the five real card types have
    /// slots; the sentinel yields nothing.
    pub fn get(&self, card: &Card) -> (r: Option<Prob>)
        ensures
            *card == Card::Empty <==> r is None,
            *card != Card::Empty ==> r == Some(self.value_of(*card)),
    {
        match card {
            Card::Duke => Some(self.duke),
            Card::Captain => Some(self.captain),
            Card::Ambassador => Some(self.ambassador),
            Card::Assassin => Some(self.assassin),
            Card::Contessa => Some(self.contessa),
            Card::Empty => None,
        }
    }

    /// Assigns a given hand (if it is known with certainty): each card held
    /// becomes certainly held.  Probabilities never leave `[0, 1]`, so a
    /// doubled card is recorded as the same certainty.
    pub fn assign(&mut self, cards: [Card; 2])
        requires
            cards[0] != Card::Empty,
            cards[1] != Card::Empty,
        ensures
            *final(self) == with_card(
                with_card(*old(self), cards[0], (Prob { num: 1, den: 1 })),
                cards[1],
                (Prob { num: 1, den: 1 }),
            ),
    {
        let c0 = cards[0];
        let c1 = cards[1];
        self.set(c0, Prob { num: 1, den: 1 });
        self.set(c1, Prob { num: 1, den: 1 });
    }

    /// Stores `p` under the slot of a real card.
    fn set(&mut self, c: Card, p: Prob)
        ensures
            *final(self) == with_card(*old(self), c, p),
    {
        match c {
            Card::Duke => self.duke = p,
            Card::Captain => self.captain = p,
            Card::Ambassador => self.ambassador = p,
            Card::Assassin => self.assassin = p,
            Card::Contessa => self.contessa = p,
            Card::Empty => (),
        }
    }
}

/// Every public-pool belief lies in the unit interval.
pub proof fn lemma_public_hand_in_unit(h: PerceivedHand, killed: Seq<Card>)
    requires
        is_public_hand(h, killed),
    ensures
        h.duke.wf() && h.duke.in_unit(),
        h.captain.wf() && h.captain.in_unit(),
        h.ambassador.wf() && h.ambassador.in_unit(),
        h.assassin.wf() && h.assassin.in_unit(),
        h.contessa.wf() && h.contessa.in_unit(),
{
    lemma_count_nonneg(killed, Card::Duke);
    lemma_count_nonneg(killed, Card::Captain);
    lemma_count_nonneg(killed, Card::Ambassador);
    lemma_count_nonneg(killed, Card::Assassin);
    lemma_count_nonneg(killed, Card::Contessa);
    lemma_belief_range(public_n(killed), public_k(killed, Card::Duke));
    lemma_belief_range(public_n(killed), public_k(killed, Card::Captain));
    lemma_belief_range(public_n(killed), public_k(killed, Card::Ambassador));
    lemma_belief_range(public_n(killed), public_k(killed, Card::Assassin));
    lemma_belief_range(public_n(killed), public_k(killed, Card::Contessa));
}

/// Every private-pool belief lies in the unit interval.
pub proof fn lemma_private_hand_in_unit(h: PerceivedHand, killed: Seq<Card>, hand: (Card, Card))
    requires
        is_private_hand(h, killed, hand),
    ensures
        h.duke.wf() && h.duke.in_unit(),
        h.captain.wf() && h.captain.in_unit(),
        h.ambassador.wf() && h.ambassador.in_unit(),
        h.assassin.wf() && h.assassin.in_unit(),
        h.contessa.wf() && h.contessa.in_unit(),
{
    lemma_count_nonneg(killed, Card::Duke);
    lemma_count_nonneg(killed, Card::Captain);
    lemma_count_nonneg(killed, Card::Ambassador);
    lemma_count_nonneg(killed, Card::Assassin);
    lemma_count_nonneg(killed, Card::Contessa);
    lemma_belief_range(private_n(killed), private_k(killed, hand, Card::Duke));
    lemma_belief_range(private_n(killed), private_k(killed, hand, Card::Captain));
    lemma_belief_range(private_n(killed), private_k(killed, hand, Card::Ambassador));
    lemma_belief_range(private_n(killed), private_k(killed, hand, Card::Assassin));
    lemma_belief_range(private_n(killed), private_k(killed, hand, Card::Contessa));
}

/// A count never goes negative.
proof fn lemma_count_nonneg(s: Seq<Card>, c: Card)
    ensures
        0 <= count_of(s, c),
    decreases s.len(),
{
    if s.len() > 0 {
        lemma_count_nonneg(s.drop_last(), c);
    }
}

/// Chooses the belief of a pool of `n` cards when `rem` copies remain in
/// circulation: the copies in the pool are `rem` capped at the pool size.
fn pool_belief(n: u64, rem: u64) -> (p: Prob)
    requires
        n <= 15,
    ensures
        p.num == belief_num(n as int, (if rem <= n { rem as int } else { n as int })),
        p.den == belief_den(n as int),
        p.wf(),
        p.in_unit(),
{
    let k: u64 = if rem <= n {
        rem
    } else {
        n
    };
    belief(n, k)
}

/// Computes, for an observer seated at `id` among `opponents + 1` players and
/// holding `hand`, the perceived hand of every seat: the observer's own seat
/// from the public pool, every other seat from the private pool.
pub fn compute_beliefs(hand: (Card, Card), id: usize, opponents: usize, killed: &[Card]) -> (r: Vec<
    PerceivedHand,
>)
    requires
        opponents < usize::MAX,
        forall|i: int| 0 <= i < killed@.len() ==> killed@[i] != Card::Empty,
    ensures
        r@.len() == opponents + 1,
        forall|j: int|
            0 <= j < r@.len() && j == id ==> is_public_hand(#[trigger] r@[j], killed@),
        forall|j: int|
            0 <= j < r@.len() && j != id ==> is_private_hand(#[trigger] r@[j], killed@, hand),
{
    let len: usize = killed.len();

    // Count each card type on the kill ledger.
    let mut duke_k: u64 = 0;
    let mut captain_k: u64 = 0;
    let mut ambassador_k: u64 = 0;
    let mut assassin_k: u64 = 0;
    let mut contessa_k: u64 = 0;
    let mut idx: usize = 0;
    while idx < len
        invariant
            idx <= len,
            len == killed@.len(),
            forall|i: int| 0 <= i < killed@.len() ==> killed@[i] != Card::Empty,
            duke_k == count_of(killed@.take(idx as int), Card::Duke),
            captain_k == count_of(killed@.take(idx as int), Card::Captain),
            ambassador_k == count_of(killed@.take(idx as int), Card::Ambassador),
            assassin_k == count_of(killed@.take(idx as int), Card::Assassin),
            contessa_k == count_of(killed@.take(idx as int), Card::Contessa),
            duke_k <= idx && captain_k <= idx && ambassador_k <= idx && assassin_k <= idx
                && contessa_k <= idx,
        decreases len - idx,
    {
        proof {
            lemma_count_take_step(killed@, Card::Duke, idx as int);
            lemma_count_take_step(killed@, Card::Captain, idx as int);
            lemma_count_take_step(killed@, Card::Ambassador, idx as int);
            lemma_count_take_step(killed@, Card::Assassin, idx as int);
            lemma_count_take_step(killed@, Card::Contessa, idx as int);
        }
        match killed[idx] {
            Card::Duke => duke_k = duke_k + 1,
            Card::Captain => captain_k = captain_k + 1,
            Card::Ambassador => ambassador_k = ambassador_k + 1,
            Card::Assassin => assassin_k = assassin_k + 1,
            Card::Contessa => contessa_k = contessa_k + 1,
            Card::Empty => (),
        }
        idx = idx + 1;
    }
    proof {
        assert(killed@.take(len as int) =~= killed@);
    }

    // Pool sizes.
    let n_pub: u64 = if len <= 15 {
        15 - (len as u64)
    } else {
        0
    };
    let n_priv: u64 = if n_pub >= 2 {
        n_pub - 2
    } else {
        0
    };

    // Copies of each type still unaccounted for after the ledger.
    let duke_rem: u64 = if duke_k >= 3 {
        0
    } else {
        3 - duke_k
    };
    let captain_rem: u64 = if captain_k >= 3 {
        0
    } else {
        3 - captain_k
    };
    let ambassador_rem: u64 = if ambassador_k >= 3 {
        0
    } else {
        3 - ambassador_k
    };
    let assassin_rem: u64 = if assassin_k >= 3 {
        0
    } else {
        3 - assassin_k
    };
    let contessa_rem: u64 = if contessa_k >= 3 {
        0
    } else {
        3 - contessa_k
    };

    // How convincing the observer's own hand looks from public information.
    let my_hand = PerceivedHand::from(
        pool_belief(n_pub, duke_rem),
        pool_belief(n_pub, captain_rem),
        pool_belief(n_pub, ambassador_rem),
        pool_belief(n_pub, assassin_rem),
        pool_belief(n_pub, contessa_rem),
    );

    // What the observer can infer about each other seat, after removing his
    // own two cards from circulation as well.
    let a_priori = PerceivedHand::from(
        pool_belief(n_priv, sub_own(duke_rem, own_of(hand, Card::Duke))),
        pool_belief(n_priv, sub_own(captain_rem, own_of(hand, Card::Captain))),
        pool_belief(n_priv, sub_own(ambassador_rem, own_of(hand, Card::Ambassador))),
        pool_belief(n_priv, sub_own(assassin_rem, own_of(hand, Card::Assassin))),
        pool_belief(n_priv, sub_own(contessa_rem, own_of(hand, Card::Contessa))),
    );

    let mut hands: Vec<PerceivedHand> = Vec::new();
    let mut i: usize = 0;
    while i < opponents + 1
        invariant
            opponents < usize::MAX,
            i <= opponents + 1,
            hands@.len() == i,
            is_public_hand(my_hand, killed@),
            is_private_hand(a_priori, killed@, hand),
            forall|j: int|
                0 <= j < i && j == id ==> is_public_hand(#[trigger] hands@[j], killed@),
            forall|j: int|
                0 <= j < i && j != id ==> is_private_hand(#[trigger] hands@[j], killed@, hand),
        decreases opponents + 1 - i,
    {
        if i == id {
            hands.push(my_hand);
        } else {
            hands.push(a_priori);
        }
        i = i + 1;
    }
    hands
}

/// Copies of a type held by the observer himself.
fn own_of(hand: (Card, Card), c: Card) -> (r: u64)
    ensures
        r == own_in_hand(hand, c),
{
    let first: u64 = if hand.0 == c {
        1
    } else {
        0
    };
    let second: u64 = if hand.1 == c {
        1
    } else {
        0
    };
    first + second
}

/// Removes the observer's own copies from the remaining count, floored at
/// zero.
fn sub_own(rem: u64, own: u64) -> (r: u64)
    ensures
        r == (if rem >= own { rem - own } else { 0int }),
{
    if rem >= own {
        rem - own
    } else {
        0
    }
}

} // verus!
