//! The turn-resolution engine.
//!
//! The engine owns the draw deck, the public kill ledger and the players,
//! and drives one full turn: claim, challenge, block, counter-challenge,
//! execution, rotation, win check.  Its central invariant is conservation:
//! the deck, the players' hands and the kill ledger together always hold
//! exactly the fifteen cards of the game, and eliminations are irreversible.

use vstd::prelude::*;
use vstd::multiset::Multiset;

use crate::Card;
use crate::Action;
use crate::claim_of;
use crate::blockable;
use crate::wiped;
use crate::real_count;
use crate::hand_has;
use crate::action_target;
use crate::gainful;
use crate::selection_ok;
use crate::player::Player;
use crate::player::PlayerMetadata;
use crate::player::pair_multiset;
use crate::rng::shuffle_cards;
use crate::agent::contains_id;

verus! {

/// Why an engine cannot be built.
#[derive(PartialEq, Eq, Structural, Copy, Clone, Debug)]
pub enum EngineError {
    /// A game needs at least one player.
    TooFewPlayers,
    /// The fifteen-card deck cannot serve more than six players: the deal
    /// and the worst-case in-turn draws must always be covered.
    TooManyPlayers,
    /// The given parts do not form a consistent game state.
    InvalidParts,
}

/// Every card of the sequence is a real card.
pub open spec fn all_real(s: Seq<Card>) -> bool {
    forall|i: int| 0 <= i < s.len() ==> s[i] != Card::Empty
}

/// The total number of real cards held in the players' hands.
pub open spec fn sum_real<A: Player>(s: Seq<A>) -> int
    decreases s.len(),
{
    if s.len() == 0 {
        0
    } else {
        sum_real(s.drop_last()) + real_count(s.last().hand_s())
    }
}

/// The number of eliminated players.
pub open spec fn elim_count<A: Player>(s: Seq<A>) -> int
    decreases s.len(),
{
    if s.len() == 0 {
        0
    } else {
        elim_count(s.drop_last()) + (if wiped(s.last().hand_s()) {
            1int
        } else {
            0int
        })
    }
}

/// The fixed universe of the game: three copies of each of the five
/// characters.
pub open spec fn full_universe() -> Multiset<Card> {
    Multiset::empty().insert(Card::Duke).insert(Card::Duke).insert(Card::Duke).insert(
        Card::Captain,
    ).insert(Card::Captain).insert(Card::Captain).insert(Card::Ambassador).insert(
        Card::Ambassador,
    ).insert(Card::Ambassador).insert(Card::Assassin).insert(Card::Assassin).insert(
        Card::Assassin,
    ).insert(Card::Contessa).insert(Card::Contessa).insert(Card::Contessa)
}

/// All cards held in the players' hand slots, as a multiset (sentinels
/// included).
pub open spec fn pairs_mset<A: Player>(s: Seq<A>) -> Multiset<Card>
    decreases s.len(),
{
    if s.len() == 0 {
        Multiset::empty()
    } else {
        pairs_mset(s.drop_last()).add(pair_multiset(s.last().hand_s()))
    }
}

/// One more player extends the held multiset by his pair of slots.
proof fn lemma_pairs_mset_take_step<A: Player>(s: Seq<A>, i: int)
    requires
        0 <= i < s.len(),
    ensures
        pairs_mset(s.take(i + 1)) == pairs_mset(s.take(i)).add(pair_multiset(s[i].hand_s())),
{
    assert(s.take(i + 1).drop_last() =~= s.take(i));
    assert(s.take(i + 1).last() == s[i]);
}

/// The eliminated seats below `n`, in ascending order: the census the
/// engine hands to the active player's selection.
pub open spec fn census_upto<A: Player>(s: Seq<A>, n: int) -> Seq<usize>
    decreases n,
{
    if n <= 0 {
        Seq::empty()
    } else {
        let prev = census_upto(s, n - 1);
        if wiped(s[n - 1].hand_s()) {
            prev.push((n - 1) as usize)
        } else {
            prev
        }
    }
}

/// The player's published block policy admits some declining answer — the
/// one he actually gave.
pub open spec fn declined_block<A: Player>(p: A, action: Action) -> bool {
    exists|resp: (bool, Card)| #[trigger] p.block_ok(action, resp) && !resp.0
}

/// `q` is `p` with beliefs freshly computed from `killed`: the same seat,
/// hand, purse and strategy parameters, ready, and with beliefs that match
/// the implementation's estimator on that ledger.
pub open spec fn refreshed_from<A: Player>(p: A, q: A, killed: Seq<Card>) -> bool {
    &&& q.hand_s() == p.hand_s()
    &&& q.coins_s() == p.coins_s()
    &&& q.id_s() == p.id_s()
    &&& q.opp_s() == p.opp_s()
    &&& q.meta_s() == p.meta_s()
    &&& q.ready_s()
    &&& q.beliefs_ok(killed)
}

/// How a resolved turn may move coins, given the action the active player
/// selected: either the action was prevented — a successful challenge or a
/// standing block — and no purse moved, or it executed with its exact coin
/// movement, touching no purse beyond the active player's and the
/// target's.
pub open spec fn coin_effect<A: Player>(pre: Seq<A>, post: Seq<A>, active: int, a: Action) -> bool {
    ||| forall|j: int| 0 <= j < pre.len() ==> (#[trigger] post[j]).coins_s() == pre[j].coins_s()
    ||| {
        &&& (match a {
            Action::Income => post[active].coins_s() == pre[active].coins_s() + 1,
            Action::ForeignAid => post[active].coins_s() == pre[active].coins_s() + 2,
            Action::Tax => post[active].coins_s() == pre[active].coins_s() + 3,
            Action::Coup(_) => post[active].coins_s() == (if pre[active].coins_s() >= 7 {
                pre[active].coins_s() - 7
            } else {
                0int
            }),
            Action::Assassinate(_) => post[active].coins_s() == (if pre[active].coins_s() >= 3 {
                pre[active].coins_s() - 3
            } else {
                0int
            }),
            Action::Steal(t) => {
                let had = pre[t as int].coins_s() as int;
                let moved = if had >= 2 {
                    2int
                } else {
                    had
                };
                &&& post[t as int].coins_s() == had - moved
                &&& post[active].coins_s() == pre[active].coins_s() + moved
            },
            Action::Exchange => post[active].coins_s() == pre[active].coins_s(),
            Action::Pass => post[active].coins_s() == pre[active].coins_s(),
        })
        &&& forall|j: int|
            0 <= j < pre.len() && j != active && action_target(a) != Some(j as usize) ==> (
            #[trigger] post[j]).coins_s() == pre[j].coins_s()
    }
}

/// What Coup or Assassinate does to the target: a live target loses exactly
/// one influence and the revealed card joins the ledger; an already-wiped
/// target, and the ledger, are untouched.
pub open spec fn kill_effect<A: Player>(
    pre: Seq<A>,
    post: Seq<A>,
    pre_killed: Seq<Card>,
    post_killed: Seq<Card>,
    t: int,
) -> bool {
    &&& (!wiped(pre[t].hand_s()) ==> real_count(post[t].hand_s()) == real_count(pre[t].hand_s())
        - 1 && post_killed.len() == pre_killed.len() + 1)
    &&& (wiped(pre[t].hand_s()) ==> post[t].hand_s() == pre[t].hand_s() && post_killed
        == pre_killed)
}

/// Replacing one player changes the held-card total by the difference of
/// the two hands.
proof fn lemma_sum_real_update<A: Player>(s: Seq<A>, i: int, p: A)
    requires
        0 <= i < s.len(),
    ensures
        sum_real(s.update(i, p)) == sum_real(s) - real_count(s[i].hand_s()) + real_count(
            p.hand_s(),
        ),
    decreases s.len(),
{
    let t = s.update(i, p);
    if i == s.len() - 1 {
        assert(t.drop_last() =~= s.drop_last());
        assert(t.last() == p);
    } else {
        assert(t.drop_last() =~= s.drop_last().update(i, p));
        lemma_sum_real_update(s.drop_last(), i, p);
        assert(t.last() == s.last());
    }
}

/// One more player extends the held-card total by his hand.
proof fn lemma_sum_real_take_step<A: Player>(s: Seq<A>, i: int)
    requires
        0 <= i < s.len(),
    ensures
        sum_real(s.take(i + 1)) == sum_real(s.take(i)) + real_count(s[i].hand_s()),
{
    assert(s.take(i + 1).drop_last() =~= s.take(i));
    assert(s.take(i + 1).last() == s[i]);
}

/// One more player extends the elimination count by his status.
proof fn lemma_elim_count_take_step<A: Player>(s: Seq<A>, i: int)
    requires
        0 <= i < s.len(),
    ensures
        elim_count(s.take(i + 1)) == elim_count(s.take(i)) + (if wiped(s[i].hand_s()) {
            1int
        } else {
            0int
        }),
{
    assert(s.take(i + 1).drop_last() =~= s.take(i));
    assert(s.take(i + 1).last() == s[i]);
}

/// The elimination count never exceeds the player count.
proof fn lemma_elim_count_bounds<A: Player>(s: Seq<A>)
    ensures
        0 <= elim_count(s) <= s.len(),
    decreases s.len(),
{
    if s.len() > 0 {
        lemma_elim_count_bounds(s.drop_last());
    }
}

/// If every player counts as eliminated, every player is.
proof fn lemma_all_elim<A: Player>(s: Seq<A>)
    requires
        elim_count(s) == s.len(),
    ensures
        forall|j: int| 0 <= j < s.len() ==> wiped((#[trigger] s[j]).hand_s()),
    decreases s.len(),
{
    if s.len() > 0 {
        lemma_elim_count_bounds(s.drop_last());
        lemma_all_elim(s.drop_last());
        assert forall|j: int| 0 <= j < s.len() implies wiped((#[trigger] s[j]).hand_s()) by {
            if j < s.len() - 1 {
                assert(s[j] == s.drop_last()[j]);
            } else {
                assert(s[j] == s.last());
            }
        }
    }
}

/// With all players but one eliminated, every seat other than a live one is
/// eliminated.
proof fn lemma_all_but_one<A: Player>(s: Seq<A>, w: int)
    requires
        0 <= w < s.len(),
        !wiped(s[w].hand_s()),
        elim_count(s) == s.len() - 1,
    ensures
        forall|j: int| 0 <= j < s.len() && j != w ==> wiped((#[trigger] s[j]).hand_s()),
    decreases s.len(),
{
    lemma_elim_count_bounds(s.drop_last());
    assert(elim_count(s) == elim_count(s.drop_last()) + (if wiped(s.last().hand_s()) {
        1int
    } else {
        0int
    }));
    assert(s.last() == s[s.len() - 1]);
    if w == s.len() - 1 {
        assert(elim_count(s.drop_last()) == s.len() - 1);
        lemma_all_elim(s.drop_last());
        assert forall|j: int| 0 <= j < s.len() && j != w implies wiped(
            (#[trigger] s[j]).hand_s(),
        ) by {
            assert(s[j] == s.drop_last()[j]);
        }
    } else {
        if wiped(s.last().hand_s()) {
            assert(s.drop_last()[w] == s[w]);
            lemma_all_but_one(s.drop_last(), w);
            assert forall|j: int| 0 <= j < s.len() && j != w implies wiped(
                (#[trigger] s[j]).hand_s(),
            ) by {
                if j < s.len() - 1 {
                    assert(s[j] == s.drop_last()[j]);
                } else {
                    assert(s[j] == s.last());
                }
            }
        } else {
            assert(elim_count(s.drop_last()) == s.len() - 1);
            lemma_all_elim(s.drop_last());
            assert(s.drop_last()[w] == s[w]);
            assert(wiped(s[w].hand_s()));
            assert(false);
        }
    }
}

/// A multiset-preserving permutation of real cards holds only real cards.
proof fn lemma_permutation_real(pre: Seq<Card>, post: Seq<Card>)
    requires
        pre.to_multiset() == post.to_multiset(),
        all_real(pre),
    ensures
        all_real(post),
{
    broadcast use vstd::seq_lib::group_to_multiset_ensures;

    assert forall|i: int| 0 <= i < post.len() implies post[i] != Card::Empty by {
        assert(post.contains(post[i]));
        assert(post.to_multiset().count(post[i]) > 0);
        assert(pre.contains(post[i]));
    }
}

/// Holds the full state of one game.
pub struct Engine<A: Player> {
    /// The draw pile, top first.
    deck: Vec<Card>,
    /// The players, seated in index order.
    players: Vec<A>,
    /// The public ledger of revealed and discarded cards.
    killed: Vec<Card>,
    /// The seat whose turn it is.
    active_player: usize,
}

impl<A: Player> Engine<A> {
    /// The deck, abstractly.
    pub closed spec fn deck_s(self) -> Seq<Card> {
        self.deck@
    }

    /// The players, abstractly.
    pub closed spec fn players_s(self) -> Seq<A> {
        self.players@
    }

    /// The kill ledger, abstractly.
    pub closed spec fn killed_s(self) -> Seq<Card> {
        self.killed@
    }

    /// The active seat, abstractly.
    pub closed spec fn active_s(self) -> usize {
        self.active_player
    }

    /// Well-formedness: between one and six correctly seated, belief-ready
    /// players; a real-card deck and ledger; and conservation — the ledger
    /// and the hands together hold the dealt cards (twice the player
    /// count), the deck holds the rest of the fifteen.
    pub open spec fn wf(self) -> bool {
        let n = self.players_s().len() as int;
        &&& 1 <= n <= 6
        &&& (self.active_s() as int) < n
        &&& forall|i: int| 0 <= i < n ==> (#[trigger] self.players_s()[i]).id_s() == i
        &&& forall|i: int| 0 <= i < n ==> (#[trigger] self.players_s()[i]).opp_s() + 1 == n
        &&& forall|i: int| 0 <= i < n ==> (#[trigger] self.players_s()[i]).ready_s()
        &&& all_real(self.deck_s())
        &&& all_real(self.killed_s())
        &&& self.killed_s().len() + sum_real(self.players_s()) == 2 * n
        &&& self.deck_s().len() == 15 - 2 * n
    }

    /// Conservation: a well-formed game always holds exactly the fifteen
    /// cards of the fixed universe, split between the deck, the hands and
    /// the kill ledger.
    pub proof fn lemma_conservation(self)
        requires
            self.wf(),
        ensures
            self.deck_s().len() + sum_real(self.players_s()) + self.killed_s().len() == 15,
    {
    }

    /// Constructs a new engine: builds the fifteen-card deck, shuffles it,
    /// deals two cards to every player and lets everyone compute beliefs.
    /// Fails fast when the player count cannot be served.
    pub fn new(players: Vec<A>) -> (r: Result<Engine<A>, EngineError>)
        requires
            forall|i: int| 0 <= i < players@.len() ==> (#[trigger] players@[i]).id_s() == i,
            forall|i: int|
                0 <= i < players@.len() ==> (#[trigger] players@[i]).opp_s() + 1 == players@.len(),
        ensures
            r matches Ok(e) ==> e.wf() && e.players_s().len() == players@.len() && forall|i: int|
                0 <= i < players@.len() ==> (#[trigger] e.players_s()[i]).meta_s()
                    == players@[i].meta_s(),
            r matches Ok(e) ==> e.killed_s() == Seq::<Card>::empty() && e.active_s() == 0
                && e.deck_s().len() == 15 - 2 * players@.len(),
            r matches Ok(e) ==> e.deck_s().to_multiset().add(pairs_mset(e.players_s()))
                == full_universe(),
            r matches Ok(e) ==> forall|i: int|
                0 <= i < players@.len() ==> real_count((#[trigger] e.players_s()[i]).hand_s())
                    == 2 && !wiped(e.players_s()[i].hand_s()) && e.players_s()[i].coins_s()
                    == players@[i].coins_s(),
            r is Ok <==> 1 <= players@.len() <= 6,
            r == Err::<Engine<A>, EngineError>(EngineError::TooFewPlayers) <==> players@.len()
                == 0,
            r == Err::<Engine<A>, EngineError>(EngineError::TooManyPlayers) <==> players@.len()
                > 6,
    {
        let n = players.len();
        if n == 0 {
            return Err(EngineError::TooFewPlayers);
        }
        if n > 6 {
            return Err(EngineError::TooManyPlayers);
        }
        let ghost orig_players = players@;
        let mut players = players;

        // The fixed universe: three copies of each of the five characters.
        let mut deck: Vec<Card> = Vec::new();
        deck.push(Card::Duke);
        deck.push(Card::Duke);
        deck.push(Card::Duke);
        deck.push(Card::Captain);
        deck.push(Card::Captain);
        deck.push(Card::Captain);
        deck.push(Card::Ambassador);
        deck.push(Card::Ambassador);
        deck.push(Card::Ambassador);
        deck.push(Card::Assassin);
        deck.push(Card::Assassin);
        deck.push(Card::Assassin);
        deck.push(Card::Contessa);
        deck.push(Card::Contessa);
        deck.push(Card::Contessa);
        assert(deck@.len() == 15);
        assert(all_real(deck@));
        proof {
            broadcast use vstd::seq_lib::group_to_multiset_ensures;

            assert(deck@ =~= Seq::<Card>::empty().push(Card::Duke).push(Card::Duke).push(
                Card::Duke,
            ).push(Card::Captain).push(Card::Captain).push(Card::Captain).push(
                Card::Ambassador,
            ).push(Card::Ambassador).push(Card::Ambassador).push(Card::Assassin).push(
                Card::Assassin,
            ).push(Card::Assassin).push(Card::Contessa).push(Card::Contessa).push(
                Card::Contessa,
            ));
            assert(deck@.to_multiset() =~= full_universe());
        }

        let ghost before_shuffle = deck@;
        shuffle_cards(&mut deck);
        proof {
            lemma_permutation_real(before_shuffle, deck@);
            assert(deck@.to_multiset() == full_universe());
        }

        // Deal two cards from the top to each player in seat order, and let
        // everyone compute beliefs over the empty ledger.
        let empty_killed: Vec<Card> = Vec::new();
        let mut i: usize = 0;
        while i < n
            invariant
                i <= n,
                1 <= n <= 6,
                players@.len() == n,
                deck@.len() == 15 - 2 * i,
                all_real(deck@),
                empty_killed@.len() == 0,
                forall|j: int|
                    0 <= j < n ==> (#[trigger] players@[j]).id_s() == j && players@[j].opp_s() + 1
                        == n,
                forall|j: int|
                    0 <= j < i ==> real_count((#[trigger] players@[j]).hand_s()) == 2
                        && players@[j].ready_s(),
                forall|j: int|
                    0 <= j < players@.len() ==> (#[trigger] players@[j]).meta_s()
                        == orig_players[j].meta_s() && players@[j].coins_s()
                        == orig_players[j].coins_s(),
                sum_real(players@.take(i as int)) == 2 * i,
                deck@.to_multiset().add(pairs_mset(players@.take(i as int))) == full_universe(),
            decreases n - i,
        {
            let ghost deck0 = deck@;
            let c0 = deck.remove(0);
            let ghost deck1 = deck@;
            let c1 = deck.remove(0);
            assert(c0 != Card::Empty && c1 != Card::Empty);
            let ghost before = players@;
            self_deal(&mut players, i, c0, c1);
            self_compute(&mut players, i, empty_killed.as_slice());
            proof {
                broadcast use vstd::seq_lib::group_to_multiset_ensures;

                assert(players@.take(i as int) =~= before.take(i as int));
                assert(real_count(players@[i as int].hand_s()) == 2);
                lemma_sum_real_take_step(players@, i as int);
                lemma_pairs_mset_take_step(players@, i as int);
                assert(deck1.to_multiset() =~= deck0.to_multiset().remove(c0));
                assert(deck@.to_multiset() =~= deck1.to_multiset().remove(c1));
                assert(pair_multiset((c0, c1)) =~= Multiset::empty().insert(c0).insert(c1));
                assert(deck@.to_multiset().add(pairs_mset(players@.take(i + 1)))
                    =~= deck0.to_multiset().add(pairs_mset(before.take(i as int))));
            }
            i = i + 1;
        }
        proof {
            assert(players@.take(n as int) =~= players@);
        }

        let killed: Vec<Card> = Vec::new();
        let engine = Engine { deck, players, killed, active_player: 0 };
        Ok(engine)
    }

    /// Rebuilds an engine from explicit parts — a dealt position — for
    /// deterministic replay.  Fails unless the parts form a consistent
    /// game: players seated in order, real cards only, and the fifteen-card
    /// universe split consistently between deck, hands and ledger.
    pub fn from_parts(deck: Vec<Card>, players: Vec<A>, killed: Vec<Card>, active_player: usize) -> (r:
        Result<Engine<A>, EngineError>)
        requires
            forall|i: int| 0 <= i < players@.len() ==> (#[trigger] players@[i]).id_s() == i,
            forall|i: int|
                0 <= i < players@.len() ==> (#[trigger] players@[i]).opp_s() + 1 == players@.len(),
        ensures
            r matches Ok(e) ==> e.wf() && e.deck_s() == deck@ && e.killed_s() == killed@
                && e.active_s() == active_player && e.players_s().len() == players@.len() && forall|
                i: int,
            |
                0 <= i < players@.len() ==> (#[trigger] e.players_s()[i]).hand_s()
                    == players@[i].hand_s() && e.players_s()[i].coins_s() == players@[i].coins_s()
                    && e.players_s()[i].meta_s() == players@[i].meta_s(),
            r is Ok <==> {
                let n = players@.len() as int;
                &&& 1 <= n <= 6
                &&& (active_player as int) < n
                &&& all_real(deck@)
                &&& all_real(killed@)
                &&& killed@.len() + sum_real(players@) == 2 * n
                &&& deck@.len() == 15 - 2 * n
            },
    {
        let n = players.len();
        if n == 0 || n > 6 {
            return Err(EngineError::InvalidParts);
        }
        if active_player >= n {
            return Err(EngineError::InvalidParts);
        }
        if !cards_all_real(deck.as_slice()) {
            return Err(EngineError::InvalidParts);
        }
        if !cards_all_real(killed.as_slice()) {
            return Err(EngineError::InvalidParts);
        }

        // Count the cards held in hands.
        let mut held: usize = 0;
        let mut i: usize = 0;
        while i < n
            invariant
                i <= n,
                n <= 6,
                n == players@.len(),
                held == sum_real(players@.take(i as int)),
                held <= 2 * i,
            decreases n - i,
        {
            let p = &players[i];
            let r: usize = if p.is_eliminated() {
                0
            } else if p.check(Card::Empty) {
                1
            } else {
                2
            };
            proof {
                lemma_sum_real_take_step(players@, i as int);
            }
            held = held + r;
            i = i + 1;
        }
        proof {
            assert(players@.take(n as int) =~= players@);
        }

        if killed.len() > 12 || held > 12 || killed.len() + held != 2 * n {
            return Err(EngineError::InvalidParts);
        }
        if deck.len() != 15 - 2 * n {
            return Err(EngineError::InvalidParts);
        }

        // Let everyone compute beliefs over the given ledger.
        let ghost orig_players = players@;
        let mut players = players;
        let mut i: usize = 0;
        while i < n
            invariant
                i <= n,
                1 <= n <= 6,
                players@.len() == n,
                orig_players.len() == n,
                all_real(killed@),
                forall|j: int|
                    0 <= j < n ==> (#[trigger] players@[j]).id_s() == j && players@[j].opp_s() + 1
                        == n,
                forall|j: int| 0 <= j < i ==> (#[trigger] players@[j]).ready_s(),
                forall|j: int|
                    0 <= j < n ==> (#[trigger] players@[j]).hand_s() == orig_players[j].hand_s()
                        && players@[j].coins_s() == orig_players[j].coins_s()
                        && players@[j].meta_s() == orig_players[j].meta_s(),
                sum_real(players@) == sum_real(orig_players),
            decreases n - i,
        {
            self_compute(&mut players, i, killed.as_slice());
            proof {
                lemma_sum_unchanged_by_frames(orig_players, players@);
            }
            i = i + 1;
        }

        let engine = Engine { deck, players, killed, active_player };
        Ok(engine)
    }

    /// Gets a read-only view of the cards removed from the game.
    pub fn get_killed_cards(&self) -> (r: &[Card])
        ensures
            r@ == self.killed_s(),
    {
        self.killed.as_slice()
    }

    /// Gets a read-only view of the players.
    pub fn get_players(&self) -> (r: &Vec<A>)
        ensures
            r@ == self.players_s(),
    {
        &self.players
    }

    /// Gets the number of cards left in the draw pile.
    pub fn deck_len(&self) -> (r: usize)
        ensures
            r == self.deck_s().len(),
    {
        self.deck.len()
    }

    /// Gets the seat whose turn it is.
    pub fn get_active_player(&self) -> (r: usize)
        ensures
            r == self.active_s(),
    {
        self.active_player
    }

    /// Rotates the active player to the next seat, wrapping to zero.
    pub fn rotate_active_player(&mut self)
        requires
            old(self).wf(),
        ensures
            final(self).wf(),
            final(self).active_s() == (if old(self).active_s() + 1 == old(self).players_s().len() {
                0int
            } else {
                old(self).active_s() + 1
            }),
            final(self).players_s() == old(self).players_s(),
            final(self).deck_s() == old(self).deck_s(),
            final(self).killed_s() == old(self).killed_s(),
    {
        self.active_player = self.active_player + 1;
        if self.active_player == self.players.len() {
            self.active_player = 0;
        }
    }

    /// Forces player `i` to lose one influence; the revealed card joins the
    /// kill ledger.  An already-eliminated player is left untouched.
    fn kill_one(&mut self, i: usize) -> (lost: Card)
        requires
            old(self).wf(),
            i < old(self).players_s().len(),
        ensures
            final(self).wf(),
            final(self).players_s().len() == old(self).players_s().len(),
            final(self).deck_s() == old(self).deck_s(),
            final(self).active_s() == old(self).active_s(),
            forall|j: int|
                0 <= j < final(self).players_s().len() && j != i ==> final(self).players_s()[j] == old(self).players_s()[j],
            forall|j: int|
                0 <= j < final(self).players_s().len() ==> ((#[trigger] final(self).players_s()[j]).hand_s()
                    == old(self).players_s()[j].hand_s() || real_count(final(self).players_s()[j].hand_s())
                    == real_count(old(self).players_s()[j].hand_s()) - 1),
            forall|j: int|
                0 <= j < final(self).players_s().len() ==> (wiped(
                    (#[trigger] old(self).players_s()[j]).hand_s(),
                ) ==> wiped(final(self).players_s()[j].hand_s())),
            final(self).players_s()[i as int].coins_s() == old(self).players_s()[i as int].coins_s(),
            final(self).players_s()[i as int].meta_s() == old(self).players_s()[i as int].meta_s(),
            wiped(old(self).players_s()[i as int].hand_s()) ==> final(self).killed_s() == old(self).killed_s() && lost == Card::Empty,
            !wiped(old(self).players_s()[i as int].hand_s()) ==> final(self).killed_s() == old(self).killed_s().push(lost) && lost != Card::Empty && real_count(
                final(self).players_s()[i as int].hand_s(),
            ) == real_count(old(self).players_s()[i as int].hand_s()) - 1,
    {
        let ghost pre = self.players@;
        let lost = self.players[i].lose_influence();
        proof {
            lemma_sum_real_update(pre, i as int, self.players@[i as int]);
        }
        if lost != Card::Empty {
            self.killed.push(lost);
        }
        lost
    }

    /// After a successful claim under challenge, player `i` returns the
    /// claimed card to the bottom of the deck and draws a fresh card from
    /// the top.
    fn swap_claim_card(&mut self, i: usize, card: Card)
        requires
            old(self).wf(),
            i < old(self).players_s().len(),
            card != Card::Empty,
            hand_has(old(self).players_s()[i as int].hand_s(), card),
        ensures
            final(self).wf(),
            final(self).players_s().len() == old(self).players_s().len(),
            final(self).killed_s() == old(self).killed_s(),
            final(self).active_s() == old(self).active_s(),
            forall|j: int|
                0 <= j < final(self).players_s().len() && j != i ==> final(self).players_s()[j] == old(self).players_s()[j],
            real_count(final(self).players_s()[i as int].hand_s()) == real_count(
                old(self).players_s()[i as int].hand_s(),
            ),
            forall|j: int|
                0 <= j < final(self).players_s().len() ==> (wiped(
                    (#[trigger] old(self).players_s()[j]).hand_s(),
                ) ==> wiped(final(self).players_s()[j].hand_s())),
            final(self).players_s()[i as int].coins_s() == old(self).players_s()[i as int].coins_s(),
            final(self).players_s()[i as int].meta_s() == old(self).players_s()[i as int].meta_s(),
    {
        let ghost pre = self.players@;
        self.deck.push(card);
        let top = self.deck[0];
        assert(top != Card::Empty);
        self.players[i].replace(card, top);
        proof {
            lemma_sum_real_update(pre, i as int, self.players@[i as int]);
        }
        self.deck.remove(0);
        proof {
            let d = self.deck@;
            assert(all_real(d));
        }
    }

    /// Asks each live player other than the claimant, in ascending seat
    /// order, whether he challenges the claimant's claim to hold `card`;
    /// the first challenger wins.  Every earlier eligible seat declined,
    /// within its own published policy.
    fn check_challenges(&self, claimant: usize, card: Card) -> (r: Option<usize>)
        requires
            self.wf(),
            claimant < self.players_s().len(),
        ensures
            r matches Some(i) ==> (i as int) < self.players_s().len() && i != claimant && !wiped(
                self.players_s()[i as int].hand_s(),
            ) && self.players_s()[i as int].challenge_ok(claimant, card, true),
            r matches Some(i) ==> forall|j: int|
                0 <= j < i && j != claimant && !wiped((#[trigger] self.players_s()[j]).hand_s())
                    ==> self.players_s()[j].challenge_ok(claimant, card, false),
            r is None ==> forall|j: int|
                0 <= j < self.players_s().len() && j != claimant && !wiped(
                    (#[trigger] self.players_s()[j]).hand_s(),
                ) ==> self.players_s()[j].challenge_ok(claimant, card, false),
            card == Card::Empty ==> r is None,
    {
        let n = self.players.len();
        let mut i: usize = 0;
        while i < n
            invariant
                self.wf(),
                i <= n,
                n == self.players_s().len(),
                claimant < n,
                forall|j: int|
                    0 <= j < i && j != claimant && !wiped(
                        (#[trigger] self.players_s()[j]).hand_s(),
                    ) ==> self.players_s()[j].challenge_ok(claimant, card, false),
            decreases n - i,
        {
            if i != claimant && !self.players[i].is_eliminated() {
                let challenges = self.players[i].check_challenge(claimant, card);
                if challenges {
                    return Some(i);
                }
            }
            i = i + 1;
        }
        None
    }

    /// Asks each live player other than the active one, in ascending seat
    /// order, whether he blocks the pending action; the first blocker wins,
    /// with his claimed card.  Every earlier eligible seat declined, within
    /// its own published policy, and unblockable actions never reach the
    /// players.
    fn check_blocks(&self, action: Action) -> (r: Option<(usize, Card)>)
        requires
            self.wf(),
        ensures
            r matches Some(ic) ==> (ic.0 as int) < self.players_s().len() && ic.0
                != self.active_s() && ic.1 != Card::Empty && !wiped(
                self.players_s()[ic.0 as int].hand_s(),
            ) && blockable(action) && self.players_s()[ic.0 as int].block_ok(
                action,
                (true, ic.1),
            ),
            r matches Some(ic) ==> forall|j: int|
                0 <= j < ic.0 && j != self.active_s() && !wiped(
                    (#[trigger] self.players_s()[j]).hand_s(),
                ) ==> declined_block(self.players_s()[j], action),
            r is None && blockable(action) ==> forall|j: int|
                0 <= j < self.players_s().len() && j != self.active_s() && !wiped(
                    (#[trigger] self.players_s()[j]).hand_s(),
                ) ==> declined_block(self.players_s()[j], action),
            !blockable(action) ==> r is None,
    {
        match action {
            Action::ForeignAid => (),
            Action::Assassinate(_) => (),
            Action::Steal(_) => (),
            _ => {
                return None;
            },
        }
        let n = self.players.len();
        let mut i: usize = 0;
        while i < n
            invariant
                self.wf(),
                i <= n,
                n == self.players_s().len(),
                blockable(action),
                forall|j: int|
                    0 <= j < i && j != self.active_s() && !wiped(
                        (#[trigger] self.players_s()[j]).hand_s(),
                    ) ==> declined_block(self.players_s()[j], action),
            decreases n - i,
        {
            if i != self.active_player && !self.players[i].is_eliminated() {
                let (blocks, card) = self.players[i].check_block(action);
                if blocks {
                    return Some((i, card));
                }
                proof {
                    assert(declined_block(self.players_s()[i as int], action));
                }
            }
            i = i + 1;
        }
        None
    }

    /// Resolves one full turn: every player recomputes beliefs, the active
    /// player claims an action from his legal set, challenges and blocks
    /// are resolved in seat order, the surviving action executes, the turn
    /// rotates, and the win condition is checked.
    ///
    /// Returns `Some(w)` exactly when, with the action resolved, every
    /// player but `w` is eliminated.  Eliminations are irreversible, the
    /// kill ledger only grows (by at most three cards in one turn — a
    /// failed challenge, a failed counter-challenge and an executed kill),
    /// strategy parameters never change, and the selected action moves
    /// coins exactly as `coin_effect` says: its exact amounts when it
    /// executed, nothing at all when a challenge or a standing block
    /// prevented it.
    #[verifier::rlimit(100)]
    pub fn turn(&mut self) -> (r: Option<usize>)
        requires
            old(self).wf(),
        ensures
            final(self).wf(),
            final(self).players_s().len() == old(self).players_s().len(),
            forall|j: int|
                0 <= j < final(self).players_s().len() ==> (wiped(
                    (#[trigger] old(self).players_s()[j]).hand_s(),
                ) ==> wiped(final(self).players_s()[j].hand_s())),
            final(self).active_s() == (if old(self).active_s() + 1 == old(self).players_s().len() {
                0int
            } else {
                old(self).active_s() + 1
            }),
            old(self).killed_s().is_prefix_of(final(self).killed_s()),
            final(self).killed_s().len() <= old(self).killed_s().len() + 3,
            forall|j: int|
                0 <= j < final(self).players_s().len() ==> (#[trigger] final(self).players_s()[j]).meta_s() == old(self).players_s()[j].meta_s(),
            exists|q: A, a: Action|
                #![auto]
                {
                    &&& refreshed_from(
                        old(self).players_s()[old(self).active_s() as int],
                        q,
                        old(self).killed_s(),
                    )
                    &&& q.selection_rule(
                        census_upto(old(self).players_s(), old(self).players_s().len() as int),
                        a,
                    )
                    &&& selection_ok(
                        a,
                        old(self).active_s(),
                        (old(self).players_s().len() - 1) as usize,
                        old(self).players_s()[old(self).active_s() as int].coins_s(),
                        wiped(old(self).players_s()[old(self).active_s() as int].hand_s()),
                    )
                    &&& coin_effect(
                        old(self).players_s(),
                        final(self).players_s(),
                        old(self).active_s() as int,
                        a,
                    )
                },
            (r is Some) <==> elim_count(final(self).players_s()) == final(self).players_s().len() - 1,
            r matches Some(w) ==> (w as int) < final(self).players_s().len() && !wiped(
                final(self).players_s()[w as int].hand_s(),
            ) && forall|j: int|
                0 <= j < final(self).players_s().len() && j != w ==> wiped(
                    (#[trigger] final(self).players_s()[j]).hand_s(),
                ),
    {
        let ghost pre = *self;
        let n = self.players.len();

        // Every player recomputes beliefs from the current ledger, and the
        // eliminated seats are collected in ascending order.
        let mut eliminated_players: Vec<usize> = Vec::new();
        let mut i: usize = 0;
        while i < n
            invariant
                i <= n,
                self.wf(),
                n == self.players_s().len(),
                n == pre.players@.len(),
                pre.wf(),
                self.deck@ == pre.deck@,
                self.killed@ == pre.killed@,
                self.active_player == pre.active_player,
                forall|j: int|
                    0 <= j < n ==> (#[trigger] self.players@[j]).hand_s()
                        == pre.players@[j].hand_s() && self.players@[j].coins_s()
                        == pre.players@[j].coins_s() && self.players@[j].meta_s()
                        == pre.players@[j].meta_s(),
                eliminated_players@ == census_upto(pre.players@, i as int),
                forall|j: int|
                    0 <= j < i ==> (#[trigger] self.players@[j]).beliefs_ok(pre.killed@),
            decreases n - i,
        {
            self_compute(&mut self.players, i, self.killed.as_slice());
            proof {
                lemma_sum_unchanged_by_frames(pre.players@, self.players@);
            }
            if self.players[i].is_eliminated() {
                eliminated_players.push(i);
            }
            i = i + 1;
        }
        proof {
            assert(pre.players@.take(n as int) =~= pre.players@);
        }

        // The active player selects an action from his legal set.
        let active = self.active_player;
        let ghost selector = self.players@[active as int];
        let action = self.players[active].select_action(eliminated_players.as_slice());

        // The card the action claims, if any.
        let card = claim_of(action);

        // Challenge phase: the first live objector in seat order wins.
        let mut prevented = false;
        let challenger = self.check_challenges(active, card);
        match challenger {
            Some(ch) => {
                if self.players[active].check(card) {
                    // The claim was true: the challenger loses one
                    // influence, and the claimant trades the revealed card
                    // for a fresh draw.
                    self.kill_one(ch);
                    self.swap_claim_card(active, card);
                } else {
                    // The claim was a lie: the claimant loses one influence
                    // and the action is prevented.
                    self.kill_one(active);
                    prevented = true;
                }
            },
            None => {},
        }
        proof {
            lemma_killed_prefix_grows(pre.killed@, self.killed@);
            assert(forall|j: int|
                0 <= j < n ==> (#[trigger] self.players@[j]).coins_s()
                    == pre.players@[j].coins_s() && self.players@[j].meta_s()
                    == pre.players@[j].meta_s());
            assert(forall|j: int|
                0 <= j < n ==> (wiped((#[trigger] pre.players@[j]).hand_s()) ==> wiped(
                    self.players@[j].hand_s(),
                )));
        }
        let ghost after_challenge = *self;

        // Block phase, only if the action still stands.
        if !prevented {
            let block = self.check_blocks(action);
            match block {
                Some((blocker, bcard)) => {
                    // Counter-challenge sub-phase, with the blocker as
                    // claimant and every other live player eligible.
                    let counter = self.check_challenges(blocker, bcard);
                    match counter {
                        Some(j) => {
                            if self.players[blocker].check(bcard) {
                                // The block was honest: the counter-
                                // challenger loses one influence, the
                                // blocker trades his card, and the action
                                // stays prevented.
                                self.kill_one(j);
                                self.swap_claim_card(blocker, bcard);
                                prevented = true;
                            } else {
                                // The block was a lie: the blocker loses
                                // one influence and the action proceeds.
                                self.kill_one(blocker);
                            }
                        },
                        // An unchallenged block stands: the action is
                        // prevented.
                        None => {
                            prevented = true;
                        },
                    }
                },
                None => {},
            }
        }
        proof {
            lemma_killed_prefix_grows(after_challenge.killed@, self.killed@);
            lemma_prefix_trans(pre.killed@, after_challenge.killed@, self.killed@);
            assert(forall|j: int|
                0 <= j < n ==> (#[trigger] self.players@[j]).coins_s()
                    == pre.players@[j].coins_s() && self.players@[j].meta_s()
                    == pre.players@[j].meta_s());
            assert(forall|j: int|
                0 <= j < n ==> (wiped((#[trigger] pre.players@[j]).hand_s()) ==> wiped(
                    self.players@[j].hand_s(),
                )));
        }
        let ghost after_block = *self;

        // Execution, only if nothing prevented the action.
        if !prevented {
            self.complete_action(action);
        }
        proof {
            lemma_killed_prefix_grows(after_block.killed@, self.killed@);
            lemma_prefix_trans(pre.killed@, after_block.killed@, self.killed@);
            assert(forall|j: int|
                0 <= j < n ==> (#[trigger] self.players@[j]).meta_s()
                    == pre.players@[j].meta_s());
            assert(forall|j: int|
                0 <= j < n ==> (wiped((#[trigger] pre.players@[j]).hand_s()) ==> wiped(
                    self.players@[j].hand_s(),
                )));
            assert(coin_effect(pre.players@, self.players@, active as int, action));
        }

        // The turn rotates to the next seat.
        self.rotate_active_player();

        proof {
            assert(exists|q: A, a: Action|
                #![auto]
                {
                    &&& refreshed_from(
                        pre.players@[pre.active_player as int],
                        q,
                        pre.killed@,
                    )
                    &&& q.selection_rule(census_upto(pre.players@, pre.players@.len() as int), a)
                    &&& selection_ok(
                        a,
                        pre.active_player,
                        (pre.players@.len() - 1) as usize,
                        pre.players@[pre.active_player as int].coins_s(),
                        wiped(pre.players@[pre.active_player as int].hand_s()),
                    )
                    &&& coin_effect(pre.players@, self.players@, pre.active_player as int, a)
                }) by {
                assert({
                    &&& refreshed_from(
                        pre.players@[pre.active_player as int],
                        selector,
                        pre.killed@,
                    )
                    &&& selector.selection_rule(
                        census_upto(pre.players@, pre.players@.len() as int),
                        action,
                    )
                    &&& selection_ok(
                        action,
                        pre.active_player,
                        (pre.players@.len() - 1) as usize,
                        pre.players@[pre.active_player as int].coins_s(),
                        wiped(pre.players@[pre.active_player as int].hand_s()),
                    )
                    &&& coin_effect(pre.players@, self.players@, pre.active_player as int, action)
                });
            }
        }

        // Win check: if the resolved action left all seats but one
        // eliminated, the sole remaining player has won.
        self.find_sole_survivor()
    }

    /// Finds the sole remaining player, if all seats but one are
    /// eliminated.
    fn find_sole_survivor(&self) -> (r: Option<usize>)
        requires
            self.wf(),
        ensures
            (r is Some) <==> elim_count(self.players_s()) == self.players_s().len() - 1,
            r matches Some(w) ==> (w as int) < self.players_s().len() && !wiped(
                self.players_s()[w as int].hand_s(),
            ) && forall|j: int|
                0 <= j < self.players_s().len() && j != w ==> wiped(
                    (#[trigger] self.players_s()[j]).hand_s(),
                ),
    {
        let n = self.players.len();
        let mut alive: usize = 0;
        let mut last_alive: usize = 0;
        let mut i2: usize = 0;
        while i2 < n
            invariant
                i2 <= n,
                n == self.players_s().len(),
                n <= 6,
                alive + elim_count(self.players@.take(i2 as int)) == i2,
                alive <= i2,
                alive >= 1 ==> (last_alive as int) < i2 && !wiped(
                    self.players@[last_alive as int].hand_s(),
                ),
            decreases n - i2,
        {
            proof {
                lemma_elim_count_take_step(self.players@, i2 as int);
            }
            if !self.players[i2].is_eliminated() {
                alive = alive + 1;
                last_alive = i2;
            }
            i2 = i2 + 1;
        }
        proof {
            assert(self.players@.take(n as int) =~= self.players@);
        }
        if alive == 1 {
            proof {
                lemma_all_but_one(self.players@, last_alive as int);
            }
            Some(last_alive)
        } else {
            None
        }
    }

    /// Plays a game to its end and returns the winner's strategy
    /// parameters.  A game is capped at a thousand turns; if the cap is
    /// reached without a natural winner, player zero wins by default.
    pub fn play(&mut self) -> (w: PlayerMetadata)
        requires
            old(self).wf(),
        ensures
            final(self).wf(),
            final(self).players_s().len() == old(self).players_s().len(),
            forall|j: int|
                0 <= j < final(self).players_s().len() ==> (wiped(
                    (#[trigger] old(self).players_s()[j]).hand_s(),
                ) ==> wiped(final(self).players_s()[j].hand_s())),
            forall|j: int|
                0 <= j < final(self).players_s().len() ==> (#[trigger] final(self).players_s()[j]).meta_s() == old(self).players_s()[j].meta_s(),
            exists|i: int|
                0 <= i < final(self).players_s().len() && w == (
                #[trigger] old(self).players_s()[i]).meta_s() && (i == 0 || (!wiped(
                    final(self).players_s()[i as int].hand_s(),
                ) && elim_count(final(self).players_s()) == final(self).players_s().len() - 1)),
    {
        let mut counter: usize = 0;
        while counter < 1000
            invariant
                self.wf(),
                counter <= 1000,
                self.players_s().len() == old(self).players_s().len(),
                forall|j: int|
                    0 <= j < self.players_s().len() ==> (wiped(
                        (#[trigger] old(self).players_s()[j]).hand_s(),
                    ) ==> wiped(self.players_s()[j].hand_s())),
                forall|j: int|
                    0 <= j < self.players_s().len() ==> (#[trigger] self.players_s()[j]).meta_s()
                        == old(self).players_s()[j].meta_s(),
            decreases 1000 - counter,
        {
            let r = self.turn();
            match r {
                Some(p) => {
                    return self.players[p].get_metadata();
                },
                None => {},
            }
            counter = counter + 1;
        }
        self.players[0].get_metadata()
    }

    /// Executes an unprevented action.  Coin movements clamp at the
    /// available balance; Steal moves exactly `min(2, target's coins)`.
    fn complete_action(&mut self, action: Action)
        requires
            old(self).wf(),
            match action_target(action) {
                Some(t) => (t as int) < old(self).players_s().len() && t != old(self).active_s(),
                None => true,
            },
            gainful(action) ==> old(self).players_s()[old(self).active_s() as int].coins_s() <= 9,
        ensures
            final(self).wf(),
            final(self).players_s().len() == old(self).players_s().len(),
            final(self).active_s() == old(self).active_s(),
            forall|j: int|
                0 <= j < final(self).players_s().len() ==> (wiped(
                    (#[trigger] old(self).players_s()[j]).hand_s(),
                ) ==> wiped(final(self).players_s()[j].hand_s())),
            action == Action::Income ==> final(self).players_s()[final(self).active_s() as int].coins_s() == old(self).players_s()[final(self).active_s() as int].coins_s() + 1,
            action == Action::ForeignAid ==> final(self).players_s()[final(self).active_s() as int].coins_s()
                == old(self).players_s()[final(self).active_s() as int].coins_s() + 2,
            action == Action::Tax ==> final(self).players_s()[final(self).active_s() as int].coins_s() == old(self).players_s()[final(self).active_s() as int].coins_s() + 3,
            action matches Action::Coup(t) ==> final(self).players_s()[final(self).active_s() as int].coins_s()
                == (if old(self).players_s()[final(self).active_s() as int].coins_s() >= 7 {
                old(self).players_s()[final(self).active_s() as int].coins_s() - 7
            } else {
                0int
            }),
            action matches Action::Steal(t) ==> {
                let had = old(self).players_s()[t as int].coins_s() as int;
                let moved = if had >= 2 {
                    2int
                } else {
                    had
                };
                &&& final(self).players_s()[t as int].coins_s() == had - moved
                &&& final(self).players_s()[final(self).active_s() as int].coins_s() == old(self).players_s()[final(self).active_s() as int].coins_s() + moved
            },
            action == Action::Pass ==> final(self).players_s() == old(self).players_s()
                && final(self).killed_s() == old(self).killed_s(),
            action matches Action::Assassinate(t) ==> final(self).players_s()[final(self).active_s() as int].coins_s() == (if old(self).players_s()[final(self).active_s() as int].coins_s() >= 3 {
                old(self).players_s()[final(self).active_s() as int].coins_s() - 3
            } else {
                0int
            }),
            action matches Action::Coup(t) ==> kill_effect(
                old(self).players_s(),
                final(self).players_s(),
                old(self).killed_s(),
                final(self).killed_s(),
                t as int,
            ),
            action matches Action::Assassinate(t) ==> kill_effect(
                old(self).players_s(),
                final(self).players_s(),
                old(self).killed_s(),
                final(self).killed_s(),
                t as int,
            ),
            old(self).killed_s().is_prefix_of(final(self).killed_s()),
            !(action matches Action::Coup(_)) && !(action matches Action::Assassinate(_))
                ==> final(self).killed_s() == old(self).killed_s(),
            final(self).deck_s().len() == old(self).deck_s().len(),
            action != Action::Exchange ==> final(self).deck_s() == old(self).deck_s(),
            forall|j: int|
                0 <= j < final(self).players_s().len() && j != final(self).active_s()
                    && action_target(action) != Some(j as usize) ==> final(self).players_s()[j]
                    == old(self).players_s()[j],
            action != Action::Exchange ==> final(self).players_s()[final(self).active_s() as int].hand_s() == old(self).players_s()[final(self).active_s() as int].hand_s(),
            action == Action::Exchange ==> final(self).killed_s() == old(self).killed_s()
                && real_count(final(self).players_s()[final(self).active_s() as int].hand_s())
                == real_count(old(self).players_s()[final(self).active_s() as int].hand_s())
                && final(self).players_s()[final(self).active_s() as int].coins_s() == old(self).players_s()[final(self).active_s() as int].coins_s(),
            forall|j: int|
                0 <= j < final(self).players_s().len() && action_target(action) != Some(
                    j as usize,
                ) ==> wiped((#[trigger] final(self).players_s()[j]).hand_s()) == wiped(
                    old(self).players_s()[j].hand_s(),
                ),
            forall|j: int|
                0 <= j < final(self).players_s().len() ==> (#[trigger] final(self).players_s()[j]).meta_s() == old(self).players_s()[j].meta_s(),
    {
        proof {
            broadcast use vstd::seq_lib::group_seq_properties;
        }
        let active = self.active_player;
        match action {
            Action::Income => {
                self.players[active].gain_coins(1);
                proof {
                    lemma_sum_real_update(old(self).players@, active as int, self.players@[active as int]);
                }
            },
            Action::ForeignAid => {
                self.players[active].gain_coins(2);
                proof {
                    lemma_sum_real_update(old(self).players@, active as int, self.players@[active as int]);
                }
            },
            Action::Coup(target) => {
                self.players[active].lose_coins(7);
                proof {
                    lemma_sum_real_update(old(self).players@, active as int, self.players@[active as int]);
                }
                // The target loses one influence; the revealed card is
                // placed on the table for everyone to see.
                self.kill_one(target);
            },
            Action::Tax => {
                self.players[active].gain_coins(3);
                proof {
                    lemma_sum_real_update(old(self).players@, active as int, self.players@[active as int]);
                }
            },
            Action::Assassinate(target) => {
                self.players[active].lose_coins(3);
                proof {
                    lemma_sum_real_update(old(self).players@, active as int, self.players@[active as int]);
                }
                self.kill_one(target);
            },
            Action::Exchange => {
                // Draw two cards from the top, let the player keep two
                // slots' worth, and return the rest to the bottom.
                let c0 = self.deck.remove(0);
                let c1 = self.deck.remove(0);
                assert(c0 != Card::Empty && c1 != Card::Empty);
                let mut drawn: Vec<Card> = Vec::new();
                drawn.push(c0);
                drawn.push(c1);
                proof {
                    assert(drawn@ =~= seq![c0, c1]);
                }
                let ghost mid_players = self.players@;
                let ret = self.players[active].exchange(drawn.as_slice());
                proof {
                    lemma_sum_real_update(mid_players, active as int, self.players@[active as int]);
                }
                let ghost after = *self;
                let mut k: usize = 0;
                while k < ret.len()
                    invariant
                        k <= ret@.len(),
                        self.players@ == after.players@,
                        self.killed@ == after.killed@,
                        self.active_player == after.active_player,
                        self.deck@ == after.deck@ + ret@.take(k as int),
                        all_real(after.deck@),
                        forall|q: int| 0 <= q < ret@.len() ==> ret@[q] != Card::Empty,
                    decreases ret@.len() - k,
                {
                    let card = ret[k];
                    self.deck.push(card);
                    proof {
                        assert(self.deck@ =~= after.deck@ + ret@.take(k + 1));
                    }
                    k = k + 1;
                }
                proof {
                    assert(ret@.take(ret@.len() as int) =~= ret@);
                    assert(self.deck@.len() == after.deck@.len() + ret@.len());
                }
            },
            Action::Steal(target) => {
                let stolen = self.players[target].lose_coins(2);
                proof {
                    lemma_sum_real_update(old(self).players@, target as int, self.players@[target as int]);
                }
                let ghost mid = self.players@;
                self.players[active].gain_coins(stolen);
                proof {
                    lemma_sum_real_update(mid, active as int, self.players@[active as int]);
                }
            },
            Action::Pass => (),
        }
    }
}

/// Whether every card of the slice is real.
fn cards_all_real(s: &[Card]) -> (r: bool)
    ensures
        r == all_real(s@),
{
    let mut i: usize = 0;
    while i < s.len()
        invariant
            i <= s@.len(),
            forall|j: int| 0 <= j < i ==> s@[j] != Card::Empty,
        decreases s@.len() - i,
    {
        let c = s[i];
        if c == Card::Empty {
            assert(!all_real(s@));
            return false;
        }
        i = i + 1;
    }
    true
}

/// Deals to one seat of the roster.
fn self_deal<A: Player>(players: &mut Vec<A>, i: usize, c0: Card, c1: Card)
    requires
        i < old(players)@.len(),
    ensures
        final(players)@.len() == old(players)@.len(),
        forall|j: int|
            0 <= j < final(players)@.len() && j != i ==> final(players)@[j] == old(players)@[j],
        final(players)@[i as int].hand_s() == (c0, c1),
        final(players)@[i as int].id_s() == old(players)@[i as int].id_s(),
        final(players)@[i as int].opp_s() == old(players)@[i as int].opp_s(),
        final(players)@[i as int].coins_s() == old(players)@[i as int].coins_s(),
        final(players)@[i as int].ready_s() == old(players)@[i as int].ready_s(),
        final(players)@[i as int].meta_s() == old(players)@[i as int].meta_s(),
{
    players[i].deal([c0, c1]);
}

/// Lets one seat of the roster recompute beliefs.
fn self_compute<A: Player>(players: &mut Vec<A>, i: usize, killed: &[Card])
    requires
        i < old(players)@.len(),
        old(players)@[i as int].opp_s() < usize::MAX,
        forall|q: int| 0 <= q < killed@.len() ==> killed@[q] != Card::Empty,
    ensures
        final(players)@.len() == old(players)@.len(),
        forall|j: int|
            0 <= j < final(players)@.len() && j != i ==> final(players)@[j] == old(players)@[j],
        final(players)@[i as int].ready_s(),
        final(players)@[i as int].beliefs_ok(killed@),
        final(players)@[i as int].hand_s() == old(players)@[i as int].hand_s(),
        final(players)@[i as int].coins_s() == old(players)@[i as int].coins_s(),
        final(players)@[i as int].id_s() == old(players)@[i as int].id_s(),
        final(players)@[i as int].opp_s() == old(players)@[i as int].opp_s(),
        final(players)@[i as int].meta_s() == old(players)@[i as int].meta_s(),
{
    players[i].compute_hands(killed);
}

/// A ledger never shrinks across one bookkeeping phase: the new ledger is
/// the old one, possibly with appends.
proof fn lemma_killed_prefix_grows(pre: Seq<Card>, post: Seq<Card>)
    requires
        pre.len() <= post.len(),
        forall|q: int| 0 <= q < pre.len() ==> post[q] == pre[q],
    ensures
        pre.is_prefix_of(post),
{
    assert(post.subrange(0, pre.len() as int) =~= pre);
}

/// Prefixes compose.
proof fn lemma_prefix_trans(a: Seq<Card>, b: Seq<Card>, c: Seq<Card>)
    requires
        a.is_prefix_of(b),
        b.is_prefix_of(c),
    ensures
        a.is_prefix_of(c),
{
    assert(c.subrange(0, a.len() as int) =~= a);
}

/// Two rosters with identical hands hold identical card totals.
proof fn lemma_sum_unchanged_by_frames<A: Player>(a: Seq<A>, b: Seq<A>)
    requires
        a.len() == b.len(),
        forall|j: int| 0 <= j < a.len() ==> (#[trigger] b[j]).hand_s() == a[j].hand_s(),
    ensures
        sum_real(b) == sum_real(a),
    decreases a.len(),
{
    if a.len() > 0 {
        assert(forall|j: int|
            0 <= j < a.len() - 1 ==> (#[trigger] b.drop_last()[j]).hand_s()
                == a.drop_last()[j].hand_s());
        lemma_sum_unchanged_by_frames(a.drop_last(), b.drop_last());
        assert(b.last().hand_s() == a.last().hand_s());
    }
}

} // verus!
