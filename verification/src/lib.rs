//! A verified engine for a hidden-information bluffing card game.
//!
//! Five character types, three copies each, form a fifteen-card deck.  Each
//! player holds two hidden cards, claims cards to perform actions, and may be
//! challenged or blocked.  The crate provides the turn-resolution engine, the
//! belief-driven automated agent, and the evolutionary trainer.

use vstd::prelude::*;

pub mod prob;
pub mod belief;
pub mod player;
pub mod agent;
pub mod human;
pub mod engine;
pub mod table;
pub mod train;
mod rng;

pub use prob::Prob;
pub use belief::PerceivedHand;
pub use player::Player;
pub use player::PlayerMetadata;
pub use player::ActionUtilities;
pub use agent::Agent;
pub use human::Human;
pub use engine::Engine;
pub use engine::EngineError;
pub use table::Oracle;
pub use table::Interactive;
pub use table::Table;
pub use train::train;
pub use train::train_population;

verus! {

/// Enumerates the cards available in the game.
///
/// `Empty` is the sentinel for "no card here": a hand slot whose influence
/// has been lost.
#[derive(PartialEq, Eq, Structural, Copy, Clone, Debug, Hash)]
pub enum Card {
    Duke,
    Captain,
    Ambassador,
    Assassin,
    Contessa,
    Empty,
}

/// Enumerates the actions available in the game.
#[derive(PartialEq, Eq, Structural, Copy, Clone, Debug)]
pub enum Action {
    Income,
    ForeignAid,
    /// When a player chooses to `Coup`, he must choose a target.
    Coup(usize),
    Tax,
    /// When a player chooses to `Assassinate`, he must choose a target.
    Assassinate(usize),
    Exchange,
    /// When a player chooses to `Steal`, he must choose a target.
    Steal(usize),
    /// A player only `Pass`es if he has been eliminated (has zero influence).
    Pass,
}

/// How many real (non-sentinel) cards a two-slot hand holds.
pub open spec fn real_count(hand: (Card, Card)) -> int {
    (if hand.0 == Card::Empty { 0int } else { 1int })
        + (if hand.1 == Card::Empty { 0int } else { 1int })
}

/// A hand with both slots empty: the player has been eliminated.
pub open spec fn wiped(hand: (Card, Card)) -> bool {
    hand.0 == Card::Empty && hand.1 == Card::Empty
}

/// Whether a two-slot hand contains the given card.
pub open spec fn hand_has(hand: (Card, Card), card: Card) -> bool {
    hand.0 == card || hand.1 == card
}

/// The card an action claims: the active player asserts he holds it.
/// Income, ForeignAid, Coup and Pass carry no claim and cannot be challenged.
pub open spec fn claimed_card(action: Action) -> Card {
    match action {
        Action::Tax => Card::Duke,
        Action::Assassinate(_) => Card::Assassin,
        Action::Exchange => Card::Ambassador,
        Action::Steal(_) => Card::Captain,
        _ => Card::Empty,
    }
}

/// The target of an action, if it has one.
pub open spec fn action_target(action: Action) -> Option<usize> {
    match action {
        Action::Coup(t) => Some(t),
        Action::Assassinate(t) => Some(t),
        Action::Steal(t) => Some(t),
        _ => None::<usize>,
    }
}

/// Only ForeignAid, Assassinate and Steal admit a blocking counter-claim.
pub open spec fn blockable(action: Action) -> bool {
    match action {
        Action::ForeignAid => true,
        Action::Assassinate(_) => true,
        Action::Steal(_) => true,
        _ => false,
    }
}

/// Actions that add coins to the active player's purse.
pub open spec fn gainful(action: Action) -> bool {
    match action {
        Action::Income => true,
        Action::ForeignAid => true,
        Action::Tax => true,
        Action::Steal(_) => true,
        _ => false,
    }
}

/// What a well-behaved `select_action` returns, given the selector's seat,
/// opponent count, coins and elimination status:
/// - an eliminated player only passes;
/// - every target is another, existing seat;
/// - with ten or more coins only Coup (or, lacking targets, Pass) is taken;
/// - coin-gaining actions are only taken below ten coins, so coins stay small;
/// - Coup is only taken with at least seven coins;
/// - Assassinate is only taken with at least three coins.
pub open spec fn selection_ok(
    action: Action,
    id: usize,
    opponents: usize,
    coins: u8,
    eliminated: bool,
) -> bool {
    &&& (eliminated ==> action == Action::Pass)
    &&& (match action_target(action) {
        Some(t) => t != id && t <= opponents,
        None => true,
    })
    &&& (coins >= 10 ==> (action matches Action::Coup(_) || action == Action::Pass))
    &&& (gainful(action) ==> coins <= 9)
    &&& (action matches Action::Coup(_) ==> coins >= 7)
    &&& (action matches Action::Assassinate(_) ==> coins >= 3)
}

/// The exec mirror of `claimed_card`.
pub fn claim_of(action: Action) -> (c: Card)
    ensures
        c == claimed_card(action),
{
    match action {
        Action::Tax => Card::Duke,
        Action::Assassinate(_) => Card::Assassin,
        Action::Exchange => Card::Ambassador,
        Action::Steal(_) => Card::Captain,
        _ => Card::Empty,
    }
}

} // verus!
