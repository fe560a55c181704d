//! The evolutionary trainer.
//!
//! Strategy parameters improve by mutate-and-select self-play: the first
//! generation pits freshly randomized four-seat games against each other;
//! every later generation reseats each surviving lineage at seat zero
//! against three independently mutated copies of itself, and keeps the
//! winner.  Lineages never share state, and every winner is cleared and
//! reseated before it breeds.

use vstd::prelude::*;

use crate::agent::Agent;
use crate::agent::lemma_agent_meta_shape;
use crate::engine::Engine;
use crate::player::Player;
use crate::player::PlayerMetadata;

verus! {

/// The number of seats in every training game: one lineage carrier and
/// three sparring copies.
pub const SEATS: usize = 4;

/// Runs one four-seat game and returns the winner's parameters, cleared
/// and reseated to seat zero.
fn run_game(p0: Agent, p1: Agent, p2: Agent, p3: Agent) -> (winner: Agent)
    requires
        p0.id_s() == 0 && p1.id_s() == 1 && p2.id_s() == 2 && p3.id_s() == 3,
        p0.opp_s() == 3 && p1.opp_s() == 3 && p2.opp_s() == 3 && p3.opp_s() == 3,
    ensures
        winner.id_s() == 0,
        winner.opp_s() == 3,
        winner.hand_s() == (crate::Card::Empty, crate::Card::Empty),
        winner.coins_s() == 2,
        winner.meta_s() == p0.meta_s() || winner.meta_s() == p1.meta_s() || winner.meta_s()
            == p2.meta_s() || winner.meta_s() == p3.meta_s(),
{
    let mut players: Vec<Agent> = Vec::new();
    players.push(p0);
    players.push(p1);
    players.push(p2);
    players.push(p3);
    proof {
        assert(players@.len() == 4);
        assert(players@[0].id_s() == 0 && players@[1].id_s() == 1 && players@[2].id_s() == 2
            && players@[3].id_s() == 3);
        assert(forall|i: int| 0 <= i < players@.len() ==> (#[trigger] players@[i]).id_s() == i);
        assert(forall|i: int|
            0 <= i < players@.len() ==> (#[trigger] players@[i]).opp_s() + 1 == players@.len());
    }
    let ghost roster = players@;
    match Engine::new(players) {
        Ok(mut engine) => {
            let ghost entry = engine;
            let meta = engine.play();
            proof {
                let i = choose|i: int|
                    0 <= i < entry.players_s().len() && meta == (
                    #[trigger] entry.players_s()[i]).meta_s();
                lemma_agent_meta_shape(entry.players_s()[i]);
                assert(entry.players_s()[i].meta_s() == roster[i].meta_s());
            }
            Agent::from_metadata(0, 3, meta)
        },
        Err(_) => {
            // Four players always fit the fifteen-card deck.
            proof {
                assert(false);
            }
            Agent::new(0, 3)
        },
    }
}

/// Trains `population` independent lineages for the given number of
/// generations and returns the evolved survivors, each reseated to seat
/// zero with per-game state cleared.
pub fn train_population(population: usize, generations: usize) -> (winners: Vec<Agent>)
    ensures
        winners@.len() == population,
        forall|i: int|
            0 <= i < winners@.len() ==> (#[trigger] winners@[i]).id_s() == 0 && winners@[i].opp_s()
                == 3,
{
    // First generation: every game starts from four independently
    // randomized strategy parameter sets.
    let mut winners: Vec<Agent> = Vec::new();
    let mut i: usize = 0;
    while i < population
        invariant
            i <= population,
            winners@.len() == i,
            forall|k: int|
                0 <= k < winners@.len() ==> (#[trigger] winners@[k]).id_s() == 0
                    && winners@[k].opp_s() == 3,
        decreases population - i,
    {
        let winner = run_game(
            Agent::new(0, 3),
            Agent::new(1, 3),
            Agent::new(2, 3),
            Agent::new(3, 3),
        );
        winners.push(winner);
        i = i + 1;
    }

    // Following generations: each lineage survivor plays seat zero against
    // three mutated copies of itself; the winner carries the lineage on.
    let mut gen: usize = 1;
    while gen < generations
        invariant
            winners@.len() == population,
            forall|k: int|
                0 <= k < winners@.len() ==> (#[trigger] winners@[k]).id_s() == 0
                    && winners@[k].opp_s() == 3,
        decreases generations - gen,
    {
        let mut new_winners: Vec<Agent> = Vec::new();
        let mut k: usize = 0;
        while k < population
            invariant
                k <= population,
                winners@.len() == population,
                new_winners@.len() == k,
                forall|q: int|
                    0 <= q < winners@.len() ==> (#[trigger] winners@[q]).id_s() == 0
                        && winners@[q].opp_s() == 3,
                forall|q: int|
                    0 <= q < new_winners@.len() ==> (#[trigger] new_winners@[q]).id_s() == 0
                        && new_winners@[q].opp_s() == 3,
            decreases population - k,
        {
            let meta = winners[k].get_metadata();
            proof {
                lemma_agent_meta_shape(winners@[k as int]);
            }
            let carrier = Agent::from_metadata(0, 3, meta);
            let m1 = carrier.mutate().with_id(1);
            let m2 = carrier.mutate().with_id(2);
            let m3 = carrier.mutate().with_id(3);
            let winner = run_game(carrier, m1, m2, m3);
            new_winners.push(winner);
            k = k + 1;
        }
        winners = new_winners;
        gen = gen + 1;
    }
    winners
}

/// Trains the default population of a thousand lineages.
pub fn train(generations: usize) -> (winners: Vec<Agent>)
    ensures
        winners@.len() == 1000,
        forall|i: int|
            0 <= i < winners@.len() ==> (#[trigger] winners@[i]).id_s() == 0 && winners@[i].opp_s()
                == 3,
{
    train_population(1000, generations)
}

} // verus!
