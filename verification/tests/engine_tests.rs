//! Tests for the turn-resolution engine and the trainer.

use contessa::ActionUtilities;
use contessa::Agent;
use contessa::Card;
use contessa::Engine;
use contessa::EngineError;
use contessa::Player;
use contessa::PlayerMetadata;
use contessa::train_population;

fn utilities(
    income: u64,
    foreignaid: u64,
    coup: u64,
    tax: u64,
    assassinate: u64,
    exchange: u64,
    steal: u64,
) -> ActionUtilities {
    ActionUtilities { income, foreignaid, coup, tax, assassinate, exchange, steal }
}

fn agent(id: usize, liar: i64, lying: i64, u: ActionUtilities) -> Agent {
    Agent::from_metadata(
        id,
        3,
        PlayerMetadata::Computer { lying_cutoff: lying, liar_cutoff: liar, utilities: u },
    )
}

/// A silent bystander: never challenges, never blocks, never bluffs.
fn bystander(id: usize) -> Agent {
    agent(id, 0, 1_000_000, utilities(1, 0, 0, 0, 0, 0, 0))
}

fn real_cards_held(a: &Agent) -> usize {
    if a.is_eliminated() {
        0
    } else if a.check(Card::Empty) {
        1
    } else {
        2
    }
}

fn conserved(engine: &Engine<Agent>) -> bool {
    let held: usize = engine.get_players().iter().map(real_cards_held).sum();
    engine.deck_len() + held + engine.get_killed_cards().len() == 15
}

#[test]
fn engine_rejects_bad_player_counts() {
    let none: Vec<Agent> = Vec::new();
    match Engine::new(none) {
        Err(EngineError::TooFewPlayers) => (),
        _ => panic!("an empty roster must be rejected"),
    }
    let mut seven: Vec<Agent> = Vec::new();
    for i in 0..7 {
        let mut a = Agent::new(i, 6);
        a.set_id(i);
        seven.push(a);
    }
    match Engine::new(seven) {
        Err(EngineError::TooManyPlayers) => (),
        _ => panic!("seven players cannot be served by fifteen cards"),
    }
}

#[test]
fn engine_deals_two_cards_and_conserves_the_deck() {
    let players = vec![
        Agent::new(0, 3),
        Agent::new(1, 3),
        Agent::new(2, 3),
        Agent::new(3, 3),
    ];
    let engine = Engine::new(players).unwrap();
    assert_eq!(engine.get_killed_cards().len(), 0);
    assert_eq!(engine.deck_len(), 7);
    for p in engine.get_players() {
        assert!(!p.is_eliminated());
        assert!(!p.check(Card::Empty));
        assert_eq!(p.get_coins(), 2);
    }
    assert!(conserved(&engine));
}

#[test]
fn scenario_challenge_survives_an_honest_tax_claim() {
    // The active player claims Tax while truly holding a Duke.  The
    // challenger believes the Duke claim with probability 2/13 (about
    // 0.15), below his liar cutoff of 0.30, so he challenges — and loses
    // one influence.  The claimant trades the revealed Duke for a fresh
    // draw and Tax still executes.
    let mut claimant = agent(0, 0, 1_000_000, utilities(1, 2, 0, 900_000, 0, 0, 0));
    claimant.deal([Card::Duke, Card::Contessa]);
    let mut challenger = agent(1, 300_000, 1_000_000, utilities(1, 0, 0, 0, 0, 0, 0));
    challenger.deal([Card::Duke, Card::Duke]);
    let mut by2 = bystander(2);
    by2.deal([Card::Assassin, Card::Assassin]);
    let mut by3 = bystander(3);
    by3.deal([Card::Captain, Card::Captain]);

    let deck = vec![
        Card::Captain,
        Card::Contessa,
        Card::Contessa,
        Card::Ambassador,
        Card::Ambassador,
        Card::Ambassador,
        Card::Assassin,
    ];
    let mut engine =
        Engine::from_parts(deck, vec![claimant, challenger, by2, by3], Vec::new(), 0).unwrap();

    let winner = engine.turn();
    assert!(winner.is_none());

    // The challenger lost one influence: a Duke lies on the table.
    assert_eq!(engine.get_killed_cards().to_vec(), vec![Card::Duke]);
    let players = engine.get_players();
    assert!(players[1].check(Card::Empty));
    assert!(!players[1].is_eliminated());
    // The claimant returned his Duke to the deck and drew the top card.
    assert!(players[0].check(Card::Captain));
    assert!(!players[0].check(Card::Duke));
    // Tax executed: three coins gained.
    assert_eq!(players[0].get_coins(), 5);
    // The turn rotated and nothing leaked out of the fifteen cards.
    assert_eq!(engine.get_active_player(), 1);
    assert!(conserved(&engine));
}

#[test]
fn scenario_failed_bluff_is_prevented() {
    // The active player claims Tax without a Duke; the challenge exposes
    // him, he loses one influence and gains nothing.
    let mut bluffer = agent(0, 0, 0, utilities(1, 0, 0, 900_000, 0, 0, 0));
    bluffer.deal([Card::Contessa, Card::Empty]);
    let mut challenger = agent(1, 900_000, 1_000_000, utilities(1, 0, 0, 0, 0, 0, 0));
    challenger.deal([Card::Duke, Card::Duke]);
    let mut by2 = bystander(2);
    by2.deal([Card::Assassin, Card::Assassin]);
    let mut by3 = bystander(3);
    by3.deal([Card::Captain, Card::Captain]);

    let deck = vec![
        Card::Captain,
        Card::Contessa,
        Card::Contessa,
        Card::Ambassador,
        Card::Ambassador,
        Card::Ambassador,
        Card::Assassin,
    ];
    let killed = vec![Card::Duke];
    let mut engine =
        Engine::from_parts(deck, vec![bluffer, challenger, by2, by3], killed, 0).unwrap();

    let winner = engine.turn();
    assert!(winner.is_none());

    let players = engine.get_players();
    // The bluffer lost his last influence and gained no coins.
    assert!(players[0].is_eliminated());
    assert_eq!(players[0].get_coins(), 2);
    assert_eq!(engine.get_killed_cards().to_vec(), vec![Card::Duke, Card::Contessa]);
    assert!(conserved(&engine));
}

#[test]
fn scenario_coup_is_unchallengeable() {
    // The active player holds exactly seven coins and Coups: the coins
    // drop to zero, the target unconditionally loses one influence, and no
    // challenge or block phase runs.
    let mut active = agent(0, 0, 1_000_000, utilities(1, 2, 900_000, 0, 0, 0, 0));
    active.deal([Card::Contessa, Card::Contessa]);
    active.gain_coins(5);
    assert_eq!(active.get_coins(), 7);
    // The target would love to block or challenge anything — but Coup
    // admits neither.
    let mut target = agent(1, 1_000_000, 0, utilities(1, 0, 0, 0, 0, 0, 0));
    target.deal([Card::Duke, Card::Empty]);
    let mut by2 = agent(2, 1_000_000, 0, utilities(1, 0, 0, 0, 0, 0, 0));
    by2.deal([Card::Captain, Card::Captain]);
    let mut by3 = agent(3, 1_000_000, 0, utilities(1, 0, 0, 0, 0, 0, 0));
    by3.deal([Card::Assassin, Card::Assassin]);

    let deck = vec![
        Card::Duke,
        Card::Ambassador,
        Card::Ambassador,
        Card::Ambassador,
        Card::Assassin,
        Card::Captain,
        Card::Contessa,
    ];
    let killed = vec![Card::Duke];
    let mut engine =
        Engine::from_parts(deck, vec![active, target, by2, by3], killed, 0).unwrap();

    let winner = engine.turn();
    assert!(winner.is_none());

    let players = engine.get_players();
    assert_eq!(players[0].get_coins(), 0);
    assert!(players[1].is_eliminated());
    assert_eq!(engine.get_killed_cards().to_vec(), vec![Card::Duke, Card::Duke]);
    // The deck was never touched: no challenge, no block, no draw.
    assert_eq!(engine.deck_len(), 7);
    assert!(conserved(&engine));
}

#[test]
fn scenario_steal_moves_at_most_two_coins() {
    // The target owns a single coin, so Steal moves exactly one.
    let mut thief = agent(0, 1_000_000, 1_000_000, utilities(1, 0, 0, 0, 0, 0, 900_000));
    thief.deal([Card::Captain, Card::Captain]);
    let mut target = agent(1, 0, 1_000_000, utilities(1, 0, 0, 0, 0, 0, 0));
    target.deal([Card::Duke, Card::Duke]);
    target.lose_coins(1);
    assert_eq!(target.get_coins(), 1);
    let mut by2 = bystander(2);
    by2.deal([Card::Assassin, Card::Assassin]);
    let mut by3 = bystander(3);
    by3.deal([Card::Contessa, Card::Contessa]);

    let deck = vec![
        Card::Duke,
        Card::Captain,
        Card::Ambassador,
        Card::Ambassador,
        Card::Ambassador,
        Card::Assassin,
        Card::Contessa,
    ];
    let mut engine =
        Engine::from_parts(deck, vec![thief, target, by2, by3], Vec::new(), 0).unwrap();

    let winner = engine.turn();
    assert!(winner.is_none());

    let players = engine.get_players();
    assert_eq!(players[0].get_coins(), 3);
    assert_eq!(players[1].get_coins(), 0);
    assert!(conserved(&engine));
}

#[test]
fn scenario_foreign_aid_block_stands_unchallenged() {
    // Three players.  The active player holds two Dukes and a third lies
    // on the table, so he knows nobody else holds one: ForeignAid looks
    // safe.  The blocker claims Duke anyway; with every liar cutoff at
    // zero nobody counter-challenges, the block stands, and no coins move.
    let mut active = Agent::from_metadata(0, 2, PlayerMetadata::Computer {
        lying_cutoff: 1_000_000,
        liar_cutoff: 0,
        utilities: utilities(1, 900_000, 0, 0, 0, 0, 0),
    });
    active.deal([Card::Duke, Card::Duke]);
    let mut blocker = Agent::from_metadata(1, 2, PlayerMetadata::Computer {
        lying_cutoff: 0,
        liar_cutoff: 0,
        utilities: utilities(1, 0, 0, 0, 0, 0, 0),
    });
    blocker.deal([Card::Captain, Card::Captain]);
    let mut by2 = Agent::from_metadata(2, 2, PlayerMetadata::Computer {
        lying_cutoff: 1_000_000,
        liar_cutoff: 0,
        utilities: utilities(1, 0, 0, 0, 0, 0, 0),
    });
    by2.deal([Card::Contessa, Card::Empty]);

    let deck = vec![
        Card::Captain,
        Card::Ambassador,
        Card::Ambassador,
        Card::Ambassador,
        Card::Assassin,
        Card::Assassin,
        Card::Assassin,
        Card::Contessa,
        Card::Contessa,
    ];
    let killed = vec![Card::Duke];
    let mut engine =
        Engine::from_parts(deck, vec![active, blocker, by2], killed, 0).unwrap();

    let winner = engine.turn();
    assert!(winner.is_none());

    let players = engine.get_players();
    // The unchallenged block stood: no coins were gained, nobody was hurt.
    assert_eq!(players[0].get_coins(), 2);
    assert!(!players[1].check(Card::Empty));
    assert_eq!(engine.get_killed_cards().to_vec(), vec![Card::Duke]);
    assert!(conserved(&engine));
}

#[test]
fn scenario_foreign_aid_block_collapses_under_counter_challenge() {
    // The same position, but the active player's liar cutoff is one half:
    // he knows no Duke is out there, counter-challenges the block, the
    // blocker cannot show a Duke and loses one influence, and ForeignAid
    // executes after all.
    let mut active = Agent::from_metadata(0, 2, PlayerMetadata::Computer {
        lying_cutoff: 1_000_000,
        liar_cutoff: 500_000,
        utilities: utilities(1, 900_000, 0, 0, 0, 0, 0),
    });
    active.deal([Card::Duke, Card::Duke]);
    let mut blocker = Agent::from_metadata(1, 2, PlayerMetadata::Computer {
        lying_cutoff: 0,
        liar_cutoff: 0,
        utilities: utilities(1, 0, 0, 0, 0, 0, 0),
    });
    blocker.deal([Card::Captain, Card::Captain]);
    let mut by2 = Agent::from_metadata(2, 2, PlayerMetadata::Computer {
        lying_cutoff: 1_000_000,
        liar_cutoff: 0,
        utilities: utilities(1, 0, 0, 0, 0, 0, 0),
    });
    by2.deal([Card::Contessa, Card::Empty]);

    let deck = vec![
        Card::Captain,
        Card::Ambassador,
        Card::Ambassador,
        Card::Ambassador,
        Card::Assassin,
        Card::Assassin,
        Card::Assassin,
        Card::Contessa,
        Card::Contessa,
    ];
    let killed = vec![Card::Duke];
    let mut engine =
        Engine::from_parts(deck, vec![active, blocker, by2], killed, 0).unwrap();

    let winner = engine.turn();
    assert!(winner.is_none());

    let players = engine.get_players();
    // The lying blocker lost one influence and ForeignAid went through.
    assert_eq!(players[0].get_coins(), 4);
    assert!(players[1].check(Card::Empty));
    assert!(!players[1].is_eliminated());
    assert_eq!(engine.get_killed_cards().to_vec(), vec![Card::Duke, Card::Captain]);
    assert!(conserved(&engine));
}

#[test]
fn turn_signals_the_sole_survivor() {
    // Seat one is already eliminated; the first turn declares seat zero
    // the winner.
    let mut p0 = Agent::from_metadata(0, 1, PlayerMetadata::Computer {
        lying_cutoff: 1_000_000,
        liar_cutoff: 0,
        utilities: utilities(1, 0, 0, 0, 0, 0, 0),
    });
    p0.deal([Card::Duke, Card::Duke]);
    let mut p1 = Agent::from_metadata(1, 1, PlayerMetadata::Computer {
        lying_cutoff: 1_000_000,
        liar_cutoff: 0,
        utilities: utilities(1, 0, 0, 0, 0, 0, 0),
    });
    p1.deal([Card::Empty, Card::Empty]);

    let deck = vec![
        Card::Duke,
        Card::Captain,
        Card::Ambassador,
        Card::Ambassador,
        Card::Ambassador,
        Card::Assassin,
        Card::Assassin,
        Card::Assassin,
        Card::Contessa,
        Card::Contessa,
        Card::Contessa,
    ];
    let killed = vec![Card::Captain, Card::Captain];
    let mut engine = Engine::from_parts(deck, vec![p0, p1], killed, 0).unwrap();

    assert_eq!(engine.turn(), Some(0));
}

#[test]
fn capped_game_defaults_to_player_zero() {
    // Both players are already eliminated, so no turn ever finds a sole
    // survivor: the game runs to the thousand-turn cap and player zero
    // wins by default.
    let meta0 = PlayerMetadata::Computer {
        lying_cutoff: 111,
        liar_cutoff: 222,
        utilities: utilities(1, 2, 3, 4, 5, 6, 7),
    };
    let mut p0 = Agent::from_metadata(0, 1, meta0);
    p0.deal([Card::Empty, Card::Empty]);
    let mut p1 = Agent::from_metadata(1, 1, PlayerMetadata::Computer {
        lying_cutoff: 333,
        liar_cutoff: 444,
        utilities: utilities(7, 6, 5, 4, 3, 2, 1),
    });
    p1.deal([Card::Empty, Card::Empty]);

    let deck = vec![
        Card::Duke,
        Card::Ambassador,
        Card::Ambassador,
        Card::Ambassador,
        Card::Assassin,
        Card::Assassin,
        Card::Assassin,
        Card::Contessa,
        Card::Contessa,
        Card::Contessa,
        Card::Captain,
    ];
    let killed = vec![Card::Duke, Card::Duke, Card::Captain, Card::Captain];
    let mut engine = Engine::from_parts(deck, vec![p0, p1], killed, 0).unwrap();

    let winner = engine.play();
    assert_eq!(winner, meta0);
}

#[test]
fn play_returns_a_winner_for_a_full_game() {
    let players = vec![
        Agent::new(0, 3),
        Agent::new(1, 3),
        Agent::new(2, 3),
        Agent::new(3, 3),
    ];
    let mut engine = Engine::new(players).unwrap();
    let winner = engine.play();
    assert!(matches!(winner, PlayerMetadata::Computer { .. }));
    assert!(conserved(&engine));
}

#[test]
fn from_parts_rejects_inconsistent_states() {
    // A missing card: hands and ledger cover seven cards, the deck eight.
    let mut p0 = bystander(0);
    p0.deal([Card::Duke, Card::Duke]);
    let mut p1 = bystander(1);
    p1.deal([Card::Captain, Card::Captain]);
    let mut p2 = bystander(2);
    p2.deal([Card::Assassin, Card::Assassin]);
    let mut p3 = bystander(3);
    p3.deal([Card::Contessa, Card::Contessa]);
    let short_deck = vec![Card::Ambassador; 6];
    match Engine::from_parts(short_deck, vec![p0, p1, p2, p3], Vec::new(), 0) {
        Err(EngineError::InvalidParts) => (),
        _ => panic!("a short deck must be rejected"),
    }
}

#[test]
fn training_returns_one_survivor_per_lineage() {
    let winners = train_population(3, 2);
    assert_eq!(winners.len(), 3);
    for w in &winners {
        assert!(matches!(w.get_metadata(), PlayerMetadata::Computer { .. }));
        // Survivors are cleared and reseated before they breed on.
        assert!(w.is_eliminated());
        assert_eq!(w.get_coins(), 2);
    }
}

#[test]
fn scenario_exchange_cycles_two_cards_through_the_deck() {
    // The active player exchanges: two cards are drawn from the top and,
    // under the baseline retention policy, the same two return to the
    // bottom.  The hand, the purse and the ledger are untouched.
    let mut trader = agent(0, 0, 1_000_000, utilities(1, 0, 0, 0, 0, 900_000, 0));
    trader.deal([Card::Ambassador, Card::Ambassador]);
    let mut by1 = bystander(1);
    by1.deal([Card::Duke, Card::Duke]);
    let mut by2 = bystander(2);
    by2.deal([Card::Captain, Card::Captain]);
    let mut by3 = bystander(3);
    by3.deal([Card::Assassin, Card::Assassin]);

    let deck = vec![
        Card::Contessa,
        Card::Contessa,
        Card::Contessa,
        Card::Duke,
        Card::Captain,
        Card::Assassin,
        Card::Ambassador,
    ];
    let mut engine =
        Engine::from_parts(deck, vec![trader, by1, by2, by3], Vec::new(), 0).unwrap();

    assert!(engine.turn().is_none());
    let players = engine.get_players();
    assert!(players[0].check(Card::Ambassador));
    assert!(!players[0].check(Card::Empty));
    assert_eq!(players[0].get_coins(), 2);
    assert_eq!(engine.deck_len(), 7);
    assert_eq!(engine.get_killed_cards().len(), 0);
    assert!(conserved(&engine));
}

#[test]
fn turn_ends_the_game_when_the_last_rival_falls() {
    // Two players.  The active player Coups his rival's last influence:
    // the very same turn signals the win.
    let mut active = Agent::from_metadata(0, 1, PlayerMetadata::Computer {
        lying_cutoff: 1_000_000,
        liar_cutoff: 0,
        utilities: utilities(1, 0, 900_000, 0, 0, 0, 0),
    });
    active.deal([Card::Contessa, Card::Contessa]);
    active.gain_coins(5);
    let mut rival = Agent::from_metadata(1, 1, PlayerMetadata::Computer {
        lying_cutoff: 1_000_000,
        liar_cutoff: 0,
        utilities: utilities(1, 0, 0, 0, 0, 0, 0),
    });
    rival.deal([Card::Duke, Card::Empty]);

    let deck = vec![
        Card::Duke,
        Card::Duke,
        Card::Captain,
        Card::Captain,
        Card::Ambassador,
        Card::Ambassador,
        Card::Ambassador,
        Card::Assassin,
        Card::Assassin,
        Card::Assassin,
        Card::Contessa,
    ];
    let killed = vec![Card::Captain];
    let mut engine = Engine::from_parts(deck, vec![active, rival], killed, 0).unwrap();

    assert_eq!(engine.turn(), Some(0));
    let players = engine.get_players();
    assert_eq!(players[0].get_coins(), 0);
    assert!(players[1].is_eliminated());
    assert!(conserved(&engine));
}
