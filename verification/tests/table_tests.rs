//! Tests for mixed tables: a scripted front-end seat beside computers.

use contessa::Action;
use contessa::ActionUtilities;
use contessa::Agent;
use contessa::Card;
use contessa::Engine;
use contessa::Interactive;
use contessa::Oracle;
use contessa::Player;
use contessa::PlayerMetadata;
use contessa::Table;

/// A front-end with all its answers fixed in advance.
struct Script {
    action_index: usize,
    challenge: bool,
    block: bool,
    keep: (usize, usize),
}

impl Oracle for Script {
    fn pick_action(&self, _menu: &Vec<Action>) -> usize {
        self.action_index
    }

    fn ask_challenge(&self, _claimant: usize, _card: Card) -> bool {
        self.challenge
    }

    fn ask_block(&self, _action: Action) -> bool {
        self.block
    }

    fn block_steal_with_captain(&self) -> bool {
        true
    }

    fn exchange_keep(&self, _options: &Vec<Card>) -> (usize, usize) {
        self.keep
    }

    fn discard_second(&self, _first: Card, _second: Card) -> bool {
        false
    }

    fn show_hand(&self, _first: Card, _second: Card) {}

    fn show_replace(&self, _discarded: Card, _drawn: Card) {}

    fn show_coins_gained(&self, _coins: u8) {}

    fn show_coins_lost(&self, _coins: u8) {}
}

fn quiet_agent(id: usize, opponents: usize, liar: i64) -> Agent {
    Agent::from_metadata(
        id,
        opponents,
        PlayerMetadata::Computer {
            lying_cutoff: 1_000_000,
            liar_cutoff: liar,
            utilities: ActionUtilities {
                income: 1,
                foreignaid: 0,
                coup: 0,
                tax: 0,
                assassinate: 0,
                exchange: 0,
                steal: 0,
            },
        },
    )
}

fn two_seat_deck() -> Vec<Card> {
    vec![
        Card::Duke,
        Card::Duke,
        Card::Captain,
        Card::Ambassador,
        Card::Ambassador,
        Card::Ambassador,
        Card::Assassin,
        Card::Assassin,
        Card::Assassin,
        Card::Contessa,
        Card::Contessa,
    ]
}

#[test]
fn scripted_person_takes_tax_from_the_menu() {
    // The interactive menu at two coins reads: Income, ForeignAid, Tax,
    // Steal(1), Exchange.  The script picks index 2 — Tax — and the quiet
    // computer does not challenge, so three coins arrive.
    let mut person: Interactive<Script> =
        Interactive::new(0, 1, Script { action_index: 2, challenge: false, block: false, keep: (0, 1) });
    person.deal([Card::Duke, Card::Contessa]);
    let mut computer = quiet_agent(1, 1, 0);
    computer.deal([Card::Captain, Card::Captain]);

    let players = vec![Table::Person(person), Table::Auto(computer)];
    let mut engine = Engine::from_parts(two_seat_deck(), players, Vec::new(), 0).unwrap();

    assert!(engine.turn().is_none());
    assert_eq!(engine.get_players()[0].get_coins(), 5);
}

#[test]
fn scripted_person_survives_a_challenge() {
    // The person claims Tax while truly holding a Duke; the suspicious
    // computer challenges, loses one influence, and the person trades the
    // revealed Duke for the top of the deck.
    let mut person: Interactive<Script> =
        Interactive::new(0, 1, Script { action_index: 2, challenge: false, block: false, keep: (0, 1) });
    person.deal([Card::Duke, Card::Contessa]);
    let mut computer = quiet_agent(1, 1, 1_000_000);
    computer.deal([Card::Captain, Card::Captain]);

    let players = vec![Table::Person(person), Table::Auto(computer)];
    let mut engine = Engine::from_parts(two_seat_deck(), players, Vec::new(), 0).unwrap();

    assert!(engine.turn().is_none());
    let players = engine.get_players();
    // The computer lost a Captain; the person drew the deck's top Duke and
    // still collected Tax.
    assert_eq!(engine.get_killed_cards().to_vec(), vec![Card::Captain]);
    assert!(players[1].check(Card::Empty));
    assert!(players[0].check(Card::Duke));
    assert_eq!(players[0].get_coins(), 5);
}

#[test]
fn out_of_range_menu_pick_falls_back_to_pass() {
    let mut person: Interactive<Script> =
        Interactive::new(0, 1, Script { action_index: 99, challenge: false, block: false, keep: (0, 1) });
    person.deal([Card::Duke, Card::Contessa]);
    let mut computer = quiet_agent(1, 1, 0);
    computer.deal([Card::Captain, Card::Captain]);

    let players = vec![Table::Person(person), Table::Auto(computer)];
    let mut engine = Engine::from_parts(two_seat_deck(), players, Vec::new(), 0).unwrap();

    assert!(engine.turn().is_none());
    // Pass moved no coins and touched nobody.
    assert_eq!(engine.get_players()[0].get_coins(), 2);
    assert_eq!(engine.get_killed_cards().len(), 0);
}

#[test]
fn scripted_person_blocks_foreign_aid() {
    // The computer takes ForeignAid on its turn; the scripted person
    // blocks claiming Duke.  The computer holds the two remaining Dukes
    // itself (the third is on the table), so it knows the block is a lie —
    // but with a liar cutoff of zero it never challenges, the block
    // stands, and the computer gains nothing.
    let mut person: Interactive<Script> =
        Interactive::new(0, 2, Script { action_index: 0, challenge: false, block: true, keep: (0, 1) });
    person.deal([Card::Captain, Card::Contessa]);
    let mut active = Agent::from_metadata(
        1,
        2,
        PlayerMetadata::Computer {
            lying_cutoff: 1_000_000,
            liar_cutoff: 0,
            utilities: ActionUtilities {
                income: 1,
                foreignaid: 900_000,
                coup: 0,
                tax: 0,
                assassinate: 0,
                exchange: 0,
                steal: 0,
            },
        },
    );
    active.deal([Card::Duke, Card::Duke]);
    let mut bystander = quiet_agent(2, 2, 0);
    bystander.deal([Card::Assassin, Card::Empty]);

    let deck = vec![
        Card::Captain,
        Card::Captain,
        Card::Ambassador,
        Card::Ambassador,
        Card::Ambassador,
        Card::Assassin,
        Card::Assassin,
        Card::Contessa,
        Card::Contessa,
    ];
    let killed = vec![Card::Duke];
    let players = vec![Table::Person(person), Table::Auto(active), Table::Auto(bystander)];
    let mut engine = Engine::from_parts(deck, players, killed, 1).unwrap();

    assert!(engine.turn().is_none());
    assert_eq!(engine.get_players()[1].get_coins(), 2);
    assert_eq!(engine.get_killed_cards().to_vec(), vec![Card::Duke]);
}

#[test]
fn scripted_person_exchanges_and_keeps_the_drawn_cards() {
    // The person exchanges (menu index 4) and keeps the two drawn cards;
    // his old hand goes back to the bottom of the deck.
    let mut person: Interactive<Script> =
        Interactive::new(0, 1, Script { action_index: 4, challenge: false, block: false, keep: (2, 3) });
    person.deal([Card::Duke, Card::Contessa]);
    let mut computer = quiet_agent(1, 1, 0);
    computer.deal([Card::Captain, Card::Captain]);

    // The deck's top two cards are an Assassin and an Ambassador.
    let deck = vec![
        Card::Assassin,
        Card::Ambassador,
        Card::Duke,
        Card::Duke,
        Card::Captain,
        Card::Ambassador,
        Card::Ambassador,
        Card::Assassin,
        Card::Assassin,
        Card::Contessa,
        Card::Contessa,
    ];
    let players = vec![Table::Person(person), Table::Auto(computer)];
    let mut engine = Engine::from_parts(deck, players, Vec::new(), 0).unwrap();

    assert!(engine.turn().is_none());
    let players = engine.get_players();
    assert!(players[0].check(Card::Assassin));
    assert!(players[0].check(Card::Ambassador));
    assert!(!players[0].check(Card::Duke));
    assert_eq!(engine.deck_len(), 11);
}

#[test]
fn invalid_exchange_choice_keeps_the_current_hand() {
    // A choice that tries to keep the same entry twice is rejected: the
    // person keeps his hand and the drawn cards go back.
    let mut person: Interactive<Script> =
        Interactive::new(0, 1, Script { action_index: 4, challenge: false, block: false, keep: (2, 2) });
    person.deal([Card::Duke, Card::Contessa]);
    let mut computer = quiet_agent(1, 1, 0);
    computer.deal([Card::Captain, Card::Captain]);

    let deck = vec![
        Card::Assassin,
        Card::Ambassador,
        Card::Duke,
        Card::Duke,
        Card::Captain,
        Card::Ambassador,
        Card::Ambassador,
        Card::Assassin,
        Card::Assassin,
        Card::Contessa,
        Card::Contessa,
    ];
    let players = vec![Table::Person(person), Table::Auto(computer)];
    let mut engine = Engine::from_parts(deck, players, Vec::new(), 0).unwrap();

    assert!(engine.turn().is_none());
    let players = engine.get_players();
    assert!(players[0].check(Card::Duke));
    assert!(players[0].check(Card::Contessa));
    assert_eq!(engine.deck_len(), 11);
}
