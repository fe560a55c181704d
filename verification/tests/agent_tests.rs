//! Tests for the automated player's bookkeeping and decision policy.

use contessa::Action;
use contessa::ActionUtilities;
use contessa::Agent;
use contessa::Card;
use contessa::Player;
use contessa::PlayerMetadata;

fn utilities(
    income: u64,
    foreignaid: u64,
    coup: u64,
    tax: u64,
    assassinate: u64,
    exchange: u64,
    steal: u64,
) -> ActionUtilities {
    ActionUtilities { income, foreignaid, coup, tax, assassinate, exchange, steal }
}

fn agent(id: usize, liar: i64, lying: i64, u: ActionUtilities) -> Agent {
    Agent::from_metadata(
        id,
        3,
        PlayerMetadata::Computer { lying_cutoff: lying, liar_cutoff: liar, utilities: u },
    )
}

#[test]
fn fresh_agent_is_eliminated_until_dealt() {
    let mut a = agent(0, 0, 1_000_000, utilities(1, 1, 1, 1, 1, 1, 1));
    a.compute_hands(&[]);
    assert!(a.is_eliminated());
    assert_eq!(a.get_available_actions(&[]), vec![Action::Pass]);
    assert_eq!(a.select_action(&[]), Action::Pass);
}

#[test]
fn safe_actions_follow_the_hand() {
    let mut a = agent(0, 0, 1_000_000, utilities(1, 1, 1, 1, 1, 1, 1));
    a.deal([Card::Duke, Card::Contessa]);
    a.compute_hands(&[]);
    // Two coins, a Duke and a Contessa, no bluffing (the lying cutoff is
    // never exceeded): Income, ForeignAid and Tax only.
    assert_eq!(
        a.get_available_actions(&[]),
        vec![Action::Income, Action::ForeignAid, Action::Tax]
    );
}

#[test]
fn ten_coins_force_a_coup() {
    let mut a = agent(0, 0, 1_000_000, utilities(1, 1, 1, 1, 1, 1, 1));
    a.deal([Card::Duke, Card::Contessa]);
    a.gain_coins(8);
    a.compute_hands(&[]);
    assert_eq!(
        a.get_available_actions(&[]),
        vec![Action::Coup(1), Action::Coup(2), Action::Coup(3)]
    );
    // Eliminated seats are skipped as targets.
    assert_eq!(
        a.get_available_actions(&[2]),
        vec![Action::Coup(1), Action::Coup(3)]
    );
}

#[test]
fn bluffs_open_up_beyond_the_lying_cutoff() {
    // With a lying cutoff of zero every claim looks safe to fake: the
    // agent holds nothing useful yet offers Tax, Steal, Exchange.
    let mut a = agent(0, 0, 0, utilities(1, 1, 1, 1, 1, 1, 1));
    a.deal([Card::Contessa, Card::Contessa]);
    a.compute_hands(&[]);
    assert_eq!(
        a.get_available_actions(&[]),
        vec![
            Action::Income,
            Action::ForeignAid,
            Action::Tax,
            Action::Steal(1),
            Action::Steal(2),
            Action::Steal(3),
            Action::Exchange,
        ]
    );
}

#[test]
fn assassinate_needs_three_coins() {
    let mut a = agent(0, 0, 1_000_000, utilities(1, 1, 1, 1, 1, 1, 1));
    a.deal([Card::Assassin, Card::Contessa]);
    a.compute_hands(&[]);
    assert_eq!(
        a.get_available_actions(&[]),
        vec![Action::Income, Action::ForeignAid]
    );
    a.gain_coins(1);
    assert_eq!(
        a.get_available_actions(&[]),
        vec![
            Action::Income,
            Action::ForeignAid,
            Action::Assassinate(1),
            Action::Assassinate(2),
            Action::Assassinate(3),
        ]
    );
}

#[test]
fn foreign_aid_fear_of_a_duke_zeroes_its_utility() {
    // ForeignAid carries the highest weight, but a low liar cutoff makes
    // every opponent look like a Duke holder, so Income wins.
    let mut fearful = agent(0, 0, 1_000_000, utilities(5, 10, 0, 0, 0, 0, 0));
    fearful.deal([Card::Contessa, Card::Contessa]);
    fearful.compute_hands(&[]);
    assert_eq!(fearful.select_action(&[]), Action::Income);

    // With the liar cutoff maxed out nobody is feared and ForeignAid wins.
    let mut fearless = agent(0, 1_000_000, 1_000_000, utilities(5, 10, 0, 0, 0, 0, 0));
    fearless.deal([Card::Contessa, Card::Contessa]);
    fearless.compute_hands(&[]);
    assert_eq!(fearless.select_action(&[]), Action::ForeignAid);
}

#[test]
fn selection_breaks_ties_by_first_seen() {
    // Income and ForeignAid share the top weight; Income is enumerated
    // first and must win the tie.
    let mut a = agent(0, 1_000_000, 1_000_000, utilities(7, 7, 0, 0, 0, 0, 0));
    a.deal([Card::Contessa, Card::Contessa]);
    a.compute_hands(&[]);
    assert_eq!(a.select_action(&[]), Action::Income);
}

#[test]
fn challenge_follows_the_liar_cutoff() {
    // The challenger holds two Dukes: an opposing Duke claim is believed
    // with probability 2/13, about 0.154.
    let mut a = agent(1, 300_000, 1_000_000, utilities(1, 1, 1, 1, 1, 1, 1));
    a.deal([Card::Duke, Card::Duke]);
    a.compute_hands(&[]);
    assert!(a.check_challenge(0, Card::Duke));

    let mut trusting = agent(1, 100_000, 1_000_000, utilities(1, 1, 1, 1, 1, 1, 1));
    trusting.deal([Card::Duke, Card::Duke]);
    trusting.compute_hands(&[]);
    assert!(!trusting.check_challenge(0, Card::Duke));

    // A claimless action cannot be challenged.
    assert!(!a.check_challenge(0, Card::Empty));
}

#[test]
fn blocks_are_selfish_and_cutoff_gated() {
    let mut a = agent(1, 0, 0, utilities(1, 1, 1, 1, 1, 1, 1));
    a.deal([Card::Captain, Card::Contessa]);
    a.compute_hands(&[]);
    // ForeignAid hurts everyone: blocked claiming Duke.
    assert_eq!(a.check_block(Action::ForeignAid), (true, Card::Duke));
    // Assassination of someone else is not this player's business.
    assert_eq!(a.check_block(Action::Assassinate(2)), (false, Card::Contessa));
    // Assassination of himself is blocked claiming Contessa.
    assert_eq!(a.check_block(Action::Assassinate(1)), (true, Card::Contessa));
    // Steal against himself is blocked with the likelier of the two
    // blocking cards.  The self-assessment uses public information only,
    // where Captain and Ambassador tie; the tie falls to Ambassador.
    let (blocks, card) = a.check_block(Action::Steal(1));
    assert!(blocks);
    assert_eq!(card, Card::Ambassador);
    assert_eq!(a.check_block(Action::Steal(2)), (false, Card::Empty));
    // A killed Ambassador makes the Captain claim the likelier one.
    let mut seen = agent(1, 0, 0, utilities(1, 1, 1, 1, 1, 1, 1));
    seen.deal([Card::Captain, Card::Contessa]);
    seen.compute_hands(&[Card::Ambassador]);
    let (blocks2, card2) = seen.check_block(Action::Steal(1));
    assert!(blocks2);
    assert_eq!(card2, Card::Captain);
    // Unblockable actions never draw a block.
    assert_eq!(a.check_block(Action::Tax), (false, Card::Empty));
    assert_eq!(a.check_block(Action::Coup(1)), (false, Card::Empty));

    // With the cutoff maxed out no block ever looks safe.
    let mut shy = agent(1, 0, 1_000_000, utilities(1, 1, 1, 1, 1, 1, 1));
    shy.deal([Card::Captain, Card::Contessa]);
    shy.compute_hands(&[]);
    assert_eq!(shy.check_block(Action::ForeignAid), (false, Card::Duke));
}

#[test]
fn lose_coins_clamps_at_the_balance() {
    let mut a = agent(0, 0, 0, utilities(1, 1, 1, 1, 1, 1, 1));
    assert_eq!(a.get_coins(), 2);
    assert_eq!(a.lose_coins(7), 2);
    assert_eq!(a.get_coins(), 0);
    assert_eq!(a.lose_coins(1), 0);
    assert_eq!(a.get_coins(), 0);
    a.gain_coins(5);
    assert_eq!(a.lose_coins(3), 3);
    assert_eq!(a.get_coins(), 2);
}

#[test]
fn lose_influence_reveals_the_real_slot() {
    let mut a = agent(0, 0, 0, utilities(1, 1, 1, 1, 1, 1, 1));
    a.deal([Card::Duke, Card::Empty]);
    assert_eq!(a.lose_influence(), Card::Duke);
    assert!(a.is_eliminated());
    // An eliminated player reveals nothing further.
    assert_eq!(a.lose_influence(), Card::Empty);
}

#[test]
fn lose_influence_with_two_real_cards_takes_one() {
    let mut a = agent(0, 0, 0, utilities(1, 1, 1, 1, 1, 1, 1));
    a.deal([Card::Duke, Card::Captain]);
    let lost = a.lose_influence();
    assert!(lost == Card::Duke || lost == Card::Captain);
    assert!(!a.is_eliminated());
    let other = if lost == Card::Duke { Card::Captain } else { Card::Duke };
    assert!(a.check(other));
    assert!(a.check(Card::Empty));
}

#[test]
fn exchange_hands_the_drawn_cards_back() {
    let mut a = agent(0, 0, 0, utilities(1, 1, 1, 1, 1, 1, 1));
    a.deal([Card::Duke, Card::Captain]);
    let ret = a.exchange(&[Card::Ambassador, Card::Contessa]);
    assert_eq!(ret, vec![Card::Ambassador, Card::Contessa]);
    assert!(a.check(Card::Duke));
    assert!(a.check(Card::Captain));
}

#[test]
fn scenario_mutation_stays_within_noise_bounds() {
    // Mutating cutoffs of one half leaves both in [0.49, 0.51], and every
    // utility weight grows by less than a tenth.
    let u = utilities(100, 200, 300, 400, 500, 600, 700);
    let parent = agent(0, 500_000, 500_000, u);
    let child = parent.mutate();
    match child.get_metadata() {
        PlayerMetadata::Computer { lying_cutoff, liar_cutoff, utilities: cu } => {
            assert!(490_000 <= liar_cutoff && liar_cutoff <= 510_000);
            assert!(490_000 <= lying_cutoff && lying_cutoff <= 510_000);
            let pairs = [
                (cu.income, 100u64),
                (cu.foreignaid, 200),
                (cu.coup, 300),
                (cu.tax, 400),
                (cu.assassinate, 500),
                (cu.exchange, 600),
                (cu.steal, 700),
            ];
            for (new, old) in pairs {
                assert!(new >= old);
                assert!(new - old < 100_000);
            }
        },
        PlayerMetadata::Human => panic!("a mutated computer stays a computer"),
    }
    // The offspring starts the next game afresh.
    assert!(child.is_eliminated());
    assert_eq!(child.get_coins(), 2);
}

#[test]
fn metadata_round_trips_through_from_metadata() {
    let meta = PlayerMetadata::Computer {
        lying_cutoff: 466_364,
        liar_cutoff: 332_895,
        utilities: utilities(195, 199, 198, 198, 196, 201, 202),
    };
    let a = Agent::from_metadata(2, 3, meta);
    assert_eq!(a.get_metadata(), meta);
    assert_eq!(a.get_coins(), 2);
    assert!(a.is_eliminated());
}

#[test]
fn clear_resets_game_state_but_keeps_parameters() {
    let meta = PlayerMetadata::Computer {
        lying_cutoff: 1,
        liar_cutoff: 2,
        utilities: utilities(1, 2, 3, 4, 5, 6, 7),
    };
    let mut a = Agent::from_metadata(0, 3, meta);
    a.deal([Card::Duke, Card::Captain]);
    a.gain_coins(4);
    a.clear();
    assert!(a.is_eliminated());
    assert_eq!(a.get_coins(), 2);
    assert_eq!(a.get_metadata(), meta);
}

#[test]
fn random_agents_draw_cutoffs_below_one() {
    let a = Agent::new(0, 3);
    match a.get_metadata() {
        PlayerMetadata::Computer { lying_cutoff, liar_cutoff, utilities: u } => {
            assert!(0 <= liar_cutoff && liar_cutoff < 1_000_000);
            assert!(0 <= lying_cutoff && lying_cutoff < 1_000_000);
            assert!(u.income < 1_000_000);
            assert!(u.steal < 1_000_000);
        },
        PlayerMetadata::Human => panic!("a fresh agent is a computer"),
    }
}
