//! Tests for the probability model and the belief estimator.

use contessa::Card;
use contessa::Prob;
use contessa::PerceivedHand;
use contessa::prob::belief;
use contessa::belief::compute_beliefs;

#[test]
fn belief_formula_thirteen_pool_one_copy() {
    // Pool of 13 unseen cards with 1 remaining copy:
    // 1 - (12/13)*(11/12) = 2/13, i.e. 24/156.
    let p = belief(13, 1);
    assert_eq!(p, Prob { num: 24, den: 156 });
    // About 0.1538.
    assert_eq!(p.num * 10_000 / p.den, 1538);
}

#[test]
fn belief_formula_full_pool_all_copies() {
    // Pool of 15 with all 3 copies: 1 - (12/15)*(11/14) = 78/210.
    let p = belief(15, 3);
    assert_eq!(p, Prob { num: 78, den: 210 });
}

#[test]
fn belief_empty_and_certain_pools() {
    // No copies left: impossible to hold one.
    let none = belief(13, 0);
    assert_eq!(none.num, 0);
    // Every card of the pool is a copy: certain.
    let p = belief(2, 2);
    assert_eq!(p.num, p.den);
}

#[test]
fn belief_values_stay_in_unit_interval() {
    let mut n: u64 = 2;
    while n <= 15 {
        let mut k: u64 = 0;
        while k <= n {
            let p = belief(n, k);
            assert!(p.den >= 1);
            assert!(p.num <= p.den);
            k += 1;
        }
        n += 1;
    }
}

#[test]
fn scenario_belief_estimation_after_deal() {
    // 15-card deck, four players dealt, no kills.  The observer holds two
    // Dukes, so his private pool is 13 cards with one Duke left: every
    // opponent is believed to hold a Duke with probability 2/13.
    let beliefs = compute_beliefs((Card::Duke, Card::Duke), 0, 3, &[]);
    assert_eq!(beliefs.len(), 4);
    let opp = beliefs[1].get(&Card::Duke).unwrap();
    assert_eq!(opp, Prob { num: 24, den: 156 });
    assert_eq!(opp.num * 10_000 / opp.den, 1538);
    // Every seat other than the observer carries the same estimate.
    assert_eq!(beliefs[2].get(&Card::Duke).unwrap(), opp);
    assert_eq!(beliefs[3].get(&Card::Duke).unwrap(), opp);
    // The observer's own seat is judged from the public pool only:
    // 15 cards, 3 Dukes.
    assert_eq!(beliefs[0].get(&Card::Duke).unwrap(), Prob { num: 78, den: 210 });
}

#[test]
fn beliefs_respect_kill_ledger() {
    // Two killed Dukes leave one Duke among 13 public cards; the observer
    // holds none, so 11 private cards hold one Duke:
    // 1 - (10/11)*(9/10) = 2/11 = 20/110.
    let killed = [Card::Duke, Card::Duke];
    let beliefs = compute_beliefs((Card::Contessa, Card::Contessa), 0, 3, &killed);
    assert_eq!(beliefs[1].get(&Card::Duke).unwrap(), Prob { num: 20, den: 110 });
}

#[test]
fn perceived_hand_get_and_assign() {
    let mut h = PerceivedHand::new();
    assert_eq!(h.get(&Card::Duke).unwrap(), Prob { num: 0, den: 1 });
    assert!(h.get(&Card::Empty).is_none());

    h.assign([Card::Duke, Card::Captain]);
    assert_eq!(h.get(&Card::Duke).unwrap(), Prob { num: 1, den: 1 });
    assert_eq!(h.get(&Card::Captain).unwrap(), Prob { num: 1, den: 1 });
    assert_eq!(h.get(&Card::Contessa).unwrap(), Prob { num: 0, den: 1 });

    // A doubled card is still recorded as certainty: probabilities never
    // leave the unit interval.
    let mut doubled = PerceivedHand::new();
    doubled.assign([Card::Assassin, Card::Assassin]);
    assert_eq!(doubled.get(&Card::Assassin).unwrap(), Prob { num: 1, den: 1 });
}

#[test]
fn perceived_hand_from_keeps_the_five_slots() {
    let h = PerceivedHand::from(
        Prob { num: 1, den: 2 },
        Prob { num: 1, den: 3 },
        Prob { num: 1, den: 4 },
        Prob { num: 1, den: 5 },
        Prob { num: 1, den: 6 },
    );
    assert_eq!(h.get(&Card::Duke).unwrap(), Prob { num: 1, den: 2 });
    assert_eq!(h.get(&Card::Captain).unwrap(), Prob { num: 1, den: 3 });
    assert_eq!(h.get(&Card::Ambassador).unwrap(), Prob { num: 1, den: 4 });
    assert_eq!(h.get(&Card::Assassin).unwrap(), Prob { num: 1, den: 5 });
    assert_eq!(h.get(&Card::Contessa).unwrap(), Prob { num: 1, den: 6 });
}

#[test]
fn probability_cutoff_comparisons_are_exact() {
    let half = Prob { num: 1, den: 2 };
    assert!(half.is_lt_cutoff(600_000));
    assert!(!half.is_lt_cutoff(500_000));
    assert!(!half.is_lt_cutoff(400_000));
    assert!(half.is_gt_cutoff(400_000));
    assert!(!half.is_gt_cutoff(500_000));
    // A negative cutoff is below every probability.
    assert!(!half.is_lt_cutoff(-5));
    assert!(half.is_gt_cutoff(-5));
}

#[test]
fn probability_fraction_comparison() {
    let a = Prob { num: 2, den: 3 };
    let b = Prob { num: 3, den: 5 };
    assert!(a.is_gt_frac(&b));
    assert!(!b.is_gt_frac(&a));
    assert!(!a.is_gt_frac(&a));
}
