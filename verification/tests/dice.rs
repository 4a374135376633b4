use tabletop_state::dice::{Dice, DiceTransition};
use tabletop_state::machine::StateMachine;

#[test]
fn roll_gives_n_bounded_faces() {
    let mut d = Dice::with_seed(1);
    d.apply(DiceTransition::Roll(5));
    assert_eq!(d.rolls.len(), 5);
    assert_eq!(d.last_rolled.len(), 5);
    for &face in &d.rolls {
        assert!((1..=4).contains(&face));
    }
    for &marked in &d.last_rolled {
        assert!(marked);
    }
    assert_eq!(d.roll_id, 1);
}

#[test]
fn roll_replaces_prior_length() {
    let mut d = Dice::with_seed(2);
    d.apply(DiceTransition::Roll(6));
    assert_eq!(d.rolls.len(), 6);
    d.apply(DiceTransition::Roll(2));
    assert_eq!(d.rolls.len(), 2);
    assert_eq!(d.last_rolled.len(), 2);
}

#[test]
fn roll_supports_the_largest_count() {
    let mut d = Dice::with_seed(4);
    d.apply(DiceTransition::Roll(255));
    assert_eq!(d.rolls.len(), 255);
    assert_eq!(d.last_rolled.len(), 255);
    assert!(d.rolls.iter().all(|f| (1..=4).contains(f)));
}

#[test]
fn roll_zero_is_empty_but_counted() {
    let mut d = Dice::with_seed(3);
    d.apply(DiceTransition::Roll(0));
    assert_eq!(d.rolls.len(), 0);
    assert_eq!(d.last_rolled.len(), 0);
    assert_eq!(d.roll_id, 1);
}

#[test]
fn replay_is_deterministic() {
    let mut a = Dice::with_seed(42);
    let mut b = a.clone();
    let script = || {
        vec![
            DiceTransition::Roll(6),
            DiceTransition::Reroll(vec![true, false, true, false, true, false]),
            DiceTransition::Roll(3),
            DiceTransition::Reroll(vec![false, true]),
        ]
    };
    for t in script() {
        a.apply(t);
    }
    for t in script() {
        b.apply(t);
    }
    assert_eq!(a, b);
}

#[test]
fn same_seed_same_stream() {
    let mut a = Dice::with_seed(7);
    let mut b = Dice::with_seed(7);
    a.apply(DiceTransition::Roll(32));
    b.apply(DiceTransition::Roll(32));
    assert_eq!(a.rolls, b.rolls);
    assert_eq!(a, b);
}

#[test]
fn different_seeds_different_stream() {
    let mut a = Dice::with_seed(1);
    let mut b = Dice::with_seed(2);
    a.apply(DiceTransition::Roll(32));
    b.apply(DiceTransition::Roll(32));
    assert_ne!(a.rolls, b.rolls);
}

#[test]
fn reroll_mask_semantics() {
    let mut d = Dice::with_seed(9);
    d.rolls = vec![2, 4, 1, 3];
    d.last_rolled = vec![true, true, true, true];
    let before = d.roll_id;
    d.apply(DiceTransition::Reroll(vec![true, false, true, false]));
    assert_eq!(d.rolls.len(), 4);
    assert_eq!(d.rolls[1], 4);
    assert_eq!(d.rolls[3], 3);
    assert!((1..=4).contains(&d.rolls[0]));
    assert!((1..=4).contains(&d.rolls[2]));
    assert_eq!(d.last_rolled, vec![true, false, true, false]);
    assert_ne!(d.roll_id, before);
}

#[test]
fn reroll_short_mask_leaves_tail() {
    let mut d = Dice::with_seed(10);
    d.rolls = vec![2, 4, 1, 3];
    d.last_rolled = vec![true, true, true, true];
    d.apply(DiceTransition::Reroll(vec![true]));
    assert_eq!(d.rolls.len(), 4);
    assert_eq!(&d.rolls[1..], &[4, 1, 3]);
    assert_eq!(d.last_rolled, vec![true, false, false, false]);
}

#[test]
fn reroll_long_mask_keeps_length() {
    let mut d = Dice::with_seed(11);
    d.rolls = vec![2, 4];
    d.last_rolled = vec![true, true];
    d.apply(DiceTransition::Reroll(vec![false, true, true, true]));
    assert_eq!(d.rolls.len(), 2);
    assert_eq!(d.rolls[0], 2);
    assert!((1..=4).contains(&d.rolls[1]));
    assert_eq!(d.last_rolled, vec![false, true]);
}

#[test]
fn change_counter_differs_each_transition() {
    let mut d = Dice::with_seed(12);
    let id0 = d.roll_id;
    d.apply(DiceTransition::Roll(4));
    let id1 = d.roll_id;
    d.apply(DiceTransition::Roll(4));
    let id2 = d.roll_id;
    d.apply(DiceTransition::Reroll(vec![false, false, false, false]));
    let id3 = d.roll_id;
    assert_ne!(id0, id1);
    assert_ne!(id1, id2);
    assert_ne!(id2, id3);
}

#[test]
fn change_counter_wraps_around() {
    let mut d = Dice::with_seed(13);
    d.roll_id = 255;
    d.apply(DiceTransition::Roll(1));
    assert_eq!(d.roll_id, 0);
}

#[test]
fn rolls_actually_vary() {
    let mut d = Dice::with_seed(99);
    d.apply(DiceTransition::Roll(32));
    let first = d.rolls[0];
    assert!(d.rolls.iter().any(|&f| f != first));
}

#[test]
fn reroll_consumes_draws_in_index_order() {
    let mut masked = Dice::with_seed(21);
    masked.rolls = vec![2, 2, 2, 2];
    masked.last_rolled = vec![true; 4];
    masked.apply(DiceTransition::Reroll(vec![true, true, true, true]));

    let mut rolled = Dice::with_seed(21);
    rolled.apply(DiceTransition::Roll(4));

    assert_eq!(masked.rolls, rolled.rolls);
    assert_eq!(masked, rolled);
}

#[test]
fn default_is_empty() {
    let d = Dice::default();
    assert!(d.rolls.is_empty());
    assert!(d.last_rolled.is_empty());
    assert_eq!(d.roll_id, 0);
}
