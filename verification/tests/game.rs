use tabletop_state::cell::AtomTransition;
use tabletop_state::character::{Character, CharacterTransition};
use tabletop_state::dice::Dice;
use tabletop_state::id::ItemId;
use tabletop_state::list::{List, ListTransition};
use tabletop_state::machine::StateMachine;
use tabletop_state::{Game, GameTransition};

fn seeded_game(seed: u64) -> Game {
    Game { dice: Dice::with_seed(seed), characters: List::new() }
}

fn with_character(seed: u64, influence: u8) -> (Game, ItemId) {
    let mut g = seeded_game(seed);
    let (id, append) = g.characters.append(Character::default());
    g.apply(GameTransition::CharacterTransition(append));
    g.apply(GameTransition::CharacterTransition(ListTransition::Apply(
        id,
        CharacterTransition::InfluencePoints(AtomTransition::Replace(influence)),
    )));
    (g, id)
}

fn influence_of(g: &Game, id: ItemId) -> u8 {
    *g.characters.get(id).unwrap().influence_points.value()
}

#[test]
fn roll_delegates_to_dice() {
    let mut g = seeded_game(1);
    g.apply(GameTransition::Roll(4));
    assert_eq!(g.dice.rolls.len(), 4);
    assert_eq!(g.dice.roll_id, 1);
    assert_eq!(g.characters.len(), 0);
}

#[test]
fn game_replay_is_deterministic() {
    let (g, id) = with_character(42, 3);
    let mut a = g.clone();
    let mut b = g;
    let script = |target: ItemId| {
        vec![
            GameTransition::Roll(6),
            GameTransition::Reroll(vec![true, true, false, false, true, false], target),
            GameTransition::Roll(2),
            GameTransition::Reroll(vec![false, true], target),
        ]
    };
    for t in script(id) {
        a.apply(t);
    }
    for t in script(id) {
        b.apply(t);
    }
    assert_eq!(a, b);
}

#[test]
fn reroll_spends_one_point_and_moves_dice() {
    let (mut g, id) = with_character(7, 2);
    g.apply(GameTransition::Roll(4));
    let counter = g.dice.roll_id;
    g.apply(GameTransition::Reroll(vec![true, true, true, true], id));
    assert_eq!(influence_of(&g, id), 1);
    assert_ne!(g.dice.roll_id, counter);
}

#[test]
fn reroll_gating_exhausts_exactly_k_points() {
    let k = 3u8;
    let (mut g, id) = with_character(8, k);
    g.apply(GameTransition::Roll(4));
    for step in 0..k {
        let counter = g.dice.roll_id;
        g.apply(GameTransition::Reroll(vec![true, false, true, false], id));
        assert_eq!(influence_of(&g, id), k - step - 1);
        assert_ne!(g.dice.roll_id, counter);
    }
    let before = g.clone();
    g.apply(GameTransition::Reroll(vec![true, false, true, false], id));
    assert_eq!(g, before);
    assert_eq!(influence_of(&g, id), 0);
}

#[test]
fn reroll_against_unknown_character_is_noop() {
    let (mut g, _) = with_character(9, 2);
    g.apply(GameTransition::Roll(3));
    let before = g.clone();
    g.apply(GameTransition::Reroll(vec![true, true, true], ItemId { bits: 424242 }));
    assert_eq!(g, before);
}

#[test]
fn reroll_leaves_other_characters_untouched() {
    let (mut g, first) = with_character(10, 2);
    let (second, append) = g.characters.append(Character::default());
    g.apply(GameTransition::CharacterTransition(append));
    g.apply(GameTransition::Roll(2));
    g.apply(GameTransition::Reroll(vec![true, true], first));
    assert_eq!(influence_of(&g, first), 1);
    assert_eq!(influence_of(&g, second), 1);
}

#[test]
fn load_replaces_characters_and_keeps_dice() {
    let (mut g, _) = with_character(11, 2);
    g.apply(GameTransition::Roll(5));
    let dice_before = g.dice.clone();

    let mut replacement: List<Character> = List::new();
    let (new_id, append) = replacement.append(Character::default());
    replacement.apply(append);

    g.apply(GameTransition::Load(replacement.clone()));
    assert_eq!(g.characters, replacement);
    assert_eq!(g.characters.len(), 1);
    assert!(g.characters.get(new_id).is_some());
    assert_eq!(g.dice, dice_before);
}

#[test]
fn default_game_is_empty() {
    let g = Game::default();
    assert!(g.dice.rolls.is_empty());
    assert_eq!(g.characters.len(), 0);
}
