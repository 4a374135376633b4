use tabletop_state::cell::AtomTransition;
use tabletop_state::character::{Character, CharacterTransition};
use tabletop_state::dice::Dice;
use tabletop_state::list::{List, ListTransition};
use tabletop_state::machine::StateMachine;
use tabletop_state::snapshot::{export, import};
use tabletop_state::{Game, GameTransition};

fn sample_collection() -> List<Character> {
    let mut characters: List<Character> = List::new();
    let (jess, append) = characters.append(Character::default());
    characters.apply(append);
    let (sam, append) = characters.append(Character::default());
    characters.apply(append);

    characters.apply(ListTransition::Apply(
        jess,
        CharacterTransition::Name(AtomTransition::Replace(String::from("Jess"))),
    ));
    characters.apply(ListTransition::Apply(
        jess,
        CharacterTransition::Body(AtomTransition::Replace(2)),
    ));
    characters.apply(ListTransition::Apply(
        sam,
        CharacterTransition::Name(AtomTransition::Replace(String::from("Sam"))),
    ));
    characters.apply(ListTransition::Apply(
        sam,
        CharacterTransition::InfluencePoints(AtomTransition::Replace(5)),
    ));
    let note = characters.get(sam).unwrap().notes.index(0).id;
    characters.apply(ListTransition::Apply(
        sam,
        CharacterTransition::Notes(ListTransition::Apply(
            note,
            AtomTransition::Replace(String::from("owes Jess a favour")),
        )),
    ));
    characters
}

#[test]
fn round_trip_reproduces_the_collection() {
    let original = sample_collection();
    let records = export(&original);
    let reloaded = import(&records);
    assert_eq!(reloaded, original);
}

#[test]
fn round_trip_of_empty_collection() {
    let original: List<Character> = List::new();
    let records = export(&original);
    assert!(records.is_empty());
    let reloaded = import(&records);
    assert_eq!(reloaded, original);
}

#[test]
fn export_carries_ids_and_values() {
    let original = sample_collection();
    let records = export(&original);
    assert_eq!(records.len(), 2);
    for (i, record) in records.iter().enumerate() {
        let item = original.index(i);
        assert_eq!(record.id, item.id);
        assert_eq!(&record.name, item.value.name.value());
        assert_eq!(record.influence_points, *item.value.influence_points.value());
        assert_eq!(record.notes.len(), item.value.notes.len());
        for (j, note) in record.notes.iter().enumerate() {
            assert_eq!(note.id, item.value.notes.index(j).id);
            assert_eq!(&note.text, item.value.notes.index(j).value.value());
        }
    }
}

#[test]
fn loading_an_imported_snapshot_restores_the_game() {
    let original = sample_collection();
    let records = export(&original);

    let mut g = Game { dice: Dice::with_seed(5), characters: List::new() };
    g.apply(GameTransition::Roll(3));
    let dice_before = g.dice.clone();
    g.apply(GameTransition::Load(import(&records)));
    assert_eq!(g.characters, original);
    assert_eq!(g.dice, dice_before);
}
