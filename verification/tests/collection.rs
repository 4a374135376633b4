use tabletop_state::cell::{Atom, AtomTransition};
use tabletop_state::id::ItemId;
use tabletop_state::list::{List, ListTransition};
use tabletop_state::machine::StateMachine;

fn filled(values: &[u8]) -> List<Atom<u8>> {
    let mut l: List<Atom<u8>> = List::new();
    for &v in values {
        let (_, t) = l.append(Atom::new(v));
        l.apply(t);
    }
    l
}

#[test]
fn append_assigns_fresh_id_and_grows_by_one() {
    let mut l: List<Atom<u8>> = List::new();
    let (first, t1) = l.append(Atom::new(10));
    l.apply(t1);
    assert_eq!(l.len(), 1);
    assert_eq!(l.get(first).unwrap().value, 10);

    let (second, t2) = l.append(Atom::new(20));
    assert_ne!(first, second);
    l.apply(t2);
    assert_eq!(l.len(), 2);
    assert_eq!(l.get(first).unwrap().value, 10);
    assert_eq!(l.get(second).unwrap().value, 20);
    assert_eq!(l.index(0).value.value, 10);
    assert_eq!(l.index(1).value.value, 20);
}

#[test]
fn append_existing_id_is_noop() {
    let mut l = filled(&[1, 2]);
    let taken = l.index(0).id;
    let before = l.clone();
    l.apply(ListTransition::Append(taken, Atom::new(99)));
    assert_eq!(l, before);
}

#[test]
fn targeted_update_touches_only_addressed_item() {
    let mut l = filled(&[1, 2, 3]);
    let ids: Vec<ItemId> = (0..3).map(|i| l.index(i).id).collect();
    l.apply(ListTransition::Apply(ids[1], AtomTransition::Replace(9)));
    assert_eq!(l.len(), 3);
    assert_eq!(l.index(0).id, ids[0]);
    assert_eq!(l.index(1).id, ids[1]);
    assert_eq!(l.index(2).id, ids[2]);
    assert_eq!(l.index(0).value.value, 1);
    assert_eq!(l.index(1).value.value, 9);
    assert_eq!(l.index(2).value.value, 3);
}

#[test]
fn update_with_absent_id_is_noop() {
    let mut l = filled(&[4, 5]);
    let stranger = ItemId { bits: u128::MAX };
    let before = l.clone();
    l.apply(ListTransition::Apply(stranger, AtomTransition::Replace(0)));
    assert_eq!(l, before);
}

#[test]
fn map_item_reads_current_value() {
    let mut l = filled(&[5]);
    let id = l.index(0).id;
    let t = l.map_item(id, |a: &Atom<u8>| a.replace(a.value() + 1)).unwrap();
    l.apply(t);
    assert_eq!(l.get(id).unwrap().value, 6);
}

#[test]
fn map_item_absent_id_gives_none() {
    let l = filled(&[5]);
    let stranger = ItemId { bits: 0xDEAD };
    assert!(l.map_item(stranger, |a: &Atom<u8>| a.replace(0)).is_none());
}

#[test]
fn get_absent_id_gives_none() {
    let l = filled(&[7]);
    let stranger = ItemId { bits: 12345 };
    assert!(l.get(stranger).is_none());
    assert!(l.index_of(stranger).is_none());
}

#[test]
fn cell_replace_is_wholesale() {
    let mut a: Atom<u8> = Atom::new(3);
    let t = a.replace(8);
    assert_eq!(*a.value(), 3);
    a.apply(t);
    assert_eq!(*a.value(), 8);
}
