//! The snapshot boundary: a character collection as plain records.
//!
//! A collection of characters is representable as a self-describing ordered
//! sequence of `{identity, field values}` records, sufficient to reconstruct
//! it wholesale through the `Load` transition.  The byte or text encoding of
//! these records is the persistence boundary's business, not this core's;
//! the core guarantees that exporting and re-importing reproduces an equal
//! collection.  Dice and randomness state are deliberately not part of a
//! snapshot.

use crate::cell::Atom;
use crate::character::{Character, CharacterV};
use crate::id::ItemId;
use crate::list::{Item, ItemV, List};
use vstd::prelude::*;

verus! {

/// One note of a snapshotted character: its identity and its text.
#[derive(Clone, Debug, PartialEq)]
pub struct NoteRecord {
    pub id: ItemId,
    pub text: String,
}

/// One record of a character snapshot: the item's identity and every field
/// value, notes included.
#[derive(Clone, Debug, PartialEq)]
pub struct CharacterRecord {
    pub id: ItemId,
    pub name: String,
    pub habitat: String,
    pub body: u8,
    pub mind: u8,
    pub memory_points: u8,
    pub influence_points: u8,
    pub preferred_gravity: i8,
    pub notes: Vec<NoteRecord>,
}

impl View for NoteRecord {
    type V = ItemV<Seq<char>>;

    open spec fn view(&self) -> ItemV<Seq<char>> {
        ItemV { id: self.id, value: self.text@ }
    }
}

impl View for CharacterRecord {
    type V = ItemV<CharacterV>;

    open spec fn view(&self) -> ItemV<CharacterV> {
        ItemV {
            id: self.id,
            value: CharacterV {
                name: self.name@,
                habitat: self.habitat@,
                body: self.body,
                mind: self.mind,
                memory_points: self.memory_points,
                influence_points: self.influence_points,
                preferred_gravity: self.preferred_gravity,
                notes: Seq::new(self.notes@.len(), |i: int| self.notes@[i]@),
            },
        }
    }
}

/// What a record sequence stands for: the abstract collection value it
/// reconstructs.
pub open spec fn records_view(rs: Seq<CharacterRecord>) -> Seq<ItemV<CharacterV>> {
    Seq::new(rs.len(), |i: int| rs[i]@)
}

fn export_notes(notes: &List<Atom<String>>) -> (r: Vec<NoteRecord>)
    ensures
        Seq::new(r@.len(), |i: int| r@[i]@) == notes@,
{
    let n = notes.len();
    let mut out: Vec<NoteRecord> = Vec::new();
    let mut i: usize = 0;
    while i < n
        invariant
            i <= n,
            n == notes@.len(),
            out@.len() == i,
            forall|k: int| 0 <= k < i ==> #[trigger] out@[k]@ == notes@[k],
        decreases n - i,
    {
        let item = notes.index(i);
        out.push(NoteRecord { id: item.id, text: item.value.value.clone() });
        i = i + 1;
    }
    proof {
        assert(Seq::new(out@.len(), |i: int| out@[i]@) =~= notes@);
    }
    out
}

fn import_notes(records: &Vec<NoteRecord>) -> (l: List<Atom<String>>)
    ensures
        l@ == Seq::new(records@.len(), |i: int| records@[i]@),
{
    let n = records.len();
    let mut items: Vec<Item<Atom<String>>> = Vec::new();
    let mut i: usize = 0;
    while i < n
        invariant
            i <= n,
            n == records@.len(),
            items@.len() == i,
            forall|k: int| 0 <= k < i ==> #[trigger] items@[k]@ == records@[k]@,
        decreases n - i,
    {
        let r = &records[i];
        items.push(Item { id: r.id, value: Atom { value: r.text.clone() } });
        i = i + 1;
    }
    let l = List { items };
    proof {
        assert(l@ =~= Seq::new(records@.len(), |i: int| records@[i]@));
    }
    l
}

/// Exports a character collection as records, in collection order, with
/// every identity and every field value carried over.
pub fn export(characters: &List<Character>) -> (r: Vec<CharacterRecord>)
    ensures
        records_view(r@) == characters@,
{
    let n = characters.len();
    let mut out: Vec<CharacterRecord> = Vec::new();
    let mut i: usize = 0;
    while i < n
        invariant
            i <= n,
            n == characters@.len(),
            out@.len() == i,
            forall|k: int| 0 <= k < i ==> #[trigger] out@[k]@ == characters@[k],
        decreases n - i,
    {
        let item = characters.index(i);
        let c = &item.value;
        let record = CharacterRecord {
            id: item.id,
            name: c.name.value.clone(),
            habitat: c.habitat.value.clone(),
            body: c.body.value,
            mind: c.mind.value,
            memory_points: c.memory_points.value,
            influence_points: c.influence_points.value,
            preferred_gravity: c.preferred_gravity.value,
            notes: export_notes(&c.notes),
        };
        proof {
            assert(record@ =~= characters@[i as int]);
        }
        out.push(record);
        i = i + 1;
    }
    proof {
        assert(records_view(out@) =~= characters@);
    }
    out
}

/// Imports records back into a collection value, in record order, with no
/// structural validation: the collection holds exactly what the records
/// say.  The result is meant to be installed wholesale through `Load`.
pub fn import(records: &Vec<CharacterRecord>) -> (l: List<Character>)
    ensures
        l@ == records_view(records@),
{
    let n = records.len();
    let mut items: Vec<Item<Character>> = Vec::new();
    let mut i: usize = 0;
    while i < n
        invariant
            i <= n,
            n == records@.len(),
            items@.len() == i,
            forall|k: int| 0 <= k < i ==> #[trigger] items@[k]@ == records@[k]@,
        decreases n - i,
    {
        let r = &records[i];
        let character = Character {
            name: Atom { value: r.name.clone() },
            habitat: Atom { value: r.habitat.clone() },
            body: Atom { value: r.body },
            mind: Atom { value: r.mind },
            memory_points: Atom { value: r.memory_points },
            influence_points: Atom { value: r.influence_points },
            preferred_gravity: Atom { value: r.preferred_gravity },
            notes: import_notes(&r.notes),
        };
        proof {
            assert(character@ =~= records@[i as int]@.value);
        }
        items.push(Item { id: r.id, value: character });
        i = i + 1;
    }
    let l = List { items };
    proof {
        assert(l@ =~= records_view(records@));
    }
    l
}

/// Snapshot round trip: records that stand for a collection import back to
/// exactly that collection — the id sequence and every per-id field value
/// agree.  With [`export`]'s and [`import`]'s contracts this says that
/// exporting a collection and importing the result reproduces it.
pub proof fn lemma_snapshot_round_trip(
    original: Seq<ItemV<CharacterV>>,
    rs: Seq<CharacterRecord>,
    reloaded: Seq<ItemV<CharacterV>>,
)
    requires
        records_view(rs) == original,
        reloaded == records_view(rs),
    ensures
        reloaded == original,
        reloaded.len() == original.len(),
        forall|k: int| 0 <= k < original.len() ==> #[trigger] reloaded[k].id == original[k].id,
        forall|k: int|
            0 <= k < original.len() ==> #[trigger] reloaded[k].value == original[k].value,
{
}

} // verus!
