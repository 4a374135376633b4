//! The character aggregate: a fixed set of atomic fields plus a nested
//! identity-addressed collection of note cells.
//!
//! Every field is an [`Atom`], updated only by wholesale replacement through
//! a field-scoped transition.  Domain bounds (`body` and `mind` in `1..=3`,
//! the point counters in `0..=9`) are a policy of the boundary that builds a
//! transition, never of `apply`: applying stores whatever value the
//! transition carries, so replay can never diverge on validation.

use crate::cell::{Atom, AtomTransition};
use crate::id::ItemId;
use crate::list::{distinct_ids, has_id, ItemV, List, ListTransition, ListTransitionV};
use crate::machine::StateMachine;
use vstd::prelude::*;

verus! {

/// How many blank note cells a fresh character carries.
pub const NOTE_COUNT: usize = 8;

/// The starting allotment of influence points: one consumable reroll.
pub const STARTING_INFLUENCE: u8 = 1;

/// One player character.
#[derive(Clone, Debug, PartialEq)]
pub struct Character {
    pub name: Atom<String>,
    pub habitat: Atom<String>,
    /// Coarse physical condition, domain `1..=3`.
    pub body: Atom<u8>,
    /// Coarse mental condition, domain `1..=3`.
    pub mind: Atom<u8>,
    /// Domain `0..=9`.
    pub memory_points: Atom<u8>,
    /// The consumable reroll resource, domain `0..=9`.
    pub influence_points: Atom<u8>,
    pub preferred_gravity: Atom<i8>,
    pub notes: List<Atom<String>>,
}

/// A transition scoped to one field of a character.
pub enum CharacterTransition {
    Name(AtomTransition<String>),
    Habitat(AtomTransition<String>),
    Body(AtomTransition<u8>),
    Mind(AtomTransition<u8>),
    MemoryPoints(AtomTransition<u8>),
    InfluencePoints(AtomTransition<u8>),
    PreferredGravity(AtomTransition<i8>),
    Notes(ListTransition<Atom<String>>),
}

/// The abstract value of a [`Character`].
#[verifier::ext_equal]
pub struct CharacterV {
    pub name: Seq<char>,
    pub habitat: Seq<char>,
    pub body: u8,
    pub mind: u8,
    pub memory_points: u8,
    pub influence_points: u8,
    pub preferred_gravity: i8,
    pub notes: Seq<ItemV<Seq<char>>>,
}

/// The abstract value of a [`CharacterTransition`].
pub enum CharacterTransitionV {
    Name(Seq<char>),
    Habitat(Seq<char>),
    Body(u8),
    Mind(u8),
    MemoryPoints(u8),
    InfluencePoints(u8),
    PreferredGravity(i8),
    Notes(ListTransitionV<Seq<char>, Seq<char>>),
}

impl View for Character {
    type V = CharacterV;

    open spec fn view(&self) -> CharacterV {
        CharacterV {
            name: self.name@,
            habitat: self.habitat@,
            body: self.body@,
            mind: self.mind@,
            memory_points: self.memory_points@,
            influence_points: self.influence_points@,
            preferred_gravity: self.preferred_gravity@,
            notes: self.notes@,
        }
    }
}

impl View for CharacterTransition {
    type V = CharacterTransitionV;

    open spec fn view(&self) -> CharacterTransitionV {
        match self {
            CharacterTransition::Name(t) => CharacterTransitionV::Name(t@),
            CharacterTransition::Habitat(t) => CharacterTransitionV::Habitat(t@),
            CharacterTransition::Body(t) => CharacterTransitionV::Body(t@),
            CharacterTransition::Mind(t) => CharacterTransitionV::Mind(t@),
            CharacterTransition::MemoryPoints(t) => CharacterTransitionV::MemoryPoints(t@),
            CharacterTransition::InfluencePoints(t) => CharacterTransitionV::InfluencePoints(t@),
            CharacterTransition::PreferredGravity(t) => CharacterTransitionV::PreferredGravity(t@),
            CharacterTransition::Notes(t) => CharacterTransitionV::Notes(t@),
        }
    }
}

impl StateMachine for Character {
    type Transition = CharacterTransition;

    /// A field-scoped transition replaces exactly the addressed field; a
    /// notes transition runs the nested collection's own machine.
    open spec fn next(pre: CharacterV, t: CharacterTransitionV) -> CharacterV {
        match t {
            CharacterTransitionV::Name(v) => CharacterV { name: v, ..pre },
            CharacterTransitionV::Habitat(v) => CharacterV { habitat: v, ..pre },
            CharacterTransitionV::Body(v) => CharacterV { body: v, ..pre },
            CharacterTransitionV::Mind(v) => CharacterV { mind: v, ..pre },
            CharacterTransitionV::MemoryPoints(v) => CharacterV { memory_points: v, ..pre },
            CharacterTransitionV::InfluencePoints(v) => CharacterV { influence_points: v, ..pre },
            CharacterTransitionV::PreferredGravity(v) => CharacterV {
                preferred_gravity: v,
                ..pre
            },
            CharacterTransitionV::Notes(lt) => CharacterV {
                notes: <List<Atom<String>> as StateMachine>::next(pre.notes, lt),
                ..pre
            },
        }
    }

    fn apply(&mut self, t: CharacterTransition) {
        match t {
            CharacterTransition::Name(at) => self.name.apply(at),
            CharacterTransition::Habitat(at) => self.habitat.apply(at),
            CharacterTransition::Body(at) => self.body.apply(at),
            CharacterTransition::Mind(at) => self.mind.apply(at),
            CharacterTransition::MemoryPoints(at) => self.memory_points.apply(at),
            CharacterTransition::InfluencePoints(at) => self.influence_points.apply(at),
            CharacterTransition::PreferredGravity(at) => self.preferred_gravity.apply(at),
            CharacterTransition::Notes(lt) => self.notes.apply(lt),
        }
        proof {
            assert(self@ =~= Self::next(old(self)@, t@));
        }
    }
}

impl Character {
    /// Builds the transition that renames the character to what `f` makes of
    /// the current name.
    pub fn map_name<F: Fn(&String) -> String>(&self, f: F) -> (t: CharacterTransition)
        requires
            call_requires(f, (&self.name.value,)),
        ensures
            exists|v: String|
                #[trigger] call_ensures(f, (&self.name.value,), v) && t@
                    == CharacterTransitionV::Name(v@),
    {
        CharacterTransition::Name(self.name.replace(f(self.name.value())))
    }

    /// Builds the transition that replaces the habitat with what `f` makes
    /// of the current one.
    pub fn map_habitat<F: Fn(&String) -> String>(&self, f: F) -> (t: CharacterTransition)
        requires
            call_requires(f, (&self.habitat.value,)),
        ensures
            exists|v: String|
                #[trigger] call_ensures(f, (&self.habitat.value,), v) && t@
                    == CharacterTransitionV::Habitat(v@),
    {
        CharacterTransition::Habitat(self.habitat.replace(f(self.habitat.value())))
    }

    /// Builds the transition that sets `body` to what `f` makes of its
    /// current value.  Keeping the value within `1..=3` is this caller's
    /// policy; apply stores whatever the transition carries.
    pub fn map_body<F: Fn(u8) -> u8>(&self, f: F) -> (t: CharacterTransition)
        requires
            call_requires(f, (self.body.value,)),
        ensures
            exists|v: u8|
                #[trigger] call_ensures(f, (self.body.value,), v) && t@
                    == CharacterTransitionV::Body(v),
    {
        CharacterTransition::Body(self.body.replace(f(*self.body.value())))
    }

    /// Builds the transition that sets `mind` to what `f` makes of its
    /// current value; the `1..=3` domain is the caller's policy.
    pub fn map_mind<F: Fn(u8) -> u8>(&self, f: F) -> (t: CharacterTransition)
        requires
            call_requires(f, (self.mind.value,)),
        ensures
            exists|v: u8|
                #[trigger] call_ensures(f, (self.mind.value,), v) && t@
                    == CharacterTransitionV::Mind(v),
    {
        CharacterTransition::Mind(self.mind.replace(f(*self.mind.value())))
    }

    /// Builds the transition that sets the memory points to what `f` makes
    /// of their current value; the `0..=9` domain is the caller's policy.
    pub fn map_memory_points<F: Fn(u8) -> u8>(&self, f: F) -> (t: CharacterTransition)
        requires
            call_requires(f, (self.memory_points.value,)),
        ensures
            exists|v: u8|
                #[trigger] call_ensures(f, (self.memory_points.value,), v) && t@
                    == CharacterTransitionV::MemoryPoints(v),
    {
        CharacterTransition::MemoryPoints(self.memory_points.replace(f(*self.memory_points.value())))
    }

    /// Builds the transition that sets the influence points to what `f`
    /// makes of their current value; the `0..=9` domain is the caller's
    /// policy.
    pub fn map_influence_points<F: Fn(u8) -> u8>(&self, f: F) -> (t: CharacterTransition)
        requires
            call_requires(f, (self.influence_points.value,)),
        ensures
            exists|v: u8|
                #[trigger] call_ensures(f, (self.influence_points.value,), v) && t@
                    == CharacterTransitionV::InfluencePoints(v),
    {
        CharacterTransition::InfluencePoints(
            self.influence_points.replace(f(*self.influence_points.value())),
        )
    }

    /// Builds the transition that sets the preferred gravity to what `f`
    /// makes of its current value.
    pub fn map_preferred_gravity<F: Fn(i8) -> i8>(&self, f: F) -> (t: CharacterTransition)
        requires
            call_requires(f, (self.preferred_gravity.value,)),
        ensures
            exists|v: i8|
                #[trigger] call_ensures(f, (self.preferred_gravity.value,), v) && t@
                    == CharacterTransitionV::PreferredGravity(v),
    {
        CharacterTransition::PreferredGravity(
            self.preferred_gravity.replace(f(*self.preferred_gravity.value())),
        )
    }

    /// Wraps the notes-collection transition that `f` builds from the
    /// current notes into a character transition.
    pub fn map_notes<F: Fn(&List<Atom<String>>) -> ListTransition<Atom<String>>>(
        &self,
        f: F,
    ) -> (t: CharacterTransition)
        requires
            call_requires(f, (&self.notes,)),
        ensures
            exists|lt: ListTransition<Atom<String>>|
                #[trigger] call_ensures(f, (&self.notes,), lt) && t@ == CharacterTransitionV::Notes(
                    lt@,
                ),
    {
        CharacterTransition::Notes(f(&self.notes))
    }
}

impl Default for Character {
    /// A fully formed fresh character, produced directly and not through the
    /// transition log: blank name, the default habitat, `body` and `mind` at
    /// their best value 3, no memory points, the starting influence
    /// allotment, preferred gravity 5, and exactly [`NOTE_COUNT`] blank note
    /// cells with pairwise-distinct identities.
    fn default() -> (c: Character)
        ensures
            c@.name == Seq::<char>::empty(),
            c@.habitat == "Brighttown"@,
            c@.body == 3,
            c@.mind == 3,
            c@.memory_points == 0,
            c@.influence_points == STARTING_INFLUENCE,
            c@.preferred_gravity == 5,
            c@.notes.len() == NOTE_COUNT,
            forall|i: int| 0 <= i < NOTE_COUNT ==> #[trigger] c@.notes[i].value =~= Seq::<
                char,
            >::empty(),
            distinct_ids(c@.notes),
    {
        let mut notes: List<Atom<String>> = List::new();
        let mut i: usize = 0;
        while i < NOTE_COUNT
            invariant
                i <= NOTE_COUNT,
                notes@.len() == i,
                forall|k: int| 0 <= k < i ==> #[trigger] notes@[k].value =~= Seq::<char>::empty(),
                distinct_ids(notes@),
            decreases NOTE_COUNT - i,
        {
            let ghost pre = notes@;
            let (id, t) = notes.append(Atom::new(String::new()));
            proof {
                crate::list::lemma_ids_stay_distinct::<Atom<String>>(pre, t@);
            }
            notes.apply(t);
            i = i + 1;
        }
        Character {
            name: Atom::new(String::new()),
            habitat: Atom::new("Brighttown".to_owned()),
            body: Atom::new(3),
            mind: Atom::new(3),
            memory_points: Atom::new(0),
            influence_points: Atom::new(STARTING_INFLUENCE),
            preferred_gravity: Atom::new(5),
            notes,
        }
    }
}

} // verus!
