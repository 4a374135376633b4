//! The atomic cell: the smallest replicated unit.
//!
//! An [`Atom`] holds one value and is updated only by wholesale replacement;
//! there is no partial-field mutation through the cell, and no validation at
//! this layer.

use crate::machine::StateMachine;
use vstd::prelude::*;

verus! {

/// The smallest replicated state unit: one value, replaced only wholesale.
#[derive(Clone, Debug, PartialEq)]
pub struct Atom<T> {
    pub value: T,
}

/// A transition on an [`Atom`]: replace the held value with the one carried.
#[derive(Clone, Debug, PartialEq)]
pub enum AtomTransition<T> {
    Replace(T),
}

impl<T: View> View for Atom<T> {
    type V = T::V;

    open spec fn view(&self) -> T::V {
        self.value@
    }
}

impl<T: View> View for AtomTransition<T> {
    type V = T::V;

    open spec fn view(&self) -> T::V {
        match self {
            AtomTransition::Replace(v) => v@,
        }
    }
}

impl<T: View> Atom<T> {
    /// Makes a cell holding `value`.
    pub fn new(value: T) -> (a: Atom<T>)
        ensures
            a@ == value@,
    {
        Atom { value }
    }

    /// Read-only access to the current value.
    pub fn value(&self) -> (r: &T)
        ensures
            r == &self.value,
    {
        &self.value
    }

    /// Constructs the transition that, when applied, sets the cell to `new`.
    /// Constructing it has no side effect until it is applied.
    pub fn replace(&self, new: T) -> (t: AtomTransition<T>)
        ensures
            t@ == new@,
    {
        AtomTransition::Replace(new)
    }
}

impl<T: View> StateMachine for Atom<T> {
    type Transition = AtomTransition<T>;

    /// Replacement is total and indivisible: the next value is the carried
    /// one, whatever was held before.
    open spec fn next(pre: T::V, t: T::V) -> T::V {
        t
    }

    fn apply(&mut self, t: AtomTransition<T>) {
        match t {
            AtomTransition::Replace(v) => {
                self.value = v;
            },
        }
    }
}

} // verus!
