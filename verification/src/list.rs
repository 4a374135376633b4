//! The identity-addressed collection: an ordered sequence of items, each
//! tagged with a stable unique identifier assigned at insertion.
//!
//! The collection supports appending a fresh item and updating one item in
//! place, addressed by its identity.  Both are transitions: constructing one
//! has no effect until it is applied.  Applying a targeted update whose id is
//! absent is a defined no-op, never a failure, so that concurrent edits
//! resolve purely by the order the external sequencer assigns.

use crate::id::{self, ItemId};
use crate::machine::StateMachine;
use vstd::prelude::*;
use vstd::set_lib;

verus! {

/// One collection item: a stable identity and the current value.  The id is
/// assigned once, at append time, and never changes.
#[derive(Clone, Debug, PartialEq)]
pub struct Item<T> {
    pub id: ItemId,
    pub value: T,
}

/// The abstract value of an [`Item`].
#[verifier::ext_equal]
pub struct ItemV<V> {
    pub id: ItemId,
    pub value: V,
}

impl<T: View> View for Item<T> {
    type V = ItemV<T::V>;

    open spec fn view(&self) -> ItemV<T::V> {
        ItemV { id: self.id, value: self.value@ }
    }
}

/// The identity-addressed collection itself.  Order is insertion order,
/// unless the surrounding sequencer redefines arrival order.
#[derive(Clone, Debug, PartialEq)]
pub struct List<T> {
    pub items: Vec<Item<T>>,
}

impl<T: View> View for List<T> {
    type V = Seq<ItemV<T::V>>;

    open spec fn view(&self) -> Seq<ItemV<T::V>> {
        Seq::new(self.items@.len(), |i: int| self.items@[i]@)
    }
}

/// A transition on the collection.
pub enum ListTransition<T: StateMachine> {
    /// Insert an item with this identity and value at the end; a no-op if
    /// the identity is already present, which keeps identities unique.
    Append(ItemId, T),
    /// Apply the carried transition to the value of the item with this
    /// identity; a no-op if the identity is absent.
    Apply(ItemId, <T as StateMachine>::Transition),
}

/// The abstract value of a [`ListTransition`].
pub enum ListTransitionV<V, TV> {
    Append(ItemId, V),
    Apply(ItemId, TV),
}

impl<T: StateMachine> View for ListTransition<T> {
    type V = ListTransitionV<<T as View>::V, <<T as StateMachine>::Transition as View>::V>;

    open spec fn view(&self) -> ListTransitionV<
        <T as View>::V,
        <<T as StateMachine>::Transition as View>::V,
    > {
        match self {
            ListTransition::Append(id, v) => ListTransitionV::Append(*id, v@),
            ListTransition::Apply(id, t) => ListTransitionV::Apply(*id, t@),
        }
    }
}

/// Whether some item of `s` carries the identity `id`.
pub open spec fn has_id<V>(s: Seq<ItemV<V>>, id: ItemId) -> bool {
    exists|j: int| 0 <= j < s.len() && s[j].id == id
}

/// Whether some item of `s` carries an identity with raw bits `b`.
pub open spec fn has_bits<V>(s: Seq<ItemV<V>>, b: u128) -> bool {
    has_id(s, ItemId { bits: b })
}

/// The index of the first item of `s` carrying `id`, or `-1` if there is
/// none.  When identities are unique the first match is the only one.
pub open spec fn first_index_of<V>(s: Seq<ItemV<V>>, id: ItemId) -> int
    decreases s.len(),
{
    if s.len() == 0 {
        -1
    } else if s[0].id == id {
        0
    } else {
        if first_index_of(s.drop_first(), id) == -1 {
            -1
        } else {
            first_index_of(s.drop_first(), id) + 1
        }
    }
}

/// Identities are unique within a collection.  Appends preserve this (see
/// [`lemma_ids_stay_distinct`]); only loading a foreign snapshot can break
/// it, in which case addressing reaches the first item of a duplicated id.
pub open spec fn distinct_ids<V>(s: Seq<ItemV<V>>) -> bool {
    forall|j: int, k: int| 0 <= j < k < s.len() ==> s[j].id != s[k].id
}

/// What `first_index_of` finds: a present id resolves to the first index
/// carrying it, an absent one to `-1`.
pub proof fn lemma_first_index_of<V>(s: Seq<ItemV<V>>, id: ItemId)
    ensures
        first_index_of(s, id) == -1 ==> !has_id(s, id),
        first_index_of(s, id) != -1 ==> {
            &&& 0 <= first_index_of(s, id) < s.len()
            &&& s[first_index_of(s, id)].id == id
            &&& forall|k: int| 0 <= k < first_index_of(s, id) ==> s[k].id != id
        },
    decreases s.len(),
{
    if s.len() == 0 {
    } else if s[0].id == id {
    } else {
        lemma_first_index_of(s.drop_first(), id);
        let r = first_index_of(s.drop_first(), id);
        if r == -1 {
            assert forall|j: int| 0 <= j < s.len() implies s[j].id != id by {
                if j > 0 {
                    assert(s.drop_first()[j - 1] == s[j]);
                }
            }
        } else {
            assert(s.drop_first()[r] == s[r + 1]);
            assert forall|k: int| 0 <= k < r + 1 implies s[k].id != id by {
                if k > 0 {
                    assert(s.drop_first()[k - 1] == s[k]);
                }
            }
        }
    }
}

/// The converse: an index that matches, below which nothing matches, is what
/// `first_index_of` returns.
pub proof fn lemma_first_index_found<V>(s: Seq<ItemV<V>>, id: ItemId, j: int)
    requires
        0 <= j < s.len(),
        s[j].id == id,
        forall|k: int| 0 <= k < j ==> s[k].id != id,
    ensures
        first_index_of(s, id) == j,
    decreases s.len(),
{
    if j == 0 {
    } else {
        assert(s.drop_first()[j - 1] == s[j]);
        assert forall|k: int| 0 <= k < j - 1 implies s.drop_first()[k].id != id by {
            assert(s.drop_first()[k] == s[k + 1]);
        }
        lemma_first_index_found(s.drop_first(), id, j - 1);
    }
}

/// Among the identities whose raw bits lie in `0 ..= s.len()` there is always
/// one that `s` does not carry: `s` has only `s.len()` items to block
/// `s.len() + 1` candidates.
pub proof fn lemma_small_id_free<V>(s: Seq<ItemV<V>>)
    requires
        s.len() < u128::MAX,
    ensures
        exists|b: u128| b <= s.len() && !has_bits(s, b),
{
    broadcast use vstd::seq_lib::seq_to_set_is_finite;

    let bits = Seq::new(s.len(), |j: int| s[j].id.bits as int);
    let taken = bits.to_set();
    bits.lemma_cardinality_of_set();
    let n = s.len() as int;
    let candidates = set_lib::set_int_range(0, n + 1);
    set_lib::lemma_int_range(0, n + 1);
    if forall|b: u128| b <= s.len() ==> #[trigger] has_bits(s, b) {
        assert forall|i: int| candidates.contains(i) implies taken.contains(i) by {
            let b = i as u128;
            assert(has_bits(s, b));
            let j = choose|j: int| 0 <= j < s.len() && s[j].id == (ItemId { bits: b });
            assert(bits[j] == i);
            assert(bits.contains(i));
        }
        set_lib::lemma_len_subset(candidates, taken);
        assert(false);
    }
}

impl<T: StateMachine> List<T> {
    /// An empty collection.
    pub fn new() -> (l: List<T>)
        ensures
            l@ == Seq::<ItemV<<T as View>::V>>::empty(),
    {
        let l = List { items: Vec::new() };
        proof {
            assert(l@ =~= Seq::<ItemV<<T as View>::V>>::empty());
        }
        l
    }

    /// How many items the collection holds.
    pub fn len(&self) -> (n: usize)
        ensures
            n == self@.len(),
    {
        self.items.len()
    }

    /// The item at position `i`, in collection order.
    pub fn index(&self, i: usize) -> (r: &Item<T>)
        requires
            i < self@.len(),
        ensures
            r@ == self@[i as int],
    {
        &self.items[i]
    }

    /// The position of the (first) item with identity `id`, if any.
    pub fn index_of(&self, id: ItemId) -> (r: Option<usize>)
        ensures
            match r {
                Some(j) => j < self@.len() && first_index_of(self@, id) == j as int,
                None => first_index_of(self@, id) == -1 && !has_id(self@, id),
            },
    {
        let n = self.items.len();
        let mut j: usize = 0;
        while j < n
            invariant
                j <= n,
                n == self@.len(),
                forall|k: int| 0 <= k < j ==> self@[k].id != id,
            decreases n - j,
        {
            if self.items[j].id == id {
                proof {
                    lemma_first_index_found(self@, id, j as int);
                }
                return Some(j);
            }
            j = j + 1;
        }
        proof {
            lemma_first_index_of(self@, id);
        }
        None
    }

    /// The value of the item with identity `id`, if any.
    pub fn get(&self, id: ItemId) -> (r: Option<&T>)
        ensures
            match r {
                Some(v) => has_id(self@, id) && v@ == self@[first_index_of(self@, id)].value,
                None => !has_id(self@, id),
            },
    {
        proof {
            lemma_first_index_of(self@, id);
        }
        match self.index_of(id) {
            Some(j) => Some(&self.items[j].value),
            None => None,
        }
    }

    /// An identity the collection does not carry.  Ordinarily this is one
    /// random draw from the 128-bit id space; in the (practically
    /// unreachable) case of a collision, the smallest unused small id is
    /// taken instead, so that the promise below is unconditional.
    fn fresh_id(&self) -> (fresh: ItemId)
        ensures
            !has_id(self@, fresh),
    {
        let candidate = ItemId { bits: id::random_id_bits() };
        if self.index_of(candidate).is_none() {
            return candidate;
        }
        let n = self.items.len() as u128;
        let mut b: u128 = 0;
        while b <= n
            invariant
                b <= n + 1,
                n == self@.len(),
                n < u128::MAX,
                forall|k: u128| k < b ==> #[trigger] has_bits(self@, k),
            decreases n + 1 - b,
        {
            let small = ItemId { bits: b };
            if self.index_of(small).is_none() {
                return small;
            }
            proof {
                lemma_first_index_of(self@, small);
                assert(self@[first_index_of(self@, small)].id == small);
                assert(has_bits(self@, b));
            }
            b = b + 1;
        }
        proof {
            lemma_small_id_free(self@);
            let w = choose|w: u128| w <= self@.len() && !has_bits(self@, w);
            assert(has_bits(self@, w));
            assert(false);
        }
        ItemId { bits: 0 }
    }

    /// Allocates a fresh, never-before-seen identity and returns it together
    /// with the transition that, on apply, inserts `Item { id, value }` at
    /// the end.  Constructing the pair mutates nothing.  Independently
    /// produced appends do not collide, because ids are drawn from the
    /// 128-bit space.
    pub fn append(&self, value: T) -> (r: (ItemId, ListTransition<T>))
        ensures
            !has_id(self@, r.0),
            r.1@ == ListTransitionV::<<T as View>::V, <<T as StateMachine>::Transition as View>::V>::Append(r.0, value@),
    {
        let fresh = self.fresh_id();
        (fresh, ListTransition::Append(fresh, value))
    }

    /// Reads the current value of the item with identity `id`, obtains the
    /// inner transition `f` builds from it, and wraps it in the addressing
    /// envelope scoped to that item; `None` if the id is absent right now.
    pub fn map_item<F: Fn(&T) -> <T as StateMachine>::Transition>(
        &self,
        id: ItemId,
        f: F,
    ) -> (r: Option<ListTransition<T>>)
        requires
            forall|v: &T| #[trigger] f.requires((v,)),
        ensures
            match r {
                Some(t) => has_id(self@, id) && exists|inner: <T as StateMachine>::Transition|
                    {
                        &&& #[trigger] call_ensures(
                            f,
                            (&self.items@[first_index_of(self@, id)].value,),
                            inner,
                        )
                        &&& t@ == ListTransitionV::<<T as View>::V, <<T as StateMachine>::Transition as View>::V>::Apply(id, inner@)
                    },
                None => !has_id(self@, id),
            },
    {
        proof {
            lemma_first_index_of(self@, id);
        }
        match self.index_of(id) {
            Some(j) => {
                let inner = f(&self.items[j].value);
                Some(ListTransition::Apply(id, inner))
            },
            None => None,
        }
    }
}

impl<T: StateMachine> StateMachine for List<T> {
    type Transition = ListTransition<T>;

    /// Appending a fresh identity inserts at the end; appending a present
    /// one is a no-op.  A targeted update rewrites exactly the addressed
    /// item's value through the inner machine; an absent id is a no-op.
    open spec fn next(
        pre: Seq<ItemV<<T as View>::V>>,
        t: ListTransitionV<<T as View>::V, <<T as StateMachine>::Transition as View>::V>,
    ) -> Seq<ItemV<<T as View>::V>> {
        match t {
            ListTransitionV::Append(id, v) => {
                if has_id(pre, id) {
                    pre
                } else {
                    pre.push(ItemV { id, value: v })
                }
            },
            ListTransitionV::Apply(id, inner) => {
                if first_index_of(pre, id) == -1 {
                    pre
                } else {
                    pre.update(
                        first_index_of(pre, id),
                        ItemV { id, value: T::next(pre[first_index_of(pre, id)].value, inner) },
                    )
                }
            },
        }
    }

    fn apply(&mut self, t: ListTransition<T>) {
        match t {
            ListTransition::Append(id, value) => {
                match self.index_of(id) {
                    Some(_) => {
                        proof {
                            lemma_first_index_of(self@, id);
                        }
                    },
                    None => {
                        self.items.push(Item { id, value });
                        proof {
                            assert(self@ =~= Self::next(old(self)@, ListTransitionV::Append(id, value@)));
                        }
                    },
                }
            },
            ListTransition::Apply(id, inner) => {
                match self.index_of(id) {
                    Some(j) => {
                        let ghost pre = self@;
                        let ghost oi = self.items@;
                        let mut item = self.items.remove(j);
                        let ghost v0 = item.value;
                        item.value.apply(inner);
                        self.items.insert(j, item);
                        proof {
                            lemma_first_index_of(pre, id);
                            let target = ItemV {
                                id,
                                value: T::next(pre[j as int].value, inner@),
                            };
                            let post = pre.update(j as int, target);
                            oi.remove_ensures(j as int);
                            oi.remove(j as int).insert_ensures(j as int, item);
                            assert(pre[j as int].id == id);
                            assert forall|k: int| 0 <= k < pre.len() implies #[trigger] self@[k]
                                == post[k] by {
                                if k < j as int {
                                    assert(self.items@[k] == oi[k]);
                                } else if k == j as int {
                                    assert(self.items@[k] == item);
                                    assert(item@ == target);
                                } else {
                                    assert(oi.remove(j as int).insert(j as int, item)[k] == oi
                                        .remove(j as int)[k - 1]);
                                    assert(self.items@[k] == oi[k]);
                                }
                            }
                            assert(self@ =~= post);
                        }
                    },
                    None => {},
                }
            },
        }
    }
}

/// Collection append identity: applying an append whose identity is fresh —
/// as the ids [`List::append`] allocates are — grows the collection by
/// exactly one, leaves every prior item untouched in its place, and makes
/// the new value retrievable under the returned identity.
pub proof fn lemma_append_identity<T: StateMachine>(
    pre: Seq<ItemV<<T as View>::V>>,
    id: ItemId,
    v: <T as View>::V,
)
    requires
        !has_id(pre, id),
    ensures
        List::<T>::next(pre, ListTransitionV::Append(id, v)) == pre.push(ItemV { id, value: v }),
        List::<T>::next(pre, ListTransitionV::Append(id, v)).len() == pre.len() + 1,
        forall|k: int|
            0 <= k < pre.len() ==> #[trigger] List::<T>::next(
                pre,
                ListTransitionV::Append(id, v),
            )[k] == pre[k],
        has_id(List::<T>::next(pre, ListTransitionV::Append(id, v)), id),
        first_index_of(List::<T>::next(pre, ListTransitionV::Append(id, v)), id) == pre.len(),
        List::<T>::next(pre, ListTransitionV::Append(id, v))[pre.len() as int].value == v,
{
    let post = pre.push(ItemV { id, value: v });
    assert(post[pre.len() as int].id == id);
    assert forall|k: int| 0 <= k < pre.len() implies post[k].id != id by {
        assert(post[k] == pre[k]);
    }
    lemma_first_index_found(post, id, pre.len() as int);
}

/// Targeted update isolation: a scoped update rewrites only the addressed
/// item's value; every other item, the addressed item's identity, the length
/// and the order are unchanged.  An absent identity changes nothing at all.
pub proof fn lemma_update_isolation<T: StateMachine>(
    pre: Seq<ItemV<<T as View>::V>>,
    id: ItemId,
    inner: <<T as StateMachine>::Transition as View>::V,
)
    ensures
        !has_id(pre, id) ==> List::<T>::next(pre, ListTransitionV::Apply(id, inner)) == pre,
        has_id(pre, id) ==> {
            &&& List::<T>::next(pre, ListTransitionV::Apply(id, inner)).len() == pre.len()
            &&& forall|k: int|
                0 <= k < pre.len() && k != first_index_of(pre, id) ==> #[trigger] List::<T>::next(
                    pre,
                    ListTransitionV::Apply(id, inner),
                )[k] == pre[k]
            &&& List::<T>::next(pre, ListTransitionV::Apply(id, inner))[first_index_of(pre, id)]
                == (ItemV {
                id,
                value: T::next(pre[first_index_of(pre, id)].value, inner),
            })
        },
{
    lemma_first_index_of(pre, id);
    if !has_id(pre, id) {
        assert(first_index_of(pre, id) == -1) by {
            if first_index_of(pre, id) != -1 {
                assert(has_id(pre, id));
            }
        }
    }
}

/// Identity uniqueness is an invariant: a collection with pairwise-distinct
/// identities keeps them pairwise distinct under every collection
/// transition.
pub proof fn lemma_ids_stay_distinct<T: StateMachine>(
    pre: Seq<ItemV<<T as View>::V>>,
    t: ListTransitionV<<T as View>::V, <<T as StateMachine>::Transition as View>::V>,
)
    requires
        distinct_ids(pre),
    ensures
        distinct_ids(List::<T>::next(pre, t)),
{
    match t {
        ListTransitionV::Append(id, v) => {
            if !has_id(pre, id) {
                let post = pre.push(ItemV { id, value: v });
                assert forall|j: int, k: int| 0 <= j < k < post.len() implies post[j].id
                    != post[k].id by {
                    assert(post[j] == pre[j]);
                    if k < pre.len() {
                        assert(post[k] == pre[k]);
                    }
                }
            }
        },
        ListTransitionV::Apply(id, inner) => {
            lemma_first_index_of(pre, id);
        },
    }
}

} // verus!
