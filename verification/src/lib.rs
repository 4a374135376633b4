//! Replicated application state for a small multiplayer tabletop companion:
//! a shared dice roller plus per-player character sheets.
//!
//! Every participant holds a copy of the [`Game`] aggregate and applies the
//! same stream of transitions in the same order; because each `apply` is a
//! pure function of the current state and the transition (the pseudo-random
//! generator's state travels inside the [`dice::Dice`] value), all copies
//! stay bit-for-bit identical.  Applying one transition is synchronous and
//! non-suspending, performs no input or output, and assumes exclusive access
//! to the state for its duration; ordering the stream identically on every
//! replica is the surrounding sequencer's obligation.

use vstd::prelude::*;

pub mod cell;
pub mod character;
pub mod dice;
pub mod id;
pub mod list;
pub mod machine;
pub mod rng;
pub mod snapshot;

pub use character::Character;

use crate::cell::AtomTransition;
use crate::character::{CharacterTransition, CharacterTransitionV, CharacterV};
use crate::dice::{Dice, DiceTransition, DiceTransitionV, DiceV};
use crate::id::ItemId;
use crate::list::{first_index_of, has_id, ItemV, List, ListTransition, ListTransitionV};
use crate::machine::StateMachine;

verus! {

/// The whole shared state: the dice and the character collection.
#[derive(Clone, Debug, PartialEq)]
pub struct Game {
    pub dice: Dice,
    pub characters: List<Character>,
}

/// The transition vocabulary the replication boundary carries.
pub enum GameTransition {
    /// Roll this many fresh dice; delegates verbatim to the dice aggregate.
    Roll(u8),
    /// Reroll the masked dice on behalf of the addressed character, spending
    /// one of that character's influence points: one indivisible transition
    /// across both aggregates.
    Reroll(Vec<bool>, ItemId),
    /// Any transition of the character collection: an append, a per-item
    /// update, or any other collection-level operation.
    CharacterTransition(ListTransition<Character>),
    /// Replace the character collection wholesale with the carried snapshot
    /// value, bypassing incremental history; prior item identities not
    /// present in the snapshot are discarded.  Dice and randomness state are
    /// untouched.
    Load(List<Character>),
}

/// The abstract value of a [`Game`].
#[verifier::ext_equal]
pub struct GameV {
    pub dice: DiceV,
    pub characters: Seq<ItemV<CharacterV>>,
}

/// The abstract value of a [`GameTransition`].
pub enum GameTransitionV {
    Roll(u8),
    Reroll(Seq<bool>, ItemId),
    CharacterTransition(ListTransitionV<CharacterV, CharacterTransitionV>),
    Load(Seq<ItemV<CharacterV>>),
}

impl View for Game {
    type V = GameV;

    open spec fn view(&self) -> GameV {
        GameV { dice: self.dice@, characters: self.characters@ }
    }
}

impl View for GameTransition {
    type V = GameTransitionV;

    open spec fn view(&self) -> GameTransitionV {
        match self {
            GameTransition::Roll(n) => GameTransitionV::Roll(*n),
            GameTransition::Reroll(mask, cid) => GameTransitionV::Reroll(mask@, *cid),
            GameTransition::CharacterTransition(t) => GameTransitionV::CharacterTransition(t@),
            GameTransition::Load(l) => GameTransitionV::Load(l@),
        }
    }
}

/// What a reroll request against character `cid` yields.  While the
/// character exists and has influence left, the dice are rerolled and
/// exactly one influence point is spent, indivisibly; an exhausted character
/// or an unknown id leaves the whole state unchanged — deliberately a no-op,
/// not an error, so two racing requests against a last point resolve purely
/// by transition order.
pub open spec fn reroll_next(pre: GameV, mask: Seq<bool>, cid: ItemId) -> GameV {
    let j = first_index_of(pre.characters, cid);
    if j >= 0 && pre.characters[j].value.influence_points > 0 {
        GameV {
            dice: dice::reroll_next(pre.dice, mask),
            characters: <List<Character> as StateMachine>::next(
                pre.characters,
                ListTransitionV::Apply(
                    cid,
                    CharacterTransitionV::InfluencePoints(
                        (pre.characters[j].value.influence_points - 1) as u8,
                    ),
                ),
            ),
        }
    } else {
        pre
    }
}

impl StateMachine for Game {
    type Transition = GameTransition;

    open spec fn next(pre: GameV, t: GameTransitionV) -> GameV {
        match t {
            GameTransitionV::Roll(n) => GameV { dice: dice::roll_next(pre.dice, n), ..pre },
            GameTransitionV::Reroll(mask, cid) => reroll_next(pre, mask, cid),
            GameTransitionV::CharacterTransition(lt) => GameV {
                characters: <List<Character> as StateMachine>::next(pre.characters, lt),
                ..pre
            },
            GameTransitionV::Load(l) => GameV { characters: l, ..pre },
        }
    }

    fn apply(&mut self, t: GameTransition) {
        match t {
            GameTransition::Roll(n) => {
                self.dice.apply(DiceTransition::Roll(n));
                proof {
                    assert(self@ =~= Self::next(old(self)@, GameTransitionV::Roll(n)));
                }
            },
            GameTransition::Reroll(mask, cid) => {
                let ghost mv = mask@;
                match self.characters.index_of(cid) {
                    Some(j) => {
                        proof {
                            list::lemma_first_index_of(self.characters@, cid);
                        }
                        let points = *self.characters.index(j).value.influence_points.value();
                        if points > 0 {
                            self.dice.apply(DiceTransition::Reroll(mask));
                            self.characters.apply(
                                ListTransition::Apply(
                                    cid,
                                    CharacterTransition::InfluencePoints(
                                        AtomTransition::Replace(points - 1),
                                    ),
                                ),
                            );
                        }
                        proof {
                            assert(self@ =~= reroll_next(old(self)@, mv, cid));
                        }
                    },
                    None => {
                        proof {
                            assert(self@ =~= reroll_next(old(self)@, mv, cid));
                        }
                    },
                }
            },
            GameTransition::CharacterTransition(lt) => {
                self.characters.apply(lt);
                proof {
                    assert(self@ =~= Self::next(old(self)@, t@));
                }
            },
            GameTransition::Load(l) => {
                self.characters = l;
                proof {
                    assert(self@ =~= Self::next(old(self)@, t@));
                }
            },
        }
    }
}

impl Default for Game {
    /// The initial state: a freshly entropy-seeded dice value with an empty
    /// history, and an empty character collection.
    fn default() -> (g: Game)
        ensures
            g@.dice.rolls == Seq::<u8>::empty(),
            g@.dice.last_rolled == Seq::<bool>::empty(),
            g@.dice.roll_id == 0,
            g@.characters == Seq::<ItemV<CharacterV>>::empty(),
    {
        Game { dice: Dice::default(), characters: List::new() }
    }
}

/// Reroll-gating, one step: while the addressed character has influence
/// left, a reroll spends exactly one point — the dice are rerolled (visible
/// in the changed counter) and nothing else of any character moves; against
/// an exhausted or unknown character the whole state, dice and points alike,
/// is exactly unchanged.
pub proof fn lemma_reroll_gating(pre: GameV, mask: Seq<bool>, cid: ItemId)
    ensures
        has_id(pre.characters, cid) && pre.characters[first_index_of(
            pre.characters,
            cid,
        )].value.influence_points > 0 ==> {
            let j = first_index_of(pre.characters, cid);
            let post = reroll_next(pre, mask, cid);
            &&& post.dice == dice::reroll_next(pre.dice, mask)
            &&& post.dice.roll_id != pre.dice.roll_id
            &&& post.characters.len() == pre.characters.len()
            &&& post.characters[j].id == cid
            &&& post.characters[j].value == (CharacterV {
                influence_points: (pre.characters[j].value.influence_points - 1) as u8,
                ..pre.characters[j].value
            })
            &&& forall|k: int|
                0 <= k < pre.characters.len() && k != j ==> #[trigger] post.characters[k]
                    == pre.characters[k]
        },
        !has_id(pre.characters, cid) ==> reroll_next(pre, mask, cid) == pre,
        has_id(pre.characters, cid) && pre.characters[first_index_of(
            pre.characters,
            cid,
        )].value.influence_points == 0 ==> reroll_next(pre, mask, cid) == pre,
{
    list::lemma_first_index_of(pre.characters, cid);
    let j = first_index_of(pre.characters, cid);
    if !has_id(pre.characters, cid) {
        assert(j == -1) by {
            if j != -1 {
                assert(has_id(pre.characters, cid));
            }
        }
    } else if pre.characters[j].value.influence_points > 0 {
        let inner = CharacterTransitionV::InfluencePoints(
            (pre.characters[j].value.influence_points - 1) as u8,
        );
        list::lemma_update_isolation::<Character>(pre.characters, cid, inner);
        assert(reroll_next(pre, mask, cid).characters[j].value =~= (CharacterV {
            influence_points: (pre.characters[j].value.influence_points - 1) as u8,
            ..pre.characters[j].value
        }));
    }
}

/// Iterated reroll-gating: a character holding `k` influence points funds at
/// most `k` rerolls.  After `m <= k` of them, `k - m` points remain and the
/// rest of that character and all other characters are untouched; and once
/// the points are spent (`m == k`), one further reroll request changes
/// nothing at all.
pub open spec fn reroll_times(pre: GameV, mask: Seq<bool>, cid: ItemId, m: nat) -> GameV
    decreases m,
{
    if m == 0 {
        pre
    } else {
        reroll_next(reroll_times(pre, mask, cid, (m - 1) as nat), mask, cid)
    }
}

pub proof fn lemma_reroll_exhaustion(pre: GameV, mask: Seq<bool>, cid: ItemId, m: nat)
    requires
        has_id(pre.characters, cid),
        m <= pre.characters[first_index_of(pre.characters, cid)].value.influence_points,
    ensures
        ({
            let j = first_index_of(pre.characters, cid);
            let post = reroll_times(pre, mask, cid, m);
            &&& post.characters.len() == pre.characters.len()
            &&& first_index_of(post.characters, cid) == j
            &&& has_id(post.characters, cid)
            &&& post.characters[j].id == pre.characters[j].id
            &&& post.characters[j].value == (CharacterV {
                influence_points: (pre.characters[j].value.influence_points - m) as u8,
                ..pre.characters[j].value
            })
            &&& forall|k: int|
                0 <= k < pre.characters.len() && k != j ==> #[trigger] post.characters[k]
                    == pre.characters[k]
            &&& (m == pre.characters[j].value.influence_points ==> reroll_next(post, mask, cid)
                == post)
        }),
    decreases m,
{
    list::lemma_first_index_of(pre.characters, cid);
    let j = first_index_of(pre.characters, cid);
    if m == 0 {
        lemma_reroll_gating(pre, mask, cid);
        assert(pre.characters[j].value =~= (CharacterV {
            influence_points: (pre.characters[j].value.influence_points - 0) as u8,
            ..pre.characters[j].value
        }));
    } else {
        lemma_reroll_exhaustion(pre, mask, cid, (m - 1) as nat);
        let mid = reroll_times(pre, mask, cid, (m - 1) as nat);
        list::lemma_first_index_of(mid.characters, cid);
        lemma_reroll_gating(mid, mask, cid);
        let post = reroll_times(pre, mask, cid, m);
        assert(post == reroll_next(mid, mask, cid));
        assert(post.characters[j].id == cid);
        assert forall|k: int| 0 <= k < j implies post.characters[k].id != cid by {
            assert(post.characters[k] == mid.characters[k]);
            assert(mid.characters[k] == pre.characters[k]);
        }
        list::lemma_first_index_found(post.characters, cid, j);
        assert(has_id(post.characters, cid));
        assert(post.characters[j].value =~= (CharacterV {
            influence_points: (pre.characters[j].value.influence_points - m) as u8,
            ..pre.characters[j].value
        }));
        if m == pre.characters[j].value.influence_points {
            lemma_reroll_gating(post, mask, cid);
        }
    }
}

/// Determinism of game replay: equal initial values driven through one and
/// the same finite transition sequence end bit-for-bit equal — dice history,
/// change counter, generator position and every character all agree.
pub proof fn lemma_game_determinism(a: GameV, b: GameV, ts: Seq<GameTransitionV>)
    requires
        a == b,
    ensures
        machine::next_seq::<Game>(a, ts) == machine::next_seq::<Game>(b, ts),
{
}

} // verus!
