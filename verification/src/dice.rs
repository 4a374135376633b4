//! The dice aggregate: a roll history, a per-die "just changed" marker
//! sequence, a wrapping change counter, and an embedded pseudo-random
//! generator whose state is part of the aggregate's own value.
//!
//! Each die face is drawn independently and uniformly from the four-sided
//! domain `DIE_MIN..=DIE_MAX`.  The generator is seeded once at construction
//! and thereafter advanced only as a side effect of draws, never reseeded or
//! forked, so that replaying one transition stream reproduces the same faces
//! on every replica.

use crate::machine::StateMachine;
use crate::rng;
use rand_chacha::ChaCha12Rng;
use vstd::prelude::*;

verus! {

/// The smallest die face.
pub const DIE_MIN: u8 = 1;

/// The largest die face.
pub const DIE_MAX: u8 = 4;

/// The dice aggregate.
#[derive(Clone, Debug, PartialEq)]
pub struct Dice {
    /// The current roll, one face value per die.
    pub rolls: Vec<u8>,
    /// Per die, whether the last dice transition changed it; always as long
    /// as `rolls`.
    pub last_rolled: Vec<bool>,
    /// Change-detection signal: bumped (wrapping) by every dice-affecting
    /// transition, so that rolling the same faces again is still visible.
    /// Only inequality of two values means anything, never their order.
    pub roll_id: u8,
    /// The embedded deterministic pseudo-random generator state.  Never
    /// duplicate it into two states that both keep advancing: that would
    /// silently fork the randomness stream and break replay equivalence.
    pub rng: ChaCha12Rng,
}

/// A transition on the dice.
#[derive(Clone, Debug, PartialEq)]
pub enum DiceTransition {
    /// Replace the whole roll with this many freshly drawn dice.
    Roll(u8),
    /// Redraw exactly the dice whose index the mask selects.
    Reroll(Vec<bool>),
}

/// The abstract value of a [`Dice`].
#[verifier::ext_equal]
pub struct DiceV {
    pub rolls: Seq<u8>,
    pub last_rolled: Seq<bool>,
    pub roll_id: u8,
    pub rng: ChaCha12Rng,
}

/// The abstract value of a [`DiceTransition`].
pub enum DiceTransitionV {
    Roll(u8),
    Reroll(Seq<bool>),
}

impl View for Dice {
    type V = DiceV;

    open spec fn view(&self) -> DiceV {
        DiceV {
            rolls: self.rolls@,
            last_rolled: self.last_rolled@,
            roll_id: self.roll_id,
            rng: self.rng,
        }
    }
}

impl View for DiceTransition {
    type V = DiceTransitionV;

    open spec fn view(&self) -> DiceTransitionV {
        match self {
            DiceTransition::Roll(n) => DiceTransitionV::Roll(*n),
            DiceTransition::Reroll(mask) => DiceTransitionV::Reroll(mask@),
        }
    }
}

/// One die draw: the sampled face and the generator state left behind.
pub open spec fn die_draw(r: ChaCha12Rng) -> (u8, ChaCha12Rng) {
    rng::sample_uniform(r, DIE_MIN, DIE_MAX)
}

/// The sampler returns a face within the die's domain; this guard records
/// that bound in the model, so that laws about face values hold of every
/// generator state.  On values the sampler actually returns it is the
/// identity.
pub open spec fn as_face(v: u8) -> u8 {
    if DIE_MIN <= v <= DIE_MAX {
        v
    } else {
        DIE_MIN
    }
}

/// The generator state after `n` die draws.
pub open spec fn rng_after(r: ChaCha12Rng, n: nat) -> ChaCha12Rng
    decreases n,
{
    if n == 0 {
        r
    } else {
        die_draw(rng_after(r, (n - 1) as nat)).1
    }
}

/// The face produced by the `i`-th draw (counted from 0) out of state `r`.
pub open spec fn draw_at(r: ChaCha12Rng, i: nat) -> u8 {
    as_face(die_draw(rng_after(r, i)).0)
}

/// The change counter after one more dice-affecting transition: incremented,
/// wrapping around at the type's end.
pub open spec fn wrap_inc(x: u8) -> u8 {
    if x == 255 {
        0
    } else {
        (x + 1) as u8
    }
}

/// Whether the mask selects index `i` for redrawing.
pub open spec fn masked(mask: Seq<bool>, i: int) -> bool {
    0 <= i < mask.len() && mask[i]
}

/// How many indices below `i` the mask selects: the number of draws consumed
/// before the draw for index `i`.
pub open spec fn draws_before(mask: Seq<bool>, i: int) -> nat
    decreases i,
{
    if i <= 0 {
        0
    } else {
        draws_before(mask, i - 1) + (if masked(mask, i - 1) {
            1nat
        } else {
            0nat
        })
    }
}

/// What `Roll(n)` yields: `n` freshly drawn faces, every "just changed"
/// marker true, the counter bumped, the generator advanced by `n` draws.
/// Any prior roll, of whatever length, is replaced.
pub open spec fn roll_next(pre: DiceV, n: u8) -> DiceV {
    DiceV {
        rolls: Seq::new(n as nat, |i: int| draw_at(pre.rng, i as nat)),
        last_rolled: Seq::new(n as nat, |i: int| true),
        roll_id: wrap_inc(pre.roll_id),
        rng: rng_after(pre.rng, n as nat),
    }
}

/// What `Reroll(mask)` yields: each selected index gets a fresh face, drawn
/// in index order; unselected indices, and indices beyond the mask's length,
/// keep their face.  The markers become the mask, truncated or extended with
/// `false` to the roll's length, and the counter is bumped.  Mask entries
/// beyond the roll's length select nothing and consume no draw.
pub open spec fn reroll_next(pre: DiceV, mask: Seq<bool>) -> DiceV {
    DiceV {
        rolls: Seq::new(
            pre.rolls.len(),
            |i: int|
                if masked(mask, i) {
                    draw_at(pre.rng, draws_before(mask, i))
                } else {
                    pre.rolls[i]
                },
        ),
        last_rolled: Seq::new(pre.rolls.len(), |i: int| masked(mask, i)),
        roll_id: wrap_inc(pre.roll_id),
        rng: rng_after(pre.rng, draws_before(mask, pre.rolls.len() as int)),
    }
}

impl Dice {
    /// A dice aggregate with an empty history, seeded reproducibly: two
    /// replicas constructed with the same seed hold equal values.
    pub fn with_seed(seed: u64) -> (d: Dice)
        ensures
            d@.rolls == Seq::<u8>::empty(),
            d@.last_rolled == Seq::<bool>::empty(),
            d@.roll_id == 0,
            d@.rng == rng::rng_of_seed(seed),
    {
        Dice { rolls: Vec::new(), last_rolled: Vec::new(), roll_id: 0, rng: rng::seed_rng(seed) }
    }
}

impl Default for Dice {
    /// A dice aggregate with an empty history, seeded once from the
    /// operating system's entropy; nothing is known of the generator state.
    fn default() -> (d: Dice)
        ensures
            d@.rolls == Seq::<u8>::empty(),
            d@.last_rolled == Seq::<bool>::empty(),
            d@.roll_id == 0,
    {
        Dice {
            rolls: Vec::new(),
            last_rolled: Vec::new(),
            roll_id: 0,
            rng: rng::entropy_rng(),
        }
    }
}

impl StateMachine for Dice {
    type Transition = DiceTransition;

    open spec fn next(pre: DiceV, t: DiceTransitionV) -> DiceV {
        match t {
            DiceTransitionV::Roll(n) => roll_next(pre, n),
            DiceTransitionV::Reroll(mask) => reroll_next(pre, mask),
        }
    }

    fn apply(&mut self, t: DiceTransition) {
        match t {
            DiceTransition::Roll(n) => {
                let ghost r0 = self.rng;
                let count = n as usize;
                let mut rolls: Vec<u8> = Vec::new();
                let mut last: Vec<bool> = Vec::new();
                let mut i: usize = 0;
                while i < count
                    invariant
                        i <= count,
                        self.roll_id == old(self)@.roll_id,
                        rolls@.len() == i as nat,
                        last@.len() == i as nat,
                        self.rng == rng_after(r0, i as nat),
                        forall|j: int|
                            0 <= j < i ==> rolls@[j] == draw_at(r0, j as nat) && last@[j],
                    decreases count - i,
                {
                    let ghost rpre = self.rng;
                    let v = rng::sample_range(&mut self.rng, DIE_MIN, DIE_MAX);
                    proof {
                        assert(rng_after(r0, (i + 1) as nat) == die_draw(rng_after(r0, i as nat)).1);
                        assert(draw_at(r0, i as nat) == as_face(die_draw(rpre).0));
                    }
                    rolls.push(v);
                    last.push(true);
                    i = i + 1;
                }
                self.rolls = rolls;
                self.last_rolled = last;
                self.roll_id = if self.roll_id == 255 {
                    0
                } else {
                    self.roll_id + 1
                };
                proof {
                    assert(self@ =~= roll_next(old(self)@, n));
                }
            },
            DiceTransition::Reroll(mask) => {
                let ghost r0 = self.rng;
                let ghost m = mask@;
                let len = self.rolls.len();
                let mut rolls: Vec<u8> = Vec::new();
                let mut last: Vec<bool> = Vec::new();
                let mut i: usize = 0;
                while i < len
                    invariant
                        i <= len,
                        len == self.rolls@.len(),
                        self.rolls@ == old(self)@.rolls,
                        self.roll_id == old(self)@.roll_id,
                        m == mask@,
                        rolls@.len() == i as nat,
                        last@.len() == i as nat,
                        self.rng == rng_after(r0, draws_before(m, i as int)),
                        forall|j: int|
                            0 <= j < i ==> rolls@[j] == (if masked(m, j) {
                                draw_at(r0, draws_before(m, j))
                            } else {
                                old(self)@.rolls[j]
                            }),
                        forall|j: int| 0 <= j < i ==> last@[j] == masked(m, j),
                    decreases len - i,
                {
                    let selected = i < mask.len() && mask[i];
                    proof {
                        assert(draws_before(m, i + 1) == draws_before(m, i as int) + (
                        if masked(m, i as int) {
                            1nat
                        } else {
                            0nat
                        }));
                    }
                    if selected {
                        let ghost rpre = self.rng;
                        let v = rng::sample_range(&mut self.rng, DIE_MIN, DIE_MAX);
                        proof {
                            assert(draw_at(r0, draws_before(m, i as int)) == as_face(
                                die_draw(rpre).0,
                            ));
                        }
                        rolls.push(v);
                    } else {
                        let kept = self.rolls[i];
                        rolls.push(kept);
                    }
                    last.push(selected);
                    i = i + 1;
                }
                self.rolls = rolls;
                self.last_rolled = last;
                self.roll_id = if self.roll_id == 255 {
                    0
                } else {
                    self.roll_id + 1
                };
                proof {
                    assert(self@ =~= reroll_next(old(self)@, m));
                }
            },
        }
    }
}

/// Roll bounds, of every prior state and every count: `Roll(n)` yields
/// exactly `n` faces, as many markers, every face within the die's domain,
/// and every marker true.
pub proof fn lemma_roll_bounds(pre: DiceV, n: u8)
    ensures
        roll_next(pre, n).rolls.len() == n as nat,
        roll_next(pre, n).last_rolled.len() == n as nat,
        forall|i: int|
            0 <= i < n as nat ==> DIE_MIN <= #[trigger] roll_next(pre, n).rolls[i] <= DIE_MAX,
        forall|i: int| 0 <= i < n as nat ==> #[trigger] roll_next(pre, n).last_rolled[i],
{
}

/// Reroll mask semantics, of every prior state and every mask: faces at
/// unselected indices, and at indices beyond the mask, stay exactly as they
/// were; selected indices carry a face within the die's domain; the markers
/// become the mask, truncated or extended with `false` to the roll's length;
/// the history keeps its length.
pub proof fn lemma_reroll_mask(pre: DiceV, mask: Seq<bool>)
    ensures
        reroll_next(pre, mask).rolls.len() == pre.rolls.len(),
        reroll_next(pre, mask).last_rolled.len() == pre.rolls.len(),
        forall|i: int|
            0 <= i < pre.rolls.len() && !masked(mask, i) ==> #[trigger] reroll_next(
                pre,
                mask,
            ).rolls[i] == pre.rolls[i],
        forall|i: int|
            0 <= i < pre.rolls.len() && masked(mask, i) ==> DIE_MIN <= #[trigger] reroll_next(
                pre,
                mask,
            ).rolls[i] <= DIE_MAX,
        forall|i: int|
            0 <= i < pre.rolls.len() ==> #[trigger] reroll_next(pre, mask).last_rolled[i]
                == masked(mask, i),
{
}

/// The dice aggregate's shape invariant: the marker sequence is exactly as
/// long as the roll history.
pub open spec fn dice_wf(d: DiceV) -> bool {
    d.last_rolled.len() == d.rolls.len()
}

/// Every dice transition leaves the aggregate well shaped, whatever shape it
/// had before: markers and history always come out the same length.
pub proof fn lemma_dice_wf(pre: DiceV, t: DiceTransitionV)
    ensures
        dice_wf(Dice::next(pre, t)),
{
}

/// The change-counter signal: every dice transition leaves a counter that
/// differs from the one before, so two consecutive transitions are always
/// visible, even when the face values come out unchanged.
pub proof fn lemma_change_counter(pre: DiceV, t: DiceTransitionV)
    ensures
        Dice::next(pre, t).roll_id == wrap_inc(pre.roll_id),
        Dice::next(pre, t).roll_id != pre.roll_id,
{
}

/// Determinism of dice replay: one transition sequence applied to two equal
/// dice values ends in equal values — the faces, the markers, the change
/// counter and the generator position all agree.
pub proof fn lemma_dice_determinism(a: DiceV, b: DiceV, ts: Seq<DiceTransitionV>)
    requires
        a == b,
    ensures
        crate::machine::next_seq::<Dice>(a, ts) == crate::machine::next_seq::<Dice>(b, ts),
        crate::machine::next_seq::<Dice>(a, ts).rolls == crate::machine::next_seq::<Dice>(
            b,
            ts,
        ).rolls,
        crate::machine::next_seq::<Dice>(a, ts).roll_id == crate::machine::next_seq::<Dice>(
            b,
            ts,
        ).roll_id,
        crate::machine::next_seq::<Dice>(a, ts).rng == crate::machine::next_seq::<Dice>(
            b,
            ts,
        ).rng,
{
}

} // verus!
