//! The transition engine: the general contract "current state + transition
//! gives next state", applied sequentially by an external sequencer.

use vstd::prelude::*;

verus! {

/// A replicated state machine.
///
/// A type implementing this trait describes its abstract state (`Self::V`,
/// through [`View`]) and a pure transition function [`StateMachine::next`]
/// over that abstract state.  The executable [`StateMachine::apply`] is
/// required to realise exactly that function, so replaying one transition
/// stream on two copies of a state can never make them diverge.
pub trait StateMachine: View + Sized {
    /// The transition vocabulary of this state machine.
    type Transition: View;

    /// The transition function: what applying `t` to the state `pre` yields.
    spec fn next(pre: Self::V, t: <Self::Transition as View>::V) -> Self::V;

    /// Applies one transition in place.  `apply` is total: every transition
    /// is accepted, and degenerate ones (an absent id, an exhausted
    /// resource) degrade to no-ops rather than failing, so that replay can
    /// never diverge on error handling.
    fn apply(&mut self, t: Self::Transition)
        ensures
            final(self)@ == Self::next(old(self)@, t@),
    ;
}

/// Applying a whole transition sequence, front to back.
pub open spec fn next_seq<M: StateMachine>(
    pre: M::V,
    ts: Seq<<M::Transition as View>::V>,
) -> M::V
    decreases ts.len(),
{
    if ts.len() == 0 {
        pre
    } else {
        next_seq::<M>(M::next(pre, ts[0]), ts.drop_first())
    }
}

/// Determinism of replay: equal initial states driven through one and the
/// same finite transition sequence end in equal states.  This holds because
/// `next` is a function of the state and the transition alone.
pub proof fn lemma_replay_deterministic<M: StateMachine>(
    a: M::V,
    b: M::V,
    ts: Seq<<M::Transition as View>::V>,
)
    requires
        a == b,
    ensures
        next_seq::<M>(a, ts) == next_seq::<M>(b, ts),
{
}

} // verus!
