//! The closed set of behavioral states and the forced-transition cycle.

use vstd::prelude::*;

verus! {

/// Coarse gameplay mode of an animated character. It decides which animation
/// clip the character plays; the state clock forces a transition along a fixed
/// round-robin cycle.
#[derive(Clone, Copy, Debug, PartialEq, Eq, Structural, Hash)]
pub enum BehavioralState {
    Idle,
    Walking,
    Attack,
    OnHit,
    Death,
}

/// The fixed transition order of the forced state cycle:
/// `Idle -> Walking -> Attack -> OnHit -> Death -> Idle`.
pub open spec fn successor_spec(s: BehavioralState) -> BehavioralState {
    match s {
        BehavioralState::Idle => BehavioralState::Walking,
        BehavioralState::Walking => BehavioralState::Attack,
        BehavioralState::Attack => BehavioralState::OnHit,
        BehavioralState::OnHit => BehavioralState::Death,
        BehavioralState::Death => BehavioralState::Idle,
    }
}

/// `successor_spec` applied `n` times.
pub open spec fn successor_n(s: BehavioralState, n: nat) -> BehavioralState
    decreases n,
{
    if n == 0 {
        s
    } else {
        successor_spec(successor_n(s, (n - 1) as nat))
    }
}

impl BehavioralState {
    /// The state that the forced round-robin transition moves to from `self`.
    pub fn successor(self) -> (r: BehavioralState)
        ensures
            r == successor_spec(self),
    {
        match self {
            BehavioralState::Idle => BehavioralState::Walking,
            BehavioralState::Walking => BehavioralState::Attack,
            BehavioralState::Attack => BehavioralState::OnHit,
            BehavioralState::OnHit => BehavioralState::Death,
            BehavioralState::Death => BehavioralState::Idle,
        }
    }
}

/// Law: the successor function is a closed 5-cycle. Applying it five times
/// from any state returns to that state, and applying it fewer times (but at
/// least once) never does, so the cycle has no fixed points and no shorter
/// sub-cycle.
pub proof fn lemma_round_robin_closure(s: BehavioralState)
    ensures
        successor_n(s, 5) == s,
        forall|k: nat| 0 < k < 5 ==> successor_n(s, k) != s,
{
    reveal_with_fuel(successor_n, 6);
    assert forall|k: nat| 0 < k < 5 implies successor_n(s, k) != s by {
        if k == 1 {
            assert(successor_n(s, 1) != s);
        } else if k == 2 {
            assert(successor_n(s, 2) != s);
        } else if k == 3 {
            assert(successor_n(s, 3) != s);
        } else {
            assert(k == 4);
            assert(successor_n(s, 4) != s);
        }
    }
}

} // verus!
