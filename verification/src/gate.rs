//! Cooldown gate: decides whether a qualifying detection may fire an action
//! now, or must be suppressed until the configured cooldown has elapsed.

use vstd::prelude::*;

verus! {

/// Time of the last triggered action, in milliseconds on a monotonic clock,
/// or `None` when no action has been taken during this run.
#[derive(Clone, Copy, PartialEq, Eq, Structural, Debug)]
pub struct GateState {
    pub last_action_ms: Option<u64>,
}

impl GateState {
    /// A fresh gate with no prior action recorded.
    pub fn new() -> (r: GateState)
        ensures
            r.last_action_ms is None,
    {
        GateState { last_action_ms: None }
    }
}

/// Outcome of asking whether an action may fire.
#[derive(Clone, Copy, PartialEq, Eq, Structural, Debug)]
pub enum GateDecision {
    Permit,
    Suppressed { remaining_ms: u64 },
}

/// Milliseconds elapsed from `last` to `now`, zero when the clock reads
/// earlier than the recorded action.
pub open spec fn spec_elapsed(now_ms: u64, last_ms: u64) -> int {
    if now_ms >= last_ms {
        now_ms - last_ms
    } else {
        0
    }
}

/// The decision: permit when no action was recorded, or when the
/// cooldown has fully elapsed; otherwise suppress, reporting the remainder.
pub open spec fn spec_may_act(now_ms: u64, state: GateState, cooldown_ms: u64) -> GateDecision {
    match state.last_action_ms {
        None => GateDecision::Permit,
        Some(last) => if spec_elapsed(now_ms, last) >= cooldown_ms {
            GateDecision::Permit
        } else {
            GateDecision::Suppressed {
                remaining_ms: (cooldown_ms - spec_elapsed(now_ms, last)) as u64,
            }
        },
    }
}

/// Decide whether an action may fire at `now_ms`. Pure: the caller records
/// the action time itself after a successful action.
pub fn may_act(now_ms: u64, state: &GateState, cooldown_ms: u64) -> (r: GateDecision)
    ensures
        r == spec_may_act(now_ms, *state, cooldown_ms),
{
    match state.last_action_ms {
        None => GateDecision::Permit,
        Some(last) => {
            let elapsed: u64 = if now_ms >= last { now_ms - last } else { 0 };
            if elapsed >= cooldown_ms {
                GateDecision::Permit
            } else {
                GateDecision::Suppressed { remaining_ms: cooldown_ms - elapsed }
            }
        },
    }
}

/// Record that an action fired at `now_ms`.
pub fn record_action(state: &mut GateState, now_ms: u64)
    ensures
        final(state).last_action_ms == Some(now_ms),
{
    state.last_action_ms = Some(now_ms);
}

/// A run with no recorded action never suppresses: after a failed action
/// the caller leaves `GateState` untouched, so the next qualifying
/// detection is attempted again rather than held back by a spurious
/// cooldown.
pub proof fn lemma_unset_gate_permits(now_ms: u64, state: GateState, cooldown_ms: u64)
    requires
        state.last_action_ms is None,
    ensures
        spec_may_act(now_ms, state, cooldown_ms) == GateDecision::Permit,
{
}

} // verus!
