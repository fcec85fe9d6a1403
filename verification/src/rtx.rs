//! The ray-tracing lifecycle. There is no ray-tracing pipeline, so it never becomes active.

use vstd::prelude::*;

verus! {

#[derive(Clone, Copy, Debug, PartialEq, Eq, Structural)]
pub struct RtxState {
    pub supported: bool,
    pub requested: bool,
    pub configured: bool,
    pub building: bool,
    pub active: bool,
    pub stale: bool,
    pub failed: bool,
}

impl Default for RtxState {
    fn default() -> (r: Self)
        ensures
            r == (RtxState {
                supported: false,
                requested: false,
                configured: false,
                building: false,
                active: false,
                stale: false,
                failed: false,
            }),
    {
        RtxState {
            supported: false,
            requested: false,
            configured: false,
            building: false,
            active: false,
            stale: false,
            failed: false,
        }
    }
}

/// The state as it is now.
pub fn snapshot(state: &RtxState) -> (r: RtxState)
    ensures
        r == *state,
{
    *state
}

/// A state after a request: asking never activates, and withdrawing clears what was begun.
pub open spec fn after_request(s: RtxState, requested: bool) -> RtxState {
    RtxState {
        supported: s.supported,
        requested,
        configured: requested && s.configured,
        building: requested && s.building,
        active: false,
        stale: requested && s.stale,
        failed: requested && s.failed,
    }
}

/// Asks for ray tracing, or withdraws the request. Never sets `active`.
pub fn set_requested(state: &mut RtxState, requested: bool) -> (r: RtxState)
    ensures
        *final(state) == after_request(*old(state), requested),
        r == *final(state),
{
    state.requested = requested;
    if !requested {
        state.configured = false;
        state.building = false;
        state.stale = false;
        state.failed = false;
    }
    state.active = false;
    *state
}

/// The state after a series of requests.
pub open spec fn after_requests(s: RtxState, requests: Seq<bool>) -> RtxState
    decreases requests.len(),
{
    if requests.len() == 0 {
        s
    } else {
        after_request(after_requests(s, requests.drop_last()), requests.last())
    }
}

/// No series of requests activates ray tracing, nor does it change what is supported.
pub proof fn never_active(s: RtxState, requests: Seq<bool>)
    requires
        !s.active,
    ensures
        !after_requests(s, requests).active,
        after_requests(s, requests).supported == s.supported,
    decreases requests.len(),
{
    if requests.len() > 0 {
        never_active(s, requests.drop_last());
    }
}

} // verus!
