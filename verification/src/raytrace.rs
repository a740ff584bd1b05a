//! The cached handle of the engine's line-trace function.

use vstd::prelude::*;

verus! {

/// Whether the line-trace function was looked up, and what was found (0: nothing).
#[derive(Clone, Copy, Debug, PartialEq, Eq, Structural)]
pub struct RaytraceState {
    pub line_trace_fn: usize,
    pub initialized: bool,
}

/// The state before any lookup.
pub open spec fn spec_state() -> RaytraceState {
    RaytraceState { line_trace_fn: 0, initialized: false }
}

/// The state before any lookup: nothing found, not looked up.
pub fn state() -> (s: RaytraceState)
    ensures
        s == spec_state(),
{
    RaytraceState { line_trace_fn: 0, initialized: false }
}

/// The state after [`ensure_initialized`] with lookup result `found`, and its answer.
pub open spec fn spec_ensure_initialized(s: RaytraceState, found: Option<usize>) -> (RaytraceState, bool) {
    if s.initialized {
        (s, s.line_trace_fn != 0)
    } else {
        let f = match found {
            Some(p) => p,
            None => 0,
        };
        (RaytraceState { line_trace_fn: f, initialized: true }, f != 0)
    }
}

/// Whether [`ensure_initialized`] will use a lookup result: only before the first lookup.
pub fn needs_lookup(state: &RaytraceState) -> (r: bool)
    ensures
        r == !state.initialized,
{
    !state.initialized
}

/// Records the result `found` of looking the line-trace function up, unless a
/// lookup was recorded before (then `found` is ignored). Answers whether a
/// function is known.
pub fn ensure_initialized(state: &mut RaytraceState, found: Option<usize>) -> (r: bool)
    ensures
        (*final(state), r) == spec_ensure_initialized(*old(state), found),
        final(state).initialized,
        r == (final(state).line_trace_fn != 0),
        old(state).initialized ==> *final(state) == *old(state),
        !old(state).initialized && found is Some ==> final(state).line_trace_fn == found->0,
        !old(state).initialized && found is None ==> final(state).line_trace_fn == 0,
{
    if state.initialized {
        return state.line_trace_fn != 0;
    }
    let fn_ptr = match found {
        Some(p) => p,
        None => 0,
    };
    state.line_trace_fn = fn_ptr;
    state.initialized = true;
    fn_ptr != 0
}

/// The recorded line-trace function, 0 where none is known.
pub fn line_trace_fn(state: &RaytraceState) -> (r: usize)
    ensures
        r == state.line_trace_fn,
{
    state.line_trace_fn
}

/// Once a lookup is recorded it stays: a later [`ensure_initialized`], whatever
/// its lookup result, leaves the state as it is and gives the same answer.
pub proof fn lemma_initialization_sticks(s: RaytraceState, first: Option<usize>, later: Option<usize>)
    ensures
        spec_ensure_initialized(spec_ensure_initialized(s, first).0, later) == spec_ensure_initialized(
            s,
            first,
        ),
{
}

/// The first recorded lookup keeps the pointer found exactly as it was found
/// (0 where nothing was found), and answers whether it is non-null.
pub proof fn lemma_first_lookup_kept_as_found(s: RaytraceState, found: Option<usize>)
    requires
        !s.initialized,
    ensures
        spec_ensure_initialized(s, found).0.initialized,
        found matches Some(p) ==> spec_ensure_initialized(s, found).0.line_trace_fn == p
            && spec_ensure_initialized(s, found).1 == (p != 0),
        found is None ==> spec_ensure_initialized(s, found).0.line_trace_fn == 0
            && !spec_ensure_initialized(s, found).1,
{
}

} // verus!
