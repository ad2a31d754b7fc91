//! The resource governor: the limits attached to a sandbox session and the
//! counters that every evaluation keeps for heap, call-stack depth and
//! cooperative time checks.
use vstd::prelude::*;

verus! {

/// Hard ceiling on the number of time check points a single evaluation may
/// pass; the wall-clock deadline is expected to trip long before it.
pub const STEP_CAP: u64 = u64::MAX;

/// The three independent ceilings attached to a session at creation.
pub struct Limits {
    /// Heap allocation ceiling, in charged units (bytes of string data).
    pub max_heap_bytes: u64,
    /// Call-stack depth ceiling, in nested (non-tail) call frames.
    pub max_stack_depth: u64,
    /// Wall-clock deadline for one evaluation, in milliseconds.
    pub max_wall_ms: u64,
}

/// The default ceilings of the sandbox.
pub open spec fn default_limits() -> Limits {
    Limits { max_heap_bytes: 2_000_000, max_stack_depth: 10_000, max_wall_ms: 10_000 }
}

impl Limits {
    /// The default ceilings of the sandbox.
    pub fn new_default() -> (r: Limits)
        ensures
            r == default_limits(),
    {
        Limits { max_heap_bytes: 2_000_000, max_stack_depth: 10_000, max_wall_ms: 10_000 }
    }
}

impl Clone for Limits {
    fn clone(&self) -> (r: Limits)
        ensures
            r == *self,
    {
        Limits {
            max_heap_bytes: self.max_heap_bytes,
            max_stack_depth: self.max_stack_depth,
            max_wall_ms: self.max_wall_ms,
        }
    }
}

/// The per-evaluation accounting state: check points passed, heap units
/// charged, and current nested call depth.
pub struct Gov {
    pub steps: u64,
    pub heap: u64,
    pub depth: u64,
}

/// The counters a fresh session starts from.
pub open spec fn gov_zero() -> Gov {
    Gov { steps: 0, heap: 0, depth: 0 }
}

pub fn new_gov() -> (r: Gov)
    ensures
        r == gov_zero(),
{
    Gov { steps: 0, heap: 0, depth: 0 }
}

/// The counters after one passed time check point.
pub open spec fn gov_step(g: Gov) -> Gov
    recommends
        g.steps < STEP_CAP,
{
    Gov { steps: (g.steps + 1) as u64, heap: g.heap, depth: g.depth }
}

/// The counters after charging `n` heap units.
pub open spec fn gov_charge(g: Gov, n: u64) -> Gov
    recommends
        g.heap + n <= u64::MAX,
{
    Gov { steps: g.steps, heap: (g.heap + n) as u64, depth: g.depth }
}

/// Whether charging `n` more heap units stays under the ceiling.
pub open spec fn charge_fits(g: Gov, lim: Limits, n: u64) -> bool {
    g.heap + n <= lim.max_heap_bytes
}

#[verifier::external_type_specification]
#[verifier::external_body]
pub struct ExInstant(std::time::Instant);

/// Relies on std::time::Instant::now: an opaque reading of the monotonic
/// clock, used only as the anchor for elapsed-time measurements.
#[verifier::external_body]
pub(crate) fn clock_start() -> std::time::Instant {
    std::time::Instant::now()
}

/// Relies on std::time::Instant::elapsed: the wall-clock time since `start`,
/// converted to whole milliseconds. The reading depends on the clock, so
/// nothing is promised of it.
#[verifier::external_body]
pub(crate) fn elapsed_ms(start: &std::time::Instant) -> u64 {
    let ms = start.elapsed().as_millis();
    if ms > u64::MAX as u128 {
        u64::MAX
    } else {
        ms as u64
    }
}

/// One cooperative time check point. Returns true when the evaluation may go
/// on, in which case exactly one more check point has been recorded; returns
/// false when the deadline (or the hard step ceiling) has been reached, in
/// which case the counters are unchanged.
pub(crate) fn checkpoint(g: &mut Gov, lim: &Limits, clk: &std::time::Instant) -> (r: bool)
    ensures
        r ==> old(g).steps < STEP_CAP && *final(g) == gov_step(*old(g)),
        !r ==> *final(g) == *old(g),
{
    if g.steps >= STEP_CAP {
        return false;
    }
    let now = elapsed_ms(clk);
    if now >= lim.max_wall_ms {
        return false;
    }
    g.steps = g.steps + 1;
    true
}

/// Charge `n` heap units against the ceiling. Returns true when the charge
/// fits and has been recorded; false when it would exceed the ceiling, in
/// which case the counters are unchanged.
pub(crate) fn charge(g: &mut Gov, lim: &Limits, n: u64) -> (r: bool)
    ensures
        r == charge_fits(*old(g), *lim, n),
        r ==> *final(g) == gov_charge(*old(g), n),
        !r ==> *final(g) == *old(g),
{
    if n > lim.max_heap_bytes {
        return false;
    }
    if g.heap > lim.max_heap_bytes - n {
        return false;
    }
    g.heap = g.heap + n;
    true
}

} // verus!
