//! The bounce decisions of the recursive radiance estimator.
//!
//! A path starts with a depth budget. While budget is left, the ray is traced
//! against the scene: a miss ends the path in the sky gradient, an absorbing
//! hit ends it in black, and a scattering hit continues with one bounce less.
//! A path whose budget is spent ends in black. The colors themselves (sky,
//! attenuation products) are the caller's to compute.
use vstd::prelude::*;

verus! {

/// What tracing one ray against the scene gave.
#[derive(Clone, Copy, Debug, PartialEq, Eq)]
pub enum TraceEvent {
    /// No primitive was hit.
    Miss,
    /// A primitive was hit and its material absorbed the ray.
    Absorbed,
    /// A primitive was hit and its material scattered the ray.
    Scattered,
}

/// What the estimator does next.
#[derive(Clone, Copy, Debug, PartialEq, Eq)]
pub enum PathStep {
    /// The path ends and gathers no light.
    Black,
    /// The path ends in the sky gradient along the current ray.
    Sky,
    /// Trace the current ray, with `depth` bounces left.
    Trace { depth: i32 },
}

/// The step for a ray with `depth` bounces left.
pub open spec fn start_spec(depth: int) -> PathStep {
    if depth <= 0 {
        PathStep::Black
    } else {
        PathStep::Trace { depth: depth as i32 }
    }
}

/// The step after tracing a ray that had `depth` bounces left.
pub open spec fn next_spec(depth: int, event: TraceEvent) -> PathStep {
    match event {
        TraceEvent::Miss => PathStep::Sky,
        TraceEvent::Absorbed => PathStep::Black,
        TraceEvent::Scattered => start_spec(depth - 1),
    }
}

/// Where a path that starts with `depth` bounces left stands after the
/// tracing results `events`, taken in order as long as it asks for them.
pub open spec fn run_path(depth: int, events: Seq<TraceEvent>) -> PathStep
    decreases events.len(),
{
    match start_spec(depth) {
        PathStep::Trace { depth: d } => if events.len() == 0 {
            PathStep::Trace { depth: d }
        } else {
            match events[0] {
                TraceEvent::Scattered => run_path(d - 1, events.drop_first()),
                e => next_spec(d as int, e),
            }
        },
        s => s,
    }
}

/// The first step of a path with the budget `depth`: black when no bounce is
/// left, else a trace.
pub fn first_step(depth: i32) -> (s: PathStep)
    ensures
        s == start_spec(depth as int),
        depth <= 0 ==> s == PathStep::Black,
{
    if depth <= 0 {
        PathStep::Black
    } else {
        PathStep::Trace { depth }
    }
}

/// The step after a ray with `depth` bounces left was traced with outcome
/// `event`.
pub fn next_step(depth: i32, event: TraceEvent) -> (s: PathStep)
    requires
        depth > 0,
    ensures
        s == next_spec(depth as int, event),
{
    match event {
        TraceEvent::Miss => PathStep::Sky,
        TraceEvent::Absorbed => PathStep::Black,
        TraceEvent::Scattered => first_step(depth - 1),
    }
}

/// A path with no bounce left gathers no light, whatever the scene would
/// have given.
pub proof fn lemma_zero_depth_is_black(depth: int, events: Seq<TraceEvent>)
    requires
        depth <= 0,
    ensures
        run_path(depth, events) == PathStep::Black,
{
}

/// A path traces at most `depth` rays: once that many results are in, it has
/// ended in black or in the sky.
pub proof fn lemma_path_ends_within_depth(depth: int, events: Seq<TraceEvent>)
    requires
        depth <= i32::MAX,
        events.len() >= depth,
    ensures
        run_path(depth, events) == PathStep::Black || run_path(depth, events) == PathStep::Sky,
    decreases events.len(),
{
    if depth > 0 && events[0] == TraceEvent::Scattered {
        lemma_path_ends_within_depth(depth - 1, events.drop_first());
    }
}

} // verus!
