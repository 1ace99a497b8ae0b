use vstd::prelude::*;

verus! {

/// The number of bounces after which a light path is cut off and counts as
/// black.
pub const MAX_DEPTH: u64 = 50;

/// What the scene did with the ray at the current bounce.
#[derive(Clone, Copy, Debug, PartialEq, Eq, Structural)]
pub enum Event {
    /// The ray hit nothing and sees the sky.
    Escaped,
    /// The ray hit a surface whose material swallowed it.
    Absorbed,
    /// The ray hit a surface and was sent on as a new ray.
    Scattered,
}

/// Where a light path stands: how many bounces it has taken so far.
#[derive(Clone, Copy, Debug, PartialEq, Eq, Structural)]
pub struct Path {
    pub depth: u64,
}

/// What the integrator does next with a path.
#[derive(Clone, Copy, Debug, PartialEq, Eq, Structural)]
pub enum Step {
    /// Finish with the sky color, scaled by the attenuations collected.
    Background,
    /// Finish with black.
    Black,
    /// Follow the scattered ray, one bounce deeper.
    Bounce(Path),
}

/// How a whole path ended, and at which depth.
#[derive(Clone, Copy, Debug, PartialEq, Eq, Structural)]
pub enum Ending {
    Background,
    Black,
}

/// One step of the recursive color function: a path at the cap is black
/// whatever the scene does; below it, the sky ends it, absorption blackens
/// it, and a scatter takes it one bounce deeper.
pub open spec fn next_step(depth: u64, event: Event) -> Step {
    if depth >= MAX_DEPTH {
        Step::Black
    } else {
        match event {
            Event::Escaped => Step::Background,
            Event::Absorbed => Step::Black,
            Event::Scattered => Step::Bounce(Path { depth: (depth + 1) as u64 }),
        }
    }
}

/// The ending of a path that stands at `depth` when the scene answers
/// `events(d)` to the ray at each depth `d`, together with the depth at which
/// it ended.
pub open spec fn path_ending(depth: u64, events: spec_fn(u64) -> Event) -> (Ending, u64)
    decreases MAX_DEPTH - depth,
{
    match next_step(depth, events(depth)) {
        Step::Background => (Ending::Background, depth),
        Step::Black => (Ending::Black, depth),
        Step::Bounce(p) => path_ending(p.depth, events),
    }
}

impl Path {
    /// A path of no bounces yet: a camera ray.
    pub fn new() -> (p: Path)
        ensures
            p.depth == 0,
    {
        Path { depth: 0 }
    }

    /// Whether the path has reached the bounce cap, so that nothing more is
    /// traced along it.
    pub fn is_capped(&self) -> (r: bool)
        ensures
            r == (self.depth >= MAX_DEPTH),
    {
        self.depth >= MAX_DEPTH
    }

    /// Decides what follows `event` at this path's depth.
    pub fn next(&self, event: Event) -> (s: Step)
        ensures
            s == next_step(self.depth, event),
    {
        if self.depth >= MAX_DEPTH {
            Step::Black
        } else {
            match event {
                Event::Escaped => Step::Background,
                Event::Absorbed => Step::Black,
                Event::Scattered => Step::Bounce(Path { depth: self.depth + 1 }),
            }
        }
    }
}

/// Every path ends, whatever the scene does, at a depth no greater than
/// `MAX_DEPTH`, and never shallower than where it stood.
pub proof fn lemma_path_ends_by_cap(depth: u64, events: spec_fn(u64) -> Event)
    ensures
        depth <= path_ending(depth, events).1 <= if depth > MAX_DEPTH { depth } else { MAX_DEPTH },
    decreases MAX_DEPTH - depth,
{
    if depth < MAX_DEPTH && events(depth) == Event::Scattered {
        lemma_path_ends_by_cap((depth + 1) as u64, events);
    }
}

/// A path that is scattered at every surface, as between mirrors that enclose
/// the camera, ends black at exactly `MAX_DEPTH` bounces.
pub proof fn lemma_endless_mirrors_end_black(depth: u64, events: spec_fn(u64) -> Event)
    requires
        depth <= MAX_DEPTH,
        forall|d: u64| #[trigger] events(d) == Event::Scattered,
    ensures
        path_ending(depth, events) == (Ending::Black, MAX_DEPTH),
    decreases MAX_DEPTH - depth,
{
    if depth < MAX_DEPTH {
        assert(events(depth) == Event::Scattered);
        lemma_endless_mirrors_end_black((depth + 1) as u64, events);
    }
}

} // verus!
