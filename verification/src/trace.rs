//! When a traced path ends, and in what.
//!
//! A path starts with a depth, the number of rays it may still cast. Each
//! cast ray escapes the scene, is absorbed by the surface it hits, or is
//! scattered into a new ray at the cost of one unit of depth. A path whose
//! depth is used up ends in black; one that escapes ends in the sky.
use vstd::prelude::*;

verus! {

/// What became of one cast ray.
#[derive(Clone, Copy, Debug, PartialEq, Eq, Structural)]
pub enum Event {
    /// It hit nothing.
    Escaped,
    /// It hit a surface that did not scatter it.
    Absorbed,
    /// It hit a surface that sent a new ray on.
    Scattered,
}

/// The light at the end of a path, before attenuation.
#[derive(Clone, Copy, Debug, PartialEq, Eq, Structural)]
pub enum Shade {
    Black,
    Sky,
}

/// What the tracer does next.
#[derive(Clone, Copy, Debug, PartialEq, Eq, Structural)]
pub enum Step {
    /// Cast the current ray against the scene and report what became of it.
    Cast,
    /// The path has ended in this shade.
    Finish(Shade),
}

/// A finished path: the shade at its end and the number of surfaces whose
/// attenuation multiplies it.
#[derive(Clone, Copy, Debug, PartialEq, Eq, Structural)]
pub struct Path {
    pub shade: Shade,
    pub bounces: usize,
}

/// The depth that a path still has.
#[derive(Clone, Copy, Debug, PartialEq, Eq, Structural)]
pub struct Tracer {
    pub depth: i32,
}

/// What a tracer of the given depth does before it hears of its ray.
pub open spec fn pending(depth: int) -> Step {
    if depth <= 0 {
        Step::Finish(Shade::Black)
    } else {
        Step::Cast
    }
}

/// The end of a path of the given depth whose rays meet `events` in turn, as
/// shade and number of bounces; `None` while the events do not reach the end.
/// Events after the end are not read.
pub open spec fn outcome(depth: int, events: Seq<Event>) -> Option<(Shade, nat)>
    decreases events.len(),
{
    if depth <= 0 {
        Some((Shade::Black, 0nat))
    } else if events.len() == 0 {
        None
    } else {
        match events[0] {
            Event::Escaped => Some((Shade::Sky, 0nat)),
            Event::Absorbed => Some((Shade::Black, 0nat)),
            Event::Scattered => match outcome(depth - 1, events.skip(1)) {
                Some((shade, bounces)) => Some((shade, bounces + 1)),
                None => None,
            },
        }
    }
}

impl Tracer {
    /// A tracer for a path of the given depth.
    pub fn new(depth: i32) -> (tracer: Tracer)
        ensures
            tracer.depth == depth,
    {
        Tracer { depth }
    }

    /// What to do next: a path without depth ends in black, any other casts
    /// its ray.
    pub fn next(&self) -> (step: Step)
        ensures
            step == pending(self.depth as int),
    {
        if self.depth <= 0 {
            Step::Finish(Shade::Black)
        } else {
            Step::Cast
        }
    }

    /// Takes in what became of the ray that was cast, and says what to do
    /// next. An escaped ray ends the path in the sky and an absorbed one in
    /// black. A scattered ray costs one unit of depth, and the path goes on
    /// with the new ray if any depth is left. A tracer without depth has cast
    /// no ray: it stays as it is and ends in black.
    pub fn advance(&mut self, event: Event) -> (step: Step)
        ensures
            old(self).depth <= 0 ==> *final(self) == *old(self) && step == Step::Finish(
                Shade::Black,
            ),
            old(self).depth > 0 ==> match event {
                Event::Escaped => *final(self) == *old(self) && step == Step::Finish(Shade::Sky),
                Event::Absorbed => *final(self) == *old(self) && step == Step::Finish(
                    Shade::Black,
                ),
                Event::Scattered => final(self).depth == old(self).depth - 1 && step == pending(
                    final(self).depth as int,
                ),
            },
    {
        if self.depth <= 0 {
            return Step::Finish(Shade::Black);
        }
        match event {
            Event::Escaped => Step::Finish(Shade::Sky),
            Event::Absorbed => Step::Finish(Shade::Black),
            Event::Scattered => {
                self.depth = self.depth - 1;
                self.next()
            },
        }
    }
}

/// An outcome that is reached after `n` earlier bounces.
pub open spec fn after(n: nat, end: Option<(Shade, nat)>) -> Option<(Shade, nat)> {
    match end {
        Some((shade, bounces)) => Some((shade, bounces + n)),
        None => None,
    }
}

/// Runs a path of the given depth over the events that its rays meet, in
/// turn, and returns how it ends; `None` if the events stop before the path
/// has ended. A path without depth is black whatever the events are.
pub fn ray_color(events: &Vec<Event>, depth: i32) -> (end: Option<Path>)
    ensures
        match end {
            Some(path) => outcome(depth as int, events@) == Some(
                (path.shade, path.bounces as nat),
            ),
            None => outcome(depth as int, events@) is None,
        },
        depth <= 0 ==> end == Some(Path { shade: Shade::Black, bounces: 0 }),
{
    let mut tracer = Tracer::new(depth);
    let mut bounces: usize = 0;
    let mut i: usize = 0;
    let mut step = tracer.next();
    proof {
        assert(events@.skip(0) =~= events@);
    }
    while i < events.len() && step == Step::Cast
        invariant
            i <= events.len(),
            bounces <= i,
            depth <= 0 ==> i == 0 && bounces == 0 && step == Step::Finish(Shade::Black),
            match step {
                Step::Cast => tracer.depth > 0 && outcome(depth as int, events@) == after(
                    bounces as nat,
                    outcome(tracer.depth as int, events@.skip(i as int)),
                ),
                Step::Finish(shade) => outcome(depth as int, events@) == Some(
                    (shade, bounces as nat),
                ),
            },
        decreases events.len() - i,
    {
        let event = events[i];
        proof {
            let rest = events@.skip(i as int);
            assert(rest[0] == event);
            assert(rest.skip(1) =~= events@.skip(i + 1));
        }
        step = tracer.advance(event);
        if event == Event::Scattered {
            bounces = bounces + 1;
        }
        i = i + 1;
    }
    match step {
        Step::Cast => None,
        Step::Finish(shade) => Some(Path { shade, bounces }),
    }
}

/// A path without depth ends in black at once, whatever its ray would meet.
pub proof fn lemma_no_depth_is_black(depth: int, events: Seq<Event>)
    requires
        depth <= 0,
    ensures
        outcome(depth, events) == Some((Shade::Black, 0nat)),
        pending(depth) == Step::Finish(Shade::Black),
{
}

/// A path with depth whose first ray hits nothing ends in the sky, unattenuated.
pub proof fn lemma_escape_is_sky(depth: int, events: Seq<Event>)
    requires
        depth > 0,
        events.len() > 0,
        events[0] == Event::Escaped,
    ensures
        outcome(depth, events) == Some((Shade::Sky, 0nat)),
{
}

/// A path never bounces more often than its depth allows, nor more often than
/// its rays met anything; and only a path that used up its depth, or whose
/// last ray was absorbed, ends in black.
pub proof fn lemma_bounces_are_bounded(depth: int, events: Seq<Event>)
    ensures
        match outcome(depth, events) {
            Some((shade, bounces)) => {
                &&& bounces <= events.len()
                &&& depth <= 0 ==> bounces == 0
                &&& depth > 0 ==> bounces <= depth
                &&& shade == Shade::Sky ==> bounces < events.len() && events[bounces as int]
                    == Event::Escaped
                &&& forall|k: int| 0 <= k < bounces ==> events[k] == Event::Scattered
            },
            None => depth > events.len() && forall|k: int|
                0 <= k < events.len() ==> events[k] == Event::Scattered,
        },
    decreases events.len(),
{
    if depth > 0 && events.len() > 0 && events[0] == Event::Scattered {
        let rest = events.skip(1);
        lemma_bounces_are_bounded(depth - 1, rest);
        assert(forall|k: int| 0 <= k < rest.len() ==> rest[k] == events[k + 1]);
        match outcome(depth - 1, rest) {
            Some((shade, bounces)) => {
                assert forall|k: int| 0 <= k < bounces + 1 implies events[k]
                    == Event::Scattered by {
                    if k > 0 {
                        assert(rest[k - 1] == events[k]);
                    }
                }
            },
            None => {
                assert forall|k: int| 0 <= k < events.len() implies events[k]
                    == Event::Scattered by {
                    if k > 0 {
                        assert(rest[k - 1] == events[k]);
                    }
                }
            },
        }
    }
}

/// What a path meets after its end does not change how it ended.
pub proof fn lemma_end_is_final(depth: int, events: Seq<Event>, more: Seq<Event>)
    requires
        outcome(depth, events) is Some,
    ensures
        outcome(depth, events + more) == outcome(depth, events),
    decreases events.len(),
{
    if depth > 0 {
        assert(events.len() > 0);
        assert((events + more)[0] == events[0]);
        if events[0] == Event::Scattered {
            assert((events + more).skip(1) =~= events.skip(1) + more);
            lemma_end_is_final(depth - 1, events.skip(1), more);
        }
    }
}

} // verus!
