use vstd::prelude::*;

verus! {

/// What a cursor sample does to the camera's orientation.
#[derive(Debug, Clone, Copy, PartialEq, Eq, Structural)]
pub enum CursorStep {
    /// The first sample since start-up: it only becomes the baseline that
    /// later offsets are measured from, and orientation stays as it is.
    Baseline,
    /// A later sample: its offset from the previous one turns the camera.
    Rotate,
}

/// The step a sample makes, given whether the tracker still waits for its
/// first sample.
pub open spec fn cursor_step(awaiting_first: bool) -> CursorStep {
    if awaiting_first {
        CursorStep::Baseline
    } else {
        CursorStep::Rotate
    }
}

/// Tracks whether a cursor baseline has been taken yet, so that the first
/// sample cannot make the camera jump.
pub struct CursorTracker {
    awaiting_first: bool,
}

impl View for CursorTracker {
    /// Whether the next sample is the first.
    type V = bool;

    closed spec fn view(&self) -> bool {
        self.awaiting_first
    }
}

impl CursorTracker {
    /// A tracker that has seen no sample.
    pub fn new() -> (r: CursorTracker)
        ensures
            r@,
    {
        CursorTracker { awaiting_first: true }
    }

    /// Takes one cursor sample: the first one is a baseline, every later one
    /// rotates.
    pub fn on_sample(&mut self) -> (step: CursorStep)
        ensures
            step == cursor_step(old(self)@),
            !final(self)@,
    {
        let step = if self.awaiting_first {
            CursorStep::Baseline
        } else {
            CursorStep::Rotate
        };
        self.awaiting_first = false;
        step
    }
}

/// The keys that move the camera.
#[derive(Debug, Clone, Copy, PartialEq, Eq, Structural)]
pub enum MoveDirection {
    Forward,
    Backward,
    Left,
    Right,
}

/// The vectors the camera moves along: its front, or the unit vector to its
/// right (the normalised cross product of front and up).
#[derive(Debug, Clone, Copy, PartialEq, Eq, Structural)]
pub enum MoveAxis {
    Front,
    Strafe,
}

/// A move: the axis, and `1` to go along it or `-1` to go against it. The
/// distance is speed times elapsed seconds.
#[derive(Debug, Clone, Copy, PartialEq, Eq, Structural)]
pub struct Motion {
    pub axis: MoveAxis,
    pub sign: i8,
}

/// Forward and backward go along and against the front; right and left
/// along and against the strafe axis.
pub open spec fn motion_of(direction: MoveDirection) -> Motion {
    match direction {
        MoveDirection::Forward => Motion { axis: MoveAxis::Front, sign: 1i8 },
        MoveDirection::Backward => Motion { axis: MoveAxis::Front, sign: -1i8 },
        MoveDirection::Right => Motion { axis: MoveAxis::Strafe, sign: 1i8 },
        MoveDirection::Left => Motion { axis: MoveAxis::Strafe, sign: -1i8 },
    }
}

/// The move a key makes.
pub fn motion(direction: MoveDirection) -> (r: Motion)
    ensures
        r == motion_of(direction),
{
    match direction {
        MoveDirection::Forward => Motion { axis: MoveAxis::Front, sign: 1 },
        MoveDirection::Backward => Motion { axis: MoveAxis::Front, sign: -1 },
        MoveDirection::Right => Motion { axis: MoveAxis::Strafe, sign: 1 },
        MoveDirection::Left => Motion { axis: MoveAxis::Strafe, sign: -1 },
    }
}

/// Forward and backward move along one axis in opposite senses, and so do
/// left and right.
pub proof fn lemma_opposite_keys_cancel()
    ensures
        motion_of(MoveDirection::Forward).axis == motion_of(MoveDirection::Backward).axis,
        motion_of(MoveDirection::Forward).sign + motion_of(MoveDirection::Backward).sign == 0,
        motion_of(MoveDirection::Left).axis == motion_of(MoveDirection::Right).axis,
        motion_of(MoveDirection::Left).sign + motion_of(MoveDirection::Right).sign == 0,
{
}

} // verus!
