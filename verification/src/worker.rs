//! The decisions of the two automation workers. The mouse worker nudges
//! the cursor by one pixel and moves it back after each wait; the key
//! worker presses a key before each wait. Both end when their stop signal
//! arrives or its sender is gone, and go on when the wait times out.
use vstd::prelude::*;

verus! {

/// How a worker's wait on its stop signal ended.
#[derive(Clone, Copy, Debug, PartialEq, Eq, Structural)]
pub enum WaitOutcome {
    /// The stop signal arrived.
    Signalled,
    /// The interval passed with no signal.
    TimedOut,
    /// The stop signal's sender is gone.
    Disconnected,
}

/// Whether a worker ends after a wait that ended so: on a stop signal and
/// on a lost sender, not on a time-out.
pub fn stop_requested(outcome: WaitOutcome) -> (stop: bool)
    ensures
        stop == (outcome != WaitOutcome::TimedOut),
{
    match outcome {
        WaitOutcome::TimedOut => false,
        _ => true,
    }
}

/// A relative cursor move, in pixels.
#[derive(Clone, Copy, Debug, PartialEq, Eq, Structural)]
pub struct MouseMove {
    pub dx: i32,
    pub dy: i32,
}

/// The mouse worker: whether the cursor is nudged away from where the
/// worker found it.
#[derive(Clone, Copy, Debug, PartialEq, Eq, Structural)]
pub struct MouseJiggler {
    pub nudged: bool,
}

impl MouseJiggler {
    /// How far the worker has moved the cursor, in pixels along each axis.
    pub open spec fn offset(self) -> (int, int) {
        if self.nudged {
            (1, 1)
        } else {
            (0, 0)
        }
    }

    /// A worker that has not moved the cursor.
    pub fn new() -> (w: MouseJiggler)
        ensures
            w.offset() == (0int, 0int),
    {
        MouseJiggler { nudged: false }
    }

    /// The start of a round, while `running` tells whether automation is
    /// still on: the nudge to make, or `None` when the worker is to end
    /// (having left the cursor where it found it).
    pub fn begin_round(&mut self, running: bool) -> (nudge: Option<MouseMove>)
        requires
            !old(self).nudged,
        ensures
            running ==> nudge == Some(MouseMove { dx: 1, dy: 1 }) && final(self).nudged,
            !running ==> nudge is None && *final(self) == *old(self),
            final(self).offset() == (if running {
                (1int, 1int)
            } else {
                (0int, 0int)
            }),
    {
        if running {
            self.nudged = true;
            Some(MouseMove { dx: 1, dy: 1 })
        } else {
            None
        }
    }

    /// The end of a round, after the wait: the move back, which undoes the
    /// nudge whether the worker goes on or not, and whether it goes on.
    pub fn end_round(&mut self, outcome: WaitOutcome) -> (r: (MouseMove, bool))
        requires
            old(self).nudged,
        ensures
            r.0.dx == -old(self).offset().0 && r.0.dy == -old(self).offset().1,
            final(self).offset() == (0int, 0int),
            !final(self).nudged,
            r.1 == (outcome == WaitOutcome::TimedOut),
    {
        self.nudged = false;
        (MouseMove { dx: -1, dy: -1 }, !stop_requested(outcome))
    }
}

} // verus!
