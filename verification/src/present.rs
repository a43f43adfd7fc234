//! What to do when the surface does not hand out a frame to draw on.

use vstd::prelude::*;

verus! {

/// Why the surface handed out no frame.
#[derive(Clone, Copy, Debug, PartialEq, Eq, Structural)]
pub enum SurfaceFault {
    /// The frame did not arrive in time.
    Timeout,
    /// The surface no longer fits the window.
    Outdated,
    /// The surface was lost.
    Lost,
    /// The device is out of memory.
    OutOfMemory,
}

/// What the event loop does about a fault.
#[derive(Clone, Copy, Debug, PartialEq, Eq, Structural)]
pub enum Recovery {
    /// Skip this frame and draw the next one.
    SkipFrame,
    /// Configure the surface anew, and skip this frame.
    Reconfigure,
    /// Give up.
    Abort,
}

impl SurfaceFault {
    /// A lost or outdated surface is configured anew and the frame skipped;
    /// a late frame is skipped; only a device without memory ends the
    /// program.
    pub open spec fn spec_recovery(self) -> Recovery {
        match self {
            SurfaceFault::Timeout => Recovery::SkipFrame,
            SurfaceFault::Outdated => Recovery::Reconfigure,
            SurfaceFault::Lost => Recovery::Reconfigure,
            SurfaceFault::OutOfMemory => Recovery::Abort,
        }
    }

    #[verifier::when_used_as_spec(spec_recovery)]
    pub fn recovery(self) -> (recovery: Recovery)
        ensures
            recovery == self.spec_recovery(),
            (self == SurfaceFault::Lost || self == SurfaceFault::Outdated) ==> recovery
                == Recovery::Reconfigure,
    {
        match self {
            SurfaceFault::Timeout => Recovery::SkipFrame,
            SurfaceFault::Outdated => Recovery::Reconfigure,
            SurfaceFault::Lost => Recovery::Reconfigure,
            SurfaceFault::OutOfMemory => Recovery::Abort,
        }
    }
}

} // verus!
