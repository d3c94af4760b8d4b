//! What every sub-engine offers to the root, and the handle it gets in return.

use vstd::prelude::*;

verus! {

/// The four roles a sub-engine can have.
#[derive(Clone, Copy, Debug, PartialEq, Eq, Structural)]
pub enum EngineKind {
    /// Renders and displays graphics.
    Video,
    /// Plays audio.
    Audio,
    /// Handles keyboard, mouse and gamepad input.
    Control,
    /// Runs game scripts.
    Script,
}

/// The narrow capability a sub-engine receives during `update`.
///
/// It lets the sub-engine ask the root to leave the frame loop, and nothing
/// else: siblings are out of reach.
#[derive(Debug)]
pub struct RootHandle {
    stop_requested: bool,
}

impl RootHandle {
    /// True once `stop` has been called on this handle.
    pub closed spec fn stop_requested(&self) -> bool {
        self.stop_requested
    }

    /// A handle on which no stop has been requested yet.
    pub fn new() -> (handle: RootHandle)
        ensures
            !handle.stop_requested(),
    {
        RootHandle { stop_requested: false }
    }

    /// Asks the root to leave the frame loop once the current frame is done.
    pub fn stop(&mut self)
        ensures
            final(self).stop_requested(),
    {
        self.stop_requested = true;
    }

    /// Tells whether a stop has been requested through this handle.
    pub fn is_stop_requested(&self) -> (requested: bool)
        ensures
            requested == self.stop_requested(),
    {
        self.stop_requested
    }
}

/// The lifecycle every sub-engine implements.
///
/// The root learns nothing about an engine beyond the outcome of each call,
/// so no method promises anything about it.
pub trait Engine {
    /// Acquires whatever the engine needs to run.
    fn launch(&self) -> Result<(), ()>;

    /// Releases what `launch` acquired.
    fn shutdown(&self) -> Result<(), ()>;

    /// Advances the engine by one frame. The handle is fresh: whoever calls
    /// `update` hands over one on which no stop has been requested, so a
    /// request found on it afterwards is this engine's own.
    fn update(&mut self, root: &mut RootHandle) -> Result<(), ()>
        requires
            !old(root).stop_requested(),
    ;
}

/// A sub-engine that renders and displays graphics.
pub trait VideoEngine: Engine {}

/// A sub-engine that plays audio.
pub trait AudioEngine: Engine {}

/// A sub-engine that handles keyboard, mouse and gamepad input.
pub trait ControlEngine: Engine {}

/// A sub-engine that runs game scripts.
pub trait ScriptEngine: Engine {}

} // verus!
