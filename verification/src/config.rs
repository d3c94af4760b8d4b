//! The run configuration.

use vstd::prelude::*;

verus! {

/// Configuration of one run of the game.
#[derive(Debug)]
pub struct RunConfig {
    /// Width of the window, in pixels.
    pub window_width: u32,
    /// Height of the window, in pixels.
    pub window_height: u32,
    /// Directory of the mod to load.
    pub mod_root: String,
}

/// A run configuration as a plain value, the mod root as its characters.
pub struct RunConfigView {
    pub window_width: u32,
    pub window_height: u32,
    pub mod_root: Seq<char>,
}

impl View for RunConfig {
    type V = RunConfigView;

    open spec fn view(&self) -> RunConfigView {
        RunConfigView {
            window_width: self.window_width,
            window_height: self.window_height,
            mod_root: self.mod_root@,
        }
    }
}

} // verus!
