//! Lifecycle orchestration for a small game engine: a root that owns four
//! sub-engines and drives them through launch, a frame loop and shutdown,
//! together with the command-line reader that produces the run configuration.

pub mod config;
pub mod config_reader;
pub mod decimal;
pub mod engine;
pub mod journal;
pub mod root;
pub mod slot;
