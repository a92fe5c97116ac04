//! Acquisition pipeline for remotely hosted content packages: a job queue with a
//! status state machine, a registry of running engine processes, the engine's
//! command script and progress lines, the worker's decisions after a download,
//! workshop page metadata, directory name sanitizing and the download history.
pub mod engine;
pub mod history;
pub mod parser;
pub mod queue;
pub mod registry;
pub mod relocate;
pub mod sanitizer;
mod sources;
pub mod text;
pub mod worker;
