//! A local process supervisor: the registry of launchable processes, the
//! bounded buffers that hold what they print, and the rules by which they are
//! started, stopped and replayed when the application comes up.
//!
//! The operating system, the store and the window shell are reached by the
//! application around this library, which hands in what it observed and
//! carries out what the library decides. The library itself reaches outside
//! only for the time, for fresh identifiers, for the JSON of stored lists and
//! for the rules of paths; each of those calls stands behind a function whose
//! contract says what is taken on trust.

pub mod autostart;
pub mod config;
pub mod environment;
pub mod lifecycle;
pub mod normalize;
pub mod output;
pub mod paths;
pub mod query;
pub mod runner;
pub mod shell;
pub mod state;
pub mod storage;
pub mod system_theme;
pub mod table;
pub mod text;
pub mod types;
pub mod utils;
