//! Merge-conflict review core of a terminal git client.
//!
//! The library holds the logic that needs no terminal and no repository:
//! splitting text into lines, recognising conflict blocks, recording the
//! resolution chosen for each hunk, rewriting a file accordingly, and the
//! state machines that drive the interactive session.

pub mod answers;
pub mod app;
pub mod applier;
pub mod conflict;
pub mod detector;
pub mod error;
pub mod finalizer;
pub mod keys;
pub mod layout;
pub mod model;
pub mod navigation;
pub mod outcome;
pub mod parser;
pub mod remote;
pub mod resolution;
pub mod round_trip;
pub mod status;
pub mod text;
pub mod worked;
