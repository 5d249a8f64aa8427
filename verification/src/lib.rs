//! Keeps the name of every workspace of a tiling compositor in step with the
//! windows on it: each window is resolved to a glyph, the glyphs of a
//! workspace are composed into its label, and a rename is planned wherever
//! the label differs from the name that the compositor shows.
//!
//! The library computes on snapshots and performs no input or output.

pub mod aggregate;
pub mod args;
pub mod icons;
pub mod label;
pub mod sync;
pub mod text;
pub mod window;

pub use crate::aggregate::aggregate;
pub use crate::args::{Args, CliError, Invocation, LogLevel, Parsed};
pub use crate::icons::{IconMapping, MatchRule};
pub use crate::label::compose;
pub use crate::sync::{resync, Rename};
pub use crate::window::{Window, Workspace};
