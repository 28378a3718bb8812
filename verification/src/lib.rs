//! Dispatch engine for a file opener / previewer.
//!
//! The library decides how a file, byte stream or URL should be handled:
//! it keeps lookup tables from extensions, MIME types and URL schemes to
//! processors (terminal handlers and chainable filters), substitutes
//! placeholders in command templates, and plans how the chosen command is
//! to be spawned.  Everything that touches the outside world (reading
//! streams, spawning processes, probing the terminal) is left to the
//! caller, which feeds the results back in as plain values.

pub mod config;
pub mod dispatch;
pub mod error;
pub mod mapping;
pub mod mode;
pub mod paths;
pub mod run;
pub mod template;
pub mod text;
