//! The error taxonomy of the dispatch engine.

use vstd::prelude::*;
use crate::text::str_to_chars;
use crate::text::chars_to_string;

verus! {

/// Why a dispatch failed.
///
/// `Start` carries the argument vector of a command that could not be
/// spawned; `Input` the path that could not be read; `Io` is a generic
/// transfer failure; `Other` carries a description of a configuration,
/// validation or logic error.
#[derive(Debug)]
pub enum HandlerError {
    Start { cmd: Vec<String> },
    Input { path: String },
    Io,
    Other(String),
}

impl HandlerError {
    /// A short description of the error.
    pub fn message(&self) -> (r: String)
        ensures
            match self {
                HandlerError::Start { cmd } => r@ == "failed to run handler command"@,
                HandlerError::Input { path } => r@ == "failed to read input file "@ + path@,
                HandlerError::Io => r@ == "input/output error"@,
                HandlerError::Other(m) => r@ == m@,
            },
    {
        match self {
            HandlerError::Start { cmd: _ } => {
                let v = str_to_chars("failed to run handler command");
                chars_to_string(&v)
            },
            HandlerError::Input { path } => {
                let mut v = str_to_chars("failed to read input file ");
                let mut p = str_to_chars(path.as_str());
                v.append(&mut p);
                chars_to_string(&v)
            },
            HandlerError::Io => {
                let v = str_to_chars("input/output error");
                chars_to_string(&v)
            },
            HandlerError::Other(m) => {
                let v = str_to_chars(m.as_str());
                chars_to_string(&v)
            },
        }
    }

    /// An `Other` error with the given description.
    pub fn other(msg: &str) -> (r: HandlerError)
        ensures
            r is Other,
            r->Other_0@ == msg@,
    {
        let v = str_to_chars(msg);
        HandlerError::Other(chars_to_string(&v))
    }
}

} // verus!
