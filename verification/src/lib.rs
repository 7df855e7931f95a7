//! Generation of C header files from a model of a library's exported
//! declarations.
//!
//! The crate translates type expressions of the source language into C
//! types, renders exported type aliases, enums, records and functions as C
//! text, routes each declaration to a header file, and finally wraps every
//! header with include guards and emits one aggregate top-level header whose
//! `#include` lines are ordered so that every header comes after the headers
//! it depends on.

use vstd::prelude::*;

pub mod ast;
pub mod common;
pub mod graph;
pub mod lang_c;
pub mod translate;
pub mod types;

verus! {

/// Severity of a diagnostic: a `Bug` reports a caller that broke an internal
/// contract (an emitter invoked on the wrong declaration kind), an `Error`
/// rejects unsupported input.
#[derive(Clone, Copy, Debug, PartialEq, Eq, Structural)]
pub enum Level {
    Bug,
    Error,
}

/// Region of source text a diagnostic points at.
#[derive(Clone, Copy, Debug, PartialEq, Eq, Structural)]
pub struct Span {
    pub lo: u64,
    pub hi: u64,
}

/// A diagnostic produced when a declaration cannot be turned into C.
#[derive(Debug)]
pub struct Error {
    pub level: Level,
    pub span: Option<Span>,
    pub message: String,
}

/// Mathematical image of an [`Error`].
pub struct ErrorV {
    pub level: Level,
    pub span: Option<Span>,
    pub message: Seq<char>,
}

impl View for Error {
    type V = ErrorV;

    open spec fn view(&self) -> ErrorV {
        ErrorV { level: self.level, span: self.span, message: self.message@ }
    }
}

} // verus!
