//! Errors of thread contexts.

use vstd::prelude::*;

verus! {

/// What went wrong in a thread context.
#[derive(Debug, Clone, Copy, PartialEq, Eq, Structural)]
pub enum ErrorKind {
    /// The I/O multiplexer failed.
    Mux,
    /// No more threads can be created.
    Thread,
}

/// An error for thread contexts.
#[derive(Debug)]
pub struct ContextError {
    kind: ErrorKind,
    source: Option<String>,
}

impl ErrorKind {
    /// Returns the description of the error.
    pub fn message(&self) -> (s: &'static str)
        ensures
            s@ == match self {
                ErrorKind::Mux => "multiplexer error"@,
                ErrorKind::Thread => "thread error"@,
            },
    {
        match self {
            ErrorKind::Mux => "multiplexer error",
            ErrorKind::Thread => "thread error",
        }
    }
}

impl ContextError {
    /// What went wrong.
    pub closed spec fn kind_spec(&self) -> ErrorKind {
        self.kind
    }

    /// The description of the cause, if any.
    pub closed spec fn source_spec(&self) -> Option<Seq<char>> {
        match self.source {
            Some(s) => Some(s@),
            None => None,
        }
    }

    /// Creates an error of the given kind with a description of its cause.
    pub fn new_with_source(kind: ErrorKind, source: String) -> (r: Self)
        ensures
            r.kind_spec() == kind,
            r.source_spec() == Some(source@),
    {
        ContextError { kind, source: Some(source) }
    }

    /// Creates an error of the given kind.
    pub fn new(kind: ErrorKind) -> (r: Self)
        ensures
            r.kind_spec() == kind,
            r.source_spec() is None,
    {
        ContextError { kind, source: None }
    }

    /// Returns what went wrong.
    pub fn kind(&self) -> (r: ErrorKind)
        ensures
            r == self.kind_spec(),
    {
        self.kind
    }

    /// Returns the description of the cause, if any.
    pub fn source(&self) -> (r: Option<&str>)
        ensures
            match r {
                Some(s) => self.source_spec() == Some(s@),
                None => self.source_spec() is None,
            },
    {
        match &self.source {
            Some(s) => Some(s.as_str()),
            None => None,
        }
    }
}

} // verus!
