//! The error type that unwinds out of the boundary layer.
//!
//! An error has a kind, a human-readable message, and an optional stack
//! trace.  Whether the trace is present is decided once, by the kind, when
//! the error is created: kinds raised at a gateway boundary (argument
//! validation, storage access, contract resolution) carry a trace; kinds
//! raised by the expression evaluator itself (an unbound name, an unknown
//! head symbol, an exhausted depth budget) do not.  Enrichment never alters
//! the kind or the message; it only records the call chain.

use vstd::prelude::*;

verus! {

/// One frame of the call stack: a contract invocation, identified by the
/// contract's name and the invoked function's name.
#[derive(Debug)]
pub struct StackFrame {
    pub contract: String,
    pub function: String,
}

/// The kind of a failure.
#[derive(Clone, Copy, PartialEq, Eq, Structural, Debug)]
pub enum ErrKind {
    /// A special form received arguments of the wrong shape: wrong arity, a
    /// non-identifier in a name position, or a missing authenticated sender.
    InvalidArguments,
    /// The storage collaborator was asked for a map that the addressed
    /// contract never declared.
    UnknownMap,
    /// A cross-contract call named a contract that is not deployed.
    UnknownContract,
    /// A cross-contract call named a function the target does not expose.
    UnknownFunction,
    /// The evaluator met an identifier with no binding in the lexical context.
    UndefinedVariable,
    /// The evaluator met an application whose head names no known form.
    UndefinedFunction,
    /// The externally granted evaluation depth budget ran out.
    MaxStackDepthReached,
}

/// Which kinds of error are defined to carry a stack trace.
pub open spec fn kind_carries_trace(kind: ErrKind) -> bool {
    match kind {
        ErrKind::InvalidArguments => true,
        ErrKind::UnknownMap => true,
        ErrKind::UnknownContract => true,
        ErrKind::UnknownFunction => true,
        ErrKind::UndefinedVariable => false,
        ErrKind::UndefinedFunction => false,
        ErrKind::MaxStackDepthReached => false,
    }
}

/// A failure unwinding out of a special form.
#[derive(Debug)]
pub struct Error {
    pub kind: ErrKind,
    pub message: String,
    /// `None` when the kind carries no trace; `Some` otherwise.  The vector
    /// starts empty and is filled exactly once, at the innermost gateway
    /// boundary that sees the error, where the call stack still holds every
    /// frame of the failed chain.
    pub trace: Option<Vec<StackFrame>>,
}

impl Error {
    /// Whether this error is of a kind that carries a stack trace.
    pub fn has_stack_trace(&self) -> (r: bool)
        ensures
            r == self.trace is Some,
    {
        match self.trace {
            Some(_) => true,
            None => false,
        }
    }

    /// Creates an error of the given kind; the trace slot is present and
    /// empty exactly when the kind carries a trace.
    pub fn new(kind: ErrKind, message: String) -> (e: Error)
        ensures
            e.kind == kind,
            e.message == message,
            kind_carries_trace(kind) ==> (e.trace matches Some(t) && t@ =~= Seq::<StackFrame>::empty()),
            !kind_carries_trace(kind) ==> e.trace is None,
    {
        let carries: bool = match kind {
            ErrKind::InvalidArguments => true,
            ErrKind::UnknownMap => true,
            ErrKind::UnknownContract => true,
            ErrKind::UnknownFunction => true,
            ErrKind::UndefinedVariable => false,
            ErrKind::UndefinedFunction => false,
            ErrKind::MaxStackDepthReached => false,
        };
        if carries {
            Error { kind, message, trace: Some(Vec::new()) }
        } else {
            Error { kind, message, trace: None }
        }
    }

    /// Records a rendered call-stack trace on the error.  A trace is
    /// recorded only once: if the error already holds a non-empty trace
    /// (it was filled at an inner boundary, where the retained frames of
    /// the failed chain were still richer), the error passes unchanged.
    pub fn extend_with(&mut self, frames: Vec<StackFrame>)
        ensures
            final(self).kind == old(self).kind,
            final(self).message == old(self).message,
            old(self).trace is None ==> final(self).trace == old(self).trace,
            (old(self).trace matches Some(t) && t@.len() == 0) ==> (final(self).trace matches Some(
                t2,
            ) && t2@ == frames@),
            (old(self).trace matches Some(t) && t@.len() > 0) ==> final(self).trace == old(
                self,
            ).trace,
    {
        match &mut self.trace {
            Some(t) => {
                if t.len() == 0 {
                    *t = frames;
                }
            },
            None => {},
        }
    }
}

} // verus!
