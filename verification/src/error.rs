//! The ways in which a call can fail.

use vstd::prelude::*;
use crate::value::Span;

verus! {

/// A control-flow signal that may be pending after a body was evaluated.
#[derive(Clone, Copy, Debug, PartialEq, Eq, Structural)]
pub enum FlowKind {
    Break,
    Continue,
    Return,
}

/// Why a call failed.
#[derive(Debug, PartialEq)]
pub enum CallError {
    /// A positional parameter received no argument.
    MissingArgument { span: Span, name: String },
    /// An argument was left over that nothing consumed: `span` is where it
    /// stands in the source, `named` the name of a named argument, absent
    /// for a positional one.
    UnexpectedArgument { span: Span, named: Option<String> },
    /// The function has no node whose rules could be customized; `at` is
    /// where the customization was asked for, where that is known, and
    /// `function` the name of the function, where it has one.
    NotCustomizable { at: Option<Span>, function: Option<String> },
    /// The function is not backed by a document node; `function` is its
    /// name, where it has one.
    NotSelectable { function: Option<String> },
    /// A control-flow signal escaped the body without a construct to take it.
    IllegalControlFlow { span: Span, kind: FlowKind },
    /// The host failed while running native code or evaluating a body.
    Host { span: Span, code: u64 },
}

} // verus!
