//! What a call needs from the evaluator that hosts it.

use vstd::prelude::*;
use crate::error::{CallError, FlowKind};
use crate::scope::Scopes;
use crate::syntax::SyntaxNode;
use crate::value::{Args, Content, Span, StyleMap, Value};

verus! {

/// Identifies a source file.
#[derive(Clone, Copy, Debug, PartialEq, Eq, Hash, Structural)]
pub struct SourceId(pub u16);

/// Identifies a kind of document node.
#[derive(Clone, Copy, Debug, PartialEq, Eq, Hash, Structural)]
pub struct NodeId(pub u64);

/// What stands behind a native function.
#[derive(Clone, Copy, Debug, PartialEq, Eq, Hash, Structural)]
pub enum NativeKind {
    /// The code that the host registered under this key.
    Plain(u64),
    /// The constructor and the style rule of a kind of document node.
    Node(NodeId),
}

/// The chain of calls that an evaluation belongs to, known by the source file
/// that it started from, if it started from one.
#[derive(Clone, Copy, Debug, PartialEq, Eq, Hash, Structural)]
pub struct Route {
    pub anchor: Option<SourceId>,
}

/// A control-flow signal raised by a body.
#[derive(Debug, PartialEq)]
pub enum Flow {
    Break(Span),
    Continue(Span),
    Return(Span, Option<Value>),
}

/// What evaluating a body gave: its own result, and the signal that was
/// pending when it ended.
#[derive(Debug, PartialEq)]
pub struct Evaluated {
    pub result: Result<Value, CallError>,
    pub flow: Option<Flow>,
}

/// What a body is evaluated in.
#[derive(Debug, PartialEq)]
pub struct Frame {
    pub scopes: Scopes,
    pub route: Route,
    pub location: SourceId,
}

/// The evaluator around a call: it knows where the call comes from, runs
/// native code and node rules, and evaluates bodies.
pub trait Machine: Sized {
    /// The source file that is being evaluated.
    fn location(&self) -> SourceId;

    /// The chain of calls that the evaluation is in.
    fn route(&self) -> Route;

    /// Runs the native function registered under `key`.
    fn call_native(&mut self, key: u64, args: &mut Args) -> Result<Value, CallError>;

    /// Computes the style configuration of a node from the arguments;
    /// `permissive` leaves arguments that are no style properties in place.
    fn set_rule(&self, node: NodeId, args: &mut Args, permissive: bool) -> Result<
        StyleMap,
        CallError,
    >;

    /// Constructs the content of a node from the arguments.
    fn construct(&mut self, node: NodeId, args: &mut Args) -> Result<Content, CallError>;

    /// Applies the scoped part of a style configuration to content.
    fn styled(&self, content: Content, styles: StyleMap) -> Content;

    /// A machine of its own for the body of a call, over the given frame.
    fn enter(&self, frame: Frame) -> Self;

    /// Evaluates a body in the frame that the machine was made for.
    fn eval(&mut self, body: &SyntaxNode) -> Evaluated;
}

/// What has come back so far while a native function runs.
#[derive(Debug, PartialEq)]
pub enum NativeState {
    /// Nothing was asked yet.
    Start,
    /// The host's code has run.
    Returned(Result<Value, CallError>),
    /// The style rule of the node has run.
    Ruled(NodeId, Result<StyleMap, CallError>),
    /// The constructor of the node has run, after the rule gave the styles.
    Constructed(StyleMap, Result<Content, CallError>),
    /// The content was styled.
    Styled(Content),
}

/// What a native function asks of the machine next, or what it returns.
#[derive(Debug, PartialEq)]
pub enum NativeStep {
    /// Run the host's code registered under the key.
    Run(u64),
    /// Run the style rule of the node, permissively or strictly.
    Rule { node: NodeId, permissive: bool },
    /// Run the constructor of the node; `styles` is what the rule gave.
    Construct { node: NodeId, styles: StyleMap },
    /// Apply the scoped part of the styles to the content.
    Style { content: Content, styles: StyleMap },
    /// The call is over, with this result.
    Done(Result<Value, CallError>),
}

/// The next step of a native function. A plain one runs the host's code and
/// returns what it gave. One backed by a node runs the node's style rule
/// permissively; then, unless the rule failed, its constructor; then, unless
/// that failed, the styling of the content by what the rule gave; and
/// returns the styled content. The first failure is what it returns.
pub open spec fn spec_native_step(kind: NativeKind, state: NativeState) -> NativeStep {
    match state {
        NativeState::Start => match kind {
            NativeKind::Plain(key) => NativeStep::Run(key),
            NativeKind::Node(node) => NativeStep::Rule { node, permissive: true },
        },
        NativeState::Returned(outcome) => NativeStep::Done(outcome),
        NativeState::Ruled(node, Ok(styles)) => NativeStep::Construct { node, styles },
        NativeState::Ruled(_, Err(e)) => NativeStep::Done(Err(e)),
        NativeState::Constructed(styles, Ok(content)) => NativeStep::Style { content, styles },
        NativeState::Constructed(_, Err(e)) => NativeStep::Done(Err(e)),
        NativeState::Styled(content) => NativeStep::Done(Ok(Value::Content(content))),
    }
}

/// How many steps can still follow a state.
pub open spec fn steps_left(state: NativeState) -> nat {
    match state {
        NativeState::Start => 4,
        NativeState::Ruled(_, _) => 3,
        NativeState::Constructed(_, _) => 2,
        NativeState::Returned(_) => 1,
        NativeState::Styled(_) => 1,
    }
}

/// Decides the next step of a native function from what has come back.
pub fn native_step(kind: NativeKind, state: NativeState) -> (r: NativeStep)
    ensures
        r == spec_native_step(kind, state),
{
    match state {
        NativeState::Start => match kind {
            NativeKind::Plain(key) => NativeStep::Run(key),
            NativeKind::Node(node) => NativeStep::Rule { node, permissive: true },
        },
        NativeState::Returned(outcome) => NativeStep::Done(outcome),
        NativeState::Ruled(node, Ok(styles)) => NativeStep::Construct { node, styles },
        NativeState::Ruled(_, Err(e)) => NativeStep::Done(Err(e)),
        NativeState::Constructed(styles, Ok(content)) => NativeStep::Style { content, styles },
        NativeState::Constructed(_, Err(e)) => NativeStep::Done(Err(e)),
        NativeState::Styled(content) => NativeStep::Done(Ok(Value::Content(content))),
    }
}

impl SourceId {
    /// The id of no source file.
    pub fn detached() -> (r: SourceId)
        ensures
            r == SourceId(0xffff),
    {
        SourceId(0xffff)
    }

    /// Whether this is the id of no source file.
    pub fn is_detached(&self) -> (r: bool)
        ensures
            r == (*self == SourceId(0xffff)),
    {
        self.0 == 0xffff
    }
}

impl Route {
    /// A chain that starts at the given source file.
    pub fn new(location: SourceId) -> (r: Route)
        ensures
            r == (Route { anchor: Some(location) }),
    {
        Route { anchor: Some(location) }
    }
}

impl Default for Route {
    /// A chain that starts nowhere.
    fn default() -> (r: Route)
        ensures
            r == (Route { anchor: None }),
    {
        Route { anchor: None }
    }
}

impl Flow {
    /// The kind of the signal.
    pub open spec fn spec_kind(self) -> FlowKind {
        match self {
            Flow::Break(_) => FlowKind::Break,
            Flow::Continue(_) => FlowKind::Continue,
            Flow::Return(_, _) => FlowKind::Return,
        }
    }

    /// Where the signal was raised.
    pub open spec fn spec_span(self) -> Span {
        match self {
            Flow::Break(s) => s,
            Flow::Continue(s) => s,
            Flow::Return(s, _) => s,
        }
    }

    /// The error for a signal that nothing takes.
    pub fn forbidden(&self) -> (r: CallError)
        ensures
            r == (CallError::IllegalControlFlow { span: self.spec_span(), kind: self.spec_kind() }),
    {
        match self {
            Flow::Break(s) => CallError::IllegalControlFlow { span: *s, kind: FlowKind::Break },
            Flow::Continue(s) => CallError::IllegalControlFlow {
                span: *s,
                kind: FlowKind::Continue,
            },
            Flow::Return(s, _) => CallError::IllegalControlFlow { span: *s, kind: FlowKind::Return },
        }
    }
}

/// The route inside a closure: a fresh one anchored where the closure was
/// defined when the caller is detached, the caller's own otherwise.
pub open spec fn spec_select_route(detached: bool, caller: Route, defined: SourceId) -> Route {
    if detached {
        Route { anchor: Some(defined) }
    } else {
        caller
    }
}

/// Chooses the route inside a closure.
pub fn select_route(detached: bool, caller: Route, defined: SourceId) -> (r: Route)
    ensures
        r == spec_select_route(detached, caller, defined),
{
    if detached {
        Route::new(defined)
    } else {
        caller
    }
}

/// What a closure call returns for what its body gave: the value of an
/// explicit return; the body's own result after a return without a value or
/// without any signal; an error for any other signal.
pub open spec fn spec_reconcile(evaluated: Evaluated) -> Result<Value, CallError> {
    match evaluated.flow {
        Some(Flow::Return(_, Some(explicit))) => Ok(explicit),
        Some(Flow::Return(_, None)) => evaluated.result,
        Some(flow) => Err(
            CallError::IllegalControlFlow { span: flow.spec_span(), kind: flow.spec_kind() },
        ),
        None => evaluated.result,
    }
}

/// Turns what a body gave into the result of the closure call.
pub fn reconcile(evaluated: Evaluated) -> (r: Result<Value, CallError>)
    ensures
        r == spec_reconcile(evaluated),
{
    match evaluated.flow {
        Some(Flow::Return(_, Some(explicit))) => Ok(explicit),
        Some(Flow::Return(_, None)) => evaluated.result,
        Some(flow) => Err(flow.forbidden()),
        None => evaluated.result,
    }
}

/// What a call returns once its callee is done: the callee's error; else an
/// error for the first argument that is left, if one is; else the callee's
/// value.
pub fn conclude<T>(outcome: Result<T, CallError>, args: Args) -> (r: Result<T, CallError>)
    ensures
        outcome is Err ==> r == outcome,
        outcome is Ok && args@.len() == 0 ==> r == outcome,
        outcome is Ok && args@.len() > 0 ==> (r matches Err(
            CallError::UnexpectedArgument { span, named },
        ) && span == args@[0].span && crate::value::name_view(named) == args@[0].name),
{
    match outcome {
        Ok(value) => match args.finish() {
            Ok(()) => Ok(value),
            Err(e) => Err(e),
        },
        Err(e) => Err(e),
    }
}

} // verus!
