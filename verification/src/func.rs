//! Function values and how they are called.

use std::sync::Arc;
use vstd::prelude::*;
use crate::args::{first_positional, has_positional, last_named, select, without_name};
use crate::error::CallError;
use crate::machine::{
    conclude, native_step, reconcile, select_route, spec_select_route,
    steps_left, Frame, Machine, NativeKind, NativeState, NativeStep, NodeId, Route, SourceId,
};
use crate::scope::{Scope, Scopes};
use crate::syntax::SyntaxNode;
use crate::value::{
    items_view, lemma_args_value_view, name_view, Arg, ArgView, Args, Span, StyleMap, Value,
    ValueView,
};

verus! {

/// An evaluatable function. Copies of one function share one allocation.
#[derive(Clone, Debug, Hash)]
pub struct Func(pub Arc<Repr>);

/// The different kinds of function representations.
#[derive(Debug, Hash)]
pub enum Repr {
    /// A function of the host.
    Native(Native),
    /// A user-defined closure.
    Closure(Closure),
    /// A nested function with pre-applied arguments.
    With(Func, Args),
}

/// A function implemented by the host.
#[derive(Debug, Hash)]
pub struct Native {
    /// The name of the function.
    pub name: String,
    /// What the host runs for it.
    pub kind: NativeKind,
}

/// A user-defined closure.
#[derive(Debug, Hash)]
pub struct Closure {
    /// The source file where the closure was defined.
    pub location: SourceId,
    /// The name of the closure.
    pub name: Option<String>,
    /// Captured values from outer scopes.
    pub captured: Scope,
    /// The parameter names and default values. Parameters with default value
    /// are named parameters.
    pub params: Vec<(String, Option<Value>)>,
    /// The name of an argument sink where remaining arguments are placed.
    pub sink: Option<String>,
    /// The expression the closure should evaluate to.
    pub body: SyntaxNode,
}

/// A selector for the nodes of one kind whose fields have the given values.
#[derive(Debug, PartialEq, Hash)]
pub struct Selector {
    pub node: NodeId,
    pub fields: Vec<Arg>,
}

/// What a call comes to before anything is run.
#[derive(Debug)]
pub enum Plan<'a> {
    /// Run the native function with these arguments.
    Native(&'a Native, Args),
    /// Evaluate the body in the frame; `rest` holds the arguments that
    /// binding left.
    Body { frame: Frame, body: &'a SyntaxNode, rest: Args },
    /// Fail without running anything.
    Fail(CallError),
}

/// The bindings made and the arguments left while parameters are bound.
pub struct Bound {
    pub scope: Map<Seq<char>, ValueView>,
    pub args: Seq<ArgView>,
}

/// The models of a closure's parameters: each name with its default value.
pub open spec fn params_view(params: Seq<(String, Option<Value>)>) -> Seq<
    (Seq<char>, Option<ValueView>),
> {
    Seq::new(
        params.len(),
        |i: int|
            (
                params[i].0@,
                match params[i].1 {
                    Some(v) => Some(v@),
                    None => None,
                },
            ),
    )
}

/// Binds one parameter. With a default, it takes the last argument of its
/// name, all of which are consumed, or else the default. Without one, it
/// takes the first positional argument; `Err` holds its name when there is
/// none.
pub open spec fn bind_one(param: (Seq<char>, Option<ValueView>), b: Bound) -> Result<
    Bound,
    Seq<char>,
> {
    match param.1 {
        Some(default) => Ok(
            Bound {
                scope: b.scope.insert(
                    param.0,
                    match last_named(b.args, param.0) {
                        Some(v) => v,
                        None => default,
                    },
                ),
                args: without_name(b.args, param.0),
            },
        ),
        None => if has_positional(b.args) {
            Ok(
                Bound {
                    scope: b.scope.insert(param.0, b.args[first_positional(b.args)].value),
                    args: b.args.remove(first_positional(b.args)),
                },
            )
        } else {
            Err(param.0)
        },
    }
}

/// Binds the first `n` parameters in order, up to the first that fails.
pub open spec fn bind_params(params: Seq<(Seq<char>, Option<ValueView>)>, n: nat, b: Bound) -> Result<
    Bound,
    Seq<char>,
>
    decreases n,
{
    if n == 0 || n > params.len() {
        Ok(b)
    } else {
        match bind_params(params, (n - 1) as nat, b) {
            Ok(before) => bind_one(params[n - 1], before),
            Err(name) => Err(name),
        }
    }
}

/// Binds the sink, where there is one, to all the arguments that are left.
pub open spec fn bind_sink(sink: Option<Seq<char>>, span: Span, b: Bound) -> Bound {
    match sink {
        Some(name) => Bound {
            scope: b.scope.insert(name, ValueView::Args(span, b.args)),
            args: Seq::empty(),
        },
        None => b,
    }
}

/// The number of parameters without a default among the first `n`.
pub open spec fn count_positional(params: Seq<(Seq<char>, Option<ValueView>)>, n: nat) -> nat
    decreases n,
{
    if n == 0 || n > params.len() {
        0
    } else if params[n - 1].1 is None {
        count_positional(params, (n - 1) as nat) + 1
    } else {
        count_positional(params, (n - 1) as nat)
    }
}

/// Once a parameter has failed to bind, binding more parameters fails in the
/// same way.
proof fn lemma_bind_error_stays(
    params: Seq<(Seq<char>, Option<ValueView>)>,
    i: nat,
    n: nat,
    b: Bound,
)
    requires
        i <= n <= params.len(),
        bind_params(params, i, b) is Err,
    ensures
        bind_params(params, n, b) == bind_params(params, i, b),
    decreases n,
{
    if i < n {
        lemma_bind_error_stays(params, i, (n - 1) as nat, b);
    }
}

proof fn lemma_count_bounded(params: Seq<(Seq<char>, Option<ValueView>)>, n: nat)
    ensures
        count_positional(params, n) <= n,
    decreases n,
{
    if !(n == 0 || n > params.len()) {
        lemma_count_bounded(params, (n - 1) as nat);
    }
}

impl Closure {
    /// The bindings that a call with the given arguments starts its body
    /// with, over the captured values, and the arguments that it leaves; or
    /// the name of the first positional parameter that finds no argument.
    pub open spec fn spec_bind(self, args: Seq<ArgView>, span: Span) -> Result<Bound, Seq<char>> {
        match bind_params(
            params_view(self.params@),
            self.params@.len(),
            Bound { scope: self.captured@, args },
        ) {
            Ok(b) => Ok(bind_sink(name_view(self.sink), span, b)),
            Err(name) => Err(name),
        }
    }

    /// The number of positional arguments, unknown with a sink.
    pub open spec fn spec_argc(self) -> Option<usize> {
        if self.sink is Some {
            None
        } else {
            Some(count_positional(params_view(self.params@), self.params@.len()) as usize)
        }
    }

    /// Binds the parameters to the arguments in a fresh scope over the
    /// captured values. Nothing of the caller's scopes is visible in it.
    pub fn bind(&self, args: &mut Args) -> (r: Result<Scopes, CallError>)
        ensures
            final(args).span == old(args).span,
            match self.spec_bind(old(args)@, old(args).span) {
                Ok(b) => r matches Ok(scopes) && scopes@ == seq![b.scope] && final(args)@
                    == b.args,
                Err(missing) => r matches Err(CallError::MissingArgument { span, name })
                    && span == old(args).span && name@ == missing,
            },
    {
        let ghost params = params_view(self.params@);
        let ghost start = Bound { scope: self.captured@, args: old(args)@ };
        let mut top = self.captured.clone();
        let mut i: usize = 0;
        while i < self.params.len()
            invariant
                i <= self.params.len(),
                params == params_view(self.params@),
                start == (Bound { scope: self.captured@, args: old(args)@ }),
                args.span == old(args).span,
                bind_params(params, i as nat, start) == Ok::<Bound, Seq<char>>(
                    Bound { scope: top@, args: args@ },
                ),
            decreases self.params.len() - i,
        {
            let param = &self.params[i];
            let value = match &param.1 {
                Some(default) => match args.named(&param.0) {
                    Some(given) => given,
                    None => default.clone(),
                },
                None => match args.expect(&param.0) {
                    Ok(given) => given,
                    Err(e) => {
                        proof {
                            assert(params[i as int] == (param.0@, None::<ValueView>));
                            assert(bind_params(params, (i + 1) as nat, start) is Err);
                            lemma_bind_error_stays(
                                params,
                                (i + 1) as nat,
                                self.params@.len(),
                                start,
                            );
                        }
                        return Err(e);
                    },
                },
            };
            top.define(param.0.clone(), value);
            i = i + 1;
        }
        match &self.sink {
            Some(sink) => {
                let rest = args.take();
                proof {
                    lemma_args_value_view(rest);
                }
                top.define(sink.clone(), Value::Args(rest));
            },
            None => {},
        }
        let scopes = Scopes { top, scopes: Vec::new() };
        proof {
            assert(scopes@ =~= seq![top@]);
        }
        Ok(scopes)
    }

    /// What the body of a call is evaluated in: the scope that binding gives,
    /// the route chosen for the caller's, and the place where the closure
    /// was defined.
    pub fn frame(&self, detached: bool, caller: Route, args: &mut Args) -> (r: Result<
        Frame,
        CallError,
    >)
        ensures
            final(args).span == old(args).span,
            match self.spec_bind(old(args)@, old(args).span) {
                Ok(b) => r matches Ok(frame) && frame.scopes@ == seq![b.scope] && frame.route
                    == spec_select_route(detached, caller, self.location) && frame.location
                    == self.location && final(args)@ == b.args,
                Err(missing) => r matches Err(CallError::MissingArgument { span, name })
                    && span == old(args).span && name@ == missing,
            },
    {
        match self.bind(args) {
            Ok(scopes) => Ok(
                Frame {
                    scopes,
                    route: select_route(detached, caller, self.location),
                    location: self.location,
                },
            ),
            Err(e) => Err(e),
        }
    }

    /// Call the function in the context with the arguments: the body is
    /// evaluated in the frame for the call, by a machine of its own, and what
    /// it gave is reconciled. The caller's machine stays as it is, whatever
    /// the call comes to. A parameter without an argument fails the call
    /// before anything is evaluated.
    pub fn call<M: Machine>(&self, vm: &mut M, args: &mut Args) -> (r: Result<Value, CallError>)
        ensures
            *final(vm) == *old(vm),
            final(args).span == old(args).span,
            match self.spec_bind(old(args)@, old(args).span) {
                Ok(b) => final(args)@ == b.args,
                Err(missing) => r matches Err(CallError::MissingArgument { span, name })
                    && span == old(args).span && name@ == missing,
            },
    {
        let detached = vm.location().is_detached();
        let frame = match self.frame(detached, vm.route(), args) {
            Ok(frame) => frame,
            Err(e) => {
                return Err(e);
            },
        };
        let mut sub = vm.enter(frame);
        let evaluated = sub.eval(&self.body);
        reconcile(evaluated)
    }

    /// The number of positional arguments this function takes, if known.
    pub fn argc(&self) -> (r: Option<usize>)
        ensures
            r == self.spec_argc(),
    {
        if self.sink.is_some() {
            return None;
        }
        let ghost params = params_view(self.params@);
        let mut count: usize = 0;
        let mut i: usize = 0;
        while i < self.params.len()
            invariant
                i <= self.params.len(),
                params == params_view(self.params@),
                count == count_positional(params, i as nat),
                count <= i,
            decreases self.params.len() - i,
        {
            if self.params[i].1.is_none() {
                count = count + 1;
            }
            i = i + 1;
        }
        Some(count)
    }
}

/// Whether a state can be reached by a native function of the kind.
pub open spec fn state_fits(kind: NativeKind, state: NativeState) -> bool {
    match state {
        NativeState::Start => true,
        NativeState::Returned(_) => kind is Plain,
        _ => kind is Node,
    }
}

/// Runs a native function: it asks the machine for what each step says,
/// from the start until a step says that the call is over. What a plain one
/// gives is the host's to say; one backed by a node gives content whenever
/// it gives a value.
fn invoke<M: Machine>(native: &Native, vm: &mut M, args: &mut Args) -> (r: Result<
    Value,
    CallError,
>)
    ensures
        native.kind is Node ==> (r matches Ok(value) ==> value is Content),
{
    let kind = native.kind;
    let mut state = NativeState::Start;
    loop
        invariant
            kind == native.kind,
            state_fits(kind, state),
        decreases steps_left(state),
    {
        match native_step(kind, state) {
            NativeStep::Run(key) => {
                state = NativeState::Returned(vm.call_native(key, args));
            },
            NativeStep::Rule { node, permissive } => {
                state = NativeState::Ruled(node, vm.set_rule(node, args, permissive));
            },
            NativeStep::Construct { node, styles } => {
                state = NativeState::Constructed(styles, vm.construct(node, args));
            },
            NativeStep::Style { content, styles } => {
                state = NativeState::Styled(vm.styled(content, styles));
            },
            NativeStep::Done(outcome) => {
                return outcome;
            },
        }
    }
}

/// The text `<function NAME>` for a name, put together by std's `format!`:
/// the name stands unchanged between the two literal parts.
#[verifier::external_body]
fn labelled(name: &String) -> (r: String)
    ensures
        r@ == "<function "@ + name@ + ">"@,
{
    format!("<function {name}>")
}

/// `n` less `k`, and zero where `k` is the larger.
pub open spec fn less(n: usize, k: nat) -> usize {
    if n >= k {
        (n - k) as usize
    } else {
        0
    }
}

impl Func {
    /// What the function is made of.
    pub open spec fn repr(self) -> Repr {
        *self.0
    }

    /// The name of the function: a partial application has that of the
    /// function that it wraps.
    pub open spec fn spec_name(self) -> Option<Seq<char>>
        decreases self,
    {
        match *self.0 {
            Repr::Native(native) => Some(native.name@),
            Repr::Closure(closure) => name_view(closure.name),
            Repr::With(wrapped, _) => wrapped.spec_name(),
        }
    }

    /// The number of positional arguments that the function takes, if known:
    /// unknown for a native function; for a partial application, what the
    /// wrapped function takes less the positional arguments applied.
    pub open spec fn spec_argc(self) -> Option<usize>
        decreases self,
    {
        match *self.0 {
            Repr::Native(_) => None,
            Repr::Closure(closure) => closure.spec_argc(),
            Repr::With(wrapped, applied) => match wrapped.spec_argc() {
                Some(n) => Some(less(n, select(applied@, false).len())),
                None => None,
            },
        }
    }

    /// The node behind the function, if it is a native function backed by one.
    pub open spec fn spec_node(self) -> Option<NodeId> {
        match *self.0 {
            Repr::Native(Native { kind: NativeKind::Node(id), .. }) => Some(id),
            _ => None,
        }
    }

    /// The function that a call with `args` ends in, under every layer of
    /// partial application, and the arguments that it is called with.
    pub open spec fn target(self, args: Seq<ArgView>) -> (Func, Seq<ArgView>)
        decreases self,
    {
        match *self.0 {
            Repr::With(wrapped, applied) => wrapped.target(applied@ + args),
            _ => (self, args),
        }
    }

    /// Create a new function from the host's code registered under `key`.
    pub fn from_fn(name: &str, key: u64) -> (r: Self)
        ensures
            r.repr() matches Repr::Native(native) && native.name@ == name@ && native.kind
                == NativeKind::Plain(key),
    {
        Func(Arc::new(Repr::Native(Native { name: name.to_owned(), kind: NativeKind::Plain(key) })))
    }

    /// Create a new function from a kind of document node.
    pub fn from_node(name: &str, node: NodeId) -> (r: Self)
        ensures
            r.repr() matches Repr::Native(native) && native.name@ == name@ && native.kind
                == NativeKind::Node(node),
    {
        Func(Arc::new(Repr::Native(Native { name: name.to_owned(), kind: NativeKind::Node(node) })))
    }

    /// Create a new function from a closure.
    pub fn from_closure(closure: Closure) -> (r: Self)
        ensures
            r.repr() == Repr::Closure(closure),
    {
        Func(Arc::new(Repr::Closure(closure)))
    }

    /// The name of the function.
    pub fn name(&self) -> (r: Option<&String>)
        ensures
            match r {
                Some(n) => self.spec_name() == Some(n@),
                None => self.spec_name() is None,
            },
        decreases self,
    {
        match &*self.0 {
            Repr::Native(native) => Some(&native.name),
            Repr::Closure(closure) => closure.name.as_ref(),
            Repr::With(wrapped, _) => wrapped.name(),
        }
    }

    /// How the function shows in output: with its name, if it has one.
    pub fn describe(&self) -> (r: String)
        ensures
            r@ == match self.spec_name() {
                Some(n) => "<function "@ + n + ">"@,
                None => "<function>"@,
            },
    {
        match self.name() {
            Some(n) => labelled(n),
            None => "<function>".to_owned(),
        }
    }

    /// The number of positional arguments this function takes, if known.
    pub fn argc(&self) -> (r: Option<usize>)
        ensures
            r == self.spec_argc(),
        decreases self,
    {
        match &*self.0 {
            Repr::Closure(closure) => closure.argc(),
            Repr::With(wrapped, applied) => {
                let n = match wrapped.argc() {
                    Some(n) => n,
                    None => {
                        return None;
                    },
                };
                let mut k: usize = 0;
                let mut i: usize = 0;
                while i < applied.items.len()
                    invariant
                        i <= applied.items.len(),
                        k == select(applied@.take(i as int), false).len(),
                        k <= i,
                    decreases applied.items.len() - i,
                {
                    proof {
                        assert(applied@.take(i + 1).drop_last() =~= applied@.take(i as int));
                    }
                    if applied.items[i].name.is_none() {
                        k = k + 1;
                    }
                    i = i + 1;
                }
                proof {
                    assert(applied@.take(i as int) =~= applied@);
                }
                Some(if n >= k { n - k } else { 0 })
            },
            Repr::Native(_) => None,
        }
    }

    /// What a call with the given arguments comes to. A partial application
    /// puts its arguments before the given ones and hands the call on. A
    /// native function is to be run with the arguments as they then are. A
    /// closure binds its parameters: its body is to be evaluated in the frame
    /// for the call, or the call fails for want of an argument.
    pub fn plan(&self, detached: bool, caller: Route, args: Args) -> (r: Plan<'_>)
        ensures
            match self.target(args@).0.repr() {
                Repr::Native(native) => r matches Plan::Native(n, rest) && *n == native
                    && rest@ == self.target(args@).1 && rest.span == args.span,
                Repr::Closure(closure) => match closure.spec_bind(
                    self.target(args@).1,
                    args.span,
                ) {
                    Ok(b) => r matches Plan::Body { frame, body, rest } && frame.scopes@
                        == seq![b.scope] && frame.route == spec_select_route(
                        detached,
                        caller,
                        closure.location,
                    ) && frame.location == closure.location && *body == closure.body && rest@
                        == b.args && rest.span == args.span,
                    Err(missing) => r matches Plan::Fail(
                        CallError::MissingArgument { span, name },
                    ) && span == args.span && name@ == missing,
                },
                Repr::With(_, _) => false,
            },
        decreases self,
    {
        let mut args = args;
        match &*self.0 {
            Repr::Native(native) => Plan::Native(native, args),
            Repr::Closure(closure) => match closure.frame(detached, caller, &mut args) {
                Ok(frame) => Plan::Body { frame, body: &closure.body, rest: args },
                Err(e) => Plan::Fail(e),
            },
            Repr::With(wrapped, applied) => {
                args.splice_front(&applied.items);
                wrapped.plan(detached, caller, args)
            },
        }
    }

    /// Call the function with the given arguments: the machine runs what
    /// the plan for the call says, and then no argument may be left. That is
    /// checked once, for the function that the call ends in; a partial
    /// application checks nothing itself.
    ///
    /// Where the call ends in a closure, the body is evaluated by a machine
    /// of its own and the caller's stays as it is; a parameter without an
    /// argument fails the call before anything is evaluated, and the call
    /// fails whenever binding leaves an argument. Where it ends in a native
    /// function, the machine is asked for what each step of the function
    /// says; one backed by a node gives content whenever it gives a value.
    pub fn call<M: Machine>(&self, vm: &mut M, args: Args) -> (r: Result<Value, CallError>)
        ensures
            match self.target(args@).0.repr() {
                Repr::Closure(closure) => match closure.spec_bind(
                    self.target(args@).1,
                    args.span,
                ) {
                    Ok(b) => *final(vm) == *old(vm) && (b.args.len() > 0 ==> r is Err),
                    Err(missing) => r matches Err(CallError::MissingArgument { span, name })
                        && span == args.span && name@ == missing && *final(vm) == *old(vm),
                },
                Repr::Native(native) => native.kind is Node ==> (r matches Ok(value)
                    ==> value is Content),
                Repr::With(_, _) => true,
            },
    {
        let detached = vm.location().is_detached();
        match self.plan(detached, vm.route(), args) {
            Plan::Native(native, rest) => {
                let mut rest = rest;
                let outcome = invoke(native, vm, &mut rest);
                conclude(outcome, rest)
            },
            Plan::Body { frame, body, rest } => {
                let mut sub = vm.enter(frame);
                let evaluated = sub.eval(body);
                conclude(reconcile(evaluated), rest)
            },
            Plan::Fail(e) => Err(e),
        }
    }

    /// Apply the given arguments to the function.
    pub fn with(self, args: Args) -> (r: Self)
        ensures
            r.repr() == Repr::With(self, args),
    {
        Func(Arc::new(Repr::With(self, args)))
    }

    /// The name of the function, as a value of its own.
    pub fn owned_name(&self) -> (r: Option<String>)
        ensures
            name_view(r) == self.spec_name(),
    {
        match self.name() {
            Some(n) => Some(n.clone()),
            None => None,
        }
    }

    /// What `set` asks of the machine: the style rule of the function's
    /// node, run strictly. A function without a node has no rule: the error
    /// says where the rule was asked for, and names the function.
    pub fn rule_request(&self, span: Span) -> (r: Result<(NodeId, bool), CallError>)
        ensures
            match self.spec_node() {
                Some(id) => r == Ok::<(NodeId, bool), CallError>((id, false)),
                None => r matches Err(CallError::NotCustomizable { at, function }) && at == Some(
                    span,
                ) && name_view(function) == self.spec_name(),
            },
    {
        match self.node() {
            Ok(id) => Ok((id, false)),
            Err(_) => Err(CallError::NotCustomizable { at: Some(span), function: self.owned_name() }),
        }
    }

    /// Execute the function's set rule and return the resulting style map.
    /// Only a native function backed by a node has one; any other fails
    /// before anything is run. The rule is run strictly, and must leave no
    /// argument. The machine stays as it is.
    pub fn set<M: Machine>(&self, vm: &M, args: Args, span: Span) -> (r: Result<
        StyleMap,
        CallError,
    >)
        ensures
            self.spec_node() is None ==> (r matches Err(
                CallError::NotCustomizable { at, function },
            ) && at == Some(span) && name_view(function) == self.spec_name()),
    {
        let mut args = args;
        match self.rule_request(span) {
            Ok((node, permissive)) => {
                let outcome = vm.set_rule(node, &mut args, permissive);
                conclude(outcome, args)
            },
            Err(e) => Err(e),
        }
    }

    /// The id of the node to customize with this function's show rule; the
    /// error for a function without a node names the function.
    pub fn node(&self) -> (r: Result<NodeId, CallError>)
        ensures
            match self.spec_node() {
                Some(id) => r == Ok::<NodeId, CallError>(id),
                None => r matches Err(CallError::NotCustomizable { at, function }) && at is None
                    && name_view(function) == self.spec_name(),
            },
    {
        match &*self.0 {
            Repr::Native(native) => match native.kind {
                NativeKind::Node(id) => Ok(id),
                NativeKind::Plain(_) => Err(
                    CallError::NotCustomizable { at: None, function: self.owned_name() },
                ),
            },
            _ => Err(CallError::NotCustomizable { at: None, function: self.owned_name() }),
        }
    }

    /// Create a selector from this node and the given arguments: the named
    /// arguments become the selector's fields and leave the list. A function
    /// without a node fails with an error that names it, and leaves the list
    /// as it was.
    pub fn where_(self, args: &mut Args) -> (r: Result<Selector, CallError>)
        ensures
            final(args).span == old(args).span,
            match self.spec_node() {
                Some(id) => r matches Ok(selector) && selector.node == id && items_view(
                    selector.fields@,
                ) == select(old(args)@, true) && final(args)@ == select(old(args)@, false),
                None => r matches Err(CallError::NotSelectable { function }) && name_view(function)
                    == self.spec_name() && *final(args) == *old(args),
            },
    {
        match self.node() {
            Ok(id) => {
                let fields = args.to_named();
                args.retain_positional();
                Ok(Selector { node: id, fields })
            },
            Err(_) => Err(CallError::NotSelectable { function: self.owned_name() }),
        }
    }
}

impl PartialEq for Func {
    /// Whether the two are copies of one function, by `Arc::ptr_eq`: they are
    /// when they share one allocation, whatever they hold. Nothing is claimed
    /// of the result.
    #[verifier::external_body]
    fn eq(&self, other: &Self) -> (r: bool) {
        Arc::ptr_eq(&self.0, &other.0)
    }
}

} // verus!
