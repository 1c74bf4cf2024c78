use std::cell::RefCell;
use std::rc::Rc;

use funcvalue::error::{CallError, FlowKind};
use funcvalue::func::{Closure, Func, Plan};
use funcvalue::machine::{
    conclude, native_step, reconcile, select_route, Evaluated, Flow, Frame, Machine, NativeKind,
    NativeState, NativeStep, NodeId, Route, SourceId,
};
use funcvalue::scope::{Scope, Scopes};
use funcvalue::syntax::SyntaxNode;
use funcvalue::value::{Arg, Args, Content, Span, StyleMap, Value};

/// What the machines of one test have done.
#[derive(Default)]
struct Record {
    evaluated: usize,
    natives: usize,
    last_route: Option<Route>,
    last_location: Option<SourceId>,
    log: Vec<String>,
}

/// A machine for tests. A body that is a name evaluates to what the name is
/// bound to; any other body evaluates to nothing. Native 1 returns its first
/// positional argument, native 2 returns 42 and consumes nothing. The rule
/// of node 7 and the constructor of node 8 fail.
struct TestVm {
    location: SourceId,
    route: Route,
    flow: Rc<RefCell<Option<Flow>>>,
    scopes: Scopes,
    record: Rc<RefCell<Record>>,
}

impl TestVm {
    fn new() -> Self {
        TestVm {
            location: SourceId(3),
            route: Route { anchor: Some(SourceId(3)) },
            flow: Rc::new(RefCell::new(None)),
            scopes: Scopes::new(),
            record: Rc::new(RefCell::new(Record::default())),
        }
    }

    fn evaluated(&self) -> usize {
        self.record.borrow().evaluated
    }

    fn natives(&self) -> usize {
        self.record.borrow().natives
    }

    fn log(&self) -> Vec<String> {
        self.record.borrow().log.clone()
    }
}

impl Machine for TestVm {
    fn location(&self) -> SourceId {
        self.location
    }

    fn route(&self) -> Route {
        self.route
    }

    fn call_native(&mut self, key: u64, args: &mut Args) -> Result<Value, CallError> {
        self.record.borrow_mut().natives += 1;
        match key {
            1 => args.expect(&"value".to_string()),
            2 => Ok(Value::Int(42)),
            _ => Err(CallError::Host { span: args.span, code: key }),
        }
    }

    fn set_rule(
        &self,
        node: NodeId,
        args: &mut Args,
        permissive: bool,
    ) -> Result<StyleMap, CallError> {
        self.record.borrow_mut().log.push(format!("set {} {}", node.0, permissive));
        if node.0 == 7 {
            return Err(CallError::Host { span: args.span, code: 7 });
        }
        let _ = args.named(&"fill".to_string());
        Ok(StyleMap(node.0 + 100))
    }

    fn construct(&mut self, node: NodeId, args: &mut Args) -> Result<Content, CallError> {
        self.record.borrow_mut().log.push(format!("construct {}", node.0));
        if node.0 == 8 {
            return Err(CallError::Host { span: args.span, code: 8 });
        }
        let _ = args.expect(&"body".to_string())?;
        Ok(Content(node.0 + 200))
    }

    fn styled(&self, content: Content, styles: StyleMap) -> Content {
        self.record.borrow_mut().log.push(format!("styled {} {}", content.0, styles.0));
        Content(content.0 + styles.0)
    }

    fn enter(&self, frame: Frame) -> Self {
        let mut record = self.record.borrow_mut();
        record.last_route = Some(frame.route);
        record.last_location = Some(frame.location);
        TestVm {
            location: frame.location,
            route: frame.route,
            flow: self.flow.clone(),
            scopes: frame.scopes,
            record: self.record.clone(),
        }
    }

    fn eval(&mut self, body: &SyntaxNode) -> Evaluated {
        self.record.borrow_mut().evaluated += 1;
        let result = match body {
            SyntaxNode::Ident(name) => match self.scopes.get(name) {
                Some(value) => Ok(value.clone()),
                None => Err(CallError::Host { span: Span(0), code: 404 }),
            },
            _ => Ok(Value::Nothing),
        };
        Evaluated { result, flow: self.flow.borrow_mut().take() }
    }
}

fn positional(value: i64) -> Arg {
    Arg { span: Span(20), name: None, value: Value::Int(value) }
}

fn named(name: &str, value: i64) -> Arg {
    Arg { span: Span(20), name: Some(name.to_string()), value: Value::Int(value) }
}

fn args(items: Vec<Arg>) -> Args {
    Args::new(Span(9), items)
}

fn closure(params: Vec<(&str, Option<Value>)>, sink: Option<&str>, body: &str) -> Closure {
    Closure {
        location: SourceId(5),
        name: Some("f".to_string()),
        captured: Scope::new(),
        params: params.into_iter().map(|(n, d)| (n.to_string(), d)).collect(),
        sink: sink.map(|s| s.to_string()),
        body: SyntaxNode::Ident(body.to_string()),
    }
}

#[test]
fn closure_binds_positional_parameters_in_order() {
    let f = Func::from_closure(closure(vec![("a", None), ("b", None)], None, "b"));
    let mut vm = TestVm::new();
    let r = f.call(&mut vm, args(vec![positional(1), positional(2)]));
    assert_eq!(r, Ok(Value::Int(2)));
    assert_eq!(vm.evaluated(), 1);
}

#[test]
fn missing_argument_fails_before_the_body() {
    let f = Func::from_closure(closure(vec![("a", None), ("b", None)], None, "a"));
    let mut vm = TestVm::new();
    let r = f.call(&mut vm, args(vec![positional(1), named("b", 2)]));
    assert_eq!(r, Err(CallError::MissingArgument { span: Span(9), name: "b".to_string() }));
    assert_eq!(vm.evaluated(), 0);
}

#[test]
fn unexpected_positional_argument_fails() {
    let f = Func::from_closure(closure(vec![("a", None)], None, "a"));
    let mut vm = TestVm::new();
    let r = f.call(&mut vm, args(vec![positional(1), positional(2)]));
    assert_eq!(r, Err(CallError::UnexpectedArgument { span: Span(20), named: None }));
}

#[test]
fn unexpected_named_argument_fails() {
    let f = Func::from_closure(closure(vec![("a", None)], None, "a"));
    let mut vm = TestVm::new();
    let r = f.call(&mut vm, args(vec![positional(1), named("k", 2)]));
    assert_eq!(
        r,
        Err(CallError::UnexpectedArgument { span: Span(20), named: Some("k".to_string()) })
    );
}

#[test]
fn default_is_the_value_stored_at_definition() {
    let f = Func::from_closure(closure(vec![("a", Some(Value::Int(7)))], None, "a"));
    let mut vm = TestVm::new();
    assert_eq!(f.call(&mut vm, args(vec![])), Ok(Value::Int(7)));
    assert_eq!(f.call(&mut vm, args(vec![])), Ok(Value::Int(7)));
    assert_eq!(f.call(&mut vm, args(vec![named("a", 8)])), Ok(Value::Int(8)));
    assert_eq!(f.call(&mut vm, args(vec![named("a", 8), named("a", 9)])), Ok(Value::Int(9)));
}

#[test]
fn named_parameter_takes_no_positional_argument() {
    let f = Func::from_closure(closure(vec![("a", Some(Value::Int(7)))], None, "a"));
    let mut vm = TestVm::new();
    let r = f.call(&mut vm, args(vec![positional(1)]));
    assert_eq!(r, Err(CallError::UnexpectedArgument { span: Span(20), named: None }));
}

#[test]
fn sink_takes_what_is_left() {
    let f = Func::from_closure(closure(vec![("a", None)], Some("rest"), "rest"));
    let mut vm = TestVm::new();
    let r = f.call(&mut vm, args(vec![positional(1), named("k", 2), positional(3)]));
    assert_eq!(r, Ok(Value::Args(args(vec![named("k", 2), positional(3)]))));
}

#[test]
fn body_sees_captured_values_and_not_the_callers() {
    let mut captured = Scope::new();
    captured.define("x".to_string(), Value::Int(11));
    let mut c = closure(vec![], None, "x");
    c.captured = captured;
    let f = Func::from_closure(c);
    let mut vm = TestVm::new();
    assert_eq!(f.call(&mut vm, args(vec![])), Ok(Value::Int(11)));

    let g = Func::from_closure(closure(vec![], None, "y"));
    assert_eq!(g.call(&mut vm, args(vec![])), Err(CallError::Host { span: Span(0), code: 404 }));
}

#[test]
fn parameter_shadows_captured_value() {
    let mut c = closure(vec![("x", None)], None, "x");
    c.captured.define("x".to_string(), Value::Int(11));
    let mut a = args(vec![positional(5)]);
    let scopes = c.bind(&mut a).unwrap();
    assert_eq!(scopes.get(&"x".to_string()), Some(&Value::Int(5)));
    assert_eq!(a.items.len(), 0);
    assert_eq!(scopes.scopes.len(), 0);
}

#[test]
fn route_is_fresh_when_detached() {
    let f = Func::from_closure(closure(vec![], None, "x"));
    let mut vm = TestVm::new();
    vm.location = SourceId::detached();
    vm.route = Route::default();
    let _ = f.call(&mut vm, args(vec![]));
    assert_eq!(vm.record.borrow().last_route, Some(Route::new(SourceId(5))));
    assert_eq!(vm.record.borrow().last_location, Some(SourceId(5)));

    let mut vm = TestVm::new();
    let _ = f.call(&mut vm, args(vec![]));
    assert_eq!(vm.record.borrow().last_route, Some(Route { anchor: Some(SourceId(3)) }));
}

#[test]
fn select_route_cases() {
    let caller = Route { anchor: Some(SourceId(1)) };
    assert_eq!(select_route(true, caller, SourceId(2)), Route { anchor: Some(SourceId(2)) });
    assert_eq!(select_route(false, caller, SourceId(2)), caller);
    assert!(SourceId::detached().is_detached());
    assert!(!SourceId(0).is_detached());
    assert_eq!(Route::default(), Route { anchor: None });
}

#[test]
fn explicit_return_replaces_the_result() {
    let r = reconcile(Evaluated {
        result: Ok(Value::Int(1)),
        flow: Some(Flow::Return(Span(4), Some(Value::Int(2)))),
    });
    assert_eq!(r, Ok(Value::Int(2)));
    let r = reconcile(Evaluated {
        result: Err(CallError::Host { span: Span(0), code: 1 }),
        flow: Some(Flow::Return(Span(4), Some(Value::Int(2)))),
    });
    assert_eq!(r, Ok(Value::Int(2)));
}

#[test]
fn bare_return_keeps_the_result() {
    let r = reconcile(Evaluated {
        result: Ok(Value::Int(1)),
        flow: Some(Flow::Return(Span(4), None)),
    });
    assert_eq!(r, Ok(Value::Int(1)));
    let r = reconcile(Evaluated { result: Ok(Value::Int(1)), flow: None });
    assert_eq!(r, Ok(Value::Int(1)));
}

#[test]
fn break_and_continue_are_illegal_in_a_body() {
    let r = reconcile(Evaluated { result: Ok(Value::Int(1)), flow: Some(Flow::Break(Span(4))) });
    assert_eq!(r, Err(CallError::IllegalControlFlow { span: Span(4), kind: FlowKind::Break }));
    let r = reconcile(Evaluated { result: Ok(Value::Int(1)), flow: Some(Flow::Continue(Span(6))) });
    assert_eq!(r, Err(CallError::IllegalControlFlow { span: Span(6), kind: FlowKind::Continue }));
    assert_eq!(
        Flow::Return(Span(1), None).forbidden(),
        CallError::IllegalControlFlow { span: Span(1), kind: FlowKind::Return }
    );
}

#[test]
fn closure_call_reconciles_the_flow() {
    let f = Func::from_closure(closure(vec![("a", None)], None, "a"));
    let mut vm = TestVm::new();
    *vm.flow.borrow_mut() = Some(Flow::Break(Span(8)));
    let r = f.call(&mut vm, args(vec![positional(1)]));
    assert_eq!(r, Err(CallError::IllegalControlFlow { span: Span(8), kind: FlowKind::Break }));
}

#[test]
fn conclude_cases() {
    assert_eq!(conclude(Ok(1), args(vec![])), Ok(1));
    assert_eq!(
        conclude(Ok(1), args(vec![positional(1)])),
        Err(CallError::UnexpectedArgument { span: Span(20), named: None })
    );
    assert_eq!(
        conclude::<i32>(Err(CallError::NotSelectable { function: None }), args(vec![positional(1)])),
        Err(CallError::NotSelectable { function: None })
    );
}

#[test]
fn native_call_checks_exhaustion() {
    let f = Func::from_fn("first", 1);
    let mut vm = TestVm::new();
    assert_eq!(f.call(&mut vm, args(vec![positional(4)])), Ok(Value::Int(4)));
    assert_eq!(
        f.call(&mut vm, args(vec![positional(4), positional(5)])),
        Err(CallError::UnexpectedArgument { span: Span(20), named: None })
    );
    assert_eq!(
        f.call(&mut vm, args(vec![])),
        Err(CallError::MissingArgument { span: Span(9), name: "value".to_string() })
    );
    assert_eq!(vm.natives(), 3);
}

#[test]
fn node_call_styles_what_it_constructs() {
    let f = Func::from_node("box", NodeId(1));
    let mut vm = TestVm::new();
    let r = f.call(&mut vm, args(vec![named("fill", 1), positional(2)]));
    assert_eq!(r, Ok(Value::Content(Content(302))));
    assert_eq!(vm.log(), vec!["set 1 true", "construct 1", "styled 201 101"]);
}

#[test]
fn partial_application_prepends_its_arguments() {
    let f = Func::from_closure(closure(vec![("a", None), ("b", None)], None, "a"));
    let g = f.clone().with(args(vec![positional(1)]));
    let mut vm = TestVm::new();
    assert_eq!(g.call(&mut vm, args(vec![positional(2)])), Ok(Value::Int(1)));
    assert_eq!(
        f.call(&mut vm, args(vec![positional(1), positional(2)])),
        Ok(Value::Int(1))
    );
    let h = g.clone().with(args(vec![positional(0)]));
    // The arguments applied first stand first: `a` is 1 and `b` is 0.
    assert_eq!(h.call(&mut vm, args(vec![])), Ok(Value::Int(1)));
    assert_eq!(
        h.call(&mut vm, args(vec![positional(3)])),
        Err(CallError::UnexpectedArgument { span: Span(20), named: None })
    );
    assert_eq!(
        g.call(&mut vm, args(vec![])),
        Err(CallError::MissingArgument { span: Span(9), name: "b".to_string() })
    );
}

#[test]
fn argc_cases() {
    let f = Func::from_closure(closure(
        vec![("a", None), ("k", Some(Value::Int(1))), ("b", None)],
        None,
        "a",
    ));
    assert_eq!(f.argc(), Some(2));
    let with_sink = Func::from_closure(closure(vec![("a", None)], Some("rest"), "a"));
    assert_eq!(with_sink.argc(), None);
    assert_eq!(Func::from_fn("first", 1).argc(), None);
    let g = f.clone().with(args(vec![positional(1), named("k", 2)]));
    assert_eq!(g.argc(), Some(1));
    let h = g.with(args(vec![positional(1), positional(2), positional(3)]));
    assert_eq!(h.argc(), Some(0));
    assert_eq!(with_sink.with(args(vec![positional(1)])).argc(), None);
    assert_eq!(closure(vec![], None, "a").argc(), Some(0));
}

#[test]
fn name_cases() {
    assert_eq!(Func::from_fn("first", 1).name(), Some(&"first".to_string()));
    assert_eq!(Func::from_node("box", NodeId(1)).name(), Some(&"box".to_string()));
    let f = Func::from_closure(closure(vec![], None, "a"));
    assert_eq!(f.name(), Some(&"f".to_string()));
    assert_eq!(f.with(args(vec![])).name(), Some(&"f".to_string()));
    let mut c = closure(vec![], None, "a");
    c.name = None;
    assert_eq!(Func::from_closure(c).name(), None);
}

#[test]
fn describe_cases() {
    assert_eq!(Func::from_fn("first", 1).describe(), "<function first>");
    let mut c = closure(vec![], None, "a");
    c.name = None;
    assert_eq!(Func::from_closure(c).describe(), "<function>");
}

#[test]
fn equality_is_identity() {
    let f = Func::from_closure(closure(vec![("a", None)], None, "a"));
    let g = Func::from_closure(closure(vec![("a", None)], None, "a"));
    assert!(f != g);
    assert!(f == f.clone());
    assert!(Func::from_fn("n", 1) != Func::from_fn("n", 1));
}

#[test]
fn node_cases() {
    assert_eq!(Func::from_node("box", NodeId(6)).node(), Ok(NodeId(6)));
    assert_eq!(
        Func::from_fn("n", 1).node(),
        Err(CallError::NotCustomizable { at: None, function: Some("n".to_string()) })
    );
    let f = Func::from_closure(closure(vec![], None, "a"));
    assert_eq!(
        f.node(),
        Err(CallError::NotCustomizable { at: None, function: Some("f".to_string()) })
    );
    let partial = Func::from_node("box", NodeId(6)).with(args(vec![]));
    assert_eq!(
        partial.node(),
        Err(CallError::NotCustomizable { at: None, function: Some("box".to_string()) })
    );
    let mut nameless = closure(vec![], None, "a");
    nameless.name = None;
    assert_eq!(
        Func::from_closure(nameless).node(),
        Err(CallError::NotCustomizable { at: None, function: None })
    );
}

#[test]
fn set_cases() {
    let mut vm = TestVm::new();
    let f = Func::from_node("box", NodeId(1));
    assert_eq!(f.set(&vm, args(vec![named("fill", 1)]), Span(2)), Ok(StyleMap(101)));
    assert_eq!(vm.log(), vec!["set 1 false"]);
    assert_eq!(
        f.set(&vm, args(vec![named("other", 1)]), Span(2)),
        Err(CallError::UnexpectedArgument { span: Span(20), named: Some("other".to_string()) })
    );
    let mut vm = TestVm::new();
    assert_eq!(
        Func::from_fn("n", 1).set(&vm, args(vec![]), Span(2)),
        Err(CallError::NotCustomizable { at: Some(Span(2)), function: Some("n".to_string()) })
    );
    assert_eq!(vm.log().len(), 0);
}

#[test]
fn where_cases() {
    let f = Func::from_node("box", NodeId(1));
    let mut a = args(vec![named("fill", 1), positional(2), named("width", 3)]);
    let selector = f.where_(&mut a).unwrap();
    assert_eq!(selector.node, NodeId(1));
    assert_eq!(selector.fields, vec![named("fill", 1), named("width", 3)]);
    assert_eq!(a, args(vec![positional(2)]));

    let mut a = args(vec![named("fill", 1), positional(2)]);
    assert_eq!(
        Func::from_fn("n", 1).where_(&mut a),
        Err(CallError::NotSelectable { function: Some("n".to_string()) })
    );
    assert_eq!(a, args(vec![named("fill", 1), positional(2)]));
}

#[test]
fn frame_cases() {
    let mut c = closure(vec![("a", None), ("k", Some(Value::Int(7)))], None, "a");
    c.captured.define("z".to_string(), Value::Int(9));
    let caller = Route { anchor: Some(SourceId(1)) };

    let mut a = args(vec![positional(1), positional(2)]);
    let frame = c.frame(false, caller, &mut a).unwrap();
    assert_eq!(frame.route, caller);
    assert_eq!(frame.location, SourceId(5));
    assert_eq!(frame.scopes.get(&"a".to_string()), Some(&Value::Int(1)));
    assert_eq!(frame.scopes.get(&"k".to_string()), Some(&Value::Int(7)));
    assert_eq!(frame.scopes.get(&"z".to_string()), Some(&Value::Int(9)));
    assert_eq!(a, args(vec![positional(2)]));

    let mut a = args(vec![positional(1)]);
    let frame = c.frame(true, caller, &mut a).unwrap();
    assert_eq!(frame.route, Route { anchor: Some(SourceId(5)) });

    let mut a = args(vec![named("k", 1)]);
    assert_eq!(
        c.frame(true, caller, &mut a),
        Err(CallError::MissingArgument { span: Span(9), name: "a".to_string() })
    );
}

#[test]
fn closure_call_leaves_what_it_did_not_bind() {
    let c = closure(vec![("a", None)], None, "a");
    let mut vm = TestVm::new();
    let mut a = args(vec![positional(1), named("k", 2)]);
    assert_eq!(c.call(&mut vm, &mut a), Ok(Value::Int(1)));
    assert_eq!(a, args(vec![named("k", 2)]));
    // The closure is as it was: a second call binds in the same way.
    let mut a = args(vec![positional(3)]);
    assert_eq!(c.call(&mut vm, &mut a), Ok(Value::Int(3)));
    assert_eq!(c.captured.names().len(), 0);
}

#[test]
fn later_parameter_of_the_same_name_wins() {
    let c = closure(vec![("a", None), ("a", Some(Value::Int(7)))], None, "a");
    let mut a = args(vec![positional(1)]);
    let scopes = c.bind(&mut a).unwrap();
    assert_eq!(scopes.get(&"a".to_string()), Some(&Value::Int(7)));
    assert_eq!(scopes.top.names(), vec!["a".to_string()]);
}

#[test]
fn plan_cases() {
    let caller = Route { anchor: Some(SourceId(1)) };

    let native = Func::from_fn("first", 1).with(args(vec![positional(1)]));
    match native.plan(false, caller, args(vec![named("k", 2)])) {
        Plan::Native(n, rest) => {
            assert_eq!(n.name, "first");
            assert_eq!(n.kind, NativeKind::Plain(1));
            assert_eq!(rest, args(vec![positional(1), named("k", 2)]));
        }
        other => panic!("{:?}", other),
    }

    let f = Func::from_closure(closure(vec![("a", None), ("b", None)], None, "b"));
    let g = f.with(args(vec![positional(1)]));
    match g.plan(true, caller, args(vec![positional(2), positional(3)])) {
        Plan::Body { frame, body, rest } => {
            assert_eq!(frame.scopes.get(&"a".to_string()), Some(&Value::Int(1)));
            assert_eq!(frame.scopes.get(&"b".to_string()), Some(&Value::Int(2)));
            assert_eq!(frame.route, Route { anchor: Some(SourceId(5)) });
            assert_eq!(frame.location, SourceId(5));
            assert!(matches!(body, SyntaxNode::Ident(name) if name == "b"));
            assert_eq!(rest, args(vec![positional(3)]));
        }
        other => panic!("{:?}", other),
    }

    match g.plan(false, caller, args(vec![])) {
        Plan::Fail(e) => {
            assert_eq!(e, CallError::MissingArgument { span: Span(9), name: "b".to_string() });
        }
        other => panic!("{:?}", other),
    }
}

#[test]
fn rule_request_cases() {
    assert_eq!(Func::from_node("box", NodeId(4)).rule_request(Span(2)), Ok((NodeId(4), false)));
    assert_eq!(
        Func::from_fn("n", 1).rule_request(Span(2)),
        Err(CallError::NotCustomizable { at: Some(Span(2)), function: Some("n".to_string()) })
    );
    let partial = Func::from_node("box", NodeId(4)).with(args(vec![]));
    assert_eq!(
        partial.rule_request(Span(2)),
        Err(CallError::NotCustomizable { at: Some(Span(2)), function: Some("box".to_string()) })
    );
}

#[test]
fn native_step_cases() {
    let node = NativeKind::Node(NodeId(1));
    let plain = NativeKind::Plain(5);
    let failed = CallError::Host { span: Span(0), code: 1 };
    assert_eq!(native_step(plain, NativeState::Start), NativeStep::Run(5));
    assert_eq!(
        native_step(plain, NativeState::Returned(Ok(Value::Int(3)))),
        NativeStep::Done(Ok(Value::Int(3)))
    );
    assert_eq!(
        native_step(node, NativeState::Start),
        NativeStep::Rule { node: NodeId(1), permissive: true }
    );
    assert_eq!(
        native_step(node, NativeState::Ruled(NodeId(1), Ok(StyleMap(2)))),
        NativeStep::Construct { node: NodeId(1), styles: StyleMap(2) }
    );
    assert_eq!(
        native_step(node, NativeState::Ruled(NodeId(1), Err(CallError::Host { span: Span(0), code: 1 }))),
        NativeStep::Done(Err(failed))
    );
    assert_eq!(
        native_step(node, NativeState::Constructed(StyleMap(2), Ok(Content(3)))),
        NativeStep::Style { content: Content(3), styles: StyleMap(2) }
    );
    assert_eq!(
        native_step(node, NativeState::Constructed(StyleMap(2), Err(CallError::Host { span: Span(0), code: 2 }))),
        NativeStep::Done(Err(CallError::Host { span: Span(0), code: 2 }))
    );
    assert_eq!(
        native_step(node, NativeState::Styled(Content(9))),
        NativeStep::Done(Ok(Value::Content(Content(9))))
    );
}

#[test]
fn failing_rule_stops_the_constructor() {
    let mut vm = TestVm::new();
    let f = Func::from_node("bad", NodeId(7));
    assert_eq!(
        f.call(&mut vm, args(vec![positional(1)])),
        Err(CallError::Host { span: Span(9), code: 7 })
    );
    assert_eq!(vm.log(), vec!["set 7 true"]);

    let mut vm = TestVm::new();
    let g = Func::from_node("worse", NodeId(8));
    assert_eq!(
        g.call(&mut vm, args(vec![positional(1)])),
        Err(CallError::Host { span: Span(9), code: 8 })
    );
    assert_eq!(vm.log(), vec!["set 8 true", "construct 8"]);
}

#[test]
fn closure_call_leaves_the_callers_machine() {
    let f = Func::from_closure(closure(vec![("a", None)], None, "a"));
    let mut vm = TestVm::new();
    vm.scopes.define("a".to_string(), Value::Int(77));
    assert_eq!(f.call(&mut vm, args(vec![positional(1)])), Ok(Value::Int(1)));
    assert_eq!(vm.location, SourceId(3));
    assert_eq!(vm.route, Route { anchor: Some(SourceId(3)) });
    assert_eq!(vm.scopes.get(&"a".to_string()), Some(&Value::Int(77)));
}
