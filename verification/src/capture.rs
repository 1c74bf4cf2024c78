//! Which outer variables a closure literal captures.
//!
//! The analysis walks the literal once, in source order. It keeps the names
//! that the walked code has bound itself, frame by frame, and copies the value
//! of every other name that it meets and that the outer scopes resolve.

use vstd::prelude::*;
use crate::scope::{Scope, Scopes, resolve, visible};
use crate::syntax::{Imports, Param, SyntaxNode};
use crate::value::{Value, ValueView};

verus! {

/// The state of a walk: the names bound by the code walked so far and still
/// in scope, and the values captured so far.
pub struct Walk {
    pub bound: Set<Seq<char>>,
    pub captures: Map<Seq<char>, ValueView>,
}

/// The state after a use of `name`: its outer value is captured unless the
/// name is bound inside or unknown outside.
pub open spec fn walk_use(name: Seq<char>, outer: Seq<Map<Seq<char>, ValueView>>, w: Walk) -> Walk {
    match resolve(outer, name) {
        Some(v) if !w.bound.contains(name) => Walk {
            bound: w.bound,
            captures: w.captures.insert(name, v),
        },
        _ => w,
    }
}

/// The state after binding `name`.
pub open spec fn walk_bind(name: Seq<char>, w: Walk) -> Walk {
    Walk { bound: w.bound.insert(name), captures: w.captures }
}

/// The state after binding the first `n` of `names`.
pub open spec fn walk_bind_names(names: Vec<String>, n: nat, w: Walk) -> Walk
    decreases n,
{
    if n == 0 || n > names@.len() {
        w
    } else {
        walk_bind(names@[n - 1]@, walk_bind_names(names, (n - 1) as nat, w))
    }
}

/// The state after binding the names of the first `n` of `params`.
pub open spec fn walk_bind_params(params: Vec<Param>, n: nat, w: Walk) -> Walk
    decreases n,
{
    if n == 0 || n > params@.len() {
        w
    } else {
        walk_bind(params@[n - 1].spec_name(), walk_bind_params(params, (n - 1) as nat, w))
    }
}

/// The state after walking `node` from state `w`, with `outer` the frames
/// around the closure literal.
pub open spec fn walk(node: SyntaxNode, outer: Seq<Map<Seq<char>, ValueView>>, w: Walk) -> Walk
    decreases node, 0nat,
{
    match node {
        SyntaxNode::Ident(name) => walk_use(name@, outer, w),
        SyntaxNode::Block(children) => Walk {
            bound: w.bound,
            captures: walk_list(children, children@.len(), outer, w).captures,
        },
        SyntaxNode::Closure(params, body) => walk(
            *body,
            outer,
            walk_bind_params(params, params@.len(), walk_defaults(params, params@.len(), outer, w)),
        ),
        SyntaxNode::Let(name, init) => walk_bind(
            name@,
            match init {
                Some(e) => walk(*e, outer, w),
                None => w,
            },
        ),
        SyntaxNode::For { key, value, iter, body } => {
            let after_iter = walk(*iter, outer, w);
            let with_key = match key {
                Some(k) => walk_bind(k@, after_iter),
                None => after_iter,
            };
            walk(*body, outer, walk_bind(value@, with_key))
        },
        SyntaxNode::Import(path, imports) => {
            let after_path = walk(*path, outer, w);
            match imports {
                Imports::Items(names) => walk_bind_names(names, names@.len(), after_path),
                Imports::Wildcard => after_path,
            }
        },
        SyntaxNode::Other(children) => walk_list(children, children@.len(), outer, w),
    }
}

/// The state after walking the first `n` of `nodes` in order.
pub open spec fn walk_list(
    nodes: Vec<SyntaxNode>,
    n: nat,
    outer: Seq<Map<Seq<char>, ValueView>>,
    w: Walk,
) -> Walk
    decreases nodes, n,
{
    if n == 0 || n > nodes@.len() {
        w
    } else {
        walk(nodes[n - 1], outer, walk_list(nodes, (n - 1) as nat, outer, w))
    }
}

/// The state after walking the default-value expressions of the first `n` of
/// `params` in order.
pub open spec fn walk_defaults(
    params: Vec<Param>,
    n: nat,
    outer: Seq<Map<Seq<char>, ValueView>>,
    w: Walk,
) -> Walk
    decreases params, n,
{
    if n == 0 || n > params@.len() {
        w
    } else {
        let before = walk_defaults(params, (n - 1) as nat, outer, w);
        match params[n - 1] {
            Param::Named(_, default) => walk(default, outer, before),
            _ => before,
        }
    }
}

/// A visitor that determines which variables a closure captures.
pub struct CapturesVisitor<'a> {
    /// The scopes around the closure literal.
    pub external: &'a Scopes,
    /// The names bound by the code walked so far, frame by frame.
    pub internal: Scopes,
    /// The values captured so far.
    pub captures: Scope,
}

impl<'a> CapturesVisitor<'a> {
    /// The state of the walk that the visitor is in.
    pub open spec fn state(&self) -> Walk {
        Walk { bound: visible(self.internal@), captures: self.captures@ }
    }

    /// Create a new visitor for the given external scopes: nothing is bound
    /// inside and nothing is captured.
    pub fn new(external: &'a Scopes) -> (r: Self)
        ensures
            r.external == external,
            r.state() == (Walk { bound: Set::empty(), captures: Map::empty() }),
            r.captures.distinct(),
    {
        let r = CapturesVisitor { external, internal: Scopes::new(), captures: Scope::new() };
        proof {
            lemma_visible_enter(Seq::empty());
            assert(Seq::<Map<Seq<char>, ValueView>>::empty().push(Map::empty()) =~= r.internal@);
            assert(visible(Seq::empty()) =~= Set::<Seq<char>>::empty());
        }
        r
    }

    /// Return the scope of captured variables.
    pub fn finish(self) -> (r: Scope)
        ensures
            r == self.captures,
    {
        self.captures
    }

    /// Bind a new internal variable.
    pub fn bind(&mut self, ident: &String)
        ensures
            final(self).external == old(self).external,
            old(self).captures.distinct() ==> final(self).captures.distinct(),
            final(self).internal@.drop_last() == old(self).internal@.drop_last(),
            final(self).state() == walk_bind(ident@, old(self).state()),
    {
        self.internal.define(ident.clone(), Value::Nothing);
        proof {
            lemma_visible_define(old(self).internal@, ident@, Value::Nothing@);
            assert(self.internal@.drop_last() =~= old(self).internal@.drop_last());
        }
    }

    /// Capture a variable if it isn't internal.
    pub fn capture(&mut self, ident: &String)
        ensures
            final(self).external == old(self).external,
            old(self).captures.distinct() ==> final(self).captures.distinct(),
            final(self).internal == old(self).internal,
            final(self).state() == walk_use(ident@, old(self).external@, old(self).state()),
    {
        if self.internal.get(ident).is_none() {
            match self.external.get(ident) {
                Some(value) => {
                    self.captures.define(ident.clone(), value.clone());
                },
                None => {},
            }
        }
    }

    /// Visit any node and collect all captured variables.
    pub fn visit(&mut self, node: &SyntaxNode)
        ensures
            final(self).external == old(self).external,
            old(self).captures.distinct() ==> final(self).captures.distinct(),
            final(self).internal@.drop_last() == old(self).internal@.drop_last(),
            final(self).state() == walk(*node, old(self).external@, old(self).state()),
        decreases *node, 0nat,
    {
        match node {
            // Every identifier is a potential variable to capture. Those that
            // bind a new name are handled with the construct that holds them.
            SyntaxNode::Ident(name) => {
                self.capture(name);
            },
            // Blocks create a scope.
            SyntaxNode::Block(children) => {
                self.internal.enter();
                proof {
                    lemma_visible_enter(old(self).internal@);
                    assert(self.internal@.drop_last() =~= old(self).internal@);
                    assert(decreases_to!(*node => node->Block_0));
                }
                self.visit_list(children);
                self.internal.exit();
            },
            // The defaults of named parameters are evaluated before any
            // parameter is bound, the body after all of them are.
            SyntaxNode::Closure(params, body) => {
                proof {
                    assert(decreases_to!(*node => node->Closure_0));
                    assert(decreases_to!(*node => *node->Closure_1));
                }
                self.visit_defaults(params);
                self.bind_params(params);
                self.visit(body);
            },
            // The binding is active only after the initializer.
            SyntaxNode::Let(name, init) => {
                match init {
                    Some(e) => {
                        proof {
                            assert(decreases_to!(*node => *node->Let_1->Some_0));
                        }
                        self.visit(e);
                    },
                    None => {},
                }
                self.bind(name);
            },
            // The pattern's names are active after the iterable, in the body.
            SyntaxNode::For { key, value, iter, body } => {
                proof {
                    assert(decreases_to!(*node => *node->For_iter));
                    assert(decreases_to!(*node => *node->For_body));
                }
                self.visit(iter);
                match key {
                    Some(k) => {
                        self.bind(k);
                    },
                    None => {},
                }
                self.bind(value);
                self.visit(body);
            },
            // The imported names are active only after the path.
            SyntaxNode::Import(path, imports) => {
                proof {
                    assert(decreases_to!(*node => *node->Import_0));
                }
                self.visit(path);
                match imports {
                    Imports::Items(names) => {
                        self.bind_names(names);
                    },
                    Imports::Wildcard => {},
                }
            },
            // Everything else is traversed from left to right.
            SyntaxNode::Other(children) => {
                proof {
                    assert(decreases_to!(*node => node->Other_0));
                }
                self.visit_list(children);
            },
        }
    }

    /// Visit the given nodes in order.
    pub fn visit_list(&mut self, nodes: &Vec<SyntaxNode>)
        ensures
            final(self).external == old(self).external,
            old(self).captures.distinct() ==> final(self).captures.distinct(),
            final(self).internal@.drop_last() == old(self).internal@.drop_last(),
            final(self).state() == walk_list(
                *nodes,
                nodes@.len(),
                old(self).external@,
                old(self).state(),
            ),
        decreases *nodes, nodes@.len(),
    {
        let mut i: usize = 0;
        while i < nodes.len()
            invariant
                i <= nodes.len(),
                self.external == old(self).external,
                old(self).captures.distinct() ==> self.captures.distinct(),
                self.internal@.drop_last() == old(self).internal@.drop_last(),
                self.state() == walk_list(*nodes, i as nat, old(self).external@, old(self).state()),
            decreases nodes.len() - i,
        {
            proof {
                vstd::std_specs::vec::axiom_vec_index_decreases(*nodes, i as int);
            }
            self.visit(&nodes[i]);
            i = i + 1;
        }
    }

    /// Visit the default-value expressions of the given parameters in order.
    pub fn visit_defaults(&mut self, params: &Vec<Param>)
        ensures
            final(self).external == old(self).external,
            old(self).captures.distinct() ==> final(self).captures.distinct(),
            final(self).internal@.drop_last() == old(self).internal@.drop_last(),
            final(self).state() == walk_defaults(
                *params,
                params@.len(),
                old(self).external@,
                old(self).state(),
            ),
        decreases *params, params@.len(),
    {
        let mut i: usize = 0;
        while i < params.len()
            invariant
                i <= params.len(),
                self.external == old(self).external,
                old(self).captures.distinct() ==> self.captures.distinct(),
                self.internal@.drop_last() == old(self).internal@.drop_last(),
                self.state() == walk_defaults(
                    *params,
                    i as nat,
                    old(self).external@,
                    old(self).state(),
                ),
            decreases params.len() - i,
        {
            match &params[i] {
                Param::Named(_, default) => {
                    proof {
                        vstd::std_specs::vec::axiom_vec_index_decreases(*params, i as int);
                        assert(decreases_to!(params[i as int] => params[i as int]->Named_1));
                    }
                    self.visit(default);
                },
                _ => {},
            }
            i = i + 1;
        }
    }

    /// Bind the names of the given parameters.
    pub fn bind_params(&mut self, params: &Vec<Param>)
        ensures
            final(self).external == old(self).external,
            old(self).captures.distinct() ==> final(self).captures.distinct(),
            final(self).internal@.drop_last() == old(self).internal@.drop_last(),
            final(self).state() == walk_bind_params(*params, params@.len(), old(self).state()),
    {
        let mut i: usize = 0;
        while i < params.len()
            invariant
                i <= params.len(),
                self.external == old(self).external,
                old(self).captures.distinct() ==> self.captures.distinct(),
                self.internal@.drop_last() == old(self).internal@.drop_last(),
                self.state() == walk_bind_params(*params, i as nat, old(self).state()),
            decreases params.len() - i,
        {
            self.bind(params[i].name());
            i = i + 1;
        }
    }

    /// Bind the given names.
    pub fn bind_names(&mut self, names: &Vec<String>)
        ensures
            final(self).external == old(self).external,
            old(self).captures.distinct() ==> final(self).captures.distinct(),
            final(self).internal@.drop_last() == old(self).internal@.drop_last(),
            final(self).state() == walk_bind_names(*names, names@.len(), old(self).state()),
    {
        let mut i: usize = 0;
        while i < names.len()
            invariant
                i <= names.len(),
                self.external == old(self).external,
                old(self).captures.distinct() ==> self.captures.distinct(),
                self.internal@.drop_last() == old(self).internal@.drop_last(),
                self.state() == walk_bind_names(*names, i as nat, old(self).state()),
            decreases names.len() - i,
        {
            self.bind(&names[i]);
            i = i + 1;
        }
    }
}

/// An empty innermost frame makes no name visible and hides none.
proof fn lemma_visible_enter(frames: Seq<Map<Seq<char>, ValueView>>)
    ensures
        visible(frames.push(Map::empty())) == visible(frames),
{
    let pushed = frames.push(Map::<Seq<char>, ValueView>::empty());
    assert(pushed.drop_last() =~= frames);
    assert(visible(pushed) =~= visible(frames));
}

/// A binding in the innermost frame makes its name visible, and changes the
/// visibility of no other.
proof fn lemma_visible_define(frames: Seq<Map<Seq<char>, ValueView>>, name: Seq<char>, v: ValueView)
    requires
        frames.len() > 0,
    ensures
        visible(frames.update(frames.len() - 1, frames.last().insert(name, v))) == visible(
            frames,
        ).insert(name),
{
    let updated = frames.update(frames.len() - 1, frames.last().insert(name, v));
    assert(updated.drop_last() =~= frames.drop_last());
    assert(visible(updated) =~= visible(frames).insert(name));
}

} // verus!
