//! What holds of captures and calls in general.

use vstd::prelude::*;
use crate::args::{
    first_positional, has_positional, is_first_positional, last_named, select, without_name,
};
use crate::capture::{
    walk, walk_bind_names, walk_bind_params, walk_defaults, walk_list, walk_use, Walk,
};
use crate::func::{
    bind_one, bind_params, count_positional, less, params_view, Bound, Closure, Func, Repr,
};
use crate::scope::resolve;
use crate::syntax::{Imports, Param, SyntaxNode};
use crate::value::{name_view, Args, ArgView, Span, ValueView};

verus! {

/// Whether every captured value is the value that the outer frames resolve
/// its name to.
pub open spec fn snapshot_of(
    captures: Map<Seq<char>, ValueView>,
    outer: Seq<Map<Seq<char>, ValueView>>,
) -> bool {
    forall|n: Seq<char>| #[trigger]
        captures.contains_key(n) ==> resolve(outer, n) == Some(captures[n])
}

proof fn lemma_bind_names_keeps(names: Vec<String>, n: nat, w: Walk)
    ensures
        walk_bind_names(names, n, w).captures == w.captures,
    decreases n,
{
    if !(n == 0 || n > names@.len()) {
        lemma_bind_names_keeps(names, (n - 1) as nat, w);
    }
}

proof fn lemma_bind_params_keeps(params: Vec<Param>, n: nat, w: Walk)
    ensures
        walk_bind_params(params, n, w).captures == w.captures,
    decreases n,
{
    if !(n == 0 || n > params@.len()) {
        lemma_bind_params_keeps(params, (n - 1) as nat, w);
    }
}

/// A walk keeps the captures a snapshot of the outer frames.
pub proof fn lemma_walk_snapshot(
    node: SyntaxNode,
    outer: Seq<Map<Seq<char>, ValueView>>,
    w: Walk,
)
    requires
        snapshot_of(w.captures, outer),
    ensures
        snapshot_of(walk(node, outer, w).captures, outer),
    decreases node, 0nat,
{
    match node {
        SyntaxNode::Ident(name) => {},
        SyntaxNode::Block(children) => {
            lemma_walk_list_snapshot(children, children@.len(), outer, w);
        },
        SyntaxNode::Closure(params, body) => {
            let after_defaults = walk_defaults(params, params@.len(), outer, w);
            lemma_walk_defaults_snapshot(params, params@.len(), outer, w);
            lemma_bind_params_keeps(params, params@.len(), after_defaults);
            lemma_walk_snapshot(
                *body,
                outer,
                walk_bind_params(params, params@.len(), after_defaults),
            );
        },
        SyntaxNode::Let(name, init) => {
            match init {
                Some(e) => {
                    lemma_walk_snapshot(*e, outer, w);
                },
                None => {},
            }
        },
        SyntaxNode::For { key, value, iter, body } => {
            lemma_walk_snapshot(*iter, outer, w);
            let after_iter = walk(*iter, outer, w);
            let with_key = match key {
                Some(k) => crate::capture::walk_bind(k@, after_iter),
                None => after_iter,
            };
            lemma_walk_snapshot(*body, outer, crate::capture::walk_bind(value@, with_key));
        },
        SyntaxNode::Import(path, imports) => {
            lemma_walk_snapshot(*path, outer, w);
            match imports {
                Imports::Items(names) => {
                    lemma_bind_names_keeps(names, names@.len(), walk(*path, outer, w));
                },
                Imports::Wildcard => {},
            }
        },
        SyntaxNode::Other(children) => {
            lemma_walk_list_snapshot(children, children@.len(), outer, w);
        },
    }
}

proof fn lemma_walk_list_snapshot(
    nodes: Vec<SyntaxNode>,
    n: nat,
    outer: Seq<Map<Seq<char>, ValueView>>,
    w: Walk,
)
    requires
        snapshot_of(w.captures, outer),
    ensures
        snapshot_of(walk_list(nodes, n, outer, w).captures, outer),
    decreases nodes, n,
{
    if !(n == 0 || n > nodes@.len()) {
        lemma_walk_list_snapshot(nodes, (n - 1) as nat, outer, w);
        lemma_walk_snapshot(nodes[n - 1], outer, walk_list(nodes, (n - 1) as nat, outer, w));
    }
}

proof fn lemma_walk_defaults_snapshot(
    params: Vec<Param>,
    n: nat,
    outer: Seq<Map<Seq<char>, ValueView>>,
    w: Walk,
)
    requires
        snapshot_of(w.captures, outer),
    ensures
        snapshot_of(walk_defaults(params, n, outer, w).captures, outer),
    decreases params, n,
{
    if !(n == 0 || n > params@.len()) {
        lemma_walk_defaults_snapshot(params, (n - 1) as nat, outer, w);
        match params[n - 1] {
            Param::Named(_, default) => {
                lemma_walk_snapshot(default, outer, walk_defaults(params, (n - 1) as nat, outer, w));
            },
            _ => {},
        }
    }
}

/// What a closure literal captures is a copy of the outer values as they are
/// when the literal is walked: every captured name holds the value that the
/// outer frames resolved it to then. The captures depend on nothing else, so
/// no later change of an outer binding shows in them.
pub proof fn lemma_captures_copy_outer_values(
    node: SyntaxNode,
    outer: Seq<Map<Seq<char>, ValueView>>,
)
    ensures
        snapshot_of(
            walk(node, outer, Walk { bound: Set::empty(), captures: Map::empty() }).captures,
            outer,
        ),
{
    lemma_walk_snapshot(node, outer, Walk { bound: Set::empty(), captures: Map::empty() });
}

/// Whether every name captured in `before` is captured in `after`.
pub open spec fn captures_grow(
    before: Map<Seq<char>, ValueView>,
    after: Map<Seq<char>, ValueView>,
) -> bool {
    forall|n: Seq<char>| #[trigger] before.contains_key(n) ==> after.contains_key(n)
}

/// A walk loses no capture.
pub proof fn lemma_walk_grows(node: SyntaxNode, outer: Seq<Map<Seq<char>, ValueView>>, w: Walk)
    ensures
        captures_grow(w.captures, walk(node, outer, w).captures),
    decreases node, 0nat,
{
    match node {
        SyntaxNode::Ident(name) => {},
        SyntaxNode::Block(children) => {
            lemma_walk_list_grows(children, children@.len(), outer, w);
        },
        SyntaxNode::Closure(params, body) => {
            let after_defaults = walk_defaults(params, params@.len(), outer, w);
            lemma_walk_defaults_grows(params, 0, params@.len(), outer, w);
            lemma_bind_params_keeps(params, params@.len(), after_defaults);
            lemma_walk_grows(
                *body,
                outer,
                walk_bind_params(params, params@.len(), after_defaults),
            );
        },
        SyntaxNode::Let(name, init) => {
            match init {
                Some(e) => {
                    lemma_walk_grows(*e, outer, w);
                },
                None => {},
            }
        },
        SyntaxNode::For { key, value, iter, body } => {
            lemma_walk_grows(*iter, outer, w);
            let after_iter = walk(*iter, outer, w);
            let with_key = match key {
                Some(k) => crate::capture::walk_bind(k@, after_iter),
                None => after_iter,
            };
            lemma_walk_grows(*body, outer, crate::capture::walk_bind(value@, with_key));
        },
        SyntaxNode::Import(path, imports) => {
            lemma_walk_grows(*path, outer, w);
            match imports {
                Imports::Items(names) => {
                    lemma_bind_names_keeps(names, names@.len(), walk(*path, outer, w));
                },
                Imports::Wildcard => {},
            }
        },
        SyntaxNode::Other(children) => {
            lemma_walk_list_grows(children, children@.len(), outer, w);
        },
    }
}

proof fn lemma_walk_list_grows(
    nodes: Vec<SyntaxNode>,
    n: nat,
    outer: Seq<Map<Seq<char>, ValueView>>,
    w: Walk,
)
    ensures
        captures_grow(w.captures, walk_list(nodes, n, outer, w).captures),
    decreases nodes, n,
{
    if !(n == 0 || n > nodes@.len()) {
        lemma_walk_list_grows(nodes, (n - 1) as nat, outer, w);
        lemma_walk_grows(nodes[n - 1], outer, walk_list(nodes, (n - 1) as nat, outer, w));
    }
}

/// Walking the defaults up to the `n`th loses no capture made up to the
/// `k`th.
proof fn lemma_walk_defaults_grows(
    params: Vec<Param>,
    k: nat,
    n: nat,
    outer: Seq<Map<Seq<char>, ValueView>>,
    w: Walk,
)
    requires
        k <= n <= params@.len(),
    ensures
        captures_grow(
            walk_defaults(params, k, outer, w).captures,
            walk_defaults(params, n, outer, w).captures,
        ),
    decreases params, n,
{
    if k < n {
        lemma_walk_defaults_grows(params, k, (n - 1) as nat, outer, w);
        match params[n - 1] {
            Param::Named(_, default) => {
                lemma_walk_grows(default, outer, walk_defaults(params, (n - 1) as nat, outer, w));
            },
            _ => {},
        }
    }
}

/// What the default of a parameter captures, walked where the literal
/// stands and before any parameter of the closure is bound, the closure
/// literal captures: with the value that the outer frames resolve the name
/// to. The names of the closure's own parameters, also of those declared
/// before the default, have no part in it.
pub proof fn lemma_default_captures_outside(
    params: Vec<Param>,
    body: Box<SyntaxNode>,
    outer: Seq<Map<Seq<char>, ValueView>>,
    w: Walk,
    i: int,
    name: Seq<char>,
)
    requires
        snapshot_of(w.captures, outer),
        0 <= i < params@.len(),
        params@[i] matches Param::Named(_, default) && walk(
            default,
            outer,
            walk_defaults(params, i as nat, outer, w),
        ).captures.contains_key(name),
    ensures
        walk(SyntaxNode::Closure(params, body), outer, w).captures.contains_key(name),
        resolve(outer, name) == Some(
            walk(SyntaxNode::Closure(params, body), outer, w).captures[name],
        ),
{
    let after_defaults = walk_defaults(params, params@.len(), outer, w);
    assert(walk_defaults(params, (i + 1) as nat, outer, w).captures.contains_key(name));
    lemma_walk_defaults_grows(params, (i + 1) as nat, params@.len(), outer, w);
    assert(after_defaults.captures.contains_key(name));
    lemma_bind_params_keeps(params, params@.len(), after_defaults);
    lemma_walk_grows(*body, outer, walk_bind_params(params, params@.len(), after_defaults));
    lemma_walk_snapshot(SyntaxNode::Closure(params, body), outer, w);
}

/// An outer name that is the default of a parameter is captured, unless
/// the code walked before the default has bound it: that a parameter of
/// the closure has the same name does not hide it.
pub proof fn lemma_default_name_is_captured(
    params: Vec<Param>,
    body: Box<SyntaxNode>,
    outer: Seq<Map<Seq<char>, ValueView>>,
    w: Walk,
    i: int,
    name: Seq<char>,
)
    requires
        snapshot_of(w.captures, outer),
        0 <= i < params@.len(),
        params@[i] matches Param::Named(_, SyntaxNode::Ident(used)) && used@ == name,
        !walk_defaults(params, i as nat, outer, w).bound.contains(name),
        resolve(outer, name) is Some,
    ensures
        walk(SyntaxNode::Closure(params, body), outer, w).captures.contains_key(name),
        resolve(outer, name) == Some(
            walk(SyntaxNode::Closure(params, body), outer, w).captures[name],
        ),
{
    lemma_default_captures_outside(params, body, outer, w, i, name);
}

/// A name that the walked code has bound is not captured by a use of it.
pub proof fn lemma_bound_name_is_not_captured(
    name: Seq<char>,
    outer: Seq<Map<Seq<char>, ValueView>>,
    w: Walk,
)
    requires
        w.bound.contains(name),
    ensures
        walk_use(name, outer, w) == w,
{
}

/// A call of a partial application ends in the same function, with the same
/// arguments, as a call of the wrapped function with the applied arguments
/// put before the given ones; and it takes as many positional arguments
/// fewer as were applied, but not fewer than none.
pub proof fn lemma_partial_application(partial: Func, wrapped: Func, applied: Args, args: Seq<ArgView>)
    requires
        partial.repr() == Repr::With(wrapped, applied),
    ensures
        partial.target(args) == wrapped.target(applied@ + args),
        partial.spec_name() == wrapped.spec_name(),
        partial.spec_argc() == match wrapped.spec_argc() {
            Some(n) => Some(less(n, select(applied@, false).len())),
            None => None,
        },
{
}

/// With a sink, binding leaves no argument: the check that none is left
/// then passes.
pub proof fn lemma_sink_takes_the_rest(closure: Closure, args: Seq<ArgView>, span: Span)
    requires
        closure.sink is Some,
    ensures
        closure.spec_bind(args, span) matches Ok(b) ==> b.args.len() == 0,
{
}

/// A list has a positional item exactly when its positional part is not
/// empty; a list without one holds named items only.
proof fn lemma_positional_count(s: Seq<ArgView>)
    ensures
        has_positional(s) <==> select(s, false).len() > 0,
        !has_positional(s) ==> forall|j: int| 0 <= j < s.len() ==> (#[trigger] s[j]).name is Some,
    decreases s.len(),
{
    if s.len() > 0 {
        let rest = s.drop_last();
        lemma_positional_count(rest);
        if has_positional(rest) {
            let i = choose|i: int| is_first_positional(rest, i);
            assert forall|j: int| 0 <= j < i implies (#[trigger] s[j]).name is Some by {
                assert(rest[j].name is Some);
            }
            assert(s[i] == rest[i]);
            assert(is_first_positional(s, i));
        } else {
            assert forall|j: int| 0 <= j < s.len() - 1 implies (#[trigger] s[j]).name is Some by {
                assert(rest[j].name is Some);
            }
            if s.last().name is None {
                assert(is_first_positional(s, s.len() - 1));
            } else {
                if has_positional(s) {
                    let i = choose|i: int| is_first_positional(s, i);
                    assert(s[i].name is Some);
                }
            }
        }
    }
}

/// Taking the items of one name out leaves the positional items as they are.
proof fn lemma_without_name_keeps_positional(s: Seq<ArgView>, name: Seq<char>)
    ensures
        select(without_name(s, name), false) == select(s, false),
    decreases s.len(),
{
    if s.len() > 0 {
        lemma_without_name_keeps_positional(s.drop_last(), name);
        if s.last().name != Some(name) {
            let kept = without_name(s.drop_last(), name);
            assert(kept.push(s.last()).drop_last() =~= kept);
        }
    }
}

/// Taking a positional item out leaves one positional item fewer.
proof fn lemma_remove_positional(s: Seq<ArgView>, i: int)
    requires
        0 <= i < s.len(),
        s[i].name is None,
    ensures
        select(s.remove(i), false).len() + 1 == select(s, false).len(),
    decreases s.len(),
{
    if i == s.len() - 1 {
        assert(s.remove(i) =~= s.drop_last());
    } else {
        lemma_remove_positional(s.drop_last(), i);
        assert(s.remove(i).drop_last() =~= s.drop_last().remove(i));
        assert(s.remove(i).last() == s.last());
    }
}

proof fn lemma_bind_counts(params: Seq<(Seq<char>, Option<ValueView>)>, n: nat, start: Bound)
    requires
        n <= params.len(),
    ensures
        match bind_params(params, n, start) {
            Ok(b) => select(b.args, false).len() + count_positional(params, n) == select(
                start.args,
                false,
            ).len(),
            Err(_) => count_positional(params, n) > select(start.args, false).len(),
        },
    decreases n,
{
    if n > 0 {
        lemma_bind_counts(params, (n - 1) as nat, start);
        match bind_params(params, (n - 1) as nat, start) {
            Ok(before) => {
                lemma_positional_count(before.args);
                match params[n - 1].1 {
                    Some(_) => {
                        lemma_without_name_keeps_positional(before.args, params[n - 1].0);
                    },
                    None => {
                        if has_positional(before.args) {
                            let i = first_positional(before.args);
                            assert(is_first_positional(before.args, i));
                            lemma_remove_positional(before.args, i);
                        }
                    },
                }
            },
            Err(_) => {},
        }
    }
}

/// Binding fails, and then for want of an argument, exactly when the call
/// gives fewer positional arguments than the closure has parameters without
/// a default. Without a sink, every positional argument beyond those is left
/// over, so that the call fails for it.
pub proof fn lemma_arguments_must_match(closure: Closure, args: Seq<ArgView>, span: Span)
    ensures
        closure.spec_bind(args, span) is Err <==> select(args, false).len() < count_positional(
            params_view(closure.params@),
            closure.params@.len(),
        ),
        closure.sink is None ==> (closure.spec_bind(args, span) matches Ok(b) ==> b.args.len()
            >= select(args, false).len() - count_positional(
            params_view(closure.params@),
            closure.params@.len(),
        )),
{
    let params = params_view(closure.params@);
    let start = Bound { scope: closure.captured@, args };
    lemma_bind_counts(params, closure.params@.len(), start);
    match bind_params(params, closure.params@.len(), start) {
        Ok(b) => {
            lemma_select_is_shorter(b.args);
        },
        Err(_) => {},
    }
}

proof fn lemma_without_absent_name(s: Seq<ArgView>, name: Seq<char>)
    requires
        last_named(s, name) is None,
    ensures
        without_name(s, name) == s,
    decreases s.len(),
{
    if s.len() > 0 {
        lemma_without_absent_name(s.drop_last(), name);
        assert(s.drop_last().push(s.last()) =~= s);
    } else {
        assert(s =~= Seq::empty());
    }
}

/// A parameter with a default, called without an argument of its name, is
/// bound to the value that the closure holds for it, and takes no argument:
/// neither the call's arguments nor the bindings made before have a part in
/// what the default is.
pub proof fn lemma_default_is_the_held_value(name: Seq<char>, default: ValueView, b: Bound)
    requires
        last_named(b.args, name) is None,
    ensures
        bind_one((name, Some(default)), b) == Ok::<Bound, Seq<char>>(
            Bound { scope: b.scope.insert(name, default), args: b.args },
        ),
{
    lemma_without_absent_name(b.args, name);
}

/// Whether no item of `s` is named `name`.
pub open spec fn no_item_named(s: Seq<ArgView>, name: Seq<char>) -> bool {
    forall|j: int| 0 <= j < s.len() ==> (#[trigger] s[j]).name != Some(name)
}

/// Whether no parameter with a default among the first `n` is named `name`.
pub open spec fn no_default_named(
    params: Seq<(Seq<char>, Option<ValueView>)>,
    n: nat,
    name: Seq<char>,
) -> bool {
    forall|i: int| 0 <= i < n && i < params.len() && (#[trigger] params[i]).1 is Some ==> params[i].0 != name
}

/// Every item left when those of one name are taken out was there before,
/// and every item of another name is left.
proof fn lemma_without_name_items(s: Seq<ArgView>, name: Seq<char>)
    ensures
        forall|x: ArgView| #[trigger] without_name(s, name).contains(x) ==> s.contains(x),
        forall|x: ArgView| #[trigger] s.contains(x) && x.name != Some(name) ==> without_name(s, name).contains(x),
    decreases s.len(),
{
    if s.len() > 0 {
        let rest = s.drop_last();
        lemma_without_name_items(rest, name);
        let kept = without_name(rest, name);
        assert forall|x: ArgView| #[trigger] without_name(s, name).contains(x) implies s.contains(
            x,
        ) by {
            if kept.contains(x) {
                assert(rest.contains(x));
                let j = choose|j: int| 0 <= j < rest.len() && rest[j] == x;
                assert(s[j] == x);
            } else {
                let j = choose|j: int|
                    0 <= j < without_name(s, name).len() && without_name(s, name)[j] == x;
                assert(s.last().name != Some(name));
                assert(without_name(s, name) == kept.push(s.last()));
                if j < kept.len() {
                    assert(kept[j] == x);
                }
                assert(s[s.len() - 1] == x);
            }
        }
        assert forall|x: ArgView| #[trigger] s.contains(x) && x.name != Some(name) implies without_name(
            s,
            name,
        ).contains(x) by {
            let j = choose|j: int| 0 <= j < s.len() && s[j] == x;
            if j < s.len() - 1 {
                assert(rest[j] == x);
                assert(rest.contains(x));
                assert(kept.contains(x));
                let k = choose|k: int| 0 <= k < kept.len() && kept[k] == x;
                if s.last().name != Some(name) {
                    assert(kept.push(s.last())[k] == x);
                }
            } else {
                assert(kept.push(s.last())[kept.len() as int] == x);
            }
        }
    }
}

proof fn lemma_bind_one_items(param: (Seq<char>, Option<ValueView>), b: Bound)
    ensures
        bind_one(param, b) matches Ok(after) ==> {
            &&& forall|x: ArgView| #[trigger] after.args.contains(x) ==> b.args.contains(x)
            &&& forall|x: ArgView| #[trigger]
                b.args.contains(x) && x.name is Some && !(param.1 is Some && x.name == Some(
                    param.0,
                )) ==> after.args.contains(x)
        },
{
    match param.1 {
        Some(_) => {
            lemma_without_name_items(b.args, param.0);
        },
        None => {
            if has_positional(b.args) {
                let i = first_positional(b.args);
                assert(is_first_positional(b.args, i));
                let after = b.args.remove(i);
                assert forall|x: ArgView| #[trigger] after.contains(x) implies b.args.contains(
                    x,
                ) by {
                    let j = choose|j: int| 0 <= j < after.len() && after[j] == x;
                    if j < i {
                        assert(b.args[j] == x);
                    } else {
                        assert(b.args[j + 1] == x);
                    }
                }
                assert forall|x: ArgView| #[trigger] b.args.contains(x) && x.name is Some implies after.contains(
                    x,
                ) by {
                    let j = choose|j: int| 0 <= j < b.args.len() && b.args[j] == x;
                    if j < i {
                        assert(after[j] == x);
                    } else {
                        assert(after[j - 1] == x);
                    }
                }
            }
        },
    }
}

proof fn lemma_bind_params_items(
    params: Seq<(Seq<char>, Option<ValueView>)>,
    n: nat,
    start: Bound,
)
    requires
        n <= params.len(),
    ensures
        bind_params(params, n, start) matches Ok(after) ==> {
            &&& forall|x: ArgView| #[trigger] after.args.contains(x) ==> start.args.contains(x)
            &&& forall|x: ArgView| #[trigger]
                start.args.contains(x) && x.name is Some && no_default_named(
                    params,
                    n,
                    x.name->Some_0,
                ) ==> after.args.contains(x)
        },
    decreases n,
{
    if n > 0 {
        lemma_bind_params_items(params, (n - 1) as nat, start);
        match bind_params(params, (n - 1) as nat, start) {
            Ok(before) => {
                lemma_bind_one_items(params[n - 1], before);
                match bind_one(params[n - 1], before) {
                    Ok(after) => {
                        assert forall|x: ArgView| #[trigger]
                            start.args.contains(x) && x.name is Some && no_default_named(
                                params,
                                n,
                                x.name->Some_0,
                            ) implies after.args.contains(x) by {
                            assert(no_default_named(params, (n - 1) as nat, x.name->Some_0));
                            assert(before.args.contains(x));
                            if params[n - 1].1 is Some {
                                assert(params[n - 1].0 != x.name->Some_0);
                            }
                        }
                    },
                    Err(_) => {},
                }
            },
            Err(_) => {},
        }
    }
}

/// A named argument whose name no parameter with a default has is not
/// taken by binding: without a sink it is among the arguments left, so that
/// the call fails for it.
pub proof fn lemma_unclaimed_named_argument_is_left(
    closure: Closure,
    args: Seq<ArgView>,
    span: Span,
    item: ArgView,
)
    requires
        closure.sink is None,
        args.contains(item),
        item.name is Some,
        no_default_named(params_view(closure.params@), closure.params@.len(), item.name->Some_0),
    ensures
        closure.spec_bind(args, span) matches Ok(b) ==> b.args.contains(item) && b.args.len() > 0,
{
    let params = params_view(closure.params@);
    let start = Bound { scope: closure.captured@, args };
    lemma_bind_params_items(params, closure.params@.len(), start);
    match bind_params(params, closure.params@.len(), start) {
        Ok(after) => {
            assert(start.args.contains(item));
            assert(after.args.contains(item));
            assert(closure.spec_bind(args, span) == Ok::<Bound, Seq<char>>(after));
        },
        Err(_) => {},
    }
}

proof fn lemma_bind_keeps_binding(
    params: Seq<(Seq<char>, Option<ValueView>)>,
    n: nat,
    start: Bound,
    i: int,
)
    requires
        0 <= i < n <= params.len(),
        params[i].1 is Some,
        no_item_named(start.args, params[i].0),
        forall|j: int| i < j < params.len() ==> (#[trigger] params[j]).0 != params[i].0,
    ensures
        bind_params(params, n, start) matches Ok(after) ==> after.scope.contains_key(params[i].0)
            && after.scope[params[i].0] == params[i].1->Some_0,
    decreases n,
{
    match bind_params(params, (n - 1) as nat, start) {
        Ok(before) => {
            if n - 1 == i {
                lemma_bind_params_items(params, (n - 1) as nat, start);
                assert(no_item_named(before.args, params[i].0)) by {
                    assert forall|j: int| 0 <= j < before.args.len() implies (
                    #[trigger] before.args[j]).name != Some(params[i].0) by {
                        assert(before.args.contains(before.args[j]));
                        assert(start.args.contains(before.args[j]));
                    }
                }
                lemma_no_item_has_no_last(before.args, params[i].0);
            } else {
                lemma_bind_keeps_binding(params, (n - 1) as nat, start, i);
                assert(params[n - 1].0 != params[i].0);
            }
        },
        Err(_) => {},
    }
}

proof fn lemma_no_item_has_no_last(s: Seq<ArgView>, name: Seq<char>)
    requires
        no_item_named(s, name),
    ensures
        last_named(s, name) is None,
    decreases s.len(),
{
    if s.len() > 0 {
        assert(s[s.len() - 1].name != Some(name));
        lemma_no_item_has_no_last(s.drop_last(), name);
    }
}

/// A parameter with a default whose name no argument has is bound, where
/// the body starts, to the value that the closure holds for it, whatever
/// the arguments are, provided that no later parameter and no sink has its
/// name. Nothing is computed for it during the call.
pub proof fn lemma_default_reaches_the_body(
    closure: Closure,
    args: Seq<ArgView>,
    span: Span,
    i: int,
)
    requires
        0 <= i < closure.params@.len(),
        closure.params@[i].1 is Some,
        no_item_named(args, closure.params@[i].0@),
        forall|j: int|
            i < j < closure.params@.len() ==> (#[trigger] closure.params@[j]).0@
                != closure.params@[i].0@,
        name_view(closure.sink) != Some(closure.params@[i].0@),
    ensures
        closure.spec_bind(args, span) matches Ok(b) ==> b.scope.contains_key(
            closure.params@[i].0@,
        ) && b.scope[closure.params@[i].0@] == closure.params@[i].1->Some_0@,
{
    let params = params_view(closure.params@);
    assert forall|j: int| i < j < params.len() implies (#[trigger] params[j]).0 != params[i].0 by {
        assert(closure.params@[j].0@ != closure.params@[i].0@);
    }
    lemma_bind_keeps_binding(
        params,
        closure.params@.len(),
        Bound { scope: closure.captured@, args },
        i,
    );
}

proof fn lemma_select_is_shorter(s: Seq<ArgView>)
    ensures
        select(s, false).len() <= s.len(),
    decreases s.len(),
{
    if s.len() > 0 {
        lemma_select_is_shorter(s.drop_last());
    }
}

} // verus!
