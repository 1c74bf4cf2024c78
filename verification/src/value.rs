//! Runtime values and argument lists.

use vstd::prelude::*;

verus! {

/// A position in source text, carried by errors for diagnostics.
#[derive(Clone, Copy, Debug, PartialEq, Eq, Hash, Structural)]
pub struct Span(pub u64);

/// Handle to a piece of document content owned by the host.
#[derive(Clone, Copy, Debug, PartialEq, Eq, Hash, Structural)]
pub struct Content(pub u64);

/// Handle to a style configuration owned by the host.
#[derive(Clone, Copy, Debug, PartialEq, Eq, Hash, Structural)]
pub struct StyleMap(pub u64);

/// A runtime value.
#[derive(Debug, PartialEq, Hash)]
pub enum Value {
    /// The absence of a value.
    Nothing,
    /// An integer.
    Int(i64),
    /// Document content.
    Content(Content),
    /// Captured call arguments, as bound to a sink parameter.
    Args(Args),
}

/// One argument of a call: positional when it has no name.
#[derive(Debug, PartialEq, Hash)]
pub struct Arg {
    /// Where the argument stands in the source.
    pub span: Span,
    pub name: Option<String>,
    pub value: Value,
}

/// The arguments of a call, in the order in which they were written.
#[derive(Debug, PartialEq, Hash)]
pub struct Args {
    pub span: Span,
    pub items: Vec<Arg>,
}

/// Mathematical model of a [`Value`].
pub enum ValueView {
    Nothing,
    Int(i64),
    Content(Content),
    Args(Span, Seq<ArgView>),
}

/// Mathematical model of an [`Arg`].
pub struct ArgView {
    pub span: Span,
    pub name: Option<Seq<char>>,
    pub value: ValueView,
}

/// The model of an optional name.
pub open spec fn name_view(name: Option<String>) -> Option<Seq<char>> {
    match name {
        Some(n) => Some(n@),
        None => None,
    }
}

/// The model of a value, through every nested argument list.
pub open spec fn value_view(v: Value) -> ValueView
    decreases v,
{
    match v {
        Value::Nothing => ValueView::Nothing,
        Value::Int(i) => ValueView::Int(i),
        Value::Content(c) => ValueView::Content(c),
        Value::Args(a) => ValueView::Args(
            a.span,
            Seq::new(
                a.items@.len(),
                |i: int|
                    if 0 <= i < a.items@.len() {
                        ArgView {
                            span: a.items[i].span,
                            name: name_view(a.items[i].name),
                            value: value_view(a.items[i].value),
                        }
                    } else {
                        arbitrary()
                    },
            ),
        ),
    }
}

impl View for Value {
    type V = ValueView;

    open spec fn view(&self) -> ValueView {
        value_view(*self)
    }
}

impl View for Arg {
    type V = ArgView;

    open spec fn view(&self) -> ArgView {
        ArgView { span: self.span, name: name_view(self.name), value: self.value@ }
    }
}

impl View for Args {
    type V = Seq<ArgView>;

    open spec fn view(&self) -> Seq<ArgView> {
        items_view(self.items@)
    }
}

/// The models of a sequence of arguments, in order.
pub open spec fn items_view(items: Seq<Arg>) -> Seq<ArgView> {
    Seq::new(items.len(), |i: int| items[i]@)
}

/// The model of an argument-list value is the list's span and the models of
/// its items.
pub proof fn lemma_args_value_view(a: Args)
    ensures
        Value::Args(a)@ == ValueView::Args(a.span, a@),
{
    assert(Value::Args(a)@->Args_1 =~= a@);
}

fn clone_name(name: &Option<String>) -> (r: Option<String>)
    ensures
        name_view(r) == name_view(*name),
{
    match name {
        Some(n) => Some(n.clone()),
        None => None,
    }
}

fn clone_value(v: &Value) -> (r: Value)
    ensures
        r@ == v@,
    decreases *v,
{
    match v {
        Value::Nothing => Value::Nothing,
        Value::Int(i) => Value::Int(*i),
        Value::Content(c) => Value::Content(*c),
        Value::Args(a) => {
            let mut items: Vec<Arg> = Vec::new();
            let mut i: usize = 0;
            while i < a.items.len()
                invariant
                    *v == Value::Args(*a),
                    i <= a.items.len(),
                    items@.len() == i,
                    forall|j: int| 0 <= j < i ==> items@[j]@ == a.items@[j]@,
                decreases a.items.len() - i,
            {
                let arg = &a.items[i];
                proof {
                    vstd::std_specs::vec::axiom_vec_index_decreases(a.items, i as int);
                    assert(decreases_to!(*v => v->Args_0));
                }
                let value = clone_value(&arg.value);
                items.push(Arg { span: arg.span, name: clone_name(&arg.name), value });
                i = i + 1;
            }
            let r = Args { span: a.span, items };
            proof {
                assert(r@ =~= a@);
                lemma_args_value_view(r);
                lemma_args_value_view(*a);
            }
            Value::Args(r)
        },
    }
}

impl Clone for Value {
    fn clone(&self) -> (r: Value)
        ensures
            r@ == self@,
    {
        clone_value(self)
    }
}

impl Clone for Arg {
    fn clone(&self) -> (r: Arg)
        ensures
            r@ == self@,
    {
        Arg { span: self.span, name: clone_name(&self.name), value: clone_value(&self.value) }
    }
}

} // verus!
