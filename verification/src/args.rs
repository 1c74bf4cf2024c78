//! Operations on argument lists.

use vstd::prelude::*;
use crate::value::{Arg, Args, ArgView, Value, Span, name_view, items_view};
use crate::error::CallError;

verus! {

/// Whether `i` is the position of the first positional item of `s`.
pub open spec fn is_first_positional(s: Seq<ArgView>, i: int) -> bool {
    &&& 0 <= i < s.len()
    &&& s[i].name is None
    &&& forall|j: int| 0 <= j < i ==> (#[trigger] s[j]).name is Some
}

/// Whether `s` holds a positional item.
pub open spec fn has_positional(s: Seq<ArgView>) -> bool {
    exists|i: int| is_first_positional(s, i)
}

/// The position of the first positional item of `s`, if it has one.
pub open spec fn first_positional(s: Seq<ArgView>) -> int {
    choose|i: int| is_first_positional(s, i)
}

/// The items of `s` that are named (`named`) or positional (`!named`), in
/// their order.
pub open spec fn select(s: Seq<ArgView>, named: bool) -> Seq<ArgView>
    decreases s.len(),
{
    if s.len() == 0 {
        Seq::empty()
    } else if (s.last().name is Some) == named {
        select(s.drop_last(), named).push(s.last())
    } else {
        select(s.drop_last(), named)
    }
}

/// The items of `s` but those named `name`, in their order.
pub open spec fn without_name(s: Seq<ArgView>, name: Seq<char>) -> Seq<ArgView>
    decreases s.len(),
{
    if s.len() == 0 {
        Seq::empty()
    } else if s.last().name == Some(name) {
        without_name(s.drop_last(), name)
    } else {
        without_name(s.drop_last(), name).push(s.last())
    }
}

/// The value of the last item of `s` named `name`, if there is one.
pub open spec fn last_named(s: Seq<ArgView>, name: Seq<char>) -> Option<crate::value::ValueView>
    decreases s.len(),
{
    if s.len() == 0 {
        None
    } else if s.last().name == Some(name) {
        Some(s.last().value)
    } else {
        last_named(s.drop_last(), name)
    }
}

/// Whether an optional name is the given one.
fn is_named(item: &Option<String>, name: &String) -> (r: bool)
    ensures
        r == (name_view(*item) == Some(name@)),
{
    match item {
        Some(n) => *n == *name,
        None => false,
    }
}

impl Args {
    /// An argument list with the given items.
    pub fn new(span: Span, items: Vec<Arg>) -> (r: Args)
        ensures
            r.span == span,
            r.items == items,
    {
        Args { span, items }
    }

    /// Removes and returns the first positional argument. Fails with
    /// `MissingArgument` for `what`, leaving the list as it was, when every
    /// item is named.
    pub fn expect(&mut self, what: &String) -> (r: Result<Value, CallError>)
        ensures
            final(self).span == old(self).span,
            has_positional(old(self)@) ==> (r matches Ok(v) && v@ == old(self)@[first_positional(
                old(self)@,
            )].value && final(self)@ == old(self)@.remove(first_positional(old(self)@))),
            !has_positional(old(self)@) ==> (r matches Err(
                CallError::MissingArgument { span, name },
            ) && span == old(self).span && name@ == what@ && final(self)@ == old(self)@),
    {
        let mut i: usize = 0;
        while i < self.items.len()
            invariant
                i <= self.items.len(),
                *self == *old(self),
                forall|j: int| 0 <= j < i ==> (#[trigger] self@[j]).name is Some,
            decreases self.items.len() - i,
        {
            if self.items[i].name.is_none() {
                proof {
                    assert(is_first_positional(self@, i as int));
                }
                let arg = self.items.remove(i);
                proof {
                    assert(self@ =~= old(self)@.remove(i as int));
                }
                return Ok(arg.value);
            }
            i = i + 1;
        }
        Err(CallError::MissingArgument { span: self.span, name: what.clone() })
    }

    /// Removes every argument named `name` and returns the value of the last
    /// of them.
    pub fn named(&mut self, name: &String) -> (r: Option<Value>)
        ensures
            final(self).span == old(self).span,
            final(self)@ == without_name(old(self)@, name@),
            match r {
                Some(v) => last_named(old(self)@, name@) == Some(v@),
                None => last_named(old(self)@, name@) is None,
            },
    {
        let mut found: Option<Value> = None;
        let mut i: usize = 0;
        let ghost mut k: int = 0;
        while i < self.items.len()
            invariant
                self.span == old(self).span,
                0 <= k <= old(self)@.len(),
                i <= self.items.len(),
                self.items.len() - i == old(self)@.len() - k,
                self@ =~= without_name(old(self)@.take(k), name@) + old(self)@.skip(k),
                i == without_name(old(self)@.take(k), name@).len(),
                match found {
                    Some(v) => last_named(old(self)@.take(k), name@) == Some(v@),
                    None => last_named(old(self)@.take(k), name@) is None,
                },
            decreases self.items.len() - i,
        {
            proof {
                assert(old(self)@.take(k + 1).drop_last() =~= old(self)@.take(k));
                assert(self@[i as int] == old(self)@[k]);
            }
            if is_named(&self.items[i].name, name) {
                let ghost before = self@;
                let arg = self.items.remove(i);
                proof {
                    assert(self@ =~= before.remove(i as int));
                }
                found = Some(arg.value);
            } else {
                i = i + 1;
            }
            proof {
                k = k + 1;
            }
        }
        proof {
            assert(old(self)@.take(k) =~= old(self)@);
        }
        found
    }

    /// Copies of the named arguments, in their order; the list is unchanged.
    pub fn to_named(&self) -> (r: Vec<Arg>)
        ensures
            items_view(r@) == select(self@, true),
    {
        let mut out: Vec<Arg> = Vec::new();
        let mut i: usize = 0;
        while i < self.items.len()
            invariant
                i <= self.items.len(),
                items_view(out@) =~= select(self@.take(i as int), true),
            decreases self.items.len() - i,
        {
            proof {
                assert(self@.take(i + 1).drop_last() =~= self@.take(i as int));
            }
            if self.items[i].name.is_some() {
                let ghost before = items_view(out@);
                out.push(self.items[i].clone());
                proof {
                    assert(items_view(out@) =~= before.push(self@[i as int]));
                }
            }
            i = i + 1;
        }
        proof {
            assert(self@.take(i as int) =~= self@);
        }
        out
    }

    /// Drops the named arguments and keeps the positional ones in their order.
    pub fn retain_positional(&mut self)
        ensures
            final(self).span == old(self).span,
            final(self)@ == select(old(self)@, false),
    {
        let mut i: usize = 0;
        let ghost mut k: int = 0;
        while i < self.items.len()
            invariant
                self.span == old(self).span,
                0 <= k <= old(self)@.len(),
                i <= self.items.len(),
                self.items.len() - i == old(self)@.len() - k,
                self@ =~= select(old(self)@.take(k), false) + old(self)@.skip(k),
                i == select(old(self)@.take(k), false).len(),
            decreases self.items.len() - i,
        {
            proof {
                assert(old(self)@.take(k + 1).drop_last() =~= old(self)@.take(k));
                assert(self@[i as int] == old(self)@[k]);
            }
            if self.items[i].name.is_some() {
                let ghost before = self@;
                let _ = self.items.remove(i);
                proof {
                    assert(self@ =~= before.remove(i as int));
                }
            } else {
                i = i + 1;
            }
            proof {
                k = k + 1;
            }
        }
        proof {
            assert(old(self)@.take(k) =~= old(self)@);
        }
    }

    /// Takes every remaining argument out of the list, which is left empty.
    pub fn take(&mut self) -> (r: Args)
        ensures
            final(self).span == old(self).span,
            final(self)@ == Seq::<ArgView>::empty(),
            r.span == old(self).span,
            r@ == old(self)@,
    {
        let mut items: Vec<Arg> = Vec::new();
        core::mem::swap(&mut self.items, &mut items);
        proof {
            assert(self@ =~= Seq::<ArgView>::empty());
        }
        Args { span: self.span, items }
    }

    /// Succeeds when no argument is left; otherwise fails with
    /// `UnexpectedArgument` for the first one that is: the error says where
    /// that argument stands, and its name if it has one.
    pub fn finish(self) -> (r: Result<(), CallError>)
        ensures
            self@.len() == 0 ==> r is Ok,
            self@.len() > 0 ==> (r matches Err(CallError::UnexpectedArgument { span, named })
                && span == self@[0].span && name_view(named) == self@[0].name),
    {
        if self.items.len() == 0 {
            Ok(())
        } else {
            let name = match &self.items[0].name {
                Some(n) => Some(n.clone()),
                None => None,
            };
            Err(CallError::UnexpectedArgument { span: self.items[0].span, named: name })
        }
    }

    /// Puts copies of `front` before the arguments already in the list.
    pub fn splice_front(&mut self, front: &Vec<Arg>)
        ensures
            final(self).span == old(self).span,
            final(self)@ == items_view(front@) + old(self)@,
    {
        let mut items: Vec<Arg> = Vec::new();
        let mut i: usize = 0;
        while i < front.len()
            invariant
                i <= front.len(),
                items@.len() == i,
                forall|j: int| 0 <= j < i ==> (#[trigger] items@[j])@ == front@[j]@,
            decreases front.len() - i,
        {
            items.push(front[i].clone());
            i = i + 1;
        }
        items.append(&mut self.items);
        core::mem::swap(&mut self.items, &mut items);
        proof {
            let joined = items_view(front@) + old(self)@;
            assert(self@.len() == joined.len());
            assert forall|j: int| 0 <= j < joined.len() implies self@[j] == joined[j] by {
                if j >= front@.len() {
                    assert(self.items@[j] == old(self).items@[j - front@.len()]);
                }
            }
            assert(self@ =~= joined);
        }
    }
}

} // verus!
