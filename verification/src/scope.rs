//! Variable scopes: one frame of bindings, and a chain of frames.

use vstd::prelude::*;
use crate::value::{Value, ValueView};

verus! {

/// A name bound to a value.
#[derive(Debug, PartialEq, Hash)]
pub struct Binding {
    pub name: String,
    pub value: Value,
}

/// One frame of bindings. Its model is the map from each bound name to its
/// value.
#[derive(Debug, PartialEq, Hash)]
pub struct Scope {
    pub entries: Vec<Binding>,
}

/// A chain of frames: `top` is the innermost, `scopes` holds the enclosing
/// ones, outermost first. Its model is the sequence of the frames' maps,
/// outermost first and `top` last.
#[derive(Debug, PartialEq, Hash)]
pub struct Scopes {
    pub top: Scope,
    pub scopes: Vec<Scope>,
}

/// The map that a sequence of bindings stands for: a later binding of a name
/// replaces an earlier one.
pub open spec fn map_of(s: Seq<(Seq<char>, ValueView)>) -> Map<Seq<char>, ValueView>
    decreases s.len(),
{
    if s.len() == 0 {
        Map::empty()
    } else {
        map_of(s.drop_last()).insert(s.last().0, s.last().1)
    }
}

/// The models of a sequence of bindings.
pub open spec fn entries_view(s: Seq<Binding>) -> Seq<(Seq<char>, ValueView)> {
    Seq::new(s.len(), |i: int| (s[i].name@, s[i].value@))
}

/// The value that `name` resolves to in a chain of frames, innermost (last)
/// frame first.
pub open spec fn resolve(frames: Seq<Map<Seq<char>, ValueView>>, name: Seq<char>) -> Option<
    ValueView,
>
    decreases frames.len(),
{
    if frames.len() == 0 {
        None
    } else if frames.last().contains_key(name) {
        Some(frames.last()[name])
    } else {
        resolve(frames.drop_last(), name)
    }
}

/// The names that resolve in a chain of frames.
pub open spec fn visible(frames: Seq<Map<Seq<char>, ValueView>>) -> Set<Seq<char>> {
    Set::new(|n: Seq<char>| resolve(frames, n) is Some)
}

proof fn lemma_map_update(s: Seq<(Seq<char>, ValueView)>, i: int, v: ValueView)
    requires
        0 <= i < s.len(),
        forall|j: int| i < j < s.len() ==> (#[trigger] s[j]).0 != s[i].0,
    ensures
        map_of(s.update(i, (s[i].0, v))) == map_of(s).insert(s[i].0, v),
    decreases s.len(),
{
    let t = s.update(i, (s[i].0, v));
    if i == s.len() - 1 {
        assert(t.drop_last() =~= s.drop_last());
        assert(map_of(t) =~= map_of(s).insert(s[i].0, v));
    } else {
        assert(t.drop_last() =~= s.drop_last().update(i, (s[i].0, v)));
        lemma_map_update(s.drop_last(), i, v);
        assert(s.last().0 != s[i].0);
        assert(map_of(t) =~= map_of(s).insert(s[i].0, v));
    }
}

proof fn lemma_map_found(s: Seq<(Seq<char>, ValueView)>, i: int)
    requires
        0 <= i < s.len(),
        forall|j: int| i < j < s.len() ==> (#[trigger] s[j]).0 != s[i].0,
    ensures
        map_of(s).contains_key(s[i].0),
        map_of(s)[s[i].0] == s[i].1,
    decreases s.len(),
{
    if i < s.len() - 1 {
        lemma_map_found(s.drop_last(), i);
        assert(s.last().0 != s[i].0);
    }
}

/// A name is in the map of a sequence of bindings exactly when one of them
/// binds it.
pub proof fn lemma_map_dom(s: Seq<(Seq<char>, ValueView)>, n: Seq<char>)
    ensures
        map_of(s).contains_key(n) <==> exists|j: int| 0 <= j < s.len() && (#[trigger] s[j]).0 == n,
    decreases s.len(),
{
    if s.len() > 0 {
        lemma_map_dom(s.drop_last(), n);
        if map_of(s).contains_key(n) {
            if s.last().0 == n {
                assert(s[s.len() - 1].0 == n);
            } else {
                let j = choose|j: int| 0 <= j < s.len() - 1 && (#[trigger] s.drop_last()[j]).0 == n;
                assert(s[j].0 == n);
            }
        }
        if exists|j: int| 0 <= j < s.len() && (#[trigger] s[j]).0 == n {
            let j = choose|j: int| 0 <= j < s.len() && (#[trigger] s[j]).0 == n;
            if j < s.len() - 1 {
                assert(s.drop_last()[j].0 == n);
            }
        }
    }
}

impl View for Scope {
    type V = Map<Seq<char>, ValueView>;

    open spec fn view(&self) -> Map<Seq<char>, ValueView> {
        map_of(entries_view(self.entries@))
    }
}

impl Scope {
    /// Whether no name is held twice.
    pub open spec fn distinct(&self) -> bool {
        forall|i: int, j: int|
            0 <= i < j < self.entries@.len() ==> self.entries@[i].name@ != self.entries@[j].name@
    }

    /// A frame without bindings.
    pub fn new() -> (r: Scope)
        ensures
            r@ == Map::<Seq<char>, ValueView>::empty(),
            r.distinct(),
    {
        Scope { entries: Vec::new() }
    }

    /// Binds `name` to `value`, in place of what it was bound to.
    pub fn define(&mut self, name: String, value: Value)
        ensures
            final(self)@ == old(self)@.insert(name@, value@),
            old(self).distinct() ==> final(self).distinct(),
    {
        let ghost before = entries_view(self.entries@);
        let mut i: usize = self.entries.len();
        while i > 0
            invariant
                *self == *old(self),
                before == entries_view(self.entries@),
                i <= self.entries.len(),
                forall|j: int| i <= j < before.len() ==> (#[trigger] before[j]).0 != name@,
            decreases i,
        {
            i = i - 1;
            if self.entries[i].name == name {
                self.entries.set(i, Binding { name, value });
                proof {
                    lemma_map_update(before, i as int, value@);
                    assert(entries_view(self.entries@) =~= before.update(
                        i as int,
                        (before[i as int].0, value@),
                    ));
                }
                return ;
            }
        }
        self.entries.push(Binding { name, value });
        proof {
            let after = entries_view(self.entries@);
            assert(after.drop_last() =~= before);
            if old(self).distinct() {
                assert forall|i: int, j: int| 0 <= i < j < self.entries@.len() implies self.entries@[i].name@
                    != self.entries@[j].name@ by {
                    if j == before.len() {
                        assert(before[i].0 != name@);
                    } else {
                        assert(old(self).entries@[i].name@ != old(self).entries@[j].name@);
                    }
                }
            }
        }
    }

    /// The value bound to `name`, if it is bound.
    pub fn get(&self, name: &String) -> (r: Option<&Value>)
        ensures
            match r {
                Some(v) => self@.contains_key(name@) && self@[name@] == v@,
                None => !self@.contains_key(name@),
            },
    {
        let ghost s = entries_view(self.entries@);
        let mut i: usize = self.entries.len();
        while i > 0
            invariant
                i <= self.entries.len(),
                s == entries_view(self.entries@),
                forall|j: int| i <= j < s.len() ==> (#[trigger] s[j]).0 != name@,
            decreases i,
        {
            i = i - 1;
            if self.entries[i].name == *name {
                proof {
                    assert(s[i as int].0 == name@);
                    lemma_map_found(s, i as int);
                }
                return Some(&self.entries[i].value);
            }
        }
        proof {
            lemma_map_dom(s, name@);
        }
        None
    }

    /// The bound names, in the order in which they were first bound: each
    /// of them, and each once where the frame holds none twice.
    pub fn names(&self) -> (r: Vec<String>)
        ensures
            r@.len() == self.entries@.len(),
            forall|i: int| 0 <= i < r@.len() ==> (#[trigger] r@[i])@ == self.entries@[i].name@,
            self.distinct() ==> forall|i: int, j: int|
                0 <= i < j < r@.len() ==> r@[i]@ != r@[j]@,
            forall|n: Seq<char>|
                self@.contains_key(n) <==> exists|i: int| 0 <= i < r@.len() && (#[trigger] r@[i])@ == n,
    {
        let mut out: Vec<String> = Vec::new();
        let mut i: usize = 0;
        while i < self.entries.len()
            invariant
                i <= self.entries.len(),
                out@.len() == i,
                forall|j: int| 0 <= j < i ==> (#[trigger] out@[j])@ == self.entries@[j].name@,
            decreases self.entries.len() - i,
        {
            out.push(self.entries[i].name.clone());
            i = i + 1;
        }
        proof {
            let s = entries_view(self.entries@);
            assert forall|n: Seq<char>|
                self@.contains_key(n) <==> exists|i: int|
                    0 <= i < out@.len() && (#[trigger] out@[i])@ == n by {
                lemma_map_dom(s, n);
                if self@.contains_key(n) {
                    let j = choose|j: int| 0 <= j < s.len() && (#[trigger] s[j]).0 == n;
                    assert(out@[j]@ == n);
                }
                if exists|i: int| 0 <= i < out@.len() && (#[trigger] out@[i])@ == n {
                    let j = choose|i: int| 0 <= i < out@.len() && (#[trigger] out@[i])@ == n;
                    assert(s[j].0 == n);
                }
            }
        }
        out
    }
}

impl Clone for Scope {
    fn clone(&self) -> (r: Scope)
        ensures
            r@ == self@,
    {
        let mut entries: Vec<Binding> = Vec::new();
        let mut i: usize = 0;
        while i < self.entries.len()
            invariant
                i <= self.entries.len(),
                entries@.len() == i,
                forall|j: int|
                    0 <= j < i ==> (#[trigger] entries@[j]).name@ == self.entries@[j].name@
                        && entries@[j].value@ == self.entries@[j].value@,
            decreases self.entries.len() - i,
        {
            let b = &self.entries[i];
            entries.push(Binding { name: b.name.clone(), value: b.value.clone() });
            i = i + 1;
        }
        proof {
            assert(entries_view(entries@) =~= entries_view(self.entries@));
        }
        Scope { entries }
    }
}

/// The models of a sequence of frames.
pub open spec fn frames_view(s: Seq<Scope>) -> Seq<Map<Seq<char>, ValueView>> {
    Seq::new(s.len(), |i: int| s[i]@)
}

impl View for Scopes {
    type V = Seq<Map<Seq<char>, ValueView>>;

    open spec fn view(&self) -> Seq<Map<Seq<char>, ValueView>> {
        frames_view(self.scopes@).push(self.top@)
    }
}

impl Scopes {
    /// A chain of one empty frame.
    pub fn new() -> (r: Scopes)
        ensures
            r@ == seq![Map::<Seq<char>, ValueView>::empty()],
    {
        let r = Scopes { top: Scope::new(), scopes: Vec::new() };
        proof {
            assert(r@ =~= seq![Map::<Seq<char>, ValueView>::empty()]);
        }
        r
    }

    /// Opens an empty innermost frame.
    pub fn enter(&mut self)
        ensures
            final(self)@ == old(self)@.push(Map::<Seq<char>, ValueView>::empty()),
    {
        let mut top = Scope::new();
        core::mem::swap(&mut self.top, &mut top);
        self.scopes.push(top);
        proof {
            assert(self@ =~= old(self)@.push(Map::<Seq<char>, ValueView>::empty()));
        }
    }

    /// Closes the innermost frame, which must not be the only one.
    pub fn exit(&mut self)
        requires
            old(self)@.len() > 1,
        ensures
            final(self)@ == old(self)@.drop_last(),
    {
        let popped = self.scopes.pop();
        match popped {
            Some(scope) => {
                self.top = scope;
            },
            None => {},
        }
        proof {
            assert(self@ =~= old(self)@.drop_last());
        }
    }

    /// Binds `name` to `value` in the innermost frame.
    pub fn define(&mut self, name: String, value: Value)
        ensures
            final(self)@ == old(self)@.update(
                old(self)@.len() - 1,
                old(self)@.last().insert(name@, value@),
            ),
    {
        self.top.define(name, value);
        proof {
            assert(self@ =~= old(self)@.update(
                old(self)@.len() - 1,
                old(self)@.last().insert(name@, value@),
            ));
        }
    }

    /// The value that `name` resolves to: that of the innermost frame that
    /// binds it.
    pub fn get(&self, name: &String) -> (r: Option<&Value>)
        ensures
            match r {
                Some(v) => resolve(self@, name@) == Some(v@),
                None => resolve(self@, name@) is None,
            },
    {
        match self.top.get(name) {
            Some(v) => {
                return Some(v);
            },
            None => {},
        }
        let ghost frames = frames_view(self.scopes@);
        proof {
            assert(self@.drop_last() =~= frames);
            assert(frames.take(frames.len() as int) =~= frames);
            assert(self@.last() == self.top@);
        }
        let mut i: usize = self.scopes.len();
        while i > 0
            invariant
                i <= self.scopes.len(),
                frames == frames_view(self.scopes@),
                resolve(self@, name@) == resolve(frames.take(i as int), name@),
            decreases i,
        {
            proof {
                assert(frames.take(i as int).drop_last() =~= frames.take(i - 1));
            }
            i = i - 1;
            match self.scopes[i].get(name) {
                Some(v) => {
                    return Some(v);
                },
                None => {},
            }
        }
        None
    }
}

} // verus!
