use crate::common::stmt::param_views;
use crate::common::token::{Token, TokenView};
use crate::common::types::Types;
use vstd::prelude::*;

verus! {

/// The map that a list of bindings stands for: a later binding of a name
/// hides an earlier one.
pub open spec fn bindings<T>(entries: Seq<(String, T)>) -> Map<Seq<char>, T>
    decreases entries.len(),
{
    if entries.len() == 0 {
        Map::empty()
    } else {
        bindings(entries.drop_last()).insert(entries.last().0@, entries.last().1)
    }
}

proof fn lemma_bindings_absent<T>(entries: Seq<(String, T)>, key: Seq<char>)
    requires
        forall|i: int| 0 <= i < entries.len() ==> (#[trigger] entries[i]).0@ != key,
    ensures
        !bindings(entries).contains_key(key),
    decreases entries.len(),
{
    if entries.len() > 0 {
        lemma_bindings_absent(entries.drop_last(), key);
    }
}

proof fn lemma_bindings_last<T>(entries: Seq<(String, T)>, at: int, key: Seq<char>)
    requires
        0 <= at < entries.len(),
        entries[at].0@ == key,
        forall|i: int| at < i < entries.len() ==> (#[trigger] entries[i]).0@ != key,
    ensures
        bindings(entries).contains_key(key),
        bindings(entries)[key] == entries[at].1,
    decreases entries.len(),
{
    if at < entries.len() - 1 {
        lemma_bindings_last(entries.drop_last(), at, key);
    }
}

proof fn lemma_bindings_update<T>(entries: Seq<(String, T)>, at: int, entry: (String, T))
    requires
        0 <= at < entries.len(),
        entries[at].0@ == entry.0@,
        forall|i: int| at < i < entries.len() ==> (#[trigger] entries[i]).0@ != entry.0@,
    ensures
        bindings(entries.update(at, entry)) == bindings(entries).insert(entry.0@, entry.1),
    decreases entries.len(),
{
    let updated = entries.update(at, entry);
    if at < entries.len() - 1 {
        lemma_bindings_update(entries.drop_last(), at, entry);
        assert(updated.drop_last() =~= entries.drop_last().update(at, entry));
        assert(bindings(updated) =~= bindings(entries).insert(entry.0@, entry.1));
    } else {
        assert(updated.drop_last() =~= entries.drop_last());
        assert(bindings(updated) =~= bindings(entries).insert(entry.0@, entry.1));
    }
}

/// A table from names to values.
#[derive(Debug)]
pub struct Table<T> {
    entries: Vec<(String, T)>,
}

impl<T> View for Table<T> {
    type V = Map<Seq<char>, T>;

    closed spec fn view(&self) -> Map<Seq<char>, T> {
        bindings(self.entries@)
    }
}

impl<T> Table<T> {
    /// Number of entries that the table holds.
    pub closed spec fn count(&self) -> nat {
        self.entries@.len()
    }

    pub fn new() -> (r: Self)
        ensures
            r@ == Map::<Seq<char>, T>::empty(),
            r.count() == 0,
    {
        Table { entries: Vec::new() }
    }

    /// Place of the binding of `key` that counts, if the key is bound.
    fn find(&self, key: &String) -> (r: Option<usize>)
        ensures
            match r {
                Some(at) => {
                    &&& at < self.entries@.len()
                    &&& self.entries@[at as int].0@ == key@
                    &&& forall|i: int|
                        at < i < self.entries@.len() ==> (#[trigger] self.entries@[i]).0@ != key@
                    &&& self@.contains_key(key@)
                    &&& self@[key@] == self.entries@[at as int].1
                },
                None => !self@.contains_key(key@),
            },
    {
        let mut i: usize = self.entries.len();
        while i > 0
            invariant
                i <= self.entries@.len(),
                forall|j: int| i <= j < self.entries@.len() ==> (#[trigger] self.entries@[j]).0@ != key@,
            decreases i,
        {
            i = i - 1;
            if self.entries[i].0 == *key {
                proof {
                    lemma_bindings_last(self.entries@, i as int, key@);
                }
                return Some(i);
            }
        }
        proof {
            lemma_bindings_absent(self.entries@, key@);
        }
        None
    }

    pub fn contains_key(&self, key: &String) -> (r: bool)
        ensures
            r == self@.contains_key(key@),
    {
        self.find(key).is_some()
    }

    /// The value bound to `key`, if the key is bound.
    pub fn get(&self, key: &String) -> (r: Option<&T>)
        ensures
            match r {
                Some(v) => self@.contains_key(key@) && self@[key@] == *v,
                None => !self@.contains_key(key@),
            },
    {
        match self.find(key) {
            Some(at) => Some(&self.entries[at].1),
            None => None,
        }
    }

    /// Binds `key` to `value`; an earlier binding of the key is replaced.
    pub fn insert(&mut self, key: String, value: T)
        ensures
            final(self)@ == old(self)@.insert(key@, value),
            final(self).count() <= usize::MAX,
            final(self).count() == if old(self)@.contains_key(key@) {
                old(self).count()
            } else {
                old(self).count() + 1
            },
    {
        match self.find(&key) {
            Some(at) => {
                proof {
                    lemma_bindings_update(self.entries@, at as int, (key, value));
                }
                self.entries[at] = (key, value);
            },
            None => {
                self.entries.push((key, value));
                assert(self.entries@.drop_last() =~= old(self).entries@);
            },
        }
        assert(self.entries.len() <= usize::MAX);
    }
}

/// A function's signature: what it returns and what it takes.
#[derive(Debug, PartialEq)]
pub struct Function {
    pub return_type: Types,
    pub params: Vec<(Types, Token)>,
}

/// A signature without the names of the parameters.
pub struct Signature {
    pub return_type: Types,
    pub params: Seq<Types>,
}

/// The types of a parameter list.
pub open spec fn param_types(params: Seq<(Types, TokenView)>) -> Seq<Types> {
    params.map_values(|p: (Types, TokenView)| p.0)
}

impl View for Function {
    type V = Signature;

    open spec fn view(&self) -> Signature {
        Signature {
            return_type: self.return_type,
            params: param_types(param_views(self.params@)),
        }
    }
}

impl Function {
    pub fn new(return_type: Types, params: Vec<(Types, Token)>) -> (r: Self)
        ensures
            r == (Function { return_type, params }),
    {
        Function { return_type, params }
    }

    pub fn arity(&self) -> (r: usize)
        ensures
            r == self@.params.len(),
    {
        self.params.len()
    }
}

/// The signatures that a table of functions holds.
pub open spec fn signatures(functions: Map<Seq<char>, Function>) -> Map<Seq<char>, Signature> {
    functions.map_values(|f: Function| f@)
}

/// The type of `name` in the innermost frame that binds it.
pub open spec fn lookup(frames: Seq<Map<Seq<char>, Types>>, name: Seq<char>) -> Option<Types>
    decreases frames.len(),
{
    if frames.len() == 0 {
        None
    } else if frames.last().contains_key(name) {
        Some(frames.last()[name])
    } else {
        lookup(frames.drop_last(), name)
    }
}

/// The maps that a stack of frames stands for, outermost first.
pub open spec fn frame_views(frames: Seq<Table<Types>>) -> Seq<Map<Seq<char>, Types>> {
    frames.map_values(|f: Table<Types>| f@)
}

/// The type of `name` in the innermost of `frames` that binds it.
pub fn get_var(frames: &Vec<Table<Types>>, name: &String) -> (r: Option<Types>)
    ensures
        r == lookup(frame_views(frames@), name@),
{
    let mut i: usize = frames.len();
    assert(frame_views(frames@).take(i as int) =~= frame_views(frames@));
    while i > 0
        invariant
            i <= frames.len(),
            lookup(frame_views(frames@), name@) == lookup(
                frame_views(frames@).take(i as int),
                name@,
            ),
        decreases i,
    {
        i = i - 1;
        proof {
            assert(frame_views(frames@).take(i + 1).drop_last() =~= frame_views(frames@).take(
                i as int,
            ));
        }
        match frames[i].get(name) {
            Some(t) => {
                return Some(t.clone());
            },
            None => {},
        }
    }
    None
}

} // verus!
