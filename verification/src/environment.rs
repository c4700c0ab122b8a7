//! The environment: the variables of a running program.

use crate::object::{obj, Value};
use vstd::prelude::*;

verus! {

/// A variable with its current value.
struct Binding {
    name: String,
    value: obj,
}

/// A mapping from variable names to values. The last value assigned to a name
/// is the one that is read.
///
/// The bindings are kept in a vector and searched from the end. What the
/// standard hash map promises is stated only for keys whose hashing has a
/// model, which strings have not: with names as keys nothing could be proved
/// of what was inserted.
pub struct Environment {
    bindings: Vec<Binding>,
}

/// True when `name` is the name of the binding at `i`.
spec fn names_at(bindings: Seq<Binding>, i: int, name: Seq<char>) -> bool {
    0 <= i < bindings.len() && bindings[i].name@ == name
}

/// True when `i` is the last place at which `name` is bound.
spec fn last_at(bindings: Seq<Binding>, i: int, name: Seq<char>) -> bool {
    names_at(bindings, i, name) && forall|j: int| i < j ==> !names_at(bindings, j, name)
}

/// The mapping that a sequence of bindings stands for: a later binding of a
/// name replaces an earlier one.
spec fn mapping(bindings: Seq<Binding>) -> Map<Seq<char>, Value>
    decreases bindings.len(),
{
    if bindings.len() == 0 {
        Map::empty()
    } else {
        mapping(bindings.drop_last()).insert(bindings.last().name@, bindings.last().value@)
    }
}

/// The last binding of a name gives the name's value.
proof fn lemma_lookup(bindings: Seq<Binding>, i: int, name: Seq<char>)
    requires
        last_at(bindings, i, name),
    ensures
        mapping(bindings).contains_key(name),
        mapping(bindings)[name] == bindings[i].value@,
    decreases bindings.len(),
{
    if i < bindings.len() - 1 {
        let front = bindings.drop_last();
        assert(!names_at(bindings, bindings.len() - 1, name));
        assert forall|j: int| i < j implies !names_at(front, j, name) by {
            if names_at(front, j, name) {
                assert(names_at(bindings, j, name));
            }
        }
        lemma_lookup(front, i, name);
    }
}

/// A name that no binding holds has no value.
proof fn lemma_absent(bindings: Seq<Binding>, name: Seq<char>)
    requires
        forall|j: int| !names_at(bindings, j, name),
    ensures
        !mapping(bindings).contains_key(name),
    decreases bindings.len(),
{
    if bindings.len() > 0 {
        let front = bindings.drop_last();
        assert(!names_at(bindings, bindings.len() - 1, name));
        assert forall|j: int| !names_at(front, j, name) by {
            if names_at(front, j, name) {
                assert(names_at(bindings, j, name));
            }
        }
        lemma_absent(front, name);
    }
}

/// Replacing the last binding of a name assigns the name.
proof fn lemma_replace(bindings: Seq<Binding>, i: int, binding: Binding)
    requires
        last_at(bindings, i, binding.name@),
    ensures
        mapping(bindings.update(i, binding)) == mapping(bindings).insert(
            binding.name@,
            binding.value@,
        ),
    decreases bindings.len(),
{
    let after = bindings.update(i, binding);
    let front = bindings.drop_last();
    if i == bindings.len() - 1 {
        assert(after.drop_last() =~= front);
        assert(mapping(after) =~= mapping(bindings).insert(binding.name@, binding.value@));
    } else {
        let last = bindings.last();
        assert(!names_at(bindings, bindings.len() - 1, binding.name@));
        assert forall|j: int| i < j implies !names_at(front, j, binding.name@) by {
            if names_at(front, j, binding.name@) {
                assert(names_at(bindings, j, binding.name@));
            }
        }
        lemma_replace(front, i, binding);
        assert(after.drop_last() =~= front.update(i, binding));
        assert(after.last() == last);
        assert(mapping(after) =~= mapping(bindings).insert(binding.name@, binding.value@));
    }
}

impl View for Environment {
    type V = Map<Seq<char>, Value>;

    closed spec fn view(&self) -> Map<Seq<char>, Value> {
        mapping(self.bindings@)
    }
}

impl Environment {
    /// An environment without any variable.
    pub fn new() -> (environment: Environment)
        ensures
            environment@ == Map::<Seq<char>, Value>::empty(),
    {
        Environment { bindings: Vec::new() }
    }

    /// The last place at which `name` is bound, if it is bound.
    fn position(&self, name: &String) -> (found: Option<usize>)
        ensures
            (match found {
                Some(i) => last_at(self.bindings@, i as int, name@),
                None => forall|i: int| !names_at(self.bindings@, i, name@),
            }),
    {
        let mut i: usize = self.bindings.len();
        while i > 0
            invariant
                i <= self.bindings.len(),
                forall|j: int| i <= j ==> !names_at(self.bindings@, j, name@),
            decreases i,
        {
            i -= 1;
            if self.bindings[i].name == *name {
                return Some(i);
            }
        }
        None
    }

    /// The value of the variable `name`; none when it was never assigned.
    pub fn get(&self, name: &String) -> (value: Option<obj>)
        ensures
            (match value {
                Some(found) => self@.contains_key(name@) && found@ == self@[name@],
                None => !self@.contains_key(name@),
            }),
    {
        match self.position(name) {
            Some(i) => {
                proof {
                    lemma_lookup(self.bindings@, i as int, name@);
                }
                Some(self.bindings[i].value.clone())
            },
            None => {
                proof {
                    lemma_absent(self.bindings@, name@);
                }
                None
            },
        }
    }

    /// Whether the variable `name` was assigned.
    pub fn contains_key(&self, name: &String) -> (bound: bool)
        ensures
            bound == self@.contains_key(name@),
    {
        match self.position(name) {
            Some(i) => {
                proof {
                    lemma_lookup(self.bindings@, i as int, name@);
                }
                true
            },
            None => {
                proof {
                    lemma_absent(self.bindings@, name@);
                }
                false
            },
        }
    }

    /// Binds `name` to `value`, replacing the value that it had.
    pub fn insert(&mut self, name: String, value: obj)
        ensures
            final(self)@ == old(self)@.insert(name@, value@),
    {
        let ghost before = self.bindings@;
        match self.position(&name) {
            Some(i) => {
                let binding = Binding { name, value };
                proof {
                    lemma_replace(before, i as int, binding);
                }
                self.bindings[i] = binding;
            },
            None => {
                self.bindings.push(Binding { name, value });
                assert(self.bindings@.drop_last() =~= before);
            },
        }
    }
}

} // verus!
