//! A small table of values by name.

use crate::text;
use vstd::prelude::*;
use vstd::string::*;

verus! {

/// Values by name. Its model maps each name to the model of its value.
#[derive(Debug)]
pub struct Table<V> {
    entries: Vec<(String, V)>,
}

/// The value of the first entry with this name.
spec fn find<V: View>(es: Seq<(String, V)>, name: Seq<char>) -> Option<V::V>
    decreases es.len(),
{
    if es.len() == 0 {
        None
    } else if es[0].0@ == name {
        Some(es[0].1@)
    } else {
        find(es.skip(1), name)
    }
}

/// The first entry with a name decides.
proof fn find_first<V: View>(es: Seq<(String, V)>, name: Seq<char>, i: int)
    requires
        0 <= i <= es.len(),
        i < es.len() ==> es[i].0@ == name,
        forall|j: int| 0 <= j < i ==> (#[trigger] es[j]).0@ != name,
    ensures
        i < es.len() ==> find(es, name) == Some(es[i].1@),
        i == es.len() ==> find(es, name) is None,
    decreases es.len(),
{
    if es.len() > 0 && i > 0 {
        let rest = es.skip(1);
        assert forall|j: int| 0 <= j < i - 1 implies (#[trigger] rest[j]).0@ != name by {
            assert(rest[j] == es[j + 1]);
        }
        find_first(rest, name, i - 1);
    }
}

/// Changing or dropping an entry leaves other names alone; adding one does too.
proof fn find_others<V: View>(es: Seq<(String, V)>, i: int, e: (String, V), other: Seq<char>)
    requires
        0 <= i <= es.len(),
        e.0@ != other,
        i < es.len() ==> es[i].0@ == e.0@,
    ensures
        i < es.len() ==> find(es.update(i, e), other) == find(es, other),
        i < es.len() ==> find(es.remove(i), other) == find(es, other),
        i == es.len() ==> find(es.push(e), other) == find(es, other),
    decreases es.len(),
{
    reveal_with_fuel(find, 2);
    if es.len() == 0 {
        assert(es.push(e).skip(1) =~= Seq::<(String, V)>::empty());
    } else if i == 0 {
        assert(es.update(0, e).skip(1) =~= es.skip(1));
        assert(es.remove(0) =~= es.skip(1));
    } else {
        find_others(es.skip(1), i - 1, e, other);
        if i < es.len() {
            assert(es.update(i, e).skip(1) =~= es.skip(1).update(i - 1, e));
            assert(es.remove(i).skip(1) =~= es.skip(1).remove(i - 1));
            assert(es.remove(i)[0] == es[0]);
        } else {
            assert(es.push(e).skip(1) =~= es.skip(1).push(e));
        }
    }
}

impl<V: View> View for Table<V> {
    type V = Map<Seq<char>, V::V>;

    closed spec fn view(&self) -> Map<Seq<char>, V::V> {
        Map::new(
            |name: Seq<char>| find(self.entries@, name) is Some,
            |name: Seq<char>| find(self.entries@, name)->0,
        )
    }
}

/// The value of a name in a map, if it has one.
pub open spec fn lookup<A>(m: Map<Seq<char>, A>, name: Seq<char>) -> Option<A> {
    if m.dom().contains(name) {
        Some(m[name])
    } else {
        None
    }
}

/// The model of an optional reference.
pub open spec fn opt_view<V: View>(o: Option<&V>) -> Option<V::V> {
    match o {
        Some(v) => Some(v@),
        None => None,
    }
}

impl<V: View> Table<V> {
    /// The empty table.
    pub fn new() -> (r: Table<V>)
        ensures
            r@ == Map::<Seq<char>, V::V>::empty(),
    {
        let r = Table { entries: Vec::new() };
        assert(r@ =~= Map::<Seq<char>, V::V>::empty());
        r
    }

    /// Whether no name has a value.
    pub fn is_empty(&self) -> (r: bool)
        ensures
            r == (self@ == Map::<Seq<char>, V::V>::empty()),
    {
        let n: usize = self.entries.len();
        proof {
            if n == 0 {
                assert(self@ =~= Map::<Seq<char>, V::V>::empty());
            } else {
                assert(find(self.entries@, self.entries@[0].0@) is Some);
                assert(self@.dom().contains(self.entries@[0].0@));
            }
        }
        n == 0
    }

    fn position(&self, name: &str) -> (i: usize)
        ensures
            i <= self.entries@.len(),
            i < self.entries@.len() ==> self.entries@[i as int].0@ == name@,
            forall|j: int| 0 <= j < i ==> (#[trigger] self.entries@[j]).0@ != name@,
            i < self.entries@.len() ==> find(self.entries@, name@) == Some(
                self.entries@[i as int].1@,
            ),
            i == self.entries@.len() ==> find(self.entries@, name@) is None,
    {
        let mut i: usize = 0;
        while i < self.entries.len() && !text::same(self.entries[i].0.as_str(), name)
            invariant
                i <= self.entries@.len(),
                forall|j: int| 0 <= j < i ==> (#[trigger] self.entries@[j]).0@ != name@,
            decreases self.entries.len() - i,
        {
            i += 1;
        }
        proof {
            find_first(self.entries@, name@, i as int);
        }
        i
    }

    /// The value of a name.
    pub fn get(&self, name: &str) -> (r: Option<&V>)
        ensures
            opt_view(r) == lookup(self@, name@),
    {
        let i = self.position(name);
        if i < self.entries.len() {
            Some(&self.entries[i].1)
        } else {
            None
        }
    }

    /// Set the value of a name.
    pub fn set(&mut self, name: &str, value: V)
        ensures
            final(self)@ == old(self)@.insert(name@, value@),
    {
        let ghost before = self.entries@;
        let i = self.position(name);
        let entry = (name.to_owned(), value);
        if i < self.entries.len() {
            self.entries.set(i, entry);
            assert(self.entries@ == before.update(i as int, entry));
        } else {
            self.entries.push(entry);
        }
        proof {
            find_first(self.entries@, name@, i as int);
            assert forall|other: Seq<char>| other != name@ implies find(self.entries@, other)
                == find(before, other) by {
                find_others(before, i as int, entry, other);
            }
            assert(self@ =~= old(self)@.insert(name@, value@));
        }
    }

    /// Forget a name.
    pub fn remove(&mut self, name: &str)
        ensures
            final(self)@ == old(self)@.remove(name@),
    {
        let ghost before = self.entries@;
        let mut i: usize = 0;
        while i < self.entries.len()
            invariant
                i <= self.entries@.len(),
                forall|j: int| 0 <= j < i ==> (#[trigger] self.entries@[j]).0@ != name@,
                forall|other: Seq<char>|
                    other != name@ ==> find(self.entries@, other) == find(before, other),
            decreases self.entries@.len() - i,
        {
            if text::same(self.entries[i].0.as_str(), name) {
                let ghost es = self.entries@;
                let e = self.entries.remove(i);
                proof {
                    assert forall|other: Seq<char>| other != name@ implies find(
                        self.entries@,
                        other,
                    ) == find(before, other) by {
                        find_others(es, i as int, e, other);
                    }
                }
            } else {
                i += 1;
            }
        }
        proof {
            find_first(self.entries@, name@, i as int);
            assert(self@ =~= old(self)@.remove(name@));
        }
    }
}

} // verus!
