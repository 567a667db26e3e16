//! The registry of scalar functions by name.

use vstd::prelude::*;
use crate::expr::json_query_name;

verus! {

/// A scalar function as the registry knows it: its name and the other
/// names under which it can be called.
#[derive(Debug)]
pub struct ScalarUdf {
    pub name: String,
    pub aliases: Vec<String>,
}

/// Whether entry `i` is the first one under the given key.
pub open spec fn first_under(entries: Seq<(String, String)>, key: Seq<char>, i: int) -> bool {
    &&& 0 <= i < entries.len()
    &&& entries[i].0@ == key
    &&& forall|j: int| 0 <= j < i ==> (#[trigger] entries[j]).0@ != key
}

/// The name of the function entered under the given key, if there is one.
pub open spec fn entered(entries: Seq<(String, String)>, key: Seq<char>) -> Option<Seq<char>> {
    if exists|i: int| first_under(entries, key, i) {
        Some(entries[choose|i: int| first_under(entries, key, i)].1@)
    } else {
        None
    }
}

/// There is one first entry under a key.
pub proof fn lemma_entered(entries: Seq<(String, String)>, key: Seq<char>, i: int)
    requires
        first_under(entries, key, i),
    ensures
        entered(entries, key) == Some(entries[i].1@),
{
    let c = choose|c: int| first_under(entries, key, c);
    assert(first_under(entries, key, c));
    if c < i {
        assert(entries[c].0@ != key);
    }
    if i < c {
        assert(entries[i].0@ != key);
    }
}

/// Without an entry under a key, nothing is entered under it.
pub proof fn lemma_not_entered(entries: Seq<(String, String)>, key: Seq<char>)
    requires
        forall|j: int| 0 <= j < entries.len() ==> (#[trigger] entries[j]).0@ != key,
    ensures
        entered(entries, key) is None,
{
    if exists|i: int| first_under(entries, key, i) {
        let c = choose|c: int| first_under(entries, key, c);
        assert(entries[c].0@ != key);
    }
}

/// Scalar functions by name: every function is entered under its name and
/// under each of its aliases.
#[derive(Debug)]
pub struct FunctionRegistry {
    /// Pairs of a key and the name of the function entered under it.
    pub map: Vec<(String, String)>,
}

/// A group of functions that can enter itself in a registry.
pub trait FunctionModule {
    /// Whether `after` is the registry that the module makes of `before` by
    /// entering its functions.
    spec fn registers(before: FunctionRegistry, after: FunctionRegistry) -> bool;

    /// Enters the functions of the module.
    fn register(parent: &mut FunctionRegistry)
        ensures
            Self::registers(*old(parent), *final(parent)),
    ;
}

impl FunctionRegistry {
    /// The name of the function entered under the given key.
    pub open spec fn lookup(self, key: Seq<char>) -> Option<Seq<char>> {
        entered(self.map@, key)
    }

    /// A registry without entries.
    pub fn new() -> (r: Self)
        ensures
            r.map@.len() == 0,
            forall|key: Seq<char>| r.lookup(key) is None,
    {
        let r = FunctionRegistry { map: Vec::new() };
        assert forall|key: Seq<char>| r.lookup(key) is None by {
            lemma_not_entered(r.map@, key);
        }
        r
    }

    /// The position of the first entry under the key.
    fn find(&self, key: &String) -> (r: Option<usize>)
        ensures
            match r {
                Some(i) => first_under(self.map@, key@, i as int),
                None => forall|j: int| 0 <= j < self.map@.len() ==> (#[trigger] self.map@[j]).0@ != key@,
            },
    {
        let mut i: usize = 0;
        while i < self.map.len()
            invariant
                i <= self.map@.len(),
                forall|j: int| 0 <= j < i ==> (#[trigger] self.map@[j]).0@ != key@,
            decreases self.map@.len() - i,
        {
            if self.map[i].0 == *key {
                return Some(i);
            }
            i += 1;
        }
        None
    }

    /// Enters a function name under a key, in place of what was entered
    /// under it before.
    pub fn insert(&mut self, key: String, name: String)
        ensures
            forall|k: Seq<char>|
                final(self).lookup(k) == if k == key@ {
                    Some(name@)
                } else {
                    old(self).lookup(k)
                },
    {
        let ghost before = self.map@;
        match self.find(&key) {
            Some(i) => {
                self.map.set(i, (key, name));
                assert forall|k: Seq<char>| entered(self.map@, k) == if k == key@ {
                    Some(name@)
                } else {
                    entered(before, k)
                } by {
                    if k == key@ {
                        assert forall|j: int| 0 <= j < i implies (#[trigger] self.map@[j]).0@
                            != k by {
                            assert(self.map@[j] == before[j]);
                        }
                        lemma_entered(self.map@, k, i as int);
                    } else {
                        Self::lemma_other_keys(before, self.map@, k);
                    }
                }
            },
            None => {
                self.map.push((key, name));
                assert forall|k: Seq<char>| entered(self.map@, k) == if k == key@ {
                    Some(name@)
                } else {
                    entered(before, k)
                } by {
                    if k == key@ {
                        assert forall|j: int| 0 <= j < before.len() implies (
                        #[trigger] self.map@[j]).0@ != k by {
                            assert(self.map@[j] == before[j]);
                        }
                        lemma_entered(self.map@, k, before.len() as int);
                    } else {
                        Self::lemma_other_keys(before, self.map@, k);
                    }
                }
            },
        }
    }

    /// Entries that agree wherever either has the key `k`, entry by entry
    /// over the length of the shorter list, and have no entry under `k`
    /// beyond it, enter the same under `k`.
    proof fn lemma_other_keys(a: Seq<(String, String)>, b: Seq<(String, String)>, k: Seq<char>)
        requires
            a.len() <= b.len(),
            forall|j: int|
                0 <= j < a.len() ==> ((#[trigger] a[j]).0@ == k || (#[trigger] b[j]).0@ == k) ==> a[j]
                    == b[j],
            forall|j: int| a.len() <= j < b.len() ==> (#[trigger] b[j]).0@ != k,
        ensures
            entered(a, k) == entered(b, k),
    {
        if exists|i: int| first_under(a, k, i) {
            let i = choose|i: int| first_under(a, k, i);
            assert(a[i] == b[i]);
            assert forall|j: int| 0 <= j < i implies (#[trigger] b[j]).0@ != k by {
                if b[j].0@ == k {
                    assert(a[j] == b[j]);
                }
            }
            lemma_entered(a, k, i);
            lemma_entered(b, k, i);
        } else if exists|i: int| first_under(b, k, i) {
            let i = choose|i: int| first_under(b, k, i);
            assert(i < a.len());
            assert(a[i] == b[i]);
            assert forall|j: int| 0 <= j < i implies (#[trigger] a[j]).0@ != k by {
                if a[j].0@ == k {
                    assert(a[j] == b[j]);
                }
            }
            assert(first_under(a, k, i));
        }
    }

    /// Enters a function under each of its aliases and under its name.
    pub fn add_fn(&mut self, func: &ScalarUdf)
        ensures
            forall|k: Seq<char>|
                final(self).lookup(k) == if k == func.name@ || exists|a: int|
                    0 <= a < func.aliases@.len() && (#[trigger] func.aliases@[a])@ == k {
                    Some(func.name@)
                } else {
                    old(self).lookup(k)
                },
    {
        let ghost start = *self;
        let mut a: usize = 0;
        while a < func.aliases.len()
            invariant
                a <= func.aliases@.len(),
                forall|k: Seq<char>|
                    self.lookup(k) == if exists|b: int|
                        0 <= b < a && (#[trigger] func.aliases@[b])@ == k {
                        Some(func.name@)
                    } else {
                        start.lookup(k)
                    },
            decreases func.aliases@.len() - a,
        {
            let ghost before = *self;
            self.insert(func.aliases[a].clone(), func.name.clone());
            a += 1;
            assert forall|k: Seq<char>|
                self.lookup(k) == if exists|b: int|
                    0 <= b < a && (#[trigger] func.aliases@[b])@ == k {
                    Some(func.name@)
                } else {
                    start.lookup(k)
                } by {
                if k == func.aliases@[a - 1]@ {
                    assert(func.aliases@[a - 1]@ == k);
                } else if exists|b: int| 0 <= b < a - 1 && (#[trigger] func.aliases@[b])@ == k {
                    let b = choose|b: int| 0 <= b < a - 1 && (#[trigger] func.aliases@[b])@ == k;
                    assert(func.aliases@[b]@ == k);
                }
            }
        }
        self.insert(func.name.clone(), func.name.clone());
    }

    /// The name of the function entered under the given key.
    pub fn get(&self, name: &String) -> (r: Option<String>)
        ensures
            match r {
                Some(found) => self.lookup(name@) == Some(found@),
                None => self.lookup(name@) is None,
            },
    {
        match self.find(name) {
            Some(i) => {
                proof {
                    lemma_entered(self.map@, name@, i as int);
                }
                Some(self.map[i].1.clone())
            },
            None => {
                proof {
                    lemma_not_entered(self.map@, name@);
                }
                None
            },
        }
    }

    /// The pairs of a key and the name of the function entered under it.
    pub fn entries(&self) -> (r: &Vec<(String, String)>)
        ensures
            r@ == self.map@,
    {
        &self.map
    }

    /// Lets a module enter its functions: the registry becomes what the
    /// module makes of it.
    pub fn register<M: FunctionModule>(&mut self)
        ensures
            M::registers(*old(self), *final(self)),
    {
        M::register(self);
    }
}

/// The functions on JSON text.
#[derive(Debug)]
pub struct JsonFunctions;

impl JsonFunctions {
    /// The JSON query function as the registry knows it.
    pub fn json_query_udf() -> (f: ScalarUdf)
        ensures
            f.name@ == json_query_name(),
            f.aliases@.len() == 0,
    {
        ScalarUdf { name: "json_query".to_string(), aliases: Vec::new() }
    }
}

impl FunctionModule for JsonFunctions {
    /// The JSON query function is entered under its name, in place of what
    /// was entered under it before; every other key keeps its entry.
    open spec fn registers(before: FunctionRegistry, after: FunctionRegistry) -> bool {
        forall|k: Seq<char>|
            after.lookup(k) == if k == json_query_name() {
                Some(json_query_name())
            } else {
                before.lookup(k)
            }
    }

    fn register(parent: &mut FunctionRegistry) {
        let f = JsonFunctions::json_query_udf();
        parent.add_fn(&f);
    }
}

} // verus!
