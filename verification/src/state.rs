//! Interpreter state: three explicit tables for variables, aliases and
//! function bodies.  Keeping the three roles in separate tables (rather
//! than multiplexing one table by reserved key prefixes) rules out any
//! collision between a variable, an alias and a function name by
//! construction.

use vstd::prelude::*;
use crate::text::str_eq;

verus! {

/// First-match lookup in an association table.
pub open spec fn spec_get(t: Seq<(String, String)>, k: Seq<char>) -> Option<Seq<char>>
    decreases t.len(),
{
    if t.len() == 0 {
        None
    } else if t[0].0@ == k {
        Some(t[0].1@)
    } else {
        spec_get(t.drop_first(), k)
    }
}

proof fn lemma_entries_skip(t: Seq<(String, String)>, n: int)
    requires
        0 <= n < t.len(),
    ensures
        t.skip(n).drop_first() == t.skip(n + 1),
        t.skip(n)[0] == t[n],
        t.skip(n).len() == t.len() - n,
{
    assert(t.skip(n).drop_first() =~= t.skip(n + 1));
}

/// Lookup after replacing the first entry that holds the key.
proof fn lemma_get_update(t: Seq<(String, String)>, i: int, e: (String, String), q: Seq<char>)
    requires
        0 <= i < t.len(),
        forall|j: int| 0 <= j < i ==> (#[trigger] t[j]).0@ != e.0@,
        t[i].0@ == e.0@,
    ensures
        spec_get(t.update(i, e), q) == (if q == e.0@ {
            Some(e.1@)
        } else {
            spec_get(t, q)
        }),
    decreases i,
{
    let t2 = t.update(i, e);
    if i == 0 {
        assert(t2[0] == e);
        if q != e.0@ {
            assert(t2.drop_first() =~= t.drop_first());
        }
    } else {
        assert(t2[0] == t[0]);
        assert(t[0].0@ != e.0@);
        if q == t[0].0@ {
        } else {
            assert(t2.drop_first() =~= t.drop_first().update(i - 1, e));
            assert(forall|j: int|
                0 <= j < i - 1 ==> (#[trigger] t.drop_first()[j]).0@ != e.0@);
            assert(t.drop_first()[i - 1].0@ == e.0@);
            lemma_get_update(t.drop_first(), i - 1, e, q);
        }
    }
}

/// Lookup after appending an entry whose key is new.
proof fn lemma_get_push(t: Seq<(String, String)>, e: (String, String), q: Seq<char>)
    ensures
        spec_get(t.push(e), q) == (if spec_get(t, q) is Some {
            spec_get(t, q)
        } else if q == e.0@ {
            Some(e.1@)
        } else {
            None
        }),
    decreases t.len(),
{
    let t2 = t.push(e);
    assert(t2.len() == t.len() + 1);
    assert(spec_get(t2, q) == (if t2[0].0@ == q {
        Some(t2[0].1@)
    } else {
        spec_get(t2.drop_first(), q)
    }));
    if t.len() == 0 {
        assert(t2[0] == e);
        assert(t2.drop_first() =~= Seq::<(String, String)>::empty());
        assert(spec_get(t2.drop_first(), q) is None);
    } else {
        assert(t2[0] == t[0]);
        assert(t2.drop_first() =~= t.drop_first().push(e));
        lemma_get_push(t.drop_first(), e, q);
        assert(spec_get(t, q) == (if t[0].0@ == q {
            Some(t[0].1@)
        } else {
            spec_get(t.drop_first(), q)
        }));
    }
}

/// The value stored under `k`, if any.
fn table_get(t: &Vec<(String, String)>, k: &str) -> (r: Option<String>)
    ensures
        (match r {
            Some(v) => spec_get(t@, k@) == Some(v@),
            None => spec_get(t@, k@) is None,
        }),
{
    let mut i: usize = 0;
    proof {
        assert(t@.skip(0) =~= t@);
    }
    while i < t.len()
        invariant
            i <= t@.len(),
            spec_get(t@, k@) == spec_get(t@.skip(i as int), k@),
        decreases t@.len() - i,
    {
        proof {
            lemma_entries_skip(t@, i as int);
        }
        if str_eq(t[i].0.as_str(), k) {
            return Some(t[i].1.clone());
        }
        i += 1;
    }
    proof {
        assert(t@.skip(i as int).len() == 0);
    }
    None
}

/// The index of the first entry that holds the key, if any.
fn find_key(t: &Vec<(String, String)>, k: &str) -> (r: Option<usize>)
    ensures
        (match r {
            Some(i) => i < t@.len() && t@[i as int].0@ == k@ && (forall|j: int|
                0 <= j < i ==> (#[trigger] t@[j]).0@ != k@),
            None => forall|j: int| 0 <= j < t@.len() ==> (#[trigger] t@[j]).0@ != k@,
        }),
{
    let mut i: usize = 0;
    while i < t.len()
        invariant
            i <= t@.len(),
            forall|j: int| 0 <= j < i ==> (#[trigger] t@[j]).0@ != k@,
        decreases t@.len() - i,
    {
        if str_eq(t[i].0.as_str(), k) {
            return Some(i);
        }
        i += 1;
    }
    None
}

/// Store `v` under `k`, replacing the entry if the key is present.
fn table_set(t: &mut Vec<(String, String)>, k: String, v: String)
    ensures
        forall|q: Seq<char>| #[trigger]
            spec_get(final(t)@, q) == (if q == k@ {
                Some(v@)
            } else {
                spec_get(old(t)@, q)
            }),
{
    let ghost t0 = t@;
    let found = find_key(t, k.as_str());
    match found {
        Some(i) => {
            let ghost ki = i as int;
            t.remove(i);
            t.insert(i, (k, v));
            proof {
                assert(t@ =~= t0.update(ki, t@[ki]));
                assert(t@[ki].0@ == k@ && t@[ki].1@ == v@);
                assert forall|q: Seq<char>|
                    #[trigger] spec_get(t@, q) == (if q == k@ {
                        Some(v@)
                    } else {
                        spec_get(t0, q)
                    }) by {
                    lemma_get_update(t0, ki, t@[ki], q);
                }
            }
        },
        None => {
            t.push((k, v));
            proof {
                assert(t@ =~= t0.push(t@.last()));
                assert(t@.last().0@ == k@ && t@.last().1@ == v@);
                assert forall|q: Seq<char>|
                    #[trigger] spec_get(t@, q) == (if q == k@ {
                        Some(v@)
                    } else {
                        spec_get(t0, q)
                    }) by {
                    lemma_get_push(t0, t@.last(), q);
                    if q == k@ && spec_get(t0, q) is Some {
                        lemma_get_some_key(t0, q);
                        assert(exists|j: int|
                            0 <= j < t0.len() && (#[trigger] t0[j]).0@ == q);
                    }
                }
            }
        },
    }
}

/// A successful lookup names a key that some entry holds.
proof fn lemma_get_some_key(t: Seq<(String, String)>, q: Seq<char>)
    requires
        spec_get(t, q) is Some,
    ensures
        exists|j: int| 0 <= j < t.len() && (#[trigger] t[j]).0@ == q,
    decreases t.len(),
{
    if t.len() == 0 {
    } else if t[0].0@ == q {
        assert(t[0].0@ == q);
    } else {
        lemma_get_some_key(t.drop_first(), q);
        let j = choose|j: int| 0 <= j < t.drop_first().len() && (#[trigger] t.drop_first()[j]).0@
            == q;
        assert(t[j + 1].0@ == q);
    }
}

/// The ghost image of the interpreter state: the entries of the three
/// tables.
pub ghost struct StateV {
    pub vars: Seq<(String, String)>,
    pub aliases: Seq<(String, String)>,
    pub fns: Seq<(String, String)>,
}

/// The interpreter's mutable state: variables, alias definitions and
/// user-defined function bodies.
pub struct ShellState {
    pub vars: Vec<(String, String)>,
    pub aliases: Vec<(String, String)>,
    pub fns: Vec<(String, String)>,
}

impl View for ShellState {
    type V = StateV;

    open spec fn view(&self) -> StateV {
        StateV { vars: self.vars@, aliases: self.aliases@, fns: self.fns@ }
    }
}

/// The variable bound to `name`, if any.
pub open spec fn spec_var(st: StateV, name: Seq<char>) -> Option<Seq<char>> {
    spec_get(st.vars, name)
}

/// The replacement text of the alias `name`, if any.
pub open spec fn spec_alias(st: StateV, name: Seq<char>) -> Option<Seq<char>> {
    spec_get(st.aliases, name)
}

/// The body of the user-defined function `name`, if any.
pub open spec fn spec_fn_body(st: StateV, name: Seq<char>) -> Option<Seq<char>> {
    spec_get(st.fns, name)
}

impl ShellState {
    /// A state with no variables, aliases or functions.
    pub fn new() -> (r: Self)
        ensures
            r@.vars.len() == 0,
            r@.aliases.len() == 0,
            r@.fns.len() == 0,
    {
        ShellState { vars: Vec::new(), aliases: Vec::new(), fns: Vec::new() }
    }

    /// The value of the variable `name`, if defined.
    pub fn lookup_var(&self, name: &str) -> (r: Option<String>)
        ensures
            (match r {
                Some(v) => spec_var(self@, name@) == Some(v@),
                None => spec_var(self@, name@) is None,
            }),
    {
        table_get(&self.vars, name)
    }

    /// Bind the variable `name` to `value`.
    pub fn store_var(&mut self, name: String, value: String)
        ensures
            forall|q: Seq<char>| #[trigger]
                spec_var(final(self)@, q) == (if q == name@ {
                    Some(value@)
                } else {
                    spec_var(old(self)@, q)
                }),
            final(self)@.aliases == old(self)@.aliases,
            final(self)@.fns == old(self)@.fns,
    {
        table_set(&mut self.vars, name, value);
    }

    /// The replacement text of the alias `name`, if defined.
    pub fn lookup_alias(&self, name: &str) -> (r: Option<String>)
        ensures
            (match r {
                Some(v) => spec_alias(self@, name@) == Some(v@),
                None => spec_alias(self@, name@) is None,
            }),
    {
        table_get(&self.aliases, name)
    }

    /// Define the alias `name` as `value`.
    pub fn store_alias(&mut self, name: String, value: String)
        ensures
            forall|q: Seq<char>| #[trigger]
                spec_alias(final(self)@, q) == (if q == name@ {
                    Some(value@)
                } else {
                    spec_alias(old(self)@, q)
                }),
            final(self)@.vars == old(self)@.vars,
            final(self)@.fns == old(self)@.fns,
    {
        table_set(&mut self.aliases, name, value);
    }

    /// The body of the user-defined function `name`, if defined.
    pub fn lookup_fn(&self, name: &str) -> (r: Option<String>)
        ensures
            (match r {
                Some(v) => spec_fn_body(self@, name@) == Some(v@),
                None => spec_fn_body(self@, name@) is None,
            }),
    {
        table_get(&self.fns, name)
    }

    /// Store `body` as the body of the user-defined function `name`.
    pub fn store_fn(&mut self, name: String, body: String)
        ensures
            forall|q: Seq<char>| #[trigger]
                spec_fn_body(final(self)@, q) == (if q == name@ {
                    Some(body@)
                } else {
                    spec_fn_body(old(self)@, q)
                }),
            final(self)@.vars == old(self)@.vars,
            final(self)@.aliases == old(self)@.aliases,
    {
        table_set(&mut self.fns, name, body);
    }
}

} // verus!
