//! Lexical environments: name-to-value bindings created fresh per
//! evaluation (once per top-level query, once per lambda application,
//! once per composition stage) and never mutated after being handed to
//! the evaluator. A later binding of the same name shadows an earlier
//! one.

use vstd::prelude::*;
use crate::value::{EdnValue, ValView};

verus! {

pub open spec fn view_of_bindings(s: Seq<(String, EdnValue)>) -> Seq<(Seq<char>, ValView)>
    decreases s,
{
    if s.len() == 0 {
        Seq::empty()
    } else {
        view_of_bindings(s.drop_last()).push((s.last().0@, s.last().1@))
    }
}

pub broadcast proof fn lemma_view_of_bindings(s: Seq<(String, EdnValue)>)
    ensures
        #[trigger] view_of_bindings(s).len() == s.len(),
        forall|i: int| 0 <= i < s.len() ==> view_of_bindings(s)[i] == (s[i].0@, s[i].1@),
    decreases s,
{
    if s.len() > 0 {
        lemma_view_of_bindings(s.drop_last());
    }
}

/// What looking a name up returns: the value of the latest binding of
/// that name, if any.
pub open spec fn env_lookup(env: Seq<(Seq<char>, ValView)>, name: Seq<char>) -> Option<ValView>
    decreases env,
{
    if env.len() == 0 {
        Option::None
    } else if env.last().0 == name {
        Option::Some(env.last().1)
    } else {
        env_lookup(env.drop_last(), name)
    }
}

/// Environment for symbol bindings during evaluation.
#[derive(Debug)]
pub struct Environment {
    bindings: Vec<(String, EdnValue)>,
}

impl View for Environment {
    type V = Seq<(Seq<char>, ValView)>;

    closed spec fn view(&self) -> Seq<(Seq<char>, ValView)> {
        view_of_bindings(self.bindings@)
    }
}

impl Environment {
    /// An environment with no bindings.
    pub fn new() -> (env: Environment)
        ensures
            env@ == Seq::<(Seq<char>, ValView)>::empty(),
    {
        let bindings: Vec<(String, EdnValue)> = Vec::new();
        proof {
            lemma_view_of_bindings(bindings@);
            assert(view_of_bindings(bindings@) =~= Seq::<(Seq<char>, ValView)>::empty());
        }
        Environment { bindings }
    }

    /// An environment binding the ambient-input symbol `.` to `context`.
    pub fn with_context(context: EdnValue) -> (env: Environment)
        ensures
            env@ == Seq::<(Seq<char>, ValView)>::empty().push(("."@, context@)),
    {
        let mut env = Environment::new();
        env.bind(".".to_owned(), context);
        env
    }

    /// Adds a binding; it shadows any earlier binding of the same name.
    pub fn bind(&mut self, name: String, value: EdnValue)
        ensures
            final(self)@ == old(self)@.push((name@, value@)),
    {
        let ghost before = self.bindings@;
        self.bindings.push((name, value));
        proof {
            lemma_view_of_bindings(self.bindings@);
            lemma_view_of_bindings(before);
            assert(self.bindings@.drop_last() =~= before);
        }
    }

    /// Looks a name up; the latest binding wins.
    pub fn lookup(&self, name: &String) -> (r: Option<&EdnValue>)
        ensures
            match r {
                Option::Some(found) => env_lookup(self@, name@) == Option::Some(found@),
                Option::None => env_lookup(self@, name@) is None,
            },
    {
        let ghost ev = self@;
        proof {
            lemma_view_of_bindings(self.bindings@);
        }
        proof {
            assert(ev.take(self.bindings@.len() as int) =~= ev);
        }
        let n = self.bindings.len();
        let mut i: usize = n;
        while i > 0
            invariant
                i <= n,
                n == self.bindings@.len(),
                ev == view_of_bindings(self.bindings@),
                ev.len() == n,
                forall|j: int| 0 <= j < n ==> #[trigger] ev[j] == (
                    self.bindings@[j].0@,
                    self.bindings@[j].1@,
                ),
                env_lookup(ev, name@) == env_lookup(ev.take(i as int), name@),
            decreases i,
        {
            i = i - 1;
            proof {
                assert(ev.take(i as int + 1).last() == ev[i as int]);
                assert(ev.take(i as int + 1).drop_last() =~= ev.take(i as int));
            }
            if self.bindings[i].0 == *name {
                return Option::Some(&self.bindings[i].1);
            }
        }
        proof {
            assert(ev.take(0) =~= Seq::<(Seq<char>, ValView)>::empty());
        }
        Option::None
    }
}

} // verus!
