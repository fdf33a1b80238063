//! Lexical environments: immutable-by-discipline mappings from variable
//! name to store address. Extending an environment pushes one binding; a
//! lookup takes the most recently pushed binding for a name, so an inner
//! binding shadows an outer one without disturbing it.

use vstd::prelude::*;
use crate::model::SpecEnv;

verus! {

/// What a name resolves to in a model environment: the address of the
/// latest binding for it, scanning from the most recent binding backwards.
pub open spec fn env_lookup(env: SpecEnv, name: Seq<char>) -> Option<nat>
    decreases env.len(),
{
    if env.len() == 0 {
        None
    } else if env.last().0 == name {
        Some(env.last().1)
    } else {
        env_lookup(env.drop_last(), name)
    }
}

/// An environment: name-to-address bindings in insertion order.
#[derive(Debug)]
pub struct Env {
    bindings: Vec<(String, usize)>,
}

impl View for Env {
    type V = SpecEnv;

    closed spec fn view(&self) -> SpecEnv {
        self.bindings@.map(|i: int, p: (String, usize)| (p.0@, p.1 as nat))
    }
}

/// An `Option<usize>` address widened to the model's `Option<nat>`.
pub open spec fn addr_view(r: Option<usize>) -> Option<nat> {
    match r {
        Some(a) => Some(a as nat),
        None => None,
    }
}

impl Env {
    /// The empty environment.
    pub fn new() -> (r: Env)
        ensures
            r@ == Seq::<(Seq<char>, nat)>::empty(),
    {
        let r = Env { bindings: Vec::new() };
        proof {
            assert(r@ =~= Seq::<(Seq<char>, nat)>::empty());
        }
        r
    }

    /// Extend the environment with one binding; it shadows any earlier
    /// binding of the same name.
    pub fn insert(&mut self, name: String, addr: usize)
        ensures
            final(self)@ == old(self)@.push((name@, addr as nat)),
    {
        let ghost n = name@;
        self.bindings.push((name, addr));
        proof {
            assert(self@ =~= old(self)@.push((n, addr as nat)));
        }
    }

    /// Resolve a name to the address of its latest binding.
    pub fn lookup(&self, name: &String) -> (r: Option<usize>)
        ensures
            addr_view(r) == env_lookup(self@, name@),
    {
        let mut i: usize = self.bindings.len();
        proof {
            assert(self@.subrange(0, i as int) =~= self@);
        }
        while i > 0
            invariant
                i <= self.bindings.len(),
                env_lookup(self@, name@) == env_lookup(self@.subrange(0, i as int), name@),
            decreases i,
        {
            i = i - 1;
            let entry = &self.bindings[i];
            if entry.0.eq(name) {
                proof {
                    let pre = self@.subrange(0, i as int + 1);
                    assert(pre.last() == (entry.0@, entry.1 as nat));
                }
                return Some(entry.1);
            }
            proof {
                let pre = self@.subrange(0, i as int + 1);
                assert(pre.last().0 != name@);
                assert(pre.drop_last() =~= self@.subrange(0, i as int));
            }
        }
        proof {
            assert(self@.subrange(0, 0) =~= Seq::<(Seq<char>, nat)>::empty());
        }
        None
    }
}

impl Clone for Env {
    fn clone(&self) -> (r: Self)
        ensures
            r@ == self@,
    {
        let mut out: Vec<(String, usize)> = Vec::new();
        let mut i: usize = 0;
        while i < self.bindings.len()
            invariant
                i <= self.bindings.len(),
                out@.len() == i,
                forall|j: int|
                    0 <= j < i ==> (#[trigger] out@[j]).0@ == self.bindings@[j].0@
                        && out@[j].1 == self.bindings@[j].1,
            decreases self.bindings.len() - i,
        {
            let entry = &self.bindings[i];
            out.push((entry.0.clone(), entry.1));
            i = i + 1;
        }
        let r = Env { bindings: out };
        proof {
            assert(r@ =~= self@);
        }
        r
    }
}

} // verus!
