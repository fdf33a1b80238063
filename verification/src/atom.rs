//! The evaluable "small" expressions and the runtime values they produce.

use vstd::prelude::*;
use crate::env::Env;
use crate::ir::IR;
use crate::model::{view_atom, view_names, view_value, SpecAtom, SpecValue};

verus! {

/// A side-effect-free expression evaluable in one step: a variable
/// reference, a scalar literal, or a lambda literal carrying a numeric
/// label, formal parameter names, and a body.
#[derive(Debug, PartialEq, Eq, Hash)]
pub enum Atom {
    Var(String),
    I32(i32),
    I64(i64),
    U32(u32),
    U64(u64),
    Bool(bool),
    Char(char),
    StringLiteral(String),
    Lam(usize, Vec<String>, Box<IR>),
}

impl View for Atom {
    type V = SpecAtom;

    open spec fn view(&self) -> SpecAtom {
        view_atom(*self)
    }
}

impl Atom {
    /// A lambda literal from borrowed parameter names.
    pub fn lam(label: usize, args: &[&str], body: IR) -> (r: Self)
        ensures
            r@ == SpecAtom::Lam(
                label as nat,
                args@.map(|i: int, s: &str| s@),
                Box::new(body@),
            ),
    {
        let mut names: Vec<String> = Vec::new();
        let mut i: usize = 0;
        while i < args.len()
            invariant
                i <= args.len(),
                names@.len() == i,
                forall|j: int| 0 <= j < i ==> (#[trigger] names@[j])@ == args@[j]@,
            decreases args.len() - i,
        {
            names.push(args[i].to_owned());
            i = i + 1;
        }
        let r = Atom::Lam(label, names, Box::new(body));
        proof {
            assert(names@.map(|j: int, s: String| s@) =~= args@.map(|j: int, s: &str| s@));
        }
        r
    }

    /// A variable reference.
    pub fn v(s: &str) -> (r: Self)
        ensures
            r@ == SpecAtom::Var(s@),
    {
        Atom::Var(s.to_owned())
    }
}

impl Clone for Atom {
    /// A structural copy: the model of the copy is the model of the
    /// original.
    fn clone(&self) -> (r: Self)
        ensures
            r@ == self@,
        decreases *self,
    {
        match self {
            Atom::Var(n) => Atom::Var(n.clone()),
            Atom::I32(v) => Atom::I32(*v),
            Atom::I64(v) => Atom::I64(*v),
            Atom::U32(v) => Atom::U32(*v),
            Atom::U64(v) => Atom::U64(*v),
            Atom::Bool(v) => Atom::Bool(*v),
            Atom::Char(v) => Atom::Char(*v),
            Atom::StringLiteral(v) => Atom::StringLiteral(v.clone()),
            Atom::Lam(l, ps, body) => {
                let ps2 = ps.clone();
                proof {
                    assert(view_names(ps2@) =~= view_names(ps@));
                }
                Atom::Lam(*l, ps2, Box::new((&**body).clone()))
            },
        }
    }
}

/// The result of evaluation: a scalar, or a suspended computation — a
/// closure produced by evaluating a lambda literal, or a continuation
/// produced by a continuation binding. Both capture the environment as it
/// was at the moment of their creation.
#[derive(Debug)]
pub enum Value {
    I32(i32),
    I64(i64),
    U32(u32),
    U64(u64),
    Bool(bool),
    Char(char),
    StringLiteral(String),
    Clo(Vec<String>, Box<IR>, Env),
    Cont(Vec<String>, Box<IR>, Env),
}

impl View for Value {
    type V = SpecValue;

    open spec fn view(&self) -> SpecValue {
        view_value(*self)
    }
}

impl Clone for Value {
    /// A structural copy: the model of the copy is the model of the
    /// original. A copied closure or continuation carries a copy of its
    /// captured environment.
    fn clone(&self) -> (r: Self)
        ensures
            r@ == self@,
    {
        match self {
            Value::I32(v) => Value::I32(*v),
            Value::I64(v) => Value::I64(*v),
            Value::U32(v) => Value::U32(*v),
            Value::U64(v) => Value::U64(*v),
            Value::Bool(v) => Value::Bool(*v),
            Value::Char(v) => Value::Char(*v),
            Value::StringLiteral(v) => Value::StringLiteral(v.clone()),
            Value::Clo(ps, body, env) => {
                let ps2 = ps.clone();
                proof {
                    assert(view_names(ps2@) =~= view_names(ps@));
                }
                Value::Clo(ps2, Box::new((&**body).clone()), env.clone())
            },
            Value::Cont(ps, body, env) => {
                let ps2 = ps.clone();
                proof {
                    assert(view_names(ps2@) =~= view_names(ps@));
                }
                Value::Cont(ps2, Box::new((&**body).clone()), env.clone())
            },
        }
    }
}

impl PartialEq for Value {
    /// Scalars compare by their contents; closures and continuations never
    /// compare equal, not even to themselves.
    fn eq(&self, other: &Self) -> (r: bool) {
        match (self, other) {
            (Value::I32(a), Value::I32(b)) => *a == *b,
            (Value::I64(a), Value::I64(b)) => *a == *b,
            (Value::U32(a), Value::U32(b)) => *a == *b,
            (Value::U64(a), Value::U64(b)) => *a == *b,
            (Value::Bool(a), Value::Bool(b)) => *a == *b,
            (Value::Char(a), Value::Char(b)) => *a == *b,
            (Value::StringLiteral(a), Value::StringLiteral(b)) => a.eq(b),
            _ => false,
        }
    }
}

impl vstd::std_specs::cmp::PartialEqSpecImpl for Value {
    open spec fn obeys_eq_spec() -> bool {
        true
    }

    open spec fn eq_spec(&self, other: &Self) -> bool {
        scalar_eq(self@, other@)
    }
}

/// What `==` on runtime values means over the model: equality of scalar
/// contents, and `false` whenever either side is a closure or a
/// continuation.
pub open spec fn scalar_eq(a: SpecValue, b: SpecValue) -> bool {
    match (a, b) {
        (SpecValue::I32(x), SpecValue::I32(y)) => x == y,
        (SpecValue::I64(x), SpecValue::I64(y)) => x == y,
        (SpecValue::U32(x), SpecValue::U32(y)) => x == y,
        (SpecValue::U64(x), SpecValue::U64(y)) => x == y,
        (SpecValue::Bool(x), SpecValue::Bool(y)) => x == y,
        (SpecValue::Char(x), SpecValue::Char(y)) => x == y,
        (SpecValue::StringLiteral(x), SpecValue::StringLiteral(y)) => x == y,
        _ => false,
    }
}

} // verus!
