//! The mathematical model of the IR: the datatypes the contracts speak
//! of, and the views taking each executable type to its model.
//!
//! Addresses are naturals, names are character sequences, and collections
//! are `Seq`s, so that the semantics in `sem` is a total mathematical
//! function of its inputs.

use vstd::prelude::*;
use crate::atom::{Atom, Value};
use crate::errors::EvalError;
use crate::ir::{Cont, IR};

verus! {

broadcast use vstd::std_specs::vec::group_vec_axioms;

/// A model environment: name-to-address bindings in insertion order.
pub type SpecEnv = Seq<(Seq<char>, nat)>;

/// The model of an evaluable atom.
pub enum SpecAtom {
    Var(Seq<char>),
    I32(i32),
    I64(i64),
    U32(u32),
    U64(u64),
    Bool(bool),
    Char(char),
    StringLiteral(Seq<char>),
    Lam(nat, Seq<Seq<char>>, Box<SpecIr>),
}

/// The model of a continuation reference.
pub enum SpecCont {
    Named(Seq<char>),
    Return,
}

/// The model of a CPS control form.
pub enum SpecIr {
    LetCont(nat, Seq<char>, Seq<Seq<char>>, Box<SpecIr>, Box<SpecIr>),
    Let(nat, Seq<char>, Seq<char>, Seq<SpecAtom>, Box<SpecIr>),
    LetVal(nat, Seq<char>, SpecAtom, Box<SpecIr>),
    If(nat, SpecAtom, Box<SpecIr>, Box<SpecIr>),
    App(nat, SpecAtom, Seq<SpecAtom>, SpecCont),
    Fix(nat, Seq<Seq<char>>, Seq<SpecAtom>, Box<SpecIr>),
    AppCont(nat, SpecCont, Seq<SpecAtom>),
}

/// The model of a runtime value.
pub enum SpecValue {
    I32(i32),
    I64(i64),
    U32(u32),
    U64(u64),
    Bool(bool),
    Char(char),
    StringLiteral(Seq<char>),
    Clo(Seq<Seq<char>>, Box<SpecIr>, SpecEnv),
    Cont(Seq<Seq<char>>, Box<SpecIr>, SpecEnv),
}

/// The views of a list of names.
pub open spec fn view_names(s: Seq<String>) -> Seq<Seq<char>> {
    s.map(|i: int, x: String| x@)
}

/// The model of a continuation reference.
pub open spec fn view_cont(c: Cont) -> SpecCont {
    match c {
        Cont::Named(n) => SpecCont::Named(n@),
        Cont::Return => SpecCont::Return,
    }
}

/// The model of an atom.
pub open spec fn view_atom(a: Atom) -> SpecAtom
    decreases a,
{
    match a {
        Atom::Var(n) => SpecAtom::Var(n@),
        Atom::I32(v) => SpecAtom::I32(v),
        Atom::I64(v) => SpecAtom::I64(v),
        Atom::U32(v) => SpecAtom::U32(v),
        Atom::U64(v) => SpecAtom::U64(v),
        Atom::Bool(v) => SpecAtom::Bool(v),
        Atom::Char(v) => SpecAtom::Char(v),
        Atom::StringLiteral(v) => SpecAtom::StringLiteral(v@),
        Atom::Lam(l, ps, body) => SpecAtom::Lam(
            l as nat,
            view_names(ps@),
            Box::new(view_ir(*body)),
        ),
    }
}

/// The models of a list of atoms, in order.
pub open spec fn view_atoms(s: Seq<Atom>) -> Seq<SpecAtom>
    decreases s,
{
    if s.len() == 0 {
        Seq::empty()
    } else {
        view_atoms(s.drop_last()).push(view_atom(s.last()))
    }
}

/// The model of a control form.
pub open spec fn view_ir(ir: IR) -> SpecIr
    decreases ir,
{
    match ir {
        IR::LetCont(l, k, ps, cbody, rest) => SpecIr::LetCont(
            l as nat,
            k@,
            view_names(ps@),
            Box::new(view_ir(*cbody)),
            Box::new(view_ir(*rest)),
        ),
        IR::Let(l, b, op, args, rest) => SpecIr::Let(
            l as nat,
            b@,
            op@,
            view_atoms(args@),
            Box::new(view_ir(*rest)),
        ),
        IR::LetVal(l, x, a, rest) => SpecIr::LetVal(
            l as nat,
            x@,
            view_atom(a),
            Box::new(view_ir(*rest)),
        ),
        IR::If(l, t, th, el) => SpecIr::If(
            l as nat,
            view_atom(t),
            Box::new(view_ir(*th)),
            Box::new(view_ir(*el)),
        ),
        IR::App(l, f, args, c) => SpecIr::App(
            l as nat,
            view_atom(f),
            view_atoms(args@),
            view_cont(c),
        ),
        IR::Fix(l, names, vals, rest) => SpecIr::Fix(
            l as nat,
            view_names(names@),
            view_atoms(vals@),
            Box::new(view_ir(*rest)),
        ),
        IR::AppCont(l, c, args) => SpecIr::AppCont(l as nat, view_cont(c), view_atoms(args@)),
    }
}

/// The model of a runtime value.
pub open spec fn view_value(v: Value) -> SpecValue
    decreases v,
{
    match v {
        Value::I32(x) => SpecValue::I32(x),
        Value::I64(x) => SpecValue::I64(x),
        Value::U32(x) => SpecValue::U32(x),
        Value::U64(x) => SpecValue::U64(x),
        Value::Bool(x) => SpecValue::Bool(x),
        Value::Char(x) => SpecValue::Char(x),
        Value::StringLiteral(x) => SpecValue::StringLiteral(x@),
        Value::Clo(ps, body, env) => SpecValue::Clo(
            view_names(ps@),
            Box::new(view_ir(*body)),
            env@,
        ),
        Value::Cont(ps, body, env) => SpecValue::Cont(
            view_names(ps@),
            Box::new(view_ir(*body)),
            env@,
        ),
    }
}

/// The models of a list of values, in order.
pub open spec fn view_values(s: Seq<Value>) -> Seq<SpecValue>
    decreases s,
{
    if s.len() == 0 {
        Seq::empty()
    } else {
        view_values(s.drop_last()).push(view_value(s.last()))
    }
}

/// The model of an evaluation outcome.
pub open spec fn res_view(r: Result<Value, EvalError>) -> Result<SpecValue, EvalError> {
    match r {
        Ok(v) => Ok(view_value(v)),
        Err(e) => Err(e),
    }
}

/// The model of an evaluated argument list.
pub open spec fn res_views(r: Result<Vec<Value>, EvalError>) -> Result<Seq<SpecValue>, EvalError> {
    match r {
        Ok(vs) => Ok(view_values(vs@)),
        Err(e) => Err(e),
    }
}

/// `view_atoms` maps the list elementwise.
pub proof fn lemma_view_atoms_props(s: Seq<Atom>)
    ensures
        view_atoms(s).len() == s.len(),
        forall|i: int| 0 <= i < s.len() ==> #[trigger] view_atoms(s)[i] == view_atom(s[i]),
    decreases s.len(),
{
    if s.len() > 0 {
        lemma_view_atoms_props(s.drop_last());
    }
}

/// `view_values` maps the list elementwise.
pub proof fn lemma_view_values_props(s: Seq<Value>)
    ensures
        view_values(s).len() == s.len(),
        forall|i: int| 0 <= i < s.len() ==> #[trigger] view_values(s)[i] == view_value(s[i]),
    decreases s.len(),
{
    if s.len() > 0 {
        lemma_view_values_props(s.drop_last());
    }
}

/// Lists whose elements have equal models have equal models as lists.
pub proof fn lemma_view_atoms_ext(s1: Seq<Atom>, s2: Seq<Atom>)
    requires
        s1.len() == s2.len(),
        forall|i: int| 0 <= i < s1.len() ==> view_atom(#[trigger] s1[i]) == view_atom(s2[i]),
    ensures
        view_atoms(s1) == view_atoms(s2),
{
    lemma_view_atoms_props(s1);
    lemma_view_atoms_props(s2);
    assert(view_atoms(s1) =~= view_atoms(s2));
}

/// Appending a value appends its model.
pub proof fn lemma_view_values_push(s: Seq<Value>, v: Value)
    ensures
        view_values(s.push(v)) == view_values(s).push(view_value(v)),
{
    assert(s.push(v).drop_last() =~= s);
    assert(s.push(v).last() == v);
}

/// Overwriting one slot overwrites the model's slot.
pub proof fn lemma_view_values_update(s: Seq<Value>, i: int, v: Value)
    requires
        0 <= i < s.len(),
    ensures
        view_values(s.update(i, v)) == view_values(s).update(i, view_value(v)),
{
    lemma_view_values_props(s);
    lemma_view_values_props(s.update(i, v));
    assert(view_values(s.update(i, v)) =~= view_values(s).update(i, view_value(v)));
}

} // verus!
