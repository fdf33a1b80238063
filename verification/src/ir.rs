//! The control forms of the CPS intermediate representation, and the
//! two-variant continuation reference used at call sites.
//!
//! Every form carries a numeric label first; the label is a diagnostic
//! tag and never load-bearing for evaluation.

use vstd::prelude::*;
use crate::atom::Atom;
use crate::model::{lemma_view_atoms_ext, view_atom, view_atoms, view_cont, view_ir, view_names,
    SpecCont, SpecIr};

verus! {

/// A continuation reference at a call site.
#[derive(Debug, PartialEq, Eq, Hash)]
pub enum Cont {
    /// Invoke the continuation bound to this name in the call-site
    /// environment.
    Named(String),
    /// The implicit outermost continuation: hand the single value back to
    /// the caller of the evaluator.
    Return,
}

/// A CPS control form.
#[derive(Debug, PartialEq, Eq, Hash)]
pub enum IR {
    /// `LetCont(label, name, params, cont_body, rest)`: bind a continuation
    /// capturing the environment as of before this binding, then evaluate
    /// `rest`.
    LetCont(usize, String, Vec<String>, Box<IR>, Box<IR>),
    /// `Let(label, name, op, args, rest)`: evaluate the argument atoms left
    /// to right, dispatch to the primitive operator `op`, bind the result,
    /// then evaluate `rest`.
    Let(usize, String, String, Vec<Atom>, Box<IR>),
    /// `LetVal(label, name, atom, rest)`: evaluate one atom, bind it, then
    /// evaluate `rest`.
    LetVal(usize, String, Atom, Box<IR>),
    /// `If(label, test, then_branch, else_branch)`: the test must evaluate
    /// to a boolean; the chosen branch is evaluated in the same
    /// environment.
    If(usize, Atom, Box<IR>, Box<IR>),
    /// `App(label, func, args, cont)`: call a closure with arguments
    /// evaluated in the caller's environment, then invoke `cont` on the
    /// result, resolved against the caller's environment.
    App(usize, Atom, Vec<Atom>, Cont),
    /// `Fix(label, names, values, rest)`: a mutually recursive binding
    /// group; placeholders are allocated for all names before any value
    /// atom is evaluated, then each slot is overwritten in place.
    Fix(usize, Vec<String>, Vec<Atom>, Box<IR>),
    /// `AppCont(label, cont, args)`: invoke a continuation with the
    /// evaluated argument atoms.
    AppCont(usize, Cont, Vec<Atom>),
}

impl View for Cont {
    type V = SpecCont;

    open spec fn view(&self) -> SpecCont {
        view_cont(*self)
    }
}

impl View for IR {
    type V = SpecIr;

    open spec fn view(&self) -> SpecIr {
        view_ir(*self)
    }
}

/// A structural copy of an atom list, elementwise.
fn clone_atoms(args: &Vec<Atom>) -> (r: Vec<Atom>)
    ensures
        view_atoms(r@) == view_atoms(args@),
    decreases args@,
{
    let mut out: Vec<Atom> = Vec::new();
    let mut k: usize = 0;
    while k < args.len()
        invariant
            k <= args.len(),
            out@.len() == k,
            forall|j: int| 0 <= j < k ==> view_atom(#[trigger] out@[j]) == view_atom(args@[j]),
        decreases args@.len() - k,
    {
        out.push(args[k].clone());
        k = k + 1;
    }
    proof {
        lemma_view_atoms_ext(out@, args@);
    }
    out
}

impl Clone for IR {
    /// A structural copy: the model of the copy is the model of the
    /// original.
    fn clone(&self) -> (r: Self)
        ensures
            r@ == self@,
        decreases *self,
    {
        match self {
            IR::LetCont(l, k, ps, cbody, rest) => {
                let ps2 = ps.clone();
                proof {
                    assert(view_names(ps2@) =~= view_names(ps@));
                }
                IR::LetCont(
                    *l,
                    k.clone(),
                    ps2,
                    Box::new((&**cbody).clone()),
                    Box::new((&**rest).clone()),
                )
            },
            IR::Let(l, b, op, args, rest) => {
                let args2 = clone_atoms(args);
                IR::Let(*l, b.clone(), op.clone(), args2, Box::new((&**rest).clone()))
            },
            IR::LetVal(l, x, a, rest) => IR::LetVal(
                *l,
                x.clone(),
                a.clone(),
                Box::new((&**rest).clone()),
            ),
            IR::If(l, t, th, el) => IR::If(
                *l,
                t.clone(),
                Box::new((&**th).clone()),
                Box::new((&**el).clone()),
            ),
            IR::App(l, f, args, c) => {
                let args2 = clone_atoms(args);
                IR::App(*l, f.clone(), args2, c.clone())
            },
            IR::Fix(l, names, vals, rest) => {
                let names2 = names.clone();
                let vals2 = clone_atoms(vals);
                proof {
                    assert(view_names(names2@) =~= view_names(names@));
                }
                IR::Fix(*l, names2, vals2, Box::new((&**rest).clone()))
            },
            IR::AppCont(l, c, args) => {
                let args2 = clone_atoms(args);
                IR::AppCont(*l, c.clone(), args2)
            },
        }
    }
}

impl Clone for Cont {
    fn clone(&self) -> (r: Self)
        ensures
            r@ == self@,
    {
        match self {
            Cont::Named(name) => Cont::Named(name.clone()),
            Cont::Return => Cont::Return,
        }
    }
}

} // verus!
