//! The store and the executable evaluator.
//!
//! Each evaluator function returns exactly what the mathematical
//! semantics in [`crate::sem`] gives for its arguments, and leaves the
//! store exactly as the semantics says; evaluation never panics, and every
//! failure comes back as an [`EvalError`].

use vstd::prelude::*;
use crate::atom::{Atom, Value};
use crate::env::Env;
use crate::errors::EvalError;
use crate::ir::{Cont, IR};
use crate::model::{
    lemma_view_atoms_props, lemma_view_values_props, lemma_view_values_push,
    lemma_view_values_update, res_view, res_views, view_atoms, view_names, view_values, SpecAtom,
    SpecValue,
};
use crate::prims::Primitives;
use crate::sem::{
    lemma_bind_args_err, lemma_fix_alloc_len, lemma_fix_patch_err, lemma_fix_patch_len,
    lemma_sem_atoms_err, sem_apply_cont, sem_apply_cont_by_name, sem_atom, sem_atoms,
    sem_bind_args, sem_bind_params, sem_fix_alloc, sem_fix_patch, sem_interp,
};

verus! {

/// An append-only arena mapping integer addresses to values: the sole
/// mutable resource of an evaluation. Once allocated, an address is never
/// reused or freed; its contents may be overwritten in place (only the
/// recursive binding group does so).
#[derive(Debug)]
pub struct Store {
    mem: Vec<Value>,
}

impl View for Store {
    type V = Seq<SpecValue>;

    closed spec fn view(&self) -> Seq<SpecValue> {
        view_values(self.mem@)
    }
}

impl Store {
    /// A fresh, empty store.
    pub fn new() -> (s: Store)
        ensures
            s@ == Seq::<SpecValue>::empty(),
    {
        let s = Store { mem: Vec::new() };
        s
    }

    /// Append a value; the returned address is the value's slot, one past
    /// the previously allocated addresses.
    pub fn allocate(&mut self, val: Value) -> (site: usize)
        ensures
            final(self)@ == old(self)@.push(val@),
            site as nat == old(self)@.len(),
    {
        proof {
            lemma_view_values_props(self.mem@);
            lemma_view_values_push(self.mem@, val);
        }
        let site = self.mem.len();
        self.mem.push(val);
        site
    }

    /// Read the value at an allocated address.
    pub fn get(&self, addr: usize) -> (r: Value)
        requires
            addr < self@.len(),
        ensures
            r@ == self@[addr as int],
    {
        proof {
            lemma_view_values_props(self.mem@);
        }
        self.mem[addr].clone()
    }

    /// How many addresses have been allocated so far.
    pub fn get_count(&self) -> (r: usize)
        ensures
            r as nat == self@.len(),
    {
        proof {
            lemma_view_values_props(self.mem@);
        }
        self.mem.len()
    }

    /// Overwrite the value at an allocated address in place.
    pub fn set_mem(&mut self, idx: usize, v: Value)
        requires
            idx < old(self)@.len(),
        ensures
            final(self)@ == old(self)@.update(idx as int, v@),
    {
        proof {
            lemma_view_values_props(self.mem@);
            lemma_view_values_update(self.mem@, idx as int, v);
        }
        self.mem.set(idx, v);
    }
}

/// Evaluate one atom against an environment and a store.
pub fn interp_atom(atom: &Atom, env: &Env, store: &Store) -> (r: Result<Value, EvalError>)
    ensures
        res_view(r) == sem_atom(atom@, env@, store@),
{
    match atom {
        Atom::Var(name) => match env.lookup(name) {
            Some(addr) => {
                if addr < store.get_count() {
                    Ok(store.get(addr))
                } else {
                    Err(EvalError::StoreAddressOutOfBounds)
                }
            },
            None => Err(EvalError::UnboundVariable),
        },
        Atom::I32(v) => Ok(Value::I32(*v)),
        Atom::I64(v) => Ok(Value::I64(*v)),
        Atom::U32(v) => Ok(Value::U32(*v)),
        Atom::U64(v) => Ok(Value::U64(*v)),
        Atom::Bool(v) => Ok(Value::Bool(*v)),
        Atom::Char(v) => Ok(Value::Char(*v)),
        Atom::StringLiteral(v) => Ok(Value::StringLiteral(v.clone())),
        Atom::Lam(label, params, body) => {
            let ps2 = params.clone();
            proof {
                assert(view_names(ps2@) =~= view_names(params@));
            }
            Ok(Value::Clo(ps2, Box::new((&**body).clone()), env.clone()))
        },
    }
}

/// Evaluate a list of atoms left to right; the first failure wins.
#[verifier::loop_isolation(false)]
fn interp_atoms(atoms: &Vec<Atom>, env: &Env, store: &Store) -> (r: Result<Vec<Value>, EvalError>)
    ensures
        res_views(r) == sem_atoms(view_atoms(atoms@), env@, store@),
{
    let ghost av = view_atoms(atoms@);
    proof {
        lemma_view_atoms_props(atoms@);
        assert(av.subrange(0, 0) =~= Seq::<SpecAtom>::empty());
    }
    let mut out: Vec<Value> = Vec::new();
    proof {
        assert(view_values(out@) =~= Seq::<SpecValue>::empty());
    }
    let mut k: usize = 0;
    while k < atoms.len()
        invariant
            k <= atoms@.len(),
            av == view_atoms(atoms@),
            av.len() == atoms@.len(),
            sem_atoms(av.subrange(0, k as int), env@, store@) == Ok::<Seq<SpecValue>, EvalError>(
                view_values(out@),
            ),
        decreases atoms@.len() - k,
    {
        proof {
            lemma_view_atoms_props(atoms@);
        }
        match interp_atom(&atoms[k], env, store) {
            Err(e) => {
                proof {
                    lemma_sem_atoms_err(av, k as int, env@, store@);
                }
                return Err(e);
            },
            Ok(v) => {
                proof {
                    assert(av.subrange(0, k as int + 1).drop_last() =~= av.subrange(0, k as int));
                    assert(av.subrange(0, k as int + 1).last() == av[k as int]);
                    lemma_view_values_push(out@, v);
                }
                out.push(v);
                k = k + 1;
            },
        }
    }
    proof {
        assert(av.subrange(0, atoms@.len() as int) =~= av);
    }
    Ok(out)
}

/// Invoke a continuation reference with already-evaluated values.
pub fn apply_cont<P: Primitives>(
    cont: &Cont,
    values: Vec<Value>,
    env: &Env,
    store: &mut Store,
    prims: &P,
    fuel: u64,
) -> (r: Result<Value, EvalError>)
    ensures
        ({
            let sr = sem_apply_cont(*prims, fuel as nat, cont@, view_values(values@), env@, old(
                store,
            )@);
            res_view(r) == sr.0 && final(store)@ == sr.1
        }),
    decreases fuel, 1int,
{
    proof {
        lemma_view_values_props(values@);
    }
    match cont {
        Cont::Return => {
            if values.len() == 0 {
                Err(EvalError::ArityMismatch)
            } else {
                Ok(values[0].clone())
            }
        },
        Cont::Named(cont_name) => apply_cont_by_name(cont_name, values, env, store, prims, fuel),
    }
}

/// Invoke the continuation bound to a name, resolved in the call-site
/// environment, with already-evaluated values.
#[verifier::loop_isolation(false)]
pub fn apply_cont_by_name<P: Primitives>(
    cont_name: &String,
    values: Vec<Value>,
    env: &Env,
    store: &mut Store,
    prims: &P,
    fuel: u64,
) -> (r: Result<Value, EvalError>)
    ensures
        ({
            let sr = sem_apply_cont_by_name(*prims, fuel as nat, cont_name@, view_values(values@),
                env@, old(store)@);
            res_view(r) == sr.0 && final(store)@ == sr.1
        }),
    decreases fuel, 0int,
{
    if fuel == 0 {
        return Err(EvalError::OutOfFuel);
    }
    let addr = match env.lookup(cont_name) {
        Some(a) => a,
        None => {
            return Err(EvalError::UnboundContinuation);
        },
    };
    if addr >= store.get_count() {
        return Err(EvalError::StoreAddressOutOfBounds);
    }
    let cv = store.get(addr);
    match cv {
        Value::Cont(params, body, cenv) => {
            proof {
                lemma_view_values_props(values@);
            }
            if values.len() != params.len() {
                return Err(EvalError::ArityMismatch);
            }
            let ghost params_v = view_names(params@);
            let ghost values_v = view_values(values@);
            let ghost cenv0 = cenv@;
            let ghost store0 = store@;
            let mut new_env = cenv;
            let mut k: usize = 0;
            while k < values.len()
                invariant
                    k <= values@.len(),
                    values@.len() == params@.len(),
                    params_v == view_names(params@),
                    values_v == view_values(values@),
                    values_v.len() == values@.len(),
                    new_env@ == sem_bind_params(params_v, values_v, k as nat, cenv0, store0).0,
                    store@ == sem_bind_params(params_v, values_v, k as nat, cenv0, store0).1,
                decreases values@.len() - k,
            {
                proof {
                    lemma_view_values_props(values@);
                }
                let v = values[k].clone();
                let site = store.allocate(v);
                new_env.insert(params[k].clone(), site);
                k = k + 1;
            }
            interp(&*body, new_env, store, prims, fuel - 1)
        },
        _ => Err(EvalError::NotAContinuation),
    }
}

/// Evaluate a control form against an environment and a store.
#[verifier::loop_isolation(false)]
#[verifier::rlimit(100)]
pub fn interp<P: Primitives>(
    ir: &IR,
    env: Env,
    store: &mut Store,
    prims: &P,
    fuel: u64,
) -> (r: Result<Value, EvalError>)
    ensures
        ({
            let sr = sem_interp(*prims, fuel as nat, ir@, env@, old(store)@);
            res_view(r) == sr.0 && final(store)@ == sr.1
        }),
    decreases fuel, 2int,
{
    if fuel == 0 {
        return Err(EvalError::OutOfFuel);
    }
    match ir {
        IR::LetCont(_label, cont_name, params, cont_body, body) => {
            let ps2 = params.clone();
            proof {
                assert(view_names(ps2@) =~= view_names(params@));
            }
            let captured = Value::Cont(ps2, Box::new((&**cont_body).clone()), env.clone());
            let site = store.allocate(captured);
            let mut new_env = env;
            new_env.insert(cont_name.clone(), site);
            interp(&**body, new_env, store, prims, fuel - 1)
        },
        IR::Let(_label, bind, prim, args, body) => {
            let values = match interp_atoms(args, &env, store) {
                Ok(vs) => vs,
                Err(e) => {
                    return Err(e);
                },
            };
            let result = match prims.call(prim, values) {
                Ok(v) => v,
                Err(e) => {
                    return Err(e);
                },
            };
            let site = store.allocate(result);
            let mut new_env = env;
            new_env.insert(bind.clone(), site);
            interp(&**body, new_env, store, prims, fuel - 1)
        },
        IR::LetVal(_label, var, val, body) => {
            let value = match interp_atom(val, &env, store) {
                Ok(v) => v,
                Err(e) => {
                    return Err(e);
                },
            };
            let site = store.allocate(value);
            let mut new_env = env;
            new_env.insert(var.clone(), site);
            interp(&**body, new_env, store, prims, fuel - 1)
        },
        IR::If(_label, test, then_, else_) => {
            let tv = match interp_atom(test, &env, store) {
                Ok(v) => v,
                Err(e) => {
                    return Err(e);
                },
            };
            match tv {
                Value::Bool(b) => {
                    if b {
                        interp(&**then_, env, store, prims, fuel - 1)
                    } else {
                        interp(&**else_, env, store, prims, fuel - 1)
                    }
                },
                _ => Err(EvalError::TypeMismatch),
            }
        },
        IR::App(_label, f, args, cont) => {
            let fv = match interp_atom(f, &env, store) {
                Ok(v) => v,
                Err(e) => {
                    return Err(e);
                },
            };
            match fv {
                Value::Clo(params, body, clo_env) => {
                    let n = if args.len() <= params.len() {
                        args.len()
                    } else {
                        params.len()
                    };
                    let ghost args_v = view_atoms(args@);
                    let ghost params_v = view_names(params@);
                    let ghost callee0 = clo_env@;
                    let ghost store0 = store@;
                    proof {
                        lemma_view_atoms_props(args@);
                    }
                    let mut callee = clo_env;
                    let mut k: usize = 0;
                    while k < n
                        invariant
                            k <= n,
                            n <= args@.len(),
                            n <= params@.len(),
                            n as nat == (if args_v.len() <= params_v.len() {
                                args_v.len()
                            } else {
                                params_v.len()
                            }),
                            args_v == view_atoms(args@),
                            args_v.len() == args@.len(),
                            params_v == view_names(params@),
                            sem_bind_args(args_v, params_v, k as nat, env@, callee0, store0).0
                                == Ok::<_, EvalError>(callee@),
                            sem_bind_args(args_v, params_v, k as nat, env@, callee0, store0).1
                                == store@,
                        decreases n - k,
                    {
                        proof {
                            lemma_view_atoms_props(args@);
                        }
                        let v = match interp_atom(&args[k], &env, store) {
                            Ok(v) => v,
                            Err(e) => {
                                proof {
                                    lemma_bind_args_err(args_v, params_v, (k + 1) as nat, n as nat,
                                        env@, callee0, store0);
                                }
                                return Err(e);
                            },
                        };
                        let site = store.allocate(v);
                        callee.insert(params[k].clone(), site);
                        k = k + 1;
                    }
                    let result = match interp(&*body, callee, store, prims, fuel - 1) {
                        Ok(v) => v,
                        Err(e) => {
                            return Err(e);
                        },
                    };
                    let mut values: Vec<Value> = Vec::new();
                    proof {
                        lemma_view_values_push(values@, result);
                        assert(view_values(Seq::<Value>::empty()) =~= Seq::<SpecValue>::empty());
                    }
                    values.push(result);
                    proof {
                        assert(view_values(values@) =~= seq![view_values(values@)[0]]);
                    }
                    apply_cont(cont, values, &env, store, prims, fuel)
                },
                _ => Err(EvalError::NotCallable),
            }
        },
        IR::Fix(_label, vars, vals, body) => {
            let ghost names_v = view_names(vars@);
            let ghost vals_v = view_atoms(vals@);
            let ghost env0 = env@;
            let ghost store0 = store@;
            proof {
                lemma_view_atoms_props(vals@);
            }
            if vals.len() > vars.len() {
                return Err(EvalError::ArityMismatch);
            }
            let offset = store.get_count();
            let mut new_env = env;
            let mut k: usize = 0;
            while k < vars.len()
                invariant
                    k <= vars@.len(),
                    names_v == view_names(vars@),
                    new_env@ == sem_fix_alloc(names_v, k as nat, env0, store0).0,
                    store@ == sem_fix_alloc(names_v, k as nat, env0, store0).1,
                decreases vars@.len() - k,
            {
                let site = store.allocate(Value::Bool(false));
                new_env.insert(vars[k].clone(), site);
                k = k + 1;
            }
            let ghost env1 = new_env@;
            let ghost st1 = store@;
            proof {
                lemma_fix_alloc_len(names_v, vars@.len() as nat, env0, store0);
            }
            let mut j: usize = 0;
            while j < vals.len()
                invariant
                    j <= vals@.len(),
                    vals@.len() <= vars@.len(),
                    vals_v == view_atoms(vals@),
                    vals_v.len() == vals@.len(),
                    env1 == new_env@,
                    offset as nat == store0.len(),
                    st1.len() == store0.len() + vars@.len(),
                    sem_fix_patch(vals_v, j as nat, offset as nat, env1, st1).0 is None,
                    store@ == sem_fix_patch(vals_v, j as nat, offset as nat, env1, st1).1,
                decreases vals@.len() - j,
            {
                proof {
                    lemma_view_atoms_props(vals@);
                    lemma_fix_patch_len(vals_v, j as nat, offset as nat, env1, st1);
                }
                let v = match interp_atom(&vals[j], &new_env, store) {
                    Ok(v) => v,
                    Err(e) => {
                        proof {
                            lemma_fix_patch_err(vals_v, (j + 1) as nat, vals@.len() as nat,
                                offset as nat, env1, st1);
                        }
                        return Err(e);
                    },
                };
                let total = store.get_count();
                proof {
                    assert(offset + j < total);
                }
                let idx = offset + j;
                store.set_mem(idx, v);
                j = j + 1;
            }
            proof {
                lemma_fix_patch_len(vals_v, vals@.len() as nat, offset as nat, env1, st1);
            }
            interp(&**body, new_env, store, prims, fuel - 1)
        },
        IR::AppCont(_label, cont, args) => match cont {
            Cont::Return => {
                proof {
                    lemma_view_atoms_props(args@);
                }
                if args.len() == 0 {
                    Err(EvalError::ArityMismatch)
                } else {
                    interp_atom(&args[0], &env, store)
                }
            },
            Cont::Named(name) => {
                let values = match interp_atoms(args, &env, store) {
                    Ok(vs) => vs,
                    Err(e) => {
                        return Err(e);
                    },
                };
                apply_cont_by_name(name, values, &env, store, prims, fuel)
            },
        },
    }
}

} // verus!
