//! The big-step semantics of the IR as a total mathematical function.
//!
//! Every step of the evaluation consumes one unit of fuel; a run that does
//! not finish within its fuel ends in `OutOfFuel`. For a fixed dispatcher,
//! program, environment, store and fuel the result is one value of this
//! function, so evaluation is deterministic.

use vstd::prelude::*;
use crate::env::env_lookup;
use crate::errors::EvalError;
use crate::model::{SpecAtom, SpecCont, SpecEnv, SpecIr, SpecValue};
use crate::prims::Primitives;

verus! {

/// What one atom evaluates to: a lookup through the environment and the
/// store for a variable, the corresponding scalar for a literal, and a
/// closure capturing the current environment for a lambda literal.
pub open spec fn sem_atom(atom: SpecAtom, env: SpecEnv, store: Seq<SpecValue>) -> Result<
    SpecValue,
    EvalError,
> {
    match atom {
        SpecAtom::Var(name) => match env_lookup(env, name) {
            Some(addr) => if addr < store.len() {
                Ok(store[addr as int])
            } else {
                Err(EvalError::StoreAddressOutOfBounds)
            },
            None => Err(EvalError::UnboundVariable),
        },
        SpecAtom::I32(v) => Ok(SpecValue::I32(v)),
        SpecAtom::I64(v) => Ok(SpecValue::I64(v)),
        SpecAtom::U32(v) => Ok(SpecValue::U32(v)),
        SpecAtom::U64(v) => Ok(SpecValue::U64(v)),
        SpecAtom::Bool(v) => Ok(SpecValue::Bool(v)),
        SpecAtom::Char(v) => Ok(SpecValue::Char(v)),
        SpecAtom::StringLiteral(v) => Ok(SpecValue::StringLiteral(v)),
        SpecAtom::Lam(_label, params, body) => Ok(SpecValue::Clo(params, body, env)),
    }
}

/// The atoms of a list evaluated left to right in one environment and
/// store; the first failure wins. Atom evaluation never changes the store.
pub open spec fn sem_atoms(atoms: Seq<SpecAtom>, env: SpecEnv, store: Seq<SpecValue>) -> Result<
    Seq<SpecValue>,
    EvalError,
>
    decreases atoms.len(),
{
    if atoms.len() == 0 {
        Ok(Seq::empty())
    } else {
        match sem_atoms(atoms.drop_last(), env, store) {
            Err(e) => Err(e),
            Ok(vs) => match sem_atom(atoms.last(), env, store) {
                Err(e) => Err(e),
                Ok(v) => Ok(vs.push(v)),
            },
        }
    }
}

/// The first `k` already-evaluated values allocated and bound to the first
/// `k` parameters, extending `env` (a captured environment) and the store.
pub open spec fn sem_bind_params(
    params: Seq<Seq<char>>,
    values: Seq<SpecValue>,
    k: nat,
    env: SpecEnv,
    store: Seq<SpecValue>,
) -> (SpecEnv, Seq<SpecValue>)
    decreases k,
{
    if k == 0 {
        (env, store)
    } else {
        let (env1, st1) = sem_bind_params(params, values, (k - 1) as nat, env, store);
        (env1.push((params[k - 1], st1.len())), st1.push(values[k - 1]))
    }
}

/// The first `k` argument atoms of an application evaluated in the
/// caller's environment against the growing store, each allocated and
/// bound to the matching parameter in the callee environment. On failure
/// the store keeps the allocations made so far.
pub open spec fn sem_bind_args(
    args: Seq<SpecAtom>,
    params: Seq<Seq<char>>,
    k: nat,
    caller: SpecEnv,
    callee: SpecEnv,
    store: Seq<SpecValue>,
) -> (Result<SpecEnv, EvalError>, Seq<SpecValue>)
    decreases k,
{
    if k == 0 {
        (Ok(callee), store)
    } else {
        let (r1, st1) = sem_bind_args(args, params, (k - 1) as nat, caller, callee, store);
        match r1 {
            Err(e) => (Err(e), st1),
            Ok(env1) => match sem_atom(args[k - 1], caller, st1) {
                Err(e) => (Err(e), st1),
                Ok(v) => (Ok(env1.push((params[k - 1], st1.len()))), st1.push(v)),
            },
        }
    }
}

/// Phase one of a recursive binding group: one placeholder allocated per
/// name, all names bound before any value atom is evaluated.
pub open spec fn sem_fix_alloc(
    names: Seq<Seq<char>>,
    k: nat,
    env: SpecEnv,
    store: Seq<SpecValue>,
) -> (SpecEnv, Seq<SpecValue>)
    decreases k,
{
    if k == 0 {
        (env, store)
    } else {
        let (env1, st1) = sem_fix_alloc(names, (k - 1) as nat, env, store);
        (env1.push((names[k - 1], st1.len())), st1.push(SpecValue::Bool(false)))
    }
}

/// Phase two of a recursive binding group: the first `k` value atoms
/// evaluated against the extended environment and the store as patched so
/// far, each overwriting its placeholder in place. On failure the store
/// keeps the slots already patched.
pub open spec fn sem_fix_patch(
    vals: Seq<SpecAtom>,
    k: nat,
    offset: nat,
    env: SpecEnv,
    store: Seq<SpecValue>,
) -> (Option<EvalError>, Seq<SpecValue>)
    decreases k,
{
    if k == 0 {
        (None, store)
    } else {
        let (er, st1) = sem_fix_patch(vals, (k - 1) as nat, offset, env, store);
        match er {
            Some(e) => (Some(e), st1),
            None => match sem_atom(vals[k - 1], env, st1) {
                Err(e) => (Some(e), st1),
                Ok(v) => (None, st1.update(offset + k - 1, v)),
            },
        }
    }
}

/// Once a prefix of an atom list fails, the whole list fails the same way.
pub proof fn lemma_sem_atoms_err(
    atoms: Seq<SpecAtom>,
    k: int,
    env: SpecEnv,
    store: Seq<SpecValue>,
)
    requires
        0 <= k < atoms.len(),
        sem_atoms(atoms.subrange(0, k), env, store) is Ok,
        sem_atom(atoms[k], env, store) is Err,
    ensures
        sem_atoms(atoms, env, store) == Err::<Seq<SpecValue>, EvalError>(
            sem_atom(atoms[k], env, store)->Err_0,
        ),
    decreases atoms.len(),
{
    if k == atoms.len() - 1 {
        assert(atoms.drop_last() =~= atoms.subrange(0, k));
    } else {
        assert(atoms.drop_last().subrange(0, k) =~= atoms.subrange(0, k));
        lemma_sem_atoms_err(atoms.drop_last(), k, env, store);
    }
}

/// Once binding the first `k` application arguments fails, binding any
/// longer prefix fails the same way, with the same store.
pub proof fn lemma_bind_args_err(
    args: Seq<SpecAtom>,
    params: Seq<Seq<char>>,
    k: nat,
    n: nat,
    caller: SpecEnv,
    callee: SpecEnv,
    store: Seq<SpecValue>,
)
    requires
        k <= n,
        sem_bind_args(args, params, k, caller, callee, store).0 is Err,
    ensures
        sem_bind_args(args, params, n, caller, callee, store) == sem_bind_args(
            args,
            params,
            k,
            caller,
            callee,
            store,
        ),
    decreases n,
{
    if n > k {
        lemma_bind_args_err(args, params, k, (n - 1) as nat, caller, callee, store);
    }
}

/// Once patching the first `k` slots of a binding group fails, patching
/// any longer prefix fails the same way, with the same store.
pub proof fn lemma_fix_patch_err(
    vals: Seq<SpecAtom>,
    k: nat,
    n: nat,
    offset: nat,
    env: SpecEnv,
    store: Seq<SpecValue>,
)
    requires
        k <= n,
        sem_fix_patch(vals, k, offset, env, store).0 is Some,
    ensures
        sem_fix_patch(vals, n, offset, env, store) == sem_fix_patch(vals, k, offset, env, store),
    decreases n,
{
    if n > k {
        lemma_fix_patch_err(vals, k, (n - 1) as nat, offset, env, store);
    }
}

/// Allocating `k` placeholders grows the store by `k` slots.
pub proof fn lemma_fix_alloc_len(
    names: Seq<Seq<char>>,
    k: nat,
    env: SpecEnv,
    store: Seq<SpecValue>,
)
    ensures
        sem_fix_alloc(names, k, env, store).1.len() == store.len() + k,
    decreases k,
{
    if k > 0 {
        lemma_fix_alloc_len(names, (k - 1) as nat, env, store);
    }
}

/// Patching overwrites slots in place: the store keeps its length.
pub proof fn lemma_fix_patch_len(
    vals: Seq<SpecAtom>,
    k: nat,
    offset: nat,
    env: SpecEnv,
    store: Seq<SpecValue>,
)
    requires
        offset + k <= store.len(),
    ensures
        sem_fix_patch(vals, k, offset, env, store).1.len() == store.len(),
    decreases k,
{
    if k > 0 {
        lemma_fix_patch_len(vals, (k - 1) as nat, offset, env, store);
    }
}

/// What one control form evaluates to, with the store it leaves behind.
pub open spec fn sem_interp<P: Primitives>(
    p: P,
    fuel: nat,
    ir: SpecIr,
    env: SpecEnv,
    store: Seq<SpecValue>,
) -> (Result<SpecValue, EvalError>, Seq<SpecValue>)
    decreases fuel, 2int,
{
    if fuel == 0 {
        (Err(EvalError::OutOfFuel), store)
    } else {
        let next = (fuel - 1) as nat;
        match ir {
            SpecIr::LetCont(_label, kname, params, cbody, rest) => {
                let addr = store.len();
                let st1 = store.push(SpecValue::Cont(params, cbody, env));
                sem_interp(p, next, *rest, env.push((kname, addr)), st1)
            },
            SpecIr::Let(_label, bind, op, args, rest) => match sem_atoms(args, env, store) {
                Err(e) => (Err(e), store),
                Ok(vals) => match p.spec_call(op, vals) {
                    Err(e) => (Err(e), store),
                    Ok(result) => {
                        let addr = store.len();
                        sem_interp(p, next, *rest, env.push((bind, addr)), store.push(result))
                    },
                },
            },
            SpecIr::LetVal(_label, x, atom, rest) => match sem_atom(atom, env, store) {
                Err(e) => (Err(e), store),
                Ok(v) => {
                    let addr = store.len();
                    sem_interp(p, next, *rest, env.push((x, addr)), store.push(v))
                },
            },
            SpecIr::If(_label, test, th, el) => match sem_atom(test, env, store) {
                Err(e) => (Err(e), store),
                Ok(SpecValue::Bool(b)) => if b {
                    sem_interp(p, next, *th, env, store)
                } else {
                    sem_interp(p, next, *el, env, store)
                },
                Ok(_) => (Err(EvalError::TypeMismatch), store),
            },
            SpecIr::App(_label, f, args, cont) => match sem_atom(f, env, store) {
                Err(e) => (Err(e), store),
                Ok(SpecValue::Clo(params, body, clo_env)) => {
                    let n = if args.len() <= params.len() {
                        args.len()
                    } else {
                        params.len()
                    };
                    let (r1, st1) = sem_bind_args(args, params, n, env, clo_env, store);
                    match r1 {
                        Err(e) => (Err(e), st1),
                        Ok(callee) => {
                            let (r2, st2) = sem_interp(p, next, *body, callee, st1);
                            match r2 {
                                Err(e) => (Err(e), st2),
                                Ok(result) => sem_apply_cont(p, fuel, cont, seq![result], env, st2),
                            }
                        },
                    }
                },
                Ok(_) => (Err(EvalError::NotCallable), store),
            },
            SpecIr::Fix(_label, names, vals, rest) => if vals.len() > names.len() {
                (Err(EvalError::ArityMismatch), store)
            } else {
                let offset = store.len();
                let (env1, st1) = sem_fix_alloc(names, names.len(), env, store);
                let (er, st2) = sem_fix_patch(vals, vals.len(), offset, env1, st1);
                match er {
                    Some(e) => (Err(e), st2),
                    None => sem_interp(p, next, *rest, env1, st2),
                }
            },
            SpecIr::AppCont(_label, cont, args) => match cont {
                SpecCont::Return => if args.len() == 0 {
                    (Err(EvalError::ArityMismatch), store)
                } else {
                    (sem_atom(args[0], env, store), store)
                },
                SpecCont::Named(name) => match sem_atoms(args, env, store) {
                    Err(e) => (Err(e), store),
                    Ok(values) => sem_apply_cont_by_name(p, fuel, name, values, env, store),
                },
            },
        }
    }
}

/// A continuation reference invoked with already-evaluated values.
/// `Return` yields its single value, ending the walk; a named continuation
/// dispatches through the call-site environment.
pub open spec fn sem_apply_cont<P: Primitives>(
    p: P,
    fuel: nat,
    cont: SpecCont,
    values: Seq<SpecValue>,
    env: SpecEnv,
    store: Seq<SpecValue>,
) -> (Result<SpecValue, EvalError>, Seq<SpecValue>)
    decreases fuel, 1int,
{
    match cont {
        SpecCont::Return => if values.len() == 0 {
            (Err(EvalError::ArityMismatch), store)
        } else {
            (Ok(values[0]), store)
        },
        SpecCont::Named(name) => sem_apply_cont_by_name(p, fuel, name, values, env, store),
    }
}

/// A named continuation invoked with already-evaluated values: the name is
/// resolved in the call-site environment, the values are bound to the
/// continuation's parameters inside its captured environment, and the
/// continuation body runs there.
pub open spec fn sem_apply_cont_by_name<P: Primitives>(
    p: P,
    fuel: nat,
    name: Seq<char>,
    values: Seq<SpecValue>,
    env: SpecEnv,
    store: Seq<SpecValue>,
) -> (Result<SpecValue, EvalError>, Seq<SpecValue>)
    decreases fuel, 0int,
{
    if fuel == 0 {
        (Err(EvalError::OutOfFuel), store)
    } else {
        match env_lookup(env, name) {
            None => (Err(EvalError::UnboundContinuation), store),
            Some(addr) => if addr >= store.len() {
                (Err(EvalError::StoreAddressOutOfBounds), store)
            } else {
                match store[addr as int] {
                    SpecValue::Cont(params, body, cenv) => if values.len() != params.len() {
                        (Err(EvalError::ArityMismatch), store)
                    } else {
                        let (env1, st1) = sem_bind_params(
                            params,
                            values,
                            params.len(),
                            cenv,
                            store,
                        );
                        sem_interp(p, (fuel - 1) as nat, *body, env1, st1)
                    },
                    _ => (Err(EvalError::NotAContinuation), store),
                }
            },
        }
    }
}

} // verus!
