//! The guarantees of the evaluator, stated over the mathematical model
//! and proved once and for all. Together with the contracts of
//! [`crate::interp`], which pin each executable function to the model,
//! these laws carry over to every run of the executable evaluator.

use vstd::prelude::*;
use crate::env::env_lookup;
use crate::errors::EvalError;
use crate::model::{SpecAtom, SpecCont, SpecEnv, SpecIr, SpecValue};
use crate::prims::Primitives;
use crate::sem::{
    sem_apply_cont, sem_apply_cont_by_name, sem_atom, sem_bind_args, sem_bind_params, sem_interp,
};

verus! {

/// A dispatcher that keeps `OutOfFuel` to the evaluator: its failures are
/// its own, never the step budget's.
pub open spec fn dispatcher_keeps_fuel_apart<P: Primitives>(p: P) -> bool {
    forall|op: Seq<char>, args: Seq<SpecValue>| #[trigger] p.spec_call(op, args) != Err::<
        SpecValue,
        EvalError,
    >(EvalError::OutOfFuel)
}

/// The step budget decides only whether an evaluation finishes, never what
/// it computes: a run that finishes within its budget gives the same
/// result and store under any larger budget.
pub proof fn lemma_interp_fuel_monotone<P: Primitives>(
    p: P,
    fuel1: nat,
    fuel2: nat,
    ir: SpecIr,
    env: SpecEnv,
    store: Seq<SpecValue>,
)
    requires
        fuel1 <= fuel2,
        dispatcher_keeps_fuel_apart(p),
        sem_interp(p, fuel1, ir, env, store).0 != Err::<SpecValue, EvalError>(EvalError::OutOfFuel),
    ensures
        sem_interp(p, fuel2, ir, env, store) == sem_interp(p, fuel1, ir, env, store),
    decreases fuel1, 2int,
{
    match ir {
        SpecIr::LetCont(_label, kname, params, cbody, rest) => {
            let st1 = store.push(SpecValue::Cont(params, cbody, env));
            lemma_interp_fuel_monotone(p, (fuel1 - 1) as nat, (fuel2 - 1) as nat, *rest, env.push(
                (kname, store.len()),
            ), st1);
        },
        SpecIr::Let(_label, bind, op, args, rest) => {
            match crate::sem::sem_atoms(args, env, store) {
                Err(_) => {},
                Ok(vals) => match p.spec_call(op, vals) {
                    Err(_) => {},
                    Ok(result) => {
                        lemma_interp_fuel_monotone(p, (fuel1 - 1) as nat, (fuel2 - 1) as nat, *rest,
                            env.push((bind, store.len())), store.push(result));
                    },
                },
            }
        },
        SpecIr::LetVal(_label, x, atom, rest) => {
            match sem_atom(atom, env, store) {
                Err(_) => {},
                Ok(v) => {
                    lemma_interp_fuel_monotone(p, (fuel1 - 1) as nat, (fuel2 - 1) as nat, *rest,
                        env.push((x, store.len())), store.push(v));
                },
            }
        },
        SpecIr::If(_label, test, th, el) => {
            match sem_atom(test, env, store) {
                Ok(SpecValue::Bool(b)) => {
                    if b {
                        lemma_interp_fuel_monotone(p, (fuel1 - 1) as nat, (fuel2 - 1) as nat, *th,
                            env, store);
                    } else {
                        lemma_interp_fuel_monotone(p, (fuel1 - 1) as nat, (fuel2 - 1) as nat, *el,
                            env, store);
                    }
                },
                _ => {},
            }
        },
        SpecIr::App(_label, f, args, cont) => {
            match sem_atom(f, env, store) {
                Ok(SpecValue::Clo(params, body, clo_env)) => {
                    let n = if args.len() <= params.len() {
                        args.len()
                    } else {
                        params.len()
                    };
                    let (r1, st1) = sem_bind_args(args, params, n, env, clo_env, store);
                    match r1 {
                        Err(_) => {},
                        Ok(callee) => {
                            let (r2, st2) = sem_interp(p, (fuel1 - 1) as nat, *body, callee, st1);
                            match r2 {
                                Err(_) => {
                                    lemma_interp_fuel_monotone(p, (fuel1 - 1) as nat, (fuel2
                                        - 1) as nat, *body, callee, st1);
                                },
                                Ok(result) => {
                                    lemma_interp_fuel_monotone(p, (fuel1 - 1) as nat, (fuel2
                                        - 1) as nat, *body, callee, st1);
                                    lemma_apply_cont_fuel_monotone(p, fuel1, fuel2, cont, seq![
                                        result], env, st2);
                                },
                            }
                        },
                    }
                },
                _ => {},
            }
        },
        SpecIr::Fix(_label, names, vals, rest) => {
            if vals.len() <= names.len() {
                let (env1, st1) = crate::sem::sem_fix_alloc(names, names.len(), env, store);
                let (er, st2) = crate::sem::sem_fix_patch(vals, vals.len(), store.len(), env1, st1);
                match er {
                    Some(_) => {},
                    None => {
                        lemma_interp_fuel_monotone(p, (fuel1 - 1) as nat, (fuel2 - 1) as nat, *rest,
                            env1, st2);
                    },
                }
            }
        },
        SpecIr::AppCont(_label, cont, args) => {
            match cont {
                SpecCont::Return => {},
                SpecCont::Named(name) => {
                    match crate::sem::sem_atoms(args, env, store) {
                        Err(_) => {},
                        Ok(values) => {
                            lemma_apply_cont_by_name_fuel_monotone(p, fuel1, fuel2, name, values,
                                env, store);
                        },
                    }
                },
            }
        },
    }
}

/// Fuel monotonicity for continuation invocation through a reference.
pub proof fn lemma_apply_cont_fuel_monotone<P: Primitives>(
    p: P,
    fuel1: nat,
    fuel2: nat,
    cont: SpecCont,
    values: Seq<SpecValue>,
    env: SpecEnv,
    store: Seq<SpecValue>,
)
    requires
        fuel1 <= fuel2,
        dispatcher_keeps_fuel_apart(p),
        sem_apply_cont(p, fuel1, cont, values, env, store).0 != Err::<SpecValue, EvalError>(
            EvalError::OutOfFuel,
        ),
    ensures
        sem_apply_cont(p, fuel2, cont, values, env, store) == sem_apply_cont(
            p,
            fuel1,
            cont,
            values,
            env,
            store,
        ),
    decreases fuel1, 1int,
{
    match cont {
        SpecCont::Return => {},
        SpecCont::Named(name) => {
            lemma_apply_cont_by_name_fuel_monotone(p, fuel1, fuel2, name, values, env, store);
        },
    }
}

/// Fuel monotonicity for continuation invocation by name.
pub proof fn lemma_apply_cont_by_name_fuel_monotone<P: Primitives>(
    p: P,
    fuel1: nat,
    fuel2: nat,
    name: Seq<char>,
    values: Seq<SpecValue>,
    env: SpecEnv,
    store: Seq<SpecValue>,
)
    requires
        fuel1 <= fuel2,
        dispatcher_keeps_fuel_apart(p),
        sem_apply_cont_by_name(p, fuel1, name, values, env, store).0 != Err::<SpecValue, EvalError>(
            EvalError::OutOfFuel,
        ),
    ensures
        sem_apply_cont_by_name(p, fuel2, name, values, env, store) == sem_apply_cont_by_name(
            p,
            fuel1,
            name,
            values,
            env,
            store,
        ),
    decreases fuel1, 0int,
{
    match env_lookup(env, name) {
        None => {},
        Some(addr) => {
            if addr < store.len() {
                match store[addr as int] {
                    SpecValue::Cont(params, body, cenv) => {
                        if values.len() == params.len() {
                            let (env1, st1) = sem_bind_params(params, values, params.len(), cenv,
                                store);
                            lemma_interp_fuel_monotone(p, (fuel1 - 1) as nat, (fuel2 - 1) as nat,
                                *body, env1, st1);
                        }
                    },
                    _ => {},
                }
            }
        },
    }
}

/// Two evaluations that both finish within their budgets agree, whatever
/// the budgets were: together with determinism this makes the result of a
/// finished run independent of the step budget.
pub proof fn lemma_finished_runs_agree<P: Primitives>(
    p: P,
    fuel1: nat,
    fuel2: nat,
    ir: SpecIr,
    env: SpecEnv,
    store: Seq<SpecValue>,
)
    requires
        dispatcher_keeps_fuel_apart(p),
        sem_interp(p, fuel1, ir, env, store).0 != Err::<SpecValue, EvalError>(EvalError::OutOfFuel),
        sem_interp(p, fuel2, ir, env, store).0 != Err::<SpecValue, EvalError>(EvalError::OutOfFuel),
    ensures
        sem_interp(p, fuel1, ir, env, store) == sem_interp(p, fuel2, ir, env, store),
{
    if fuel1 <= fuel2 {
        lemma_interp_fuel_monotone(p, fuel1, fuel2, ir, env, store);
    } else {
        lemma_interp_fuel_monotone(p, fuel2, fuel1, ir, env, store);
    }
}

/// Determinism: for one dispatcher, program, environment, store and step
/// budget, any two evaluations give the same result and the same final
/// store. Through the contract of [`crate::interp::interp`], whose result
/// is exactly `sem_interp` of its arguments, repeated executable runs
/// yield equal values.
pub proof fn lemma_interp_deterministic<P: Primitives>(
    p: P,
    fuel: nat,
    ir: SpecIr,
    env: SpecEnv,
    store: Seq<SpecValue>,
    r1: (Result<SpecValue, EvalError>, Seq<SpecValue>),
    r2: (Result<SpecValue, EvalError>, Seq<SpecValue>),
)
    requires
        r1 == sem_interp(p, fuel, ir, env, store),
        r2 == sem_interp(p, fuel, ir, env, store),
    ensures
        r1 == r2,
{
}

/// Shadowing, inner side: after a rebinding, the rebound name resolves to
/// the new address.
pub proof fn lemma_shadowing_newest_wins(env: SpecEnv, name: Seq<char>, addr: nat)
    ensures
        env_lookup(env.push((name, addr)), name) == Some(addr),
{
    assert(env.push((name, addr)).last() == (name, addr));
}

/// Shadowing, outer side: a rebinding of one name does not alter what any
/// other name resolves to. Since extension builds a new environment value
/// and never mutates the old one, what an outer scope's environment
/// resolves a name to is unaffected by inner rebindings.
pub proof fn lemma_shadowing_frame(env: SpecEnv, name: Seq<char>, addr: nat, other: Seq<char>)
    requires
        other != name,
    ensures
        env_lookup(env.push((name, addr)), other) == env_lookup(env, other),
{
    assert(env.push((name, addr)).drop_last() =~= env);
}

/// Lexical capture, definition side: a `LetCont` form stores a
/// continuation whose captured environment is exactly the environment at
/// the binding site, as of before the binding itself, and only the rest of
/// the program sees the new binding.
pub proof fn lemma_letcont_capture<P: Primitives>(
    p: P,
    fuel: nat,
    label: nat,
    kname: Seq<char>,
    params: Seq<Seq<char>>,
    cbody: SpecIr,
    rest: SpecIr,
    env: SpecEnv,
    store: Seq<SpecValue>,
)
    requires
        fuel > 0,
    ensures
        ({
            let st1 = store.push(SpecValue::Cont(params, Box::new(cbody), env));
            sem_interp(
                p,
                fuel,
                SpecIr::LetCont(label, kname, params, Box::new(cbody), Box::new(rest)),
                env,
                store,
            ) == sem_interp(p, (fuel - 1) as nat, rest, env.push((kname, store.len())), st1)
                && st1[store.len() as int] == SpecValue::Cont(params, Box::new(cbody), env)
        }),
{
}

/// Lexical capture, invocation side: invoking a named continuation runs
/// its body in the environment captured at its definition site, extended
/// with the parameter bindings alone. The call-site environment serves
/// only to resolve the continuation's name, so shadowing a free variable
/// between definition and invocation cannot change what the body observes.
pub proof fn lemma_apply_cont_lexical<P: Primitives>(
    p: P,
    fuel: nat,
    name: Seq<char>,
    values: Seq<SpecValue>,
    env: SpecEnv,
    store: Seq<SpecValue>,
    addr: nat,
    params: Seq<Seq<char>>,
    body: SpecIr,
    cenv: SpecEnv,
)
    requires
        fuel > 0,
        env_lookup(env, name) == Some(addr),
        addr < store.len(),
        store[addr as int] == SpecValue::Cont(params, Box::new(body), cenv),
        values.len() == params.len(),
    ensures
        ({
            let (env1, st1) = sem_bind_params(params, values, params.len(), cenv, store);
            sem_apply_cont_by_name(p, fuel, name, values, env, store) == sem_interp(
                p,
                (fuel - 1) as nat,
                body,
                env1,
                st1,
            )
        }),
{
}

/// Parameter binding extends an environment and never disturbs what was
/// already bound: the captured bindings keep their addresses.
pub proof fn lemma_bind_params_frame(
    params: Seq<Seq<char>>,
    values: Seq<SpecValue>,
    k: nat,
    env: SpecEnv,
    store: Seq<SpecValue>,
)
    ensures
        sem_bind_params(params, values, k, env, store).0.len() == env.len() + k,
        forall|i: int|
            0 <= i < env.len() ==> #[trigger] sem_bind_params(params, values, k, env, store).0[i]
                == env[i],
    decreases k,
{
    if k > 0 {
        lemma_bind_params_frame(params, values, (k - 1) as nat, env, store);
    }
}

/// Evaluation order in an application: every argument atom is evaluated in
/// the caller's environment (`env` below) and bound inside the closure's
/// captured environment before the closure body runs, and the call's
/// continuation is resolved against the caller's environment, not the
/// callee's.
pub proof fn lemma_app_order<P: Primitives>(
    p: P,
    fuel: nat,
    label: nat,
    f: SpecAtom,
    args: Seq<SpecAtom>,
    cont: SpecCont,
    env: SpecEnv,
    store: Seq<SpecValue>,
    params: Seq<Seq<char>>,
    body: SpecIr,
    cenv: SpecEnv,
)
    requires
        fuel > 0,
        sem_atom(f, env, store) == Ok::<SpecValue, EvalError>(
            SpecValue::Clo(params, Box::new(body), cenv),
        ),
    ensures
        ({
            let n = if args.len() <= params.len() {
                args.len()
            } else {
                params.len()
            };
            let (r1, st1) = sem_bind_args(args, params, n, env, cenv, store);
            sem_interp(p, fuel, SpecIr::App(label, f, args, cont), env, store) == (match r1 {
                Err(e) => (Err(e), st1),
                Ok(callee) => {
                    let (r2, st2) = sem_interp(p, (fuel - 1) as nat, body, callee, st1);
                    match r2 {
                        Err(e) => (Err(e), st2),
                        Ok(result) => sem_apply_cont(p, fuel, cont, seq![result], env, st2),
                    }
                },
            })
        }),
{
}

/// Boundary: a conditional whose test evaluates to anything but a boolean
/// fails with `TypeMismatch` and leaves the store untouched; no value is
/// ever coerced.
pub proof fn lemma_if_requires_bool<P: Primitives>(
    p: P,
    fuel: nat,
    label: nat,
    test: SpecAtom,
    th: SpecIr,
    el: SpecIr,
    env: SpecEnv,
    store: Seq<SpecValue>,
    v: SpecValue,
)
    requires
        fuel > 0,
        sem_atom(test, env, store) == Ok::<SpecValue, EvalError>(v),
        !(v is Bool),
    ensures
        sem_interp(p, fuel, SpecIr::If(label, test, Box::new(th), Box::new(el)), env, store) == (
            Err::<SpecValue, EvalError>(EvalError::TypeMismatch),
            store,
        ),
{
}

} // verus!
