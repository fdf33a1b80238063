//! Unit tests for the store, the atoms, the values, the environment and
//! the bundled dispatcher.

use cps_ir::prims::{ArithPrims, Primitives};
use cps_ir::{
    apply_cont, apply_cont_by_name, interp_atom, Atom, Cont, Env, EvalError, Store, Value, IR,
};

#[test]
fn store_allocates_consecutive_addresses() {
    let mut store = Store::new();
    assert_eq!(store.get_count(), 0);
    let a0 = store.allocate(Value::I64(10));
    let a1 = store.allocate(Value::Bool(true));
    assert_eq!(a0, 0);
    assert_eq!(a1, 1);
    assert_eq!(store.get_count(), 2);
    assert_eq!(store.get(0), Value::I64(10));
    assert_eq!(store.get(1), Value::Bool(true));
}

#[test]
fn store_set_mem_overwrites_in_place() {
    let mut store = Store::new();
    let a0 = store.allocate(Value::I64(10));
    store.set_mem(a0, Value::I64(99));
    assert_eq!(store.get(a0), Value::I64(99));
    assert_eq!(store.get_count(), 1);
}

#[test]
fn atom_builders_produce_the_expected_shapes() {
    assert_eq!(Atom::v("z"), Atom::Var("z".to_string()));
    let body = IR::AppCont(0, Cont::Return, vec![Atom::I64(1)]);
    let lam = Atom::lam(7, &["a", "b"], body);
    match lam {
        Atom::Lam(label, params, _) => {
            assert_eq!(label, 7);
            assert_eq!(params, vec!["a".to_string(), "b".to_string()]);
        },
        _ => panic!("expected a lambda literal"),
    }
}

#[test]
fn interp_atom_maps_literals_to_values() {
    let env = Env::new();
    let store = Store::new();
    assert_eq!(interp_atom(&Atom::I32(-5), &env, &store), Ok(Value::I32(-5)));
    assert_eq!(interp_atom(&Atom::I64(6), &env, &store), Ok(Value::I64(6)));
    assert_eq!(interp_atom(&Atom::U32(7), &env, &store), Ok(Value::U32(7)));
    assert_eq!(interp_atom(&Atom::U64(8), &env, &store), Ok(Value::U64(8)));
    assert_eq!(interp_atom(&Atom::Bool(true), &env, &store), Ok(Value::Bool(true)));
    assert_eq!(interp_atom(&Atom::Char('q'), &env, &store), Ok(Value::Char('q')));
    assert_eq!(
        interp_atom(&Atom::StringLiteral("hi".to_string()), &env, &store),
        Ok(Value::StringLiteral("hi".to_string()))
    );
}

#[test]
fn interp_atom_resolves_variables_through_the_store() {
    let mut env = Env::new();
    let mut store = Store::new();
    let addr = store.allocate(Value::I64(33));
    env.insert("x".to_string(), addr);
    assert_eq!(interp_atom(&Atom::v("x"), &env, &store), Ok(Value::I64(33)));
    assert_eq!(interp_atom(&Atom::v("y"), &env, &store), Err(EvalError::UnboundVariable));
}

#[test]
fn interp_atom_rejects_a_dangling_address() {
    let mut env = Env::new();
    let store = Store::new();
    env.insert("x".to_string(), 5);
    assert_eq!(
        interp_atom(&Atom::v("x"), &env, &store),
        Err(EvalError::StoreAddressOutOfBounds)
    );
}

#[test]
fn interp_atom_evaluates_a_lambda_to_a_closure() {
    let env = Env::new();
    let store = Store::new();
    let lam = Atom::lam(1, &["p"], IR::AppCont(0, Cont::Return, vec![Atom::v("p")]));
    let v = interp_atom(&lam, &env, &store).unwrap();
    assert!(matches!(v, Value::Clo(_, _, _)));
}

#[test]
fn environment_lookup_takes_the_latest_binding() {
    let mut env = Env::new();
    env.insert("x".to_string(), 0);
    env.insert("y".to_string(), 1);
    env.insert("x".to_string(), 2);
    assert_eq!(env.lookup(&"x".to_string()), Some(2));
    assert_eq!(env.lookup(&"y".to_string()), Some(1));
    assert_eq!(env.lookup(&"z".to_string()), None);
}

#[test]
fn value_equality_compares_scalars_only() {
    assert_eq!(Value::I64(3), Value::I64(3));
    assert_ne!(Value::I64(3), Value::I64(4));
    assert_ne!(Value::I64(3), Value::I32(3));
    assert_ne!(Value::U32(1), Value::U64(1));
    assert_eq!(Value::StringLiteral("a".to_string()), Value::StringLiteral("a".to_string()));
    assert_ne!(Value::Char('a'), Value::Char('b'));
    let clo = || {
        Value::Clo(
            vec![],
            Box::new(IR::AppCont(0, Cont::Return, vec![Atom::I64(1)])),
            Env::new(),
        )
    };
    // suspended computations never compare equal, not even to themselves
    assert_ne!(clo(), clo());
}

#[test]
fn apply_cont_return_yields_its_single_value() {
    let mut store = Store::new();
    let env = Env::new();
    let r = apply_cont(&Cont::Return, vec![Value::I64(9)], &env, &mut store, &ArithPrims, 10);
    assert_eq!(r, Ok(Value::I64(9)));
}

#[test]
fn apply_cont_return_with_no_value_is_an_arity_mismatch() {
    let mut store = Store::new();
    let env = Env::new();
    let r = apply_cont(&Cont::Return, vec![], &env, &mut store, &ArithPrims, 10);
    assert_eq!(r, Err(EvalError::ArityMismatch));
}

#[test]
fn apply_cont_by_name_runs_the_stored_continuation() {
    let mut store = Store::new();
    let mut env = Env::new();
    let cont = Value::Cont(
        vec!["a".to_string()],
        Box::new(IR::AppCont(0, Cont::Return, vec![Atom::v("a")])),
        Env::new(),
    );
    let addr = store.allocate(cont);
    env.insert("k".to_string(), addr);
    let r = apply_cont_by_name(
        &"k".to_string(),
        vec![Value::I64(5)],
        &env,
        &mut store,
        &ArithPrims,
        10,
    );
    assert_eq!(r, Ok(Value::I64(5)));
}

#[test]
fn arith_dispatcher_computes_exact_results() {
    let two_i64 = |a: i64, b: i64| vec![Value::I64(a), Value::I64(b)];
    assert_eq!(ArithPrims.call(&"add".to_string(), two_i64(2, 3)), Ok(Value::I64(5)));
    assert_eq!(ArithPrims.call(&"sub".to_string(), two_i64(2, 3)), Ok(Value::I64(-1)));
    assert_eq!(ArithPrims.call(&"mul".to_string(), two_i64(4, 3)), Ok(Value::I64(12)));
    assert_eq!(ArithPrims.call(&"eq".to_string(), two_i64(3, 3)), Ok(Value::Bool(true)));
    assert_eq!(ArithPrims.call(&"eq".to_string(), two_i64(3, 4)), Ok(Value::Bool(false)));
    assert_eq!(ArithPrims.call(&"lt".to_string(), two_i64(3, 4)), Ok(Value::Bool(true)));
    assert_eq!(ArithPrims.call(&"lt".to_string(), two_i64(4, 3)), Ok(Value::Bool(false)));
    assert_eq!(
        ArithPrims.call(&"mul".to_string(), two_i64(i64::MAX, 2)),
        Err(EvalError::PrimitiveFailure)
    );
    assert_eq!(
        ArithPrims.call(&"sub".to_string(), two_i64(i64::MIN, 1)),
        Err(EvalError::PrimitiveFailure)
    );
}

#[test]
fn cloned_values_compare_like_their_originals() {
    let v = Value::StringLiteral("text".to_string());
    assert_eq!(v.clone(), v);
    let a = Atom::lam(2, &["x"], IR::AppCont(0, Cont::Return, vec![Atom::v("x")]));
    assert_eq!(a.clone(), a);
}
