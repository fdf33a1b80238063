//! End-to-end programs run through the evaluator with the bundled
//! arithmetic dispatcher.

use cps_ir::prims::ArithPrims;
use cps_ir::{interp, Atom, Cont, Env, EvalError, Store, Value, IR};

fn run(prog: &IR, fuel: u64) -> Result<Value, EvalError> {
    let mut store = Store::new();
    interp(prog, Env::new(), &mut store, &ArithPrims, fuel)
}

#[test]
fn add_two_bindings_returns_fifteen() {
    // bind x = 5, bind y = 10, compute x + y via the primitive add,
    // return the result through the implicit continuation.
    let prog = IR::LetVal(
        0,
        "x".to_string(),
        Atom::I64(5),
        Box::new(IR::LetVal(
            1,
            "y".to_string(),
            Atom::I64(10),
            Box::new(IR::Let(
                2,
                "s".to_string(),
                "add".to_string(),
                vec![Atom::v("x"), Atom::v("y")],
                Box::new(IR::AppCont(3, Cont::Return, vec![Atom::v("s")])),
            )),
        )),
    );
    assert_eq!(run(&prog, 100), Ok(Value::I64(15)));
}

#[test]
fn named_continuation_binds_its_parameter() {
    // define k taking one parameter, invoke it with a literal: the body
    // must see the parameter bound to the literal's value.
    let prog = IR::LetCont(
        0,
        "k".to_string(),
        vec!["a".to_string()],
        Box::new(IR::AppCont(1, Cont::Return, vec![Atom::v("a")])),
        Box::new(IR::AppCont(2, Cont::Named("k".to_string()), vec![Atom::I64(42)])),
    );
    assert_eq!(run(&prog, 100), Ok(Value::I64(42)));
}

fn even_odd_fix(call_target: &str, n: i64) -> IR {
    // even = lam n. let t = eq(n, 0) in if t then true else odd(n - 1)
    // odd  = lam n. let t = eq(n, 0) in if t then false else even(n - 1)
    let branch = |other: &str, base: bool| -> IR {
        IR::Let(
            0,
            "t".to_string(),
            "eq".to_string(),
            vec![Atom::v("n"), Atom::I64(0)],
            Box::new(IR::If(
                1,
                Atom::v("t"),
                Box::new(IR::AppCont(2, Cont::Return, vec![Atom::Bool(base)])),
                Box::new(IR::Let(
                    3,
                    "m".to_string(),
                    "sub".to_string(),
                    vec![Atom::v("n"), Atom::I64(1)],
                    Box::new(IR::App(4, Atom::v(other), vec![Atom::v("m")], Cont::Return)),
                )),
            )),
        )
    };
    IR::Fix(
        5,
        vec!["even".to_string(), "odd".to_string()],
        vec![
            Atom::lam(10, &["n"], branch("odd", true)),
            Atom::lam(11, &["n"], branch("even", false)),
        ],
        Box::new(IR::App(6, Atom::v(call_target), vec![Atom::I64(n)], Cont::Return)),
    )
}

#[test]
fn mutually_recursive_even_odd_terminate() {
    assert_eq!(run(&even_odd_fix("even", 4), 1000), Ok(Value::Bool(true)));
    assert_eq!(run(&even_odd_fix("even", 3), 1000), Ok(Value::Bool(false)));
    assert_eq!(run(&even_odd_fix("odd", 7), 1000), Ok(Value::Bool(true)));
}

#[test]
fn shadowing_keeps_outer_binding_intact() {
    // x = 1; k captures x; x rebound to 2; invoking k still sees 1.
    let prog = IR::LetVal(
        0,
        "x".to_string(),
        Atom::I64(1),
        Box::new(IR::LetCont(
            1,
            "k".to_string(),
            vec!["u".to_string()],
            Box::new(IR::AppCont(2, Cont::Return, vec![Atom::v("x")])),
            Box::new(IR::LetVal(
                3,
                "x".to_string(),
                Atom::I64(2),
                Box::new(IR::AppCont(
                    4,
                    Cont::Named("k".to_string()),
                    vec![Atom::Bool(false)],
                )),
            )),
        )),
    );
    assert_eq!(run(&prog, 100), Ok(Value::I64(1)));
}

#[test]
fn shadowing_inner_binding_wins_locally() {
    let prog = IR::LetVal(
        0,
        "x".to_string(),
        Atom::I64(1),
        Box::new(IR::LetVal(
            1,
            "x".to_string(),
            Atom::I64(2),
            Box::new(IR::AppCont(2, Cont::Return, vec![Atom::v("x")])),
        )),
    );
    assert_eq!(run(&prog, 100), Ok(Value::I64(2)));
}

#[test]
fn fix_rebinding_does_not_alter_captured_scope() {
    // x = 5; k captures x; a Fix group rebinds x; k still sees 5.
    let prog = IR::LetVal(
        0,
        "x".to_string(),
        Atom::I64(5),
        Box::new(IR::LetCont(
            1,
            "k".to_string(),
            vec!["u".to_string()],
            Box::new(IR::AppCont(2, Cont::Return, vec![Atom::v("x")])),
            Box::new(IR::Fix(
                3,
                vec!["x".to_string()],
                vec![Atom::lam(9, &["p"], IR::AppCont(4, Cont::Return, vec![Atom::v("p")]))],
                Box::new(IR::AppCont(
                    5,
                    Cont::Named("k".to_string()),
                    vec![Atom::Bool(true)],
                )),
            )),
        )),
    );
    assert_eq!(run(&prog, 100), Ok(Value::I64(5)));
}

#[test]
fn app_arguments_and_continuation_use_caller_environment() {
    // f is defined before k and a exist, so neither is in f's captured
    // environment: the argument must be evaluated, and the continuation
    // resolved, against the caller's environment.
    let prog = IR::LetVal(
        0,
        "f".to_string(),
        Atom::lam(9, &["p"], IR::AppCont(1, Cont::Return, vec![Atom::v("p")])),
        Box::new(IR::LetCont(
            2,
            "k".to_string(),
            vec!["r".to_string()],
            Box::new(IR::Let(
                3,
                "d".to_string(),
                "add".to_string(),
                vec![Atom::v("r"), Atom::v("r")],
                Box::new(IR::AppCont(4, Cont::Return, vec![Atom::v("d")])),
            )),
            Box::new(IR::LetVal(
                5,
                "a".to_string(),
                Atom::I64(7),
                Box::new(IR::App(
                    6,
                    Atom::v("f"),
                    vec![Atom::v("a")],
                    Cont::Named("k".to_string()),
                )),
            )),
        )),
    );
    assert_eq!(run(&prog, 100), Ok(Value::I64(14)));
}

#[test]
fn if_with_non_boolean_test_is_a_type_mismatch() {
    let prog = IR::If(
        0,
        Atom::I64(1),
        Box::new(IR::AppCont(1, Cont::Return, vec![Atom::Bool(true)])),
        Box::new(IR::AppCont(2, Cont::Return, vec![Atom::Bool(false)])),
    );
    assert_eq!(run(&prog, 100), Err(EvalError::TypeMismatch));
}

#[test]
fn if_selects_branches_by_boolean() {
    let branch = |b: bool| {
        IR::If(
            0,
            Atom::Bool(b),
            Box::new(IR::AppCont(1, Cont::Return, vec![Atom::I64(1)])),
            Box::new(IR::AppCont(2, Cont::Return, vec![Atom::I64(2)])),
        )
    };
    assert_eq!(run(&branch(true), 100), Ok(Value::I64(1)));
    assert_eq!(run(&branch(false), 100), Ok(Value::I64(2)));
}

#[test]
fn fix_with_fewer_values_leaves_placeholder() {
    // two names, one value: the second name keeps its placeholder.
    let prog = IR::Fix(
        0,
        vec!["a".to_string(), "b".to_string()],
        vec![Atom::lam(9, &["p"], IR::AppCont(1, Cont::Return, vec![Atom::v("p")]))],
        Box::new(IR::AppCont(2, Cont::Return, vec![Atom::v("b")])),
    );
    assert_eq!(run(&prog, 100), Ok(Value::Bool(false)));
}

#[test]
fn fix_with_more_values_than_names_is_an_arity_mismatch() {
    let prog = IR::Fix(
        0,
        vec!["a".to_string()],
        vec![Atom::I64(1), Atom::I64(2)],
        Box::new(IR::AppCont(1, Cont::Return, vec![Atom::v("a")])),
    );
    assert_eq!(run(&prog, 100), Err(EvalError::ArityMismatch));
}

#[test]
fn unbound_variable_is_reported() {
    let prog = IR::AppCont(0, Cont::Return, vec![Atom::v("nope")]);
    assert_eq!(run(&prog, 100), Err(EvalError::UnboundVariable));
}

#[test]
fn unbound_continuation_is_reported() {
    let prog = IR::AppCont(0, Cont::Named("k".to_string()), vec![Atom::I64(1)]);
    assert_eq!(run(&prog, 100), Err(EvalError::UnboundContinuation));
}

#[test]
fn invoking_a_non_continuation_is_reported() {
    let prog = IR::LetVal(
        0,
        "k".to_string(),
        Atom::I64(1),
        Box::new(IR::AppCont(1, Cont::Named("k".to_string()), vec![Atom::I64(2)])),
    );
    assert_eq!(run(&prog, 100), Err(EvalError::NotAContinuation));
}

#[test]
fn applying_a_non_closure_is_not_callable() {
    let prog = IR::LetVal(
        0,
        "f".to_string(),
        Atom::I64(3),
        Box::new(IR::App(1, Atom::v("f"), vec![], Cont::Return)),
    );
    assert_eq!(run(&prog, 100), Err(EvalError::NotCallable));
}

#[test]
fn continuation_arity_mismatch_is_reported() {
    let prog = IR::LetCont(
        0,
        "k".to_string(),
        vec!["a".to_string(), "b".to_string()],
        Box::new(IR::AppCont(1, Cont::Return, vec![Atom::v("a")])),
        Box::new(IR::AppCont(2, Cont::Named("k".to_string()), vec![Atom::I64(1)])),
    );
    assert_eq!(run(&prog, 100), Err(EvalError::ArityMismatch));
}

#[test]
fn return_with_no_argument_is_an_arity_mismatch() {
    let prog = IR::AppCont(0, Cont::Return, vec![]);
    assert_eq!(run(&prog, 100), Err(EvalError::ArityMismatch));
}

#[test]
fn evaluation_runs_out_of_fuel() {
    let prog = IR::AppCont(0, Cont::Return, vec![Atom::I64(1)]);
    assert_eq!(run(&prog, 0), Err(EvalError::OutOfFuel));
}

#[test]
fn endless_self_application_runs_out_of_fuel() {
    // f = lam n. f(n): a loop encoded as Fix plus a tail application.
    let prog = IR::Fix(
        0,
        vec!["f".to_string()],
        vec![Atom::lam(9, &["n"], IR::App(1, Atom::v("f"), vec![Atom::v("n")], Cont::Return))],
        Box::new(IR::App(2, Atom::v("f"), vec![Atom::I64(0)], Cont::Return)),
    );
    assert_eq!(run(&prog, 50), Err(EvalError::OutOfFuel));
}

#[test]
fn primitive_failures_propagate_through_let() {
    let with_args = |args: Vec<Atom>, op: &str| {
        IR::Let(
            0,
            "s".to_string(),
            op.to_string(),
            args,
            Box::new(IR::AppCont(1, Cont::Return, vec![Atom::v("s")])),
        )
    };
    // wrong argument type
    assert_eq!(
        run(&with_args(vec![Atom::Bool(true), Atom::I64(1)], "add"), 100),
        Err(EvalError::PrimitiveFailure)
    );
    // overflow
    assert_eq!(
        run(&with_args(vec![Atom::I64(i64::MAX), Atom::I64(1)], "add"), 100),
        Err(EvalError::PrimitiveFailure)
    );
    // unknown operator
    assert_eq!(
        run(&with_args(vec![Atom::I64(1), Atom::I64(2)], "div"), 100),
        Err(EvalError::PrimitiveFailure)
    );
    // wrong arity
    assert_eq!(run(&with_args(vec![Atom::I64(1)], "add"), 100), Err(EvalError::PrimitiveFailure));
}

#[test]
fn determinism_repeated_runs_agree() {
    let prog = even_odd_fix("even", 6);
    let first = run(&prog, 1000);
    let second = run(&prog, 1000);
    assert_eq!(first, Ok(Value::Bool(true)));
    assert_eq!(first, second);
}

#[test]
fn a_finished_run_is_independent_of_the_budget() {
    let prog = even_odd_fix("odd", 5);
    assert_eq!(run(&prog, 100), Ok(Value::Bool(true)));
    assert_eq!(run(&prog, 100), run(&prog, 1_000_000));
}

#[test]
fn evaluation_allocates_one_slot_per_binding() {
    let prog = IR::LetVal(
        0,
        "x".to_string(),
        Atom::I64(5),
        Box::new(IR::Let(
            1,
            "s".to_string(),
            "add".to_string(),
            vec![Atom::v("x"), Atom::v("x")],
            Box::new(IR::AppCont(2, Cont::Return, vec![Atom::v("s")])),
        )),
    );
    let mut store = Store::new();
    let r = interp(&prog, Env::new(), &mut store, &ArithPrims, 100);
    assert_eq!(r, Ok(Value::I64(10)));
    // one slot for x, one for the primitive's result, in allocation order
    assert_eq!(store.get_count(), 2);
    assert_eq!(store.get(0), Value::I64(5));
    assert_eq!(store.get(1), Value::I64(10));
}

#[test]
fn lambda_captures_its_definition_environment() {
    // g = 3 when f is defined; g rebound to 4 afterwards; f still adds 3.
    let prog = IR::LetVal(
        0,
        "g".to_string(),
        Atom::I64(3),
        Box::new(IR::LetVal(
            1,
            "f".to_string(),
            Atom::lam(
                9,
                &["p"],
                IR::Let(
                    2,
                    "s".to_string(),
                    "add".to_string(),
                    vec![Atom::v("p"), Atom::v("g")],
                    Box::new(IR::AppCont(3, Cont::Return, vec![Atom::v("s")])),
                ),
            ),
            Box::new(IR::LetVal(
                4,
                "g".to_string(),
                Atom::I64(4),
                Box::new(IR::App(5, Atom::v("f"), vec![Atom::I64(10)], Cont::Return)),
            )),
        )),
    );
    assert_eq!(run(&prog, 100), Ok(Value::I64(13)));
}
