//! The primitive dispatcher: the external collaborator that gives meaning
//! to the operator applications of `Let` forms. The operator catalogue and
//! its numeric semantics belong to the dispatcher, not to the evaluator;
//! the evaluator only demands that a dispatcher behave as a function of
//! the operator name and the evaluated arguments.

use vstd::prelude::*;
use crate::atom::Value;
use crate::errors::EvalError;
use crate::model::{lemma_view_values_props, res_view, view_values, SpecValue};

verus! {

/// A primitive-operator dispatcher. `spec_call` is the dispatcher's own
/// mathematical meaning; `call` must compute exactly that, so evaluation
/// stays a deterministic function of the program and the dispatcher.
pub trait Primitives: Sized {
    /// What the dispatcher returns for an operator name and evaluated
    /// arguments: a computed value, or an operator-specific failure.
    spec fn spec_call(&self, op: Seq<char>, args: Seq<SpecValue>) -> Result<
        SpecValue,
        EvalError,
    >;

    /// Apply the operator to the evaluated arguments.
    fn call(&self, op: &String, args: Vec<Value>) -> (r: Result<Value, EvalError>)
        ensures
            res_view(r) == self.spec_call(op@, view_values(args@)),
    ;
}

/// What the bundled arithmetic dispatcher computes: the five binary
/// operators on 64-bit signed integers, failing on any other operator,
/// arity or argument type, and on overflow.
pub open spec fn arith_sem(op: Seq<char>, args: Seq<SpecValue>) -> Result<SpecValue, EvalError> {
    if args.len() == 2 {
        match (args[0], args[1]) {
            (SpecValue::I64(a), SpecValue::I64(b)) => {
                if op == "add"@ {
                    if i64::MIN <= a + b <= i64::MAX {
                        Ok(SpecValue::I64((a + b) as i64))
                    } else {
                        Err(EvalError::PrimitiveFailure)
                    }
                } else if op == "sub"@ {
                    if i64::MIN <= a - b <= i64::MAX {
                        Ok(SpecValue::I64((a - b) as i64))
                    } else {
                        Err(EvalError::PrimitiveFailure)
                    }
                } else if op == "mul"@ {
                    if i64::MIN <= a * b <= i64::MAX {
                        Ok(SpecValue::I64((a * b) as i64))
                    } else {
                        Err(EvalError::PrimitiveFailure)
                    }
                } else if op == "eq"@ {
                    Ok(SpecValue::Bool(a == b))
                } else if op == "lt"@ {
                    Ok(SpecValue::Bool(a < b))
                } else {
                    Err(EvalError::PrimitiveFailure)
                }
            },
            _ => Err(EvalError::PrimitiveFailure),
        }
    } else {
        Err(EvalError::PrimitiveFailure)
    }
}

/// A small arithmetic dispatcher: `add`, `sub`, `mul`, `eq` and `lt` on
/// 64-bit signed integers, with overflow reported as a failure.
pub struct ArithPrims;

impl Primitives for ArithPrims {
    open spec fn spec_call(&self, op: Seq<char>, args: Seq<SpecValue>) -> Result<
        SpecValue,
        EvalError,
    > {
        arith_sem(op, args)
    }

    fn call(&self, op: &String, args: Vec<Value>) -> (r: Result<Value, EvalError>)
        ensures
            res_view(r) == self.spec_call(op@, view_values(args@)),
    {
        proof {
            lemma_view_values_props(args@);
        }
        if args.len() != 2 {
            return Err(EvalError::PrimitiveFailure);
        }
        let a = match &args[0] {
            Value::I64(x) => *x,
            _ => {
                return Err(EvalError::PrimitiveFailure);
            },
        };
        let b = match &args[1] {
            Value::I64(x) => *x,
            _ => {
                return Err(EvalError::PrimitiveFailure);
            },
        };
        if op.eq(&"add".to_owned()) {
            match a.checked_add(b) {
                Some(c) => Ok(Value::I64(c)),
                None => Err(EvalError::PrimitiveFailure),
            }
        } else if op.eq(&"sub".to_owned()) {
            match a.checked_sub(b) {
                Some(c) => Ok(Value::I64(c)),
                None => Err(EvalError::PrimitiveFailure),
            }
        } else if op.eq(&"mul".to_owned()) {
            match a.checked_mul(b) {
                Some(c) => Ok(Value::I64(c)),
                None => Err(EvalError::PrimitiveFailure),
            }
        } else if op.eq(&"eq".to_owned()) {
            Ok(Value::Bool(a == b))
        } else if op.eq(&"lt".to_owned()) {
            Ok(Value::Bool(a < b))
        } else {
            Err(EvalError::PrimitiveFailure)
        }
    }
}

} // verus!
