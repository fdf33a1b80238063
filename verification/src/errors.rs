//! The evaluation failures. Every failure is fatal for the current
//! evaluation: the evaluator returns the error to its caller and performs
//! no local recovery.

use vstd::prelude::*;

verus! {

/// Why an evaluation stopped.
#[derive(Clone, Copy, Debug, PartialEq, Eq, Structural)]
pub enum EvalError {
    /// A variable atom named a variable absent from the environment.
    UnboundVariable,
    /// A named continuation was absent from the call-site environment.
    UnboundContinuation,
    /// The value bound to a continuation name was not a continuation.
    NotAContinuation,
    /// The function position of an application was not a closure.
    NotCallable,
    /// A conditional's test evaluated to a non-boolean value.
    TypeMismatch,
    /// A store read went past the allocation counter. Unreachable through
    /// the evaluator's own allocation discipline; kept as a defensive
    /// outcome of reading an arbitrary address.
    StoreAddressOutOfBounds,
    /// A continuation was invoked with a value list whose length differs
    /// from its parameter list, or a binding group had more values than
    /// names, or a `Return` invocation carried no argument.
    ArityMismatch,
    /// The step budget handed to the evaluator ran out before the program
    /// reached a result.
    OutOfFuel,
    /// The primitive dispatcher rejected an operator application.
    PrimitiveFailure,
}

} // verus!
