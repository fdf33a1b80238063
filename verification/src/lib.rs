//! A reference evaluator for a continuation-passing-style (CPS)
//! intermediate representation.
//!
//! A closed CPS program is evaluated by structural recursion against an
//! explicit append-only store and lexical environments. The executable
//! evaluator in the `interp` module is proved to return exactly what the
//! mathematical semantics in the `sem` module gives, step budget for step
//! budget, so evaluation is a deterministic function of the program, the
//! environment, the store, and the primitive dispatcher.

pub mod atom;
pub mod env;
pub mod errors;
pub mod interp;
pub mod ir;
pub mod laws;
pub mod model;
pub mod prims;
pub mod sem;

pub use atom::{Atom, Value};
pub use env::Env;
pub use errors::EvalError;
pub use ir::{Cont, IR};
pub use interp::{apply_cont, apply_cont_by_name, interp, interp_atom, Store};
