//! A tree-walking evaluator for a small Lisp-family language.
//!
//! The crate models expressions and runtime values as one tagged union
//! ([`core_of_interpreter::Exp`]), environments as chains of frames held in a
//! frame arena ([`environment::Store`]), and evaluation as a mutually
//! recursive eval/apply engine whose behaviour is pinned down by a
//! mathematical big-step semantics ([`semantics`]).
//!
//! Numbers are exact: integers are 64-bit, and the "float" variant carries an
//! exact rational ([`number::Rational`]) instead of a machine float, so that
//! arithmetic can be specified and verified precisely.

pub mod number;
pub mod semantics;
pub mod core_of_interpreter;
pub mod environment;
pub mod represent;
pub mod parser;
pub mod laws;
