//! Core of a lazy, record-oriented configuration language.
//!
//! The crate implements three tightly coupled subsystems:
//!
//! - the evaluator, a lazy abstract machine reducing terms to weak head
//!   normal form with explicit thunk sharing and update ([`eval`]);
//! - the share-normal-form transformation, a pre-evaluation rewrite that
//!   hoists shareable subterms into let bindings ([`transform`]);
//! - the typing of primitive operators, producing type schemes over fresh
//!   unification variables ([`typecheck`]).
//!
//! Parsing, import I/O and pretty-printing are not part of the core; they
//! live behind narrow interfaces (see [`program`]).

pub mod error;
pub mod eval;
pub mod identifier;
pub mod label;
pub mod merge;
pub mod operation;
pub mod position;
pub mod program;
pub mod stack;
pub mod term;
pub mod transform;
pub mod typecheck;
pub mod types;

pub use identifier::Ident;
