//! Errors of the evaluator and of the typechecker.

use vstd::prelude::*;
use crate::eval::StackElem;
use crate::identifier::Ident;
use crate::label::Label;
use crate::position::TermPos;
use crate::term::RichTerm;

verus! {

/// An error raised by the evaluator. Errors are not recoverable inside one
/// evaluation; callers may re-enter with a fresh term.
#[derive(Debug, PartialEq)]
pub enum EvalError {
    /// A variable lookup missed both environments.
    UnboundIdentifier(Ident, TermPos),
    /// A contract blamed its label; the call stack is attached when the
    /// blame first crosses the evaluator's main loop.
    BlameError(Label, Option<Vec<StackElem>>),
    /// Something that is not a function was applied to an argument.
    NotAFunc(RichTerm, RichTerm, TermPos),
    /// A surface diagnostic.
    Other(String, TermPos),
    /// An invariant of the machine was broken, such as an unresolved
    /// import reaching evaluation.
    InternalError(String, TermPos),
}

/// An error raised by the typechecker.
#[derive(Debug, PartialEq)]
pub enum TypecheckError {
    /// A variable had no type in scope.
    UnboundIdentifier(Ident),
    /// The operator carries no type scheme.
    TypingOp(String),
    /// A row was required not to carry a tag it already carries.
    RowConflict(Ident),
    /// A row variable was used where no row can stand.
    RowKindMismatch,
}

} // verus!
