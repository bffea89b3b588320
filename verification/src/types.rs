//! Types of the language.
//!
//! [`Types`] is the type language as written in source. The same algebra,
//! abstracted over what its recursive positions hold, appears again as
//! [`AbsType`], which the typechecker closes over unification variables
//! (see [`crate::typecheck::TypeWrapper`]).

use vstd::prelude::*;
use crate::identifier::{Ident, IdentView};
use crate::term::{RichTerm, Term};
use vstd::string::StringExecFns;

verus! {

/// The type algebra, one layer deep: the recursive positions are of type
/// `Ty`. The typechecker instantiates it with boxed unification types.
#[derive(Debug, PartialEq)]
pub enum AbsType<Ty> {
    Dyn(),
    Num(),
    Bool(),
    Str(),
    Sym(),
    /// A user-supplied contract used as an opaque type.
    Flat(RichTerm),
    Arrow(Ty, Ty),
    Var(Ident),
    Forall(Ident, Ty),
    /// The empty row.
    RowEmpty(),
    /// A row extension: a tag with an optional type, and the tail.
    RowExtend(Ident, Option<Ty>, Ty),
    /// An enum type over a row of tags.
    Enum(Ty),
    /// A record type over a row of fields.
    StaticRecord(Ty),
    /// A record type with uniformly typed dynamic fields.
    DynRecord(Ty),
    /// A list type.
    List(Ty),
}

/// A type, as written in source.
#[derive(Debug, PartialEq)]
pub enum Types {
    Dyn(),
    Num(),
    Bool(),
    Str(),
    Sym(),
    /// A user-supplied contract used as an opaque type.
    Flat(RichTerm),
    Arrow(Box<Types>, Box<Types>),
    Var(Ident),
    Forall(Ident, Box<Types>),
    RowEmpty(),
    RowExtend(Ident, Option<Box<Types>>, Box<Types>),
    Enum(Box<Types>),
    StaticRecord(Box<Types>),
    DynRecord(Box<Types>),
    List(Box<Types>),
}

impl Clone for Types {
    fn clone(&self) -> (res: Self)
        ensures
            res == *self,
        decreases *self,
    {
        match self {
            Types::Dyn() => Types::Dyn(),
            Types::Num() => Types::Num(),
            Types::Bool() => Types::Bool(),
            Types::Str() => Types::Str(),
            Types::Sym() => Types::Sym(),
            Types::Flat(t) => Types::Flat(t.clone()),
            Types::Arrow(dom, codom) => Types::Arrow(
                Box::new((**dom).clone()),
                Box::new((**codom).clone()),
            ),
            Types::Var(id) => Types::Var(id.clone()),
            Types::Forall(id, ty) => Types::Forall(id.clone(), Box::new((**ty).clone())),
            Types::RowEmpty() => Types::RowEmpty(),
            Types::RowExtend(id, ty, tail) => Types::RowExtend(
                id.clone(),
                match ty {
                    Option::Some(t) => Option::Some(Box::new((**t).clone())),
                    Option::None => Option::None,
                },
                Box::new((**tail).clone()),
            ),
            Types::Enum(row) => Types::Enum(Box::new((**row).clone())),
            Types::StaticRecord(row) => Types::StaticRecord(Box::new((**row).clone())),
            Types::DynRecord(ty) => Types::DynRecord(Box::new((**ty).clone())),
            Types::List(ty) => Types::List(Box::new((**ty).clone())),
        }
    }
}

impl Types {
    /// Whether `res` is the named builtin contract.
    pub open spec fn contract_is_builtin(self, res: RichTerm, name: Seq<char>) -> bool {
        res.node() matches Term::Var(id) && id@ == IdentView::User(name)
    }

    /// What the contract of this type is: base types map to the builtin
    /// contracts bound in the global environment, a flat type is its own
    /// contract, and the remaining compound types fall back to the dynamic
    /// contract in this core.
    pub open spec fn contract_matches(self, res: RichTerm) -> bool {
        match self {
            Types::Num() => self.contract_is_builtin(res, "num"@),
            Types::Bool() => self.contract_is_builtin(res, "bool"@),
            Types::Str() => self.contract_is_builtin(res, "string"@),
            Types::List(_) => self.contract_is_builtin(res, "list"@),
            Types::Flat(t) => res == t,
            _ => self.contract_is_builtin(res, "dyn"@),
        }
    }

    /// The contract associated with a type: a function from a label and a
    /// value to the value, blaming the label when the value does not meet
    /// the type; see [`Self::contract_matches`].
    pub fn contract(&self) -> (res: RichTerm)
        ensures
            self.contract_matches(res),
    {
        match self {
            Types::Num() => RichTerm::var(String::from_str("num")),
            Types::Bool() => RichTerm::var(String::from_str("bool")),
            Types::Str() => RichTerm::var(String::from_str("string")),
            Types::List(_) => RichTerm::var(String::from_str("list")),
            Types::Flat(t) => t.clone(),
            _ => RichTerm::var(String::from_str("dyn")),
        }
    }
}

} // verus!
