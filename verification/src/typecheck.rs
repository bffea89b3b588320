//! The typechecker's unification types and state.
//!
//! The typechecker works over [`TypeWrapper`]: the type algebra closed over
//! unification variables, which are indices into a unification table. A row
//! constraint table remembers, for each row variable, the tags the row must
//! not carry. The typing of the primitive operators lives in
//! [`operation`].

pub mod operation;

use vstd::prelude::*;
use crate::error::TypecheckError;
use crate::identifier::{Ident, IdentView};
use crate::types::AbsType;
use vstd::string::StringExecFns;

verus! {

/// A type with unification variables: either one layer of the type algebra
/// over more such types, a rigid type constant, or a unification variable,
/// both named by indices.
#[derive(Debug, PartialEq)]
pub enum TypeWrapper {
    Concrete(AbsType<Box<TypeWrapper>>),
    Constant(usize),
    Ptr(usize),
}

/// A one-layer arrow, in the unification algebra.
pub open spec fn tyw_arrow(dom: TypeWrapper, codom: TypeWrapper) -> TypeWrapper {
    TypeWrapper::Concrete(AbsType::Arrow(Box::new(dom), Box::new(codom)))
}

/// The unification table: one entry per variable, holding its assigned
/// type once unified.
#[derive(Debug)]
pub struct UnifTable {
    entries: Vec<Option<TypeWrapper>>,
}

impl View for UnifTable {
    type V = Seq<Option<TypeWrapper>>;

    closed spec fn view(&self) -> Seq<Option<TypeWrapper>> {
        self.entries@
    }
}

impl UnifTable {
    /// A table with no variables.
    pub fn new() -> (res: UnifTable)
        ensures
            res@ == Seq::<Option<TypeWrapper>>::empty(),
    {
        UnifTable { entries: Vec::new() }
    }
}

/// Allocate a fresh, unassigned unification variable.
pub fn new_var(table: &mut UnifTable) -> (res: usize)
    ensures
        res == old(table)@.len(),
        final(table)@ == old(table)@.push(Option::None),
{
    let res = table.entries.len();
    table.entries.push(Option::None);
    res
}


/// One recorded row constraint: the row variable `var` must never carry
/// the tag `tag`.
#[derive(Debug, PartialEq)]
pub struct RowTag {
    pub var: usize,
    pub tag: Ident,
}

/// The row constraint table.
#[derive(Debug)]
pub struct RowConstr {
    entries: Vec<RowTag>,
}

impl View for RowConstr {
    type V = Seq<RowTag>;

    closed spec fn view(&self) -> Seq<RowTag> {
        self.entries@
    }
}

impl RowConstr {
    /// A table with no constraints.
    pub fn new() -> (res: RowConstr)
        ensures
            res@ == Seq::<RowTag>::empty(),
    {
        RowConstr { entries: Vec::new() }
    }
}

/// The state the typechecker threads through: the unification table and
/// the row constraints. Both only ever grow here.
#[derive(Debug)]
pub struct State {
    pub table: UnifTable,
    pub constr: RowConstr,
}

impl State {
    /// A fresh state.
    pub fn new() -> (res: State)
        ensures
            res.table@ == Seq::<Option<TypeWrapper>>::empty(),
            res.constr@ == Seq::<RowTag>::empty(),
    {
        State { table: UnifTable::new(), constr: RowConstr::new() }
    }
}

/// Whether a row can be constrained not to carry `id`: a row variable or
/// an open row always can, a row that already lists `id` cannot, and
/// nothing else is a row.
pub open spec fn row_allows(ty: TypeWrapper, id: IdentView) -> bool
    decreases ty,
{
    match ty {
        TypeWrapper::Ptr(_) => true,
        TypeWrapper::Constant(_) => false,
        TypeWrapper::Concrete(row) => match row {
            AbsType::RowEmpty() => true,
            AbsType::Dyn() => true,
            AbsType::RowExtend(id2, _, tail) => id2@ != id && row_allows(*tail, id),
            _ => false,
        },
    }
}

/// The row variable a chain of row extensions ends in, if any.
pub open spec fn row_tail_ptr(ty: TypeWrapper) -> Option<usize>
    decreases ty,
{
    match ty {
        TypeWrapper::Ptr(p) => Option::Some(p),
        TypeWrapper::Concrete(row) => match row {
            AbsType::RowExtend(_, _, tail) => row_tail_ptr(*tail),
            _ => Option::None,
        },
        _ => Option::None,
    }
}

/// Record that the row `ty` must not carry the tag `id`: walking the row,
/// a conflict with a listed tag fails, and a row variable at the tail gets
/// the constraint added. Fails if and only if the row cannot be so
/// constrained.
pub fn constraint(state: &mut State, ty: TypeWrapper, id: Ident) -> (r: Result<
    (),
    TypecheckError,
>)
    ensures
        r is Ok <==> row_allows(ty, id@),
        final(state).table@ == old(state).table@,
        (match row_tail_ptr(ty) {
            Option::Some(p) => r is Ok ==> final(state).constr@ == old(state).constr@.push(
                RowTag { var: p, tag: id },
            ),
            Option::None => final(state).constr@ == old(state).constr@,
        }),
        !(r is Ok) ==> final(state).constr@ == old(state).constr@,
    decreases ty,
{
    match ty {
        TypeWrapper::Ptr(p) => {
            state.constr.entries.push(RowTag { var: p, tag: id });
            Result::Ok(())
        },
        TypeWrapper::Constant(_) => Result::Err(TypecheckError::RowKindMismatch),
        TypeWrapper::Concrete(row) => match row {
            AbsType::RowEmpty() => Result::Ok(()),
            AbsType::Dyn() => Result::Ok(()),
            AbsType::RowExtend(id2, _, tail) => {
                if id2.same(&id) {
                    Result::Err(TypecheckError::RowConflict(id2))
                } else {
                    constraint(state, *tail, id)
                }
            },
            _ => Result::Err(TypecheckError::RowKindMismatch),
        },
    }
}

// The building blocks of operator type schemes, as mathematical values and
// as code.

pub open spec fn tyw_dyn() -> TypeWrapper {
    TypeWrapper::Concrete(AbsType::Dyn())
}

pub open spec fn tyw_bool() -> TypeWrapper {
    TypeWrapper::Concrete(AbsType::Bool())
}

pub open spec fn tyw_num() -> TypeWrapper {
    TypeWrapper::Concrete(AbsType::Num())
}

pub open spec fn tyw_str() -> TypeWrapper {
    TypeWrapper::Concrete(AbsType::Str())
}

pub open spec fn tyw_sym() -> TypeWrapper {
    TypeWrapper::Concrete(AbsType::Sym())
}

pub open spec fn tyw_row_empty() -> TypeWrapper {
    TypeWrapper::Concrete(AbsType::RowEmpty())
}

pub open spec fn tyw_list(ty: TypeWrapper) -> TypeWrapper {
    TypeWrapper::Concrete(AbsType::List(Box::new(ty)))
}

pub open spec fn tyw_dyn_record(ty: TypeWrapper) -> TypeWrapper {
    TypeWrapper::Concrete(AbsType::DynRecord(Box::new(ty)))
}

pub open spec fn tyw_enum(row: TypeWrapper) -> TypeWrapper {
    TypeWrapper::Concrete(AbsType::Enum(Box::new(row)))
}

pub open spec fn tyw_enum_ext(id: Ident, row: TypeWrapper) -> TypeWrapper {
    TypeWrapper::Concrete(
        AbsType::Enum(
            Box::new(TypeWrapper::Concrete(AbsType::RowExtend(id, Option::None, Box::new(row)))),
        ),
    )
}

pub open spec fn tyw_record_ext(id: Ident, ty: TypeWrapper, row: TypeWrapper) -> TypeWrapper {
    TypeWrapper::Concrete(
        AbsType::StaticRecord(
            Box::new(
                TypeWrapper::Concrete(
                    AbsType::RowExtend(id, Option::Some(Box::new(ty)), Box::new(row)),
                ),
            ),
        ),
    )
}

/// A row of untyped tags, given by view, ending in `tail`.
pub open spec fn tag_row(ty: TypeWrapper, names: Seq<Seq<char>>, tail: TypeWrapper) -> bool
    decreases names.len(),
{
    if names.len() == 0 {
        ty == tail
    } else {
        ty matches TypeWrapper::Concrete(row) && (row matches AbsType::RowExtend(id, opt, rest) && {
            &&& id@ == IdentView::User(names[0])
            &&& opt is None
            &&& tag_row(*rest, names.drop_first(), tail)
        })
    }
}

/// A row of typed fields, given by view, ending in `tail`.
pub open spec fn field_row(
    ty: TypeWrapper,
    names: Seq<Seq<char>>,
    types: Seq<TypeWrapper>,
    tail: TypeWrapper,
) -> bool
    decreases names.len(),
{
    if names.len() == 0 {
        ty == tail
    } else {
        ty matches TypeWrapper::Concrete(row) && (row matches AbsType::RowExtend(id, opt, rest) && {
            &&& id@ == IdentView::User(names[0])
            &&& types.len() > 0
            &&& opt matches Option::Some(t) && *t == types[0]
            &&& field_row(*rest, names.drop_first(), types.drop_first(), tail)
        })
    }
}

pub fn dyn_ty() -> (r: TypeWrapper)
    ensures
        r == tyw_dyn(),
{
    TypeWrapper::Concrete(AbsType::Dyn())
}

pub fn bool_ty() -> (r: TypeWrapper)
    ensures
        r == tyw_bool(),
{
    TypeWrapper::Concrete(AbsType::Bool())
}

pub fn num_ty() -> (r: TypeWrapper)
    ensures
        r == tyw_num(),
{
    TypeWrapper::Concrete(AbsType::Num())
}

pub fn str_ty() -> (r: TypeWrapper)
    ensures
        r == tyw_str(),
{
    TypeWrapper::Concrete(AbsType::Str())
}

pub fn sym_ty() -> (r: TypeWrapper)
    ensures
        r == tyw_sym(),
{
    TypeWrapper::Concrete(AbsType::Sym())
}

pub fn row_empty_ty() -> (r: TypeWrapper)
    ensures
        r == tyw_row_empty(),
{
    TypeWrapper::Concrete(AbsType::RowEmpty())
}

pub fn list_ty(ty: TypeWrapper) -> (r: TypeWrapper)
    ensures
        r == tyw_list(ty),
{
    TypeWrapper::Concrete(AbsType::List(Box::new(ty)))
}

pub fn dyn_record_ty(ty: TypeWrapper) -> (r: TypeWrapper)
    ensures
        r == tyw_dyn_record(ty),
{
    TypeWrapper::Concrete(AbsType::DynRecord(Box::new(ty)))
}

pub fn arrow_ty(dom: TypeWrapper, codom: TypeWrapper) -> (r: TypeWrapper)
    ensures
        r == tyw_arrow(dom, codom),
{
    TypeWrapper::Concrete(AbsType::Arrow(Box::new(dom), Box::new(codom)))
}

pub fn enum_ty(row: TypeWrapper) -> (r: TypeWrapper)
    ensures
        r == tyw_enum(row),
{
    TypeWrapper::Concrete(AbsType::Enum(Box::new(row)))
}

pub fn enum_ext_ty(id: Ident, row: TypeWrapper) -> (r: TypeWrapper)
    ensures
        r == tyw_enum_ext(id, row),
{
    TypeWrapper::Concrete(
        AbsType::Enum(
            Box::new(TypeWrapper::Concrete(AbsType::RowExtend(id, Option::None, Box::new(row)))),
        ),
    )
}

pub fn record_ext_ty(id: Ident, ty: TypeWrapper, row: TypeWrapper) -> (r: TypeWrapper)
    ensures
        r == tyw_record_ext(id, ty, row),
{
    TypeWrapper::Concrete(
        AbsType::StaticRecord(
            Box::new(
                TypeWrapper::Concrete(
                    AbsType::RowExtend(id, Option::Some(Box::new(ty)), Box::new(row)),
                ),
            ),
        ),
    )
}

/// Push one untyped tag onto a row.
pub fn row_ext_tag(name: &str, row: TypeWrapper) -> (r: TypeWrapper)
    ensures
        r matches TypeWrapper::Concrete(rr) && (rr matches AbsType::RowExtend(id, opt, rest) && {
            &&& id@ == IdentView::User(name@)
            &&& opt is None
            &&& *rest == row
        }),
{
    TypeWrapper::Concrete(
        AbsType::RowExtend(
            Ident::User(String::from_str(name)),
            Option::None,
            Box::new(row),
        ),
    )
}

} // verus!
