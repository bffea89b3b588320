//! Typing of the primitive operations.
//!
//! Every well-defined operator gets a type scheme whose quantified
//! variables are drawn fresh from the unification table: given the state,
//! the scheme of a unary operator is `(input, output)`, of a binary one
//! `(first, second, output)`, of a wider one `(inputs, output)`. The
//! operators that exist only during evaluation are never presented here.

use vstd::prelude::*;
use crate::error::TypecheckError;
use crate::identifier::{Ident, IdentView};
use crate::term::{BinaryOp, NAryOp, UnaryOp};
use crate::types::AbsType;
use crate::typecheck::{
    arrow_ty, bool_ty, constraint, dyn_record_ty, dyn_ty, enum_ext_ty, enum_ty, field_row, list_ty,
    new_var, num_ty, record_ext_ty, row_empty_ty, row_ext_tag, str_ty, sym_ty, tag_row, tyw_arrow,
    tyw_bool, tyw_dyn, tyw_dyn_record, tyw_enum, tyw_enum_ext, tyw_list, tyw_num, tyw_record_ext,
    tyw_row_empty, tyw_str, tyw_sym, RowTag, State, TypeWrapper,
};
use vstd::string::StringExecFns;

verus! {

/// The state kept its constraints and gained `k` fresh variables.
pub open spec fn vars_added(pre: State, post: State, k: int) -> bool {
    &&& post.table@.len() == pre.table@.len() + k
    &&& forall|i: int| 0 <= i < pre.table@.len() ==> post.table@[i] == pre.table@[i]
    &&& forall|i: int| pre.table@.len() <= i < post.table@.len() ==> post.table@[i] is None
    &&& post.constr@ == pre.constr@
}

/// The type scheme assigned to a unary operator, given the table size at
/// entry: the pair `(input, output)`, and how many fresh variables it
/// takes.
pub open spec fn uop_scheme_post(
    pre: State,
    post: State,
    op: UnaryOp,
    r: Result<(TypeWrapper, TypeWrapper), TypecheckError>,
) -> bool {
    let v0 = TypeWrapper::Ptr(pre.table@.len() as usize);
    match op {
        UnaryOp::Ite() => r == Result::<_, TypecheckError>::Ok(
            (tyw_bool(), tyw_arrow(v0, tyw_arrow(v0, v0))),
        ) && vars_added(pre, post, 1),
        UnaryOp::IsNum() => r == Result::<_, TypecheckError>::Ok((v0, tyw_bool())) && vars_added(
            pre,
            post,
            1,
        ),
        UnaryOp::IsBool() => r == Result::<_, TypecheckError>::Ok((v0, tyw_bool())) && vars_added(
            pre,
            post,
            1,
        ),
        UnaryOp::IsStr() => r == Result::<_, TypecheckError>::Ok((v0, tyw_bool())) && vars_added(
            pre,
            post,
            1,
        ),
        UnaryOp::IsFun() => r == Result::<_, TypecheckError>::Ok((v0, tyw_bool())) && vars_added(
            pre,
            post,
            1,
        ),
        UnaryOp::IsList() => r == Result::<_, TypecheckError>::Ok((v0, tyw_bool())) && vars_added(
            pre,
            post,
            1,
        ),
        UnaryOp::IsRecord() => r == Result::<_, TypecheckError>::Ok((v0, tyw_bool()))
            && vars_added(pre, post, 1),
        UnaryOp::BoolAnd() => r == Result::<_, TypecheckError>::Ok(
            (tyw_bool(), tyw_arrow(tyw_bool(), tyw_bool())),
        ) && vars_added(pre, post, 0),
        UnaryOp::BoolOr() => r == Result::<_, TypecheckError>::Ok(
            (tyw_bool(), tyw_arrow(tyw_bool(), tyw_bool())),
        ) && vars_added(pre, post, 0),
        UnaryOp::BoolNot() => r == Result::<_, TypecheckError>::Ok((tyw_bool(), tyw_bool()))
            && vars_added(pre, post, 0),
        UnaryOp::Blame() => r == Result::<_, TypecheckError>::Ok((tyw_dyn(), v0)) && vars_added(
            pre,
            post,
            1,
        ),
        UnaryOp::Pol() => r == Result::<_, TypecheckError>::Ok((tyw_dyn(), tyw_bool()))
            && vars_added(pre, post, 0),
        UnaryOp::Embed(id) => {
            &&& r == Result::<_, TypecheckError>::Ok((tyw_enum(v0), tyw_enum_ext(id, v0)))
            &&& post.table@.len() == pre.table@.len() + 1
            &&& forall|i: int| 0 <= i < pre.table@.len() ==> post.table@[i] == pre.table@[i]
            &&& post.table@.last() is None
            &&& post.constr@ == pre.constr@.push(
                RowTag { var: pre.table@.len() as usize, tag: id },
            )
        },
        UnaryOp::ChangePolarity() => r == Result::<_, TypecheckError>::Ok((tyw_dyn(), tyw_dyn()))
            && vars_added(pre, post, 0),
        UnaryOp::GoDom() => r == Result::<_, TypecheckError>::Ok((tyw_dyn(), tyw_dyn()))
            && vars_added(pre, post, 0),
        UnaryOp::GoCodom() => r == Result::<_, TypecheckError>::Ok((tyw_dyn(), tyw_dyn()))
            && vars_added(pre, post, 0),
        UnaryOp::GoList() => r == Result::<_, TypecheckError>::Ok((tyw_dyn(), tyw_dyn()))
            && vars_added(pre, post, 0),
        UnaryOp::Wrap() => r == Result::<_, TypecheckError>::Ok(
            (tyw_sym(), tyw_arrow(tyw_dyn(), tyw_dyn())),
        ) && vars_added(pre, post, 0),
        UnaryOp::StaticAccess(id) => {
            let res_v = TypeWrapper::Ptr((pre.table@.len() + 1) as usize);
            r == Result::<_, TypecheckError>::Ok((tyw_record_ext(id, res_v, v0), res_v))
                && vars_added(pre, post, 2)
        },
        UnaryOp::ListMap() => {
            let v1 = TypeWrapper::Ptr((pre.table@.len() + 1) as usize);
            r == Result::<_, TypecheckError>::Ok(
                (tyw_list(v0), tyw_arrow(tyw_arrow(v0, v1), tyw_list(v1))),
            ) && vars_added(pre, post, 2)
        },
        UnaryOp::ListGen() => r == Result::<_, TypecheckError>::Ok(
            (tyw_num(), tyw_arrow(tyw_arrow(tyw_num(), v0), tyw_list(v0))),
        ) && vars_added(pre, post, 1),
        UnaryOp::RecordMap() => {
            let v1 = TypeWrapper::Ptr((pre.table@.len() + 1) as usize);
            r == Result::<_, TypecheckError>::Ok(
                (
                    tyw_dyn_record(v0),
                    tyw_arrow(tyw_arrow(tyw_str(), tyw_arrow(v0, v1)), tyw_dyn_record(v1)),
                ),
            ) && vars_added(pre, post, 2)
        },
        UnaryOp::SeqOp() => {
            let v1 = TypeWrapper::Ptr((pre.table@.len() + 1) as usize);
            r == Result::<_, TypecheckError>::Ok((v0, tyw_arrow(v1, v1))) && vars_added(
                pre,
                post,
                2,
            )
        },
        UnaryOp::DeepSeq() => {
            let v1 = TypeWrapper::Ptr((pre.table@.len() + 1) as usize);
            r == Result::<_, TypecheckError>::Ok((v0, tyw_arrow(v1, v1))) && vars_added(
                pre,
                post,
                2,
            )
        },
        UnaryOp::ListHead() => r == Result::<_, TypecheckError>::Ok((tyw_list(v0), v0))
            && vars_added(pre, post, 1),
        UnaryOp::ListTail() => r == Result::<_, TypecheckError>::Ok((tyw_list(v0), tyw_list(v0)))
            && vars_added(pre, post, 1),
        UnaryOp::ListLength() => r == Result::<_, TypecheckError>::Ok((tyw_list(v0), tyw_num()))
            && vars_added(pre, post, 1),
        UnaryOp::FieldsOf() => r == Result::<_, TypecheckError>::Ok(
            (tyw_dyn(), tyw_list(tyw_str())),
        ) && vars_added(pre, post, 0),
        UnaryOp::ValuesOf() => r == Result::<_, TypecheckError>::Ok(
            (tyw_dyn(), tyw_list(tyw_dyn())),
        ) && vars_added(pre, post, 0),
        UnaryOp::StrTrim() => r == Result::<_, TypecheckError>::Ok((tyw_str(), tyw_str()))
            && vars_added(pre, post, 0),
        UnaryOp::StrChars() => r == Result::<_, TypecheckError>::Ok(
            (tyw_str(), tyw_list(tyw_str())),
        ) && vars_added(pre, post, 0),
        UnaryOp::CharCode() => r == Result::<_, TypecheckError>::Ok((tyw_str(), tyw_num()))
            && vars_added(pre, post, 0),
        UnaryOp::CharFromCode() => r == Result::<_, TypecheckError>::Ok((tyw_num(), tyw_str()))
            && vars_added(pre, post, 0),
        UnaryOp::StrUppercase() => r == Result::<_, TypecheckError>::Ok((tyw_str(), tyw_str()))
            && vars_added(pre, post, 0),
        UnaryOp::StrLowercase() => r == Result::<_, TypecheckError>::Ok((tyw_str(), tyw_str()))
            && vars_added(pre, post, 0),
        UnaryOp::StrLength() => r == Result::<_, TypecheckError>::Ok((tyw_str(), tyw_num()))
            && vars_added(pre, post, 0),
        UnaryOp::ToStr() => r == Result::<_, TypecheckError>::Ok((tyw_dyn(), tyw_str()))
            && vars_added(pre, post, 0),
        UnaryOp::NumFromStr() => r == Result::<_, TypecheckError>::Ok((tyw_str(), tyw_num()))
            && vars_added(pre, post, 0),
        UnaryOp::EnumFromStr() => r == Result::<_, TypecheckError>::Ok(
            (tyw_str(), tyw_enum(tyw_dyn())),
        ) && vars_added(pre, post, 0),
        UnaryOp::IsZero() => (r matches Result::Err(e) && e is TypingOp) && vars_added(
            pre,
            post,
            0,
        ),
        _ => false,
    }
}

/// Assign a type scheme `(input, output)` to a unary operator, drawing its
/// quantified variables fresh from the unification table.
pub fn get_uop_type(state: &mut State, op: &UnaryOp) -> (r: Result<
    (TypeWrapper, TypeWrapper),
    TypecheckError,
>)
    requires
        !op.spec_eval_only(),
    ensures
        uop_scheme_post(*old(state), *final(state), *op, r),
{
    match op {
        UnaryOp::Ite() => {
            let branches = new_var(&mut state.table);
            Result::Ok(
                (
                    bool_ty(),
                    arrow_ty(
                        TypeWrapper::Ptr(branches),
                        arrow_ty(TypeWrapper::Ptr(branches), TypeWrapper::Ptr(branches)),
                    ),
                ),
            )
        },
        UnaryOp::IsNum() | UnaryOp::IsBool() | UnaryOp::IsStr() | UnaryOp::IsFun()
        | UnaryOp::IsList() | UnaryOp::IsRecord() => {
            let inp = TypeWrapper::Ptr(new_var(&mut state.table));
            Result::Ok((inp, bool_ty()))
        },
        UnaryOp::BoolAnd() | UnaryOp::BoolOr() => Result::Ok(
            (bool_ty(), arrow_ty(bool_ty(), bool_ty())),
        ),
        UnaryOp::BoolNot() => Result::Ok((bool_ty(), bool_ty())),
        UnaryOp::Blame() => {
            let res = TypeWrapper::Ptr(new_var(&mut state.table));
            Result::Ok((dyn_ty(), res))
        },
        UnaryOp::Pol() => Result::Ok((dyn_ty(), bool_ty())),
        UnaryOp::Embed(id) => {
            let p = new_var(&mut state.table);
            // Constraining a freshly created variable never fails.
            let c = constraint(state, TypeWrapper::Ptr(p), id.clone());
            match c {
                Result::Ok(()) => {},
                Result::Err(_) => {
                    proof {
                        assert(false);
                    }
                },
            }
            Result::Ok(
                (enum_ty(TypeWrapper::Ptr(p)), enum_ext_ty(id.clone(), TypeWrapper::Ptr(p))),
            )
        },
        UnaryOp::ChangePolarity() | UnaryOp::GoDom() | UnaryOp::GoCodom() | UnaryOp::GoList() => {
            Result::Ok((dyn_ty(), dyn_ty()))
        },
        UnaryOp::Wrap() => Result::Ok((sym_ty(), arrow_ty(dyn_ty(), dyn_ty()))),
        UnaryOp::StaticAccess(id) => {
            let row = TypeWrapper::Ptr(new_var(&mut state.table));
            let res = new_var(&mut state.table);
            Result::Ok(
                (
                    record_ext_ty(id.clone(), TypeWrapper::Ptr(res), row),
                    TypeWrapper::Ptr(res),
                ),
            )
        },
        UnaryOp::ListMap() => {
            let a = new_var(&mut state.table);
            let b = new_var(&mut state.table);
            let f_type = arrow_ty(TypeWrapper::Ptr(a), TypeWrapper::Ptr(b));
            Result::Ok(
                (list_ty(TypeWrapper::Ptr(a)), arrow_ty(f_type, list_ty(TypeWrapper::Ptr(b)))),
            )
        },
        UnaryOp::ListGen() => {
            let a = new_var(&mut state.table);
            let f_type = arrow_ty(num_ty(), TypeWrapper::Ptr(a));
            Result::Ok((num_ty(), arrow_ty(f_type, list_ty(TypeWrapper::Ptr(a)))))
        },
        UnaryOp::RecordMap() => {
            let a = new_var(&mut state.table);
            let b = new_var(&mut state.table);
            let f_type = arrow_ty(str_ty(), arrow_ty(TypeWrapper::Ptr(a), TypeWrapper::Ptr(b)));
            Result::Ok(
                (
                    dyn_record_ty(TypeWrapper::Ptr(a)),
                    arrow_ty(f_type, dyn_record_ty(TypeWrapper::Ptr(b))),
                ),
            )
        },
        UnaryOp::SeqOp() | UnaryOp::DeepSeq() => {
            let fst = new_var(&mut state.table);
            let snd = new_var(&mut state.table);
            Result::Ok(
                (
                    TypeWrapper::Ptr(fst),
                    arrow_ty(TypeWrapper::Ptr(snd), TypeWrapper::Ptr(snd)),
                ),
            )
        },
        UnaryOp::ListHead() => {
            let ty_elt = new_var(&mut state.table);
            Result::Ok((list_ty(TypeWrapper::Ptr(ty_elt)), TypeWrapper::Ptr(ty_elt)))
        },
        UnaryOp::ListTail() => {
            let ty_elt = new_var(&mut state.table);
            Result::Ok(
                (list_ty(TypeWrapper::Ptr(ty_elt)), list_ty(TypeWrapper::Ptr(ty_elt))),
            )
        },
        UnaryOp::ListLength() => {
            let ty_elt = new_var(&mut state.table);
            Result::Ok((list_ty(TypeWrapper::Ptr(ty_elt)), num_ty()))
        },
        UnaryOp::FieldsOf() => Result::Ok((dyn_ty(), list_ty(str_ty()))),
        UnaryOp::ValuesOf() => Result::Ok((dyn_ty(), list_ty(dyn_ty()))),
        UnaryOp::StrTrim() => Result::Ok((str_ty(), str_ty())),
        UnaryOp::StrChars() => Result::Ok((str_ty(), list_ty(str_ty()))),
        UnaryOp::CharCode() => Result::Ok((str_ty(), num_ty())),
        UnaryOp::CharFromCode() => Result::Ok((num_ty(), str_ty())),
        UnaryOp::StrUppercase() => Result::Ok((str_ty(), str_ty())),
        UnaryOp::StrLowercase() => Result::Ok((str_ty(), str_ty())),
        UnaryOp::StrLength() => Result::Ok((str_ty(), num_ty())),
        UnaryOp::ToStr() => Result::Ok((dyn_ty(), str_ty())),
        UnaryOp::NumFromStr() => Result::Ok((str_ty(), num_ty())),
        UnaryOp::EnumFromStr() => Result::Ok((str_ty(), enum_ty(dyn_ty()))),
        _ => Result::Err(
            TypecheckError::TypingOp(
                String::from_str("this operator carries no type scheme"),
            ),
        ),
    }
}

/// The row of hashing algorithms.
pub open spec fn hash_tags() -> Seq<Seq<char>> {
    seq!["Md5"@, "Sha1"@, "Sha256"@, "Sha512"@]
}

/// The row of serialization formats.
pub open spec fn format_tags() -> Seq<Seq<char>> {
    seq!["Json"@, "Yaml"@, "Toml"@]
}

/// The type scheme assigned to a binary operator: the triple
/// `(first, second, output)`.
pub open spec fn bop_scheme_post(
    pre: State,
    post: State,
    op: BinaryOp,
    r: Result<(TypeWrapper, TypeWrapper, TypeWrapper), TypecheckError>,
) -> bool {
    let v0 = TypeWrapper::Ptr(pre.table@.len() as usize);
    let v1 = TypeWrapper::Ptr((pre.table@.len() + 1) as usize);
    match op {
        BinaryOp::Plus() => r == Result::<_, TypecheckError>::Ok(
            (tyw_num(), tyw_num(), tyw_num()),
        ) && vars_added(pre, post, 0),
        BinaryOp::Sub() => r == Result::<_, TypecheckError>::Ok((tyw_num(), tyw_num(), tyw_num()))
            && vars_added(pre, post, 0),
        BinaryOp::Mult() => r == Result::<_, TypecheckError>::Ok(
            (tyw_num(), tyw_num(), tyw_num()),
        ) && vars_added(pre, post, 0),
        BinaryOp::Div() => r == Result::<_, TypecheckError>::Ok((tyw_num(), tyw_num(), tyw_num()))
            && vars_added(pre, post, 0),
        BinaryOp::Modulo() => r == Result::<_, TypecheckError>::Ok(
            (tyw_num(), tyw_num(), tyw_num()),
        ) && vars_added(pre, post, 0),
        BinaryOp::StrConcat() => r == Result::<_, TypecheckError>::Ok(
            (tyw_str(), tyw_str(), tyw_str()),
        ) && vars_added(pre, post, 0),
        BinaryOp::Unwrap() => r == Result::<_, TypecheckError>::Ok(
            (tyw_sym(), tyw_dyn(), tyw_arrow(tyw_dyn(), tyw_dyn())),
        ) && vars_added(pre, post, 0),
        BinaryOp::Tag() => r == Result::<_, TypecheckError>::Ok(
            (tyw_str(), tyw_dyn(), tyw_dyn()),
        ) && vars_added(pre, post, 0),
        BinaryOp::Eq() => r == Result::<_, TypecheckError>::Ok((v0, v1, tyw_bool()))
            && vars_added(pre, post, 2),
        BinaryOp::LessThan() => r == Result::<_, TypecheckError>::Ok(
            (tyw_num(), tyw_num(), tyw_bool()),
        ) && vars_added(pre, post, 0),
        BinaryOp::LessOrEq() => r == Result::<_, TypecheckError>::Ok(
            (tyw_num(), tyw_num(), tyw_bool()),
        ) && vars_added(pre, post, 0),
        BinaryOp::GreaterThan() => r == Result::<_, TypecheckError>::Ok(
            (tyw_num(), tyw_num(), tyw_bool()),
        ) && vars_added(pre, post, 0),
        BinaryOp::GreaterOrEq() => r == Result::<_, TypecheckError>::Ok(
            (tyw_num(), tyw_num(), tyw_bool()),
        ) && vars_added(pre, post, 0),
        BinaryOp::GoField() => r == Result::<_, TypecheckError>::Ok(
            (tyw_str(), tyw_dyn(), tyw_dyn()),
        ) && vars_added(pre, post, 0),
        BinaryOp::DynAccess() => r == Result::<_, TypecheckError>::Ok(
            (tyw_str(), tyw_dyn_record(v0), v0),
        ) && vars_added(pre, post, 1),
        BinaryOp::DynExtend() => r == Result::<_, TypecheckError>::Ok(
            (tyw_str(), tyw_dyn_record(v0), tyw_arrow(v0, tyw_dyn_record(v0))),
        ) && vars_added(pre, post, 1),
        BinaryOp::DynRemove() => r == Result::<_, TypecheckError>::Ok(
            (tyw_str(), tyw_dyn_record(v0), tyw_dyn_record(v0)),
        ) && vars_added(pre, post, 1),
        BinaryOp::HasField() => r == Result::<_, TypecheckError>::Ok(
            (tyw_str(), tyw_dyn(), tyw_bool()),
        ) && vars_added(pre, post, 0),
        BinaryOp::ListConcat() => r == Result::<_, TypecheckError>::Ok(
            (tyw_list(v0), tyw_list(v0), tyw_list(v0)),
        ) && vars_added(pre, post, 1),
        BinaryOp::ListElemAt() => r == Result::<_, TypecheckError>::Ok(
            (tyw_list(v0), tyw_num(), v0),
        ) && vars_added(pre, post, 1),
        BinaryOp::Merge() => r == Result::<_, TypecheckError>::Ok(
            (tyw_dyn(), tyw_dyn(), tyw_dyn()),
        ) && vars_added(pre, post, 0),
        BinaryOp::Hash() => (r matches Result::Ok((t1, t2, t3)) && {
            &&& t1 matches TypeWrapper::Concrete(e) && (e matches AbsType::Enum(row) && tag_row(
                *row,
                hash_tags(),
                tyw_row_empty(),
            ))
            &&& t2 == tyw_str()
            &&& t3 == tyw_str()
        }) && vars_added(pre, post, 0),
        BinaryOp::Serialize() => (r matches Result::Ok((t1, t2, t3)) && {
            &&& t1 matches TypeWrapper::Concrete(e) && (e matches AbsType::Enum(row) && tag_row(
                *row,
                format_tags(),
                tyw_row_empty(),
            ))
            &&& t2 == v0
            &&& t3 == tyw_str()
        }) && vars_added(pre, post, 1),
        BinaryOp::Deserialize() => (r matches Result::Ok((t1, t2, t3)) && {
            &&& t1 matches TypeWrapper::Concrete(e) && (e matches AbsType::Enum(row) && tag_row(
                *row,
                format_tags(),
                tyw_row_empty(),
            ))
            &&& t2 == tyw_str()
            &&& t3 == tyw_dyn()
        }) && vars_added(pre, post, 0),
        BinaryOp::Pow() => r == Result::<_, TypecheckError>::Ok((tyw_num(), tyw_num(), tyw_num()))
            && vars_added(pre, post, 0),
        BinaryOp::StrContains() => r == Result::<_, TypecheckError>::Ok(
            (tyw_str(), tyw_str(), tyw_bool()),
        ) && vars_added(pre, post, 0),
        BinaryOp::StrIsMatch() => r == Result::<_, TypecheckError>::Ok(
            (tyw_str(), tyw_str(), tyw_bool()),
        ) && vars_added(pre, post, 0),
        BinaryOp::StrMatch() => (r matches Result::Ok((t1, t2, t3)) && {
            &&& t1 == tyw_str()
            &&& t2 == tyw_str()
            &&& t3 matches TypeWrapper::Concrete(rec) && (rec matches AbsType::StaticRecord(row)
                && field_row(
                *row,
                seq!["match"@, "index"@, "groups"@],
                seq![tyw_str(), tyw_num(), tyw_list(tyw_str())],
                tyw_row_empty(),
            ))
        }) && vars_added(pre, post, 0),
        BinaryOp::StrSplit() => r == Result::<_, TypecheckError>::Ok(
            (tyw_str(), tyw_str(), tyw_list(tyw_str())),
        ) && vars_added(pre, post, 0),
        _ => false,
    }
}

/// Assign a type scheme `(first, second, output)` to a binary operator.
pub fn get_bop_type(state: &mut State, op: &BinaryOp) -> (r: Result<
    (TypeWrapper, TypeWrapper, TypeWrapper),
    TypecheckError,
>)
    requires
        !op.spec_eval_only(),
    ensures
        bop_scheme_post(*old(state), *final(state), *op, r),
{
    match op {
        BinaryOp::Plus() | BinaryOp::Sub() | BinaryOp::Mult() | BinaryOp::Div()
        | BinaryOp::Modulo() | BinaryOp::Pow() => Result::Ok((num_ty(), num_ty(), num_ty())),
        BinaryOp::StrConcat() => Result::Ok((str_ty(), str_ty(), str_ty())),
        BinaryOp::Unwrap() => Result::Ok((sym_ty(), dyn_ty(), arrow_ty(dyn_ty(), dyn_ty()))),
        BinaryOp::Tag() => Result::Ok((str_ty(), dyn_ty(), dyn_ty())),
        BinaryOp::Eq() => {
            let a = new_var(&mut state.table);
            let b = new_var(&mut state.table);
            Result::Ok((TypeWrapper::Ptr(a), TypeWrapper::Ptr(b), bool_ty()))
        },
        BinaryOp::LessThan() | BinaryOp::LessOrEq() | BinaryOp::GreaterThan()
        | BinaryOp::GreaterOrEq() => Result::Ok((num_ty(), num_ty(), bool_ty())),
        BinaryOp::GoField() => Result::Ok((str_ty(), dyn_ty(), dyn_ty())),
        BinaryOp::DynAccess() => {
            let res = new_var(&mut state.table);
            Result::Ok(
                (str_ty(), dyn_record_ty(TypeWrapper::Ptr(res)), TypeWrapper::Ptr(res)),
            )
        },
        BinaryOp::DynExtend() => {
            let res = new_var(&mut state.table);
            Result::Ok(
                (
                    str_ty(),
                    dyn_record_ty(TypeWrapper::Ptr(res)),
                    arrow_ty(TypeWrapper::Ptr(res), dyn_record_ty(TypeWrapper::Ptr(res))),
                ),
            )
        },
        BinaryOp::DynRemove() => {
            let res = new_var(&mut state.table);
            Result::Ok(
                (
                    str_ty(),
                    dyn_record_ty(TypeWrapper::Ptr(res)),
                    dyn_record_ty(TypeWrapper::Ptr(res)),
                ),
            )
        },
        BinaryOp::HasField() => Result::Ok((str_ty(), dyn_ty(), bool_ty())),
        BinaryOp::ListConcat() => {
            let ty_elt = new_var(&mut state.table);
            Result::Ok(
                (
                    list_ty(TypeWrapper::Ptr(ty_elt)),
                    list_ty(TypeWrapper::Ptr(ty_elt)),
                    list_ty(TypeWrapper::Ptr(ty_elt)),
                ),
            )
        },
        BinaryOp::ListElemAt() => {
            let ty_elt = new_var(&mut state.table);
            Result::Ok(
                (list_ty(TypeWrapper::Ptr(ty_elt)), num_ty(), TypeWrapper::Ptr(ty_elt)),
            )
        },
        BinaryOp::Merge() => Result::Ok((dyn_ty(), dyn_ty(), dyn_ty())),
        BinaryOp::Hash() => {
            let r0 = row_empty_ty();
            let r1 = row_ext_tag("Sha512", r0);
            let r2 = row_ext_tag("Sha256", r1);
            let r3 = row_ext_tag("Sha1", r2);
            let row = row_ext_tag("Md5", r3);
            proof {
                assert(tag_row(r0, Seq::<Seq<char>>::empty(), tyw_row_empty()));
                assert(seq!["Sha512"@].drop_first() =~= Seq::<Seq<char>>::empty());
                assert(tag_row(r1, seq!["Sha512"@], tyw_row_empty()));
                assert(seq!["Sha256"@, "Sha512"@].drop_first() =~= seq!["Sha512"@]);
                assert(tag_row(r2, seq!["Sha256"@, "Sha512"@], tyw_row_empty()));
                assert(seq!["Sha1"@, "Sha256"@, "Sha512"@].drop_first() =~= seq![
                    "Sha256"@,
                    "Sha512"@,
                ]);
                assert(tag_row(r3, seq!["Sha1"@, "Sha256"@, "Sha512"@], tyw_row_empty()));
                assert(hash_tags().drop_first() =~= seq!["Sha1"@, "Sha256"@, "Sha512"@]);
                assert(tag_row(row, hash_tags(), tyw_row_empty()));
            }
            Result::Ok((enum_ty(row), str_ty(), str_ty()))
        },
        BinaryOp::Serialize() => {
            let ty_input = new_var(&mut state.table);
            let r0 = row_empty_ty();
            let r1 = row_ext_tag("Toml", r0);
            let r2 = row_ext_tag("Yaml", r1);
            let row = row_ext_tag("Json", r2);
            proof {
                assert(tag_row(r0, Seq::<Seq<char>>::empty(), tyw_row_empty()));
                assert(seq!["Toml"@].drop_first() =~= Seq::<Seq<char>>::empty());
                assert(tag_row(r1, seq!["Toml"@], tyw_row_empty()));
                assert(seq!["Yaml"@, "Toml"@].drop_first() =~= seq!["Toml"@]);
                assert(tag_row(r2, seq!["Yaml"@, "Toml"@], tyw_row_empty()));
                assert(format_tags().drop_first() =~= seq!["Yaml"@, "Toml"@]);
                assert(tag_row(row, format_tags(), tyw_row_empty()));
            }
            Result::Ok((enum_ty(row), TypeWrapper::Ptr(ty_input), str_ty()))
        },
        BinaryOp::Deserialize() => {
            let r0 = row_empty_ty();
            let r1 = row_ext_tag("Toml", r0);
            let r2 = row_ext_tag("Yaml", r1);
            let row = row_ext_tag("Json", r2);
            proof {
                assert(tag_row(r0, Seq::<Seq<char>>::empty(), tyw_row_empty()));
                assert(seq!["Toml"@].drop_first() =~= Seq::<Seq<char>>::empty());
                assert(tag_row(r1, seq!["Toml"@], tyw_row_empty()));
                assert(seq!["Yaml"@, "Toml"@].drop_first() =~= seq!["Toml"@]);
                assert(tag_row(r2, seq!["Yaml"@, "Toml"@], tyw_row_empty()));
                assert(format_tags().drop_first() =~= seq!["Yaml"@, "Toml"@]);
                assert(tag_row(row, format_tags(), tyw_row_empty()));
            }
            Result::Ok((enum_ty(row), str_ty(), dyn_ty()))
        },
        BinaryOp::StrContains() => Result::Ok((str_ty(), str_ty(), bool_ty())),
        BinaryOp::StrIsMatch() => Result::Ok((str_ty(), str_ty(), bool_ty())),
        BinaryOp::StrMatch() => {
            let r0 = row_empty_ty();
            let r1 = TypeWrapper::Concrete(
                AbsType::RowExtend(
                    Ident::User(String::from_str("groups")),
                    Option::Some(Box::new(list_ty(str_ty()))),
                    Box::new(r0),
                ),
            );
            let r2 = TypeWrapper::Concrete(
                AbsType::RowExtend(
                    Ident::User(String::from_str("index")),
                    Option::Some(Box::new(num_ty())),
                    Box::new(r1),
                ),
            );
            let rec = record_ext_ty(Ident::User(String::from_str("match")), str_ty(), r2);
            proof {
                let names = seq!["match"@, "index"@, "groups"@];
                let types = seq![tyw_str(), tyw_num(), tyw_list(tyw_str())];
                assert(field_row(
                    r0,
                    Seq::<Seq<char>>::empty(),
                    Seq::<TypeWrapper>::empty(),
                    tyw_row_empty(),
                ));
                assert(seq!["groups"@].drop_first() =~= Seq::<Seq<char>>::empty());
                assert(seq![tyw_list(tyw_str())].drop_first() =~= Seq::<TypeWrapper>::empty());
                assert(field_row(r1, seq!["groups"@], seq![tyw_list(tyw_str())], tyw_row_empty()));
                assert(seq!["index"@, "groups"@].drop_first() =~= seq!["groups"@]);
                assert(seq![tyw_num(), tyw_list(tyw_str())].drop_first() =~= seq![
                    tyw_list(tyw_str()),
                ]);
                assert(field_row(
                    r2,
                    seq!["index"@, "groups"@],
                    seq![tyw_num(), tyw_list(tyw_str())],
                    tyw_row_empty(),
                ));
                assert(names.drop_first() =~= seq!["index"@, "groups"@]);
                assert(types.drop_first() =~= seq![tyw_num(), tyw_list(tyw_str())]);
                assert(field_row(r2, names.drop_first(), types.drop_first(), tyw_row_empty()));
            }
            Result::Ok((str_ty(), str_ty(), rec))
        },
        BinaryOp::StrSplit() => Result::Ok((str_ty(), str_ty(), list_ty(str_ty()))),
        _ => {
            proof {
                assert(false);
            }
            Result::Err(
                TypecheckError::TypingOp(
                    String::from_str("this operator carries no type scheme"),
                ),
            )
        },
    }
}

/// The type scheme assigned to a wider operator: its inputs and output.
pub open spec fn nop_scheme_post(
    pre: State,
    post: State,
    op: NAryOp,
    r: Result<(Vec<TypeWrapper>, TypeWrapper), TypecheckError>,
) -> bool {
    match op {
        NAryOp::StrReplace() => (r matches Result::Ok((args, out)) && args@ == seq![
            tyw_str(),
            tyw_str(),
            tyw_str(),
        ] && out == tyw_str()) && vars_added(pre, post, 0),
        NAryOp::StrReplaceRegex() => (r matches Result::Ok((args, out)) && args@ == seq![
            tyw_str(),
            tyw_str(),
            tyw_str(),
        ] && out == tyw_str()) && vars_added(pre, post, 0),
        NAryOp::StrSubstr() => (r matches Result::Ok((args, out)) && args@ == seq![
            tyw_str(),
            tyw_num(),
            tyw_num(),
        ] && out == tyw_str()) && vars_added(pre, post, 0),
        _ => false,
    }
}

/// Assign a type scheme `(inputs, output)` to an operator of higher arity.
pub fn get_nop_type(state: &mut State, op: &NAryOp) -> (r: Result<
    (Vec<TypeWrapper>, TypeWrapper),
    TypecheckError,
>)
    requires
        !op.spec_eval_only(),
    ensures
        nop_scheme_post(*old(state), *final(state), *op, r),
{
    match op {
        NAryOp::StrReplace() | NAryOp::StrReplaceRegex() => {
            let mut args: Vec<TypeWrapper> = Vec::new();
            args.push(str_ty());
            args.push(str_ty());
            args.push(str_ty());
            proof {
                assert(args@ =~= seq![tyw_str(), tyw_str(), tyw_str()]);
            }
            Result::Ok((args, str_ty()))
        },
        NAryOp::StrSubstr() => {
            let mut args: Vec<TypeWrapper> = Vec::new();
            args.push(str_ty());
            args.push(num_ty());
            args.push(num_ty());
            proof {
                assert(args@ =~= seq![tyw_str(), tyw_num(), tyw_num()]);
            }
            Result::Ok((args, str_ty()))
        },
        NAryOp::MergeContract() => {
            proof {
                assert(false);
            }
            Result::Err(
                TypecheckError::TypingOp(
                    String::from_str("this operator carries no type scheme"),
                ),
            )
        },
    }
}

} // verus!
