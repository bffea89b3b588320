//! The merge operator.
//!
//! Merging combines two evaluated values. It is the one operator that sees
//! enriched values as they are: a default value is a soft binding that any
//! concrete value overrides, and two defaults agree only when they carry
//! the same constant. This core merges constants and default-wrapped
//! constants; deep merging of records is not part of it.

use vstd::prelude::*;
use crate::error::EvalError;
use crate::eval::{clos_wf, Closure};
use crate::label::Label;
use crate::position::{RawSpan, TermPos};
use crate::term::{RichTerm, Term};
use vstd::string::StringExecFns;

verus! {

/// Whether a constant can be tested for merge compatibility: atoms with a
/// decidable notion of being "the same value".
pub open spec fn mergeable_const(t: Term) -> bool {
    match t {
        Term::Null => true,
        Term::Bool(_) => true,
        Term::Num(_) => true,
        Term::Str(_) => true,
        Term::Enum(_) => true,
        Term::Sym(_) => true,
        _ => false,
    }
}

/// Equality of two mergeable constants, as values.
pub open spec fn const_eq_spec(a: Term, b: Term) -> bool {
    match (a, b) {
        (Term::Null, Term::Null) => true,
        (Term::Bool(x), Term::Bool(y)) => x == y,
        (Term::Num(x), Term::Num(y)) => x == y,
        (Term::Str(x), Term::Str(y)) => x@ == y@,
        (Term::Enum(x), Term::Enum(y)) => x@ == y@,
        (Term::Sym(x), Term::Sym(y)) => x == y,
        _ => false,
    }
}

/// Decide [`const_eq_spec`].
pub fn const_eq(a: &Term, b: &Term) -> (r: bool)
    ensures
        r == const_eq_spec(*a, *b),
{
    match (a, b) {
        (Term::Null, Term::Null) => true,
        (Term::Bool(x), Term::Bool(y)) => x == y,
        (Term::Num(x), Term::Num(y)) => x.millis == y.millis,
        (Term::Str(x), Term::Str(y)) => x.eq(y),
        (Term::Enum(x), Term::Enum(y)) => x.same(y),
        (Term::Sym(x), Term::Sym(y)) => x == y,
        _ => false,
    }
}

/// What merging two evaluated operands returns.
///
/// A default against a plain value yields the plain value; two defaults
/// over the same constant keep it, and over distinct constants blame a
/// label, because the defaults are incompatible. Everything this core does
/// not merge — functions, records, lists, the other enriched wrappers —
/// is reported as an error.
pub open spec fn merge_result_post(
    fst: Closure,
    snd: Closure,
    r: Result<Closure, EvalError>,
) -> bool {
    match (fst.body.node(), snd.body.node()) {
        (Term::DefaultValue(d1), Term::DefaultValue(d2)) => {
            if mergeable_const(d1.node()) && mergeable_const(d2.node()) {
                if const_eq_spec(d1.node(), d2.node()) {
                    r matches Result::Ok(c) && c.body.node() == Term::DefaultValue(d1) && c.env@
                        == fst.env@
                } else {
                    r matches Result::Err(e) && e matches EvalError::BlameError(_, cs)
                        && cs is None
                }
            } else {
                r matches Result::Err(e) && e is Other
            }
        },
        (Term::DefaultValue(_), t2) => if !t2.spec_is_enriched() {
            r matches Result::Ok(c) && c.body == snd.body && c.env@ == snd.env@
        } else {
            r matches Result::Err(e) && e is Other
        },
        (t1, Term::DefaultValue(_)) => if !t1.spec_is_enriched() {
            r matches Result::Ok(c) && c.body == fst.body && c.env@ == fst.env@
        } else {
            r matches Result::Err(e) && e is Other
        },
        (t1, t2) => if mergeable_const(t1) && mergeable_const(t2) {
            if const_eq_spec(t1, t2) {
                r matches Result::Ok(c) && c.body == fst.body && c.env@ == fst.env@
            } else {
                r matches Result::Err(e) && e matches EvalError::BlameError(_, cs) && cs is None
            }
        } else {
            r matches Result::Err(e) && e is Other
        },
    }
}

/// The label blamed when a merge finds two incompatible values.
fn merge_blame_label(span: RawSpan) -> (res: Label)
    ensures
        res.span == span,
{
    Label { tag: String::from_str("merge: incompatible values"), span, polarity: true }
}

/// Merge two evaluated operands; see [`merge_result_post`].
pub fn merge(fst: Closure, snd: Closure, pos: TermPos) -> (r: Result<Closure, EvalError>)
    ensures
        forall|n: int|
            #![trigger clos_wf(fst, n)]
            clos_wf(fst, n) && clos_wf(snd, n) ==> (r matches Result::Ok(c) ==> clos_wf(c, n)),
        merge_result_post(fst, snd, r),
{
    let span = match pos {
        TermPos::Original(sp) => sp,
        TermPos::Inherited(sp) => sp,
        TermPos::NoPos => RawSpan { src_id: 0, start: 0, end: 0 },
    };
    let t1: Term = (&*fst.body.term).clone();
    let t2: Term = (&*snd.body.term).clone();
    match (t1, t2) {
        (Term::DefaultValue(d1), Term::DefaultValue(d2)) => {
            let m1 = is_mergeable(&*d1.term);
            let m2 = is_mergeable(&*d2.term);
            if m1 && m2 {
                if const_eq(&*d1.term, &*d2.term) {
                    Result::Ok(
                        Closure { body: RichTerm::from_term(Term::DefaultValue(d1)), env: fst.env },
                    )
                } else {
                    Result::Err(EvalError::BlameError(merge_blame_label(span), Option::None))
                }
            } else {
                Result::Err(
                    EvalError::Other(
                        String::from_str("a merge of defaults this machine cannot compare"),
                        pos,
                    ),
                )
            }
        },
        (Term::DefaultValue(_), t2) => {
            if !t2.is_enriched() {
                Result::Ok(Closure { body: snd.body, env: snd.env })
            } else {
                Result::Err(
                    EvalError::Other(
                        String::from_str("a merge of enriched values this machine cannot combine"),
                        pos,
                    ),
                )
            }
        },
        (t1, Term::DefaultValue(_)) => {
            if !t1.is_enriched() {
                Result::Ok(Closure { body: fst.body, env: fst.env })
            } else {
                Result::Err(
                    EvalError::Other(
                        String::from_str("a merge of enriched values this machine cannot combine"),
                        pos,
                    ),
                )
            }
        },
        (t1, t2) => {
            if is_mergeable(&t1) && is_mergeable(&t2) {
                if const_eq(&t1, &t2) {
                    Result::Ok(Closure { body: fst.body, env: fst.env })
                } else {
                    Result::Err(EvalError::BlameError(merge_blame_label(span), Option::None))
                }
            } else {
                Result::Err(
                    EvalError::Other(
                        String::from_str("a merge of values this machine cannot combine"),
                        pos,
                    ),
                )
            }
        },
    }
}

/// Decide [`mergeable_const`].
fn is_mergeable(t: &Term) -> (r: bool)
    ensures
        r == mergeable_const(*t),
{
    match t {
        Term::Null | Term::Bool(_) | Term::Num(_) | Term::Str(_) | Term::Enum(_) | Term::Sym(_) => true,
        _ => false,
    }
}

} // verus!
