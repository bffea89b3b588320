//! Continuation of primitive operations.
//!
//! When the machine brings an operand to weak head normal form and finds an
//! operation continuation on top of the stack, the work resumes here:
//! either the next operand starts evaluating, or the operator has all its
//! operands and computes its result. Merging is treated in [`crate::merge`].

use vstd::prelude::*;
use crate::error::EvalError;
use crate::eval::{clos_like, CallStack, Closure, EnvEntry, Environment, env_wf, clos_wf, stack_wf};
use crate::identifier::IdentView;
use crate::merge::{merge, merge_result_post};
use crate::position::TermPos;
use crate::stack::{args_on_top, Marker, OperationCont, Stack};
use crate::term::{Field, Number, RichTerm, StrChunk, Term, UnaryOp, BinaryOp};
use vstd::string::StringExecFns;

verus! {

/// What a named field resolves to in a record: the first field of that
/// name.
pub open spec fn field_lookup(fields: Seq<Field>, id: IdentView) -> Option<RichTerm>
    decreases fields.len(),
{
    if fields.len() == 0 {
        Option::None
    } else if fields[0].id@ == id {
        Option::Some(fields[0].term)
    } else {
        field_lookup(fields.drop_first(), id)
    }
}

/// The result of resuming a unary operator on its evaluated argument:
/// `s1` is the stack under the popped continuation, `s2` the stack after.
/// Operators that dispatch on pending arguments consume them; everything
/// else leaves the stack alone; an operator this machine does not
/// implement reports an error.
pub open spec fn uop_result_post(
    op: UnaryOp,
    clos: Closure,
    s1: Seq<Marker>,
    s2: Seq<Marker>,
    r: Result<Closure, EvalError>,
) -> bool {
    match op {
        UnaryOp::Ite() => match clos.body.node() {
            Term::Bool(b) => if args_on_top(s1) >= 2 {
                &&& r matches Result::Ok(c) && (if b {
                    s1.last() matches Marker::Arg(ct, _) && c == ct
                } else {
                    s1[s1.len() - 2] matches Marker::Arg(ce, _) && c == ce
                })
                &&& s2 == s1.drop_last().drop_last()
            } else {
                r matches Result::Err(e) && e is Other
            },
            _ => (r matches Result::Err(e) && e is Other) && s2 == s1,
        },
        UnaryOp::Blame() => s2 == s1 && match clos.body.node() {
            Term::Lbl(l) => r == Result::<Closure, EvalError>::Err(
                EvalError::BlameError(l, Option::None),
            ),
            _ => r matches Result::Err(e) && e is Other,
        },
        UnaryOp::IsZero() => s2 == s1 && match clos.body.node() {
            Term::Num(n) => r matches Result::Ok(c) && c.body.node() == Term::Bool(n.millis == 0),
            _ => r matches Result::Err(e) && e is Other,
        },
        UnaryOp::IsNum() => s2 == s1 && (r matches Result::Ok(c) && c.body.node() == Term::Bool(
            clos.body.node() is Num,
        )),
        UnaryOp::IsBool() => s2 == s1 && (r matches Result::Ok(c) && c.body.node() == Term::Bool(
            clos.body.node() is Bool,
        )),
        UnaryOp::IsStr() => s2 == s1 && (r matches Result::Ok(c) && c.body.node() == Term::Bool(
            clos.body.node() is Str,
        )),
        UnaryOp::IsFun() => s2 == s1 && (r matches Result::Ok(c) && c.body.node() == Term::Bool(
            clos.body.node() is Fun,
        )),
        UnaryOp::IsList() => s2 == s1 && (r matches Result::Ok(c) && c.body.node() == Term::Bool(
            clos.body.node() is List,
        )),
        UnaryOp::IsRecord() => s2 == s1 && (r matches Result::Ok(c) && c.body.node() == Term::Bool(
            clos.body.node() is Record,
        )),
        UnaryOp::BoolNot() => s2 == s1 && match clos.body.node() {
            Term::Bool(b) => r matches Result::Ok(c) && c.body.node() == Term::Bool(!b),
            _ => r matches Result::Err(e) && e is Other,
        },
        UnaryOp::BoolAnd() => match clos.body.node() {
            Term::Bool(b) => if args_on_top(s1) >= 1 {
                &&& r matches Result::Ok(c) && (if b {
                    s1.last() matches Marker::Arg(ca, _) && c == ca
                } else {
                    c.body.node() == Term::Bool(false)
                })
                &&& s2 == s1.drop_last()
            } else {
                (r matches Result::Err(e) && e is Other) && s2 == s1
            },
            _ => (r matches Result::Err(e) && e is Other) && s2 == s1,
        },
        UnaryOp::BoolOr() => match clos.body.node() {
            Term::Bool(b) => if args_on_top(s1) >= 1 {
                &&& r matches Result::Ok(c) && (if b {
                    c.body.node() == Term::Bool(true)
                } else {
                    s1.last() matches Marker::Arg(ca, _) && c == ca
                })
                &&& s2 == s1.drop_last()
            } else {
                (r matches Result::Err(e) && e is Other) && s2 == s1
            },
            _ => (r matches Result::Err(e) && e is Other) && s2 == s1,
        },
        UnaryOp::SeqOp() => if args_on_top(s1) >= 1 {
            &&& r matches Result::Ok(c) && (s1.last() matches Marker::Arg(ca, _) && c == ca)
            &&& s2 == s1.drop_last()
        } else {
            (r matches Result::Err(e) && e is Other) && s2 == s1
        },
        UnaryOp::StaticAccess(id) => s2 == s1 && match clos.body.node() {
            Term::Record(fields, _) => match field_lookup(fields@, id@) {
                Option::Some(t) => r matches Result::Ok(c) && c.body == t && c.env@
                    == clos.env@,
                Option::None => r matches Result::Err(e) && e is Other,
            },
            _ => r matches Result::Err(e) && e is Other,
        },
        UnaryOp::ChunksConcat(_, _) => s2 == s1,
        _ => (r matches Result::Err(e) && e is Other) && s2 == s1,
    }
}

/// The result of resuming a string-chunk concatenation: the evaluated
/// chunk must be a string; it is appended to the accumulator, and the next
/// chunk, if any, starts evaluating in the environment the operator
/// captured.
pub open spec fn chunks_concat_post(
    acc: Seq<char>,
    rest: Seq<StrChunk>,
    env: Seq<EnvEntry>,
    clos: Closure,
    r: Result<Closure, EvalError>,
) -> bool {
    match clos.body.node() {
        Term::Str(s) => {
            if rest.len() == 0 {
                r matches Result::Ok(c) && (c.body.node() matches Term::Str(s2) && s2@ == acc + s@)
            } else {
                &&& r matches Result::Ok(c) && (c.body.node() matches Term::Op1(op, head) && (
                op matches UnaryOp::ChunksConcat(acc2, rest2) && {
                    &&& acc2@ == acc + s@
                    &&& rest2@ == rest.drop_last()
                    &&& match rest.last() {
                        StrChunk::Literal(s3) => head.node() matches Term::Str(s4) && s4 == s3,
                        StrChunk::Expr(e) => head == e,
                    }
                }) && c.env@ == env)
            }
        },
        _ => r matches Result::Err(e) && e is Other,
    }
}

/// The result of resuming a binary operator on its two evaluated operands,
/// for the operators whose result this machine pins down exactly.
pub open spec fn bop_result_post(
    op: BinaryOp,
    fst: Closure,
    snd: Closure,
    r: Result<Closure, EvalError>,
) -> bool {
    match op {
        BinaryOp::Plus() => match (fst.body.node(), snd.body.node()) {
            (Term::Num(a), Term::Num(b)) => {
                if i64::MIN <= a.millis + b.millis <= i64::MAX {
                    r matches Result::Ok(c) && c.body.node() == Term::Num(
                        Number { millis: (a.millis + b.millis) as i64 },
                    )
                } else {
                    r matches Result::Err(e) && e is Other
                }
            },
            _ => r matches Result::Err(e) && e is Other,
        },
        BinaryOp::StrConcat() => match (fst.body.node(), snd.body.node()) {
            (Term::Str(a), Term::Str(b)) => r matches Result::Ok(c) && (c.body.node()
                matches Term::Str(s) && s@ == a@ + b@),
            _ => r matches Result::Err(e) && e is Other,
        },
        BinaryOp::Merge() => merge_result_post(fst, snd, r),
        _ => r matches Result::Err(e) && e is Other,
    }
}


/// The unary-operator outcome depends on the operand closure only through
/// its body and its environment's bindings, so it carries over to any
/// closure with the same body and bindings.
pub proof fn lemma_uop_post_like(
    op: UnaryOp,
    c1: Closure,
    c2: Closure,
    s1: Seq<Marker>,
    s2: Seq<Marker>,
    r: Result<Closure, EvalError>,
)
    requires
        clos_like(c1, c2),
        uop_result_post(op, c1, s1, s2, r),
    ensures
        uop_result_post(op, c2, s1, s2, r),
{
}

/// As [`lemma_uop_post_like`], for string-chunk concatenation.
pub proof fn lemma_chunks_post_like(
    acc: Seq<char>,
    rest: Seq<StrChunk>,
    env: Seq<EnvEntry>,
    c1: Closure,
    c2: Closure,
    r: Result<Closure, EvalError>,
)
    requires
        clos_like(c1, c2),
        chunks_concat_post(acc, rest, env, c1, r),
    ensures
        chunks_concat_post(acc, rest, env, c2, r),
{
}

/// As [`lemma_uop_post_like`], for the second operand of a binary
/// operator.
pub proof fn lemma_bop_post_like(
    op: BinaryOp,
    fst: Closure,
    c1: Closure,
    c2: Closure,
    r: Result<Closure, EvalError>,
)
    requires
        clos_like(c1, c2),
        bop_result_post(op, fst, c1, r),
    ensures
        bop_result_post(op, fst, c2, r),
{
}

/// Resume the operation on top of the stack with the evaluated operand
/// `clos`: evaluate the next operand, or compute the operator's result.
#[verifier::loop_isolation(false)]
pub fn continuate_operation(
    clos: Closure,
    stack: &mut Stack,
    call_stack: &mut CallStack,
    enriched_strict: &mut bool,
) -> (r: Result<Closure, EvalError>)
    requires
        old(stack)@.len() > 0,
        old(stack)@.last() is Cont,
    ensures
        final(stack)@.len() <= old(stack)@.len() + 1,
        forall|n: int|
            #![trigger stack_wf(old(stack)@, n)]
            stack_wf(old(stack)@, n) && clos_wf(clos, n) ==> stack_wf(final(stack)@, n) && (
            r matches Result::Ok(c) ==> clos_wf(c, n)),
        crate::eval::cont_strict_ok(
            old(stack)@.last(),
            *old(enriched_strict),
            *final(enriched_strict),
        ),
        (old(stack)@.last() matches Marker::Cont(cont, d, p) ==> match cont {
            OperationCont::Op1(op, env, _) => {
                &&& uop_result_post(op, clos, old(stack)@.drop_last(), final(stack)@, r)
                &&& (op matches UnaryOp::ChunksConcat(acc, rest) ==> chunks_concat_post(
                    acc@,
                    rest@,
                    env@,
                    clos,
                    r,
                ))
            },
            OperationCont::Op2First(op, snd, fst_pos, prev) => {
                &&& r matches Result::Ok(c) && c.body == snd.body && c.env@ == snd.env@
                &&& final(stack)@.len() == old(stack)@.len()
                &&& final(stack)@.take(old(stack)@.len() - 1) == old(stack)@.take(
                    old(stack)@.len() - 1,
                )
                &&& (final(stack)@.last() matches Marker::Cont(c2, d2, p2) && (
                c2 matches OperationCont::Op2Second(op2, fc, _, prev2) && {
                    &&& op2 == op
                    &&& clos_like(fc, clos)
                    &&& prev2 == prev
                }) && d2 == d && p2 == p)
            },
            OperationCont::Op2Second(op, fst, _, _) => bop_result_post(op, fst, clos, r)
                && final(stack)@ == old(stack)@.drop_last(),
        }),
{
    let popped = stack.pop_op_cont();
    let (cont, depth, pos) = match popped {
        Option::Some(c) => c,
        Option::None => {
            proof {
                assert(false);
            }
            return Result::Err(
                EvalError::InternalError(
                    String::from_str("no operation continuation on the stack"),
                    TermPos::NoPos,
                ),
            );
        }
    };
    match cont {
        OperationCont::Op1(op, env, _arg_pos) => process_unary_operation(
            op,
            env,
            clos,
            stack,
            pos,
        ),
        OperationCont::Op2First(op, snd, _fst_pos, prev) => {
            let snd_pos = snd.body.pos;
            stack.push_op_cont(OperationCont::Op2Second(op, clos, snd_pos, prev), depth, pos);
            Result::Ok(snd)
        },
        OperationCont::Op2Second(op, fst, _snd_pos, prev) => {
            *enriched_strict = prev;
            process_binary_operation(op, fst, clos, pos)
        },
    }
}

/// Compute the result of a unary operator on its evaluated argument.
#[verifier::loop_isolation(false)]
fn process_unary_operation(
    op: UnaryOp,
    env: Environment,
    clos: Closure,
    stack: &mut Stack,
    pos: TermPos,
) -> (r: Result<Closure, EvalError>)
    ensures
        final(stack)@.len() <= old(stack)@.len(),
        forall|n: int|
            #![trigger stack_wf(old(stack)@, n)]
            stack_wf(old(stack)@, n) && clos_wf(clos, n) && env_wf(env@, n) ==> stack_wf(
                final(stack)@,
                n,
            ) && (r matches Result::Ok(c) ==> clos_wf(c, n)),
        uop_result_post(op, clos, old(stack)@, final(stack)@, r),
        (op matches UnaryOp::ChunksConcat(acc, rest) ==> chunks_concat_post(
            acc@,
            rest@,
            env@,
            clos,
            r,
        )),
{
    let t: Term = (&*clos.body.term).clone();
    match op {
        UnaryOp::Ite() => {
            match t {
                Term::Bool(b) => {
                    let fst = stack.pop_arg();
                    let snd = stack.pop_arg();
                    match (fst, snd) {
                        (Option::Some((then_clos, _)), Option::Some((else_clos, _))) => {
                            proof {
                                crate::stack::lemma_args_on_top_nonneg(
                                    old(stack)@.drop_last().drop_last(),
                                );
                                assert(old(stack)@.last() is Arg);
                                assert(old(stack)@.drop_last().last() is Arg);
                                assert(args_on_top(old(stack)@) == 1 + args_on_top(
                                    old(stack)@.drop_last(),
                                ));
                                assert(args_on_top(old(stack)@.drop_last()) == 1 + args_on_top(
                                    old(stack)@.drop_last().drop_last(),
                                ));
                                assert(args_on_top(old(stack)@) >= 2);
                                assert(old(stack)@.drop_last().last() == old(stack)@[old(
                                    stack,
                                )@.len() - 2]);
                            }
                            if b {
                                Result::Ok(then_clos)
                            } else {
                                Result::Ok(else_clos)
                            }
                        },
                        _ => Result::Err(
                            EvalError::Other(
                                String::from_str("a conditional was not applied to two branches"),
                                pos,
                            ),
                        ),
                    }
                },
                _ => Result::Err(
                    EvalError::Other(
                        String::from_str("a conditional was applied to something else than a boolean"),
                        pos,
                    ),
                ),
            }
        },
        UnaryOp::IsZero() => {
            match t {
                Term::Num(n) => Result::Ok(
                    Closure::atomic_closure(RichTerm::from_term(Term::Bool(n.millis == 0))),
                ),
                _ => Result::Err(
                    EvalError::Other(String::from_str("a zero test on something else than a number"), pos),
                ),
            }
        },
        UnaryOp::IsNum() => {
            let b = match t {
                Term::Num(_) => true,
                _ => false,
            };
            Result::Ok(Closure::atomic_closure(RichTerm::from_term(Term::Bool(b))))
        },
        UnaryOp::IsBool() => {
            let b = match t {
                Term::Bool(_) => true,
                _ => false,
            };
            Result::Ok(Closure::atomic_closure(RichTerm::from_term(Term::Bool(b))))
        },
        UnaryOp::IsStr() => {
            let b = match t {
                Term::Str(_) => true,
                _ => false,
            };
            Result::Ok(Closure::atomic_closure(RichTerm::from_term(Term::Bool(b))))
        },
        UnaryOp::IsFun() => {
            let b = match t {
                Term::Fun(_, _) => true,
                _ => false,
            };
            Result::Ok(Closure::atomic_closure(RichTerm::from_term(Term::Bool(b))))
        },
        UnaryOp::IsList() => {
            let b = match t {
                Term::List(_) => true,
                _ => false,
            };
            Result::Ok(Closure::atomic_closure(RichTerm::from_term(Term::Bool(b))))
        },
        UnaryOp::IsRecord() => {
            let b = match t {
                Term::Record(_, _) => true,
                _ => false,
            };
            Result::Ok(Closure::atomic_closure(RichTerm::from_term(Term::Bool(b))))
        },
        UnaryOp::BoolNot() => {
            match t {
                Term::Bool(b) => Result::Ok(
                    Closure::atomic_closure(RichTerm::from_term(Term::Bool(!b))),
                ),
                _ => Result::Err(
                    EvalError::Other(String::from_str("a negation of something else than a boolean"), pos),
                ),
            }
        },
        UnaryOp::BoolAnd() => {
            match t {
                Term::Bool(b) => {
                    match stack.pop_arg() {
                        Option::Some((arg, _)) => {
                            proof {
                                crate::stack::lemma_args_on_top_nonneg(old(stack)@.drop_last());
                            }
                            if b {
                                Result::Ok(arg)
                            } else {
                                Result::Ok(
                                    Closure::atomic_closure(RichTerm::from_term(Term::Bool(false))),
                                )
                            }
                        },
                        Option::None => Result::Err(
                            EvalError::Other(String::from_str("a conjunction without a second operand"), pos),
                        ),
                    }
                },
                _ => Result::Err(
                    EvalError::Other(
                        String::from_str("a conjunction of something else than a boolean"),
                        pos,
                    ),
                ),
            }
        },
        UnaryOp::BoolOr() => {
            match t {
                Term::Bool(b) => {
                    match stack.pop_arg() {
                        Option::Some((arg, _)) => {
                            proof {
                                crate::stack::lemma_args_on_top_nonneg(old(stack)@.drop_last());
                            }
                            if b {
                                Result::Ok(
                                    Closure::atomic_closure(RichTerm::from_term(Term::Bool(true))),
                                )
                            } else {
                                Result::Ok(arg)
                            }
                        },
                        Option::None => Result::Err(
                            EvalError::Other(String::from_str("a disjunction without a second operand"), pos),
                        ),
                    }
                },
                _ => Result::Err(
                    EvalError::Other(
                        String::from_str("a disjunction of something else than a boolean"),
                        pos,
                    ),
                ),
            }
        },
        UnaryOp::Blame() => {
            match t {
                Term::Lbl(l) => Result::Err(EvalError::BlameError(l, Option::None)),
                _ => Result::Err(
                    EvalError::Other(String::from_str("blame of something else than a label"), pos),
                ),
            }
        },
        UnaryOp::SeqOp() => {
            match stack.pop_arg() {
                Option::Some((arg, _)) => {
                    proof {
                        crate::stack::lemma_args_on_top_nonneg(old(stack)@.drop_last());
                    }
                    Result::Ok(arg)
                },
                Option::None => Result::Err(
                    EvalError::Other(String::from_str("a sequencing without a second operand"), pos),
                ),
            }
        },
        UnaryOp::StaticAccess(id) => {
            match t {
                Term::Record(fields, _) => {
                    let mut j: usize = 0;
                    proof {
                        assert(fields@.skip(0) =~= fields@);
                    }
                    while j < fields.len()
                        invariant
                            j <= fields@.len(),
                            field_lookup(fields@, id@) == field_lookup(
                                fields@.skip(j as int),
                                id@,
                            ),
                        decreases fields@.len() - j,
                    {
                        proof {
                            assert(fields@.skip(j as int)[0] == fields@[j as int]);
                            assert(fields@.skip(j as int).drop_first() =~= fields@.skip(j + 1));
                        }
                        if fields[j].id.same(&id) {
                            let ft = fields[j].term.clone();
                            let envc = clos.env;
                            return Result::Ok(Closure { body: ft, env: envc });
                        }
                        j = j + 1;
                    }
                    proof {
                        assert(fields@.skip(fields@.len() as int) =~= Seq::<Field>::empty());
                    }
                    Result::Err(
                        EvalError::Other(String::from_str("access to a field the record does not have"), pos),
                    )
                },
                _ => Result::Err(
                    EvalError::Other(
                        String::from_str("a field access on something else than a record"),
                        pos,
                    ),
                ),
            }
        },
        UnaryOp::ChunksConcat(acc, rest) => {
            match t {
                Term::Str(s) => {
                    let mut acc2 = acc;
                    acc2.append(s.as_str());
                    let mut rest2 = rest;
                    match rest2.pop() {
                        Option::None => Result::Ok(
                            Closure::atomic_closure(RichTerm::from_term(Term::Str(acc2))),
                        ),
                        Option::Some(StrChunk::Literal(s2)) => Result::Ok(
                            Closure {
                                body: RichTerm::new(
                                    Term::Op1(
                                        UnaryOp::ChunksConcat(acc2, rest2),
                                        RichTerm::from_term(Term::Str(s2)),
                                    ),
                                    pos,
                                ),
                                env,
                            },
                        ),
                        Option::Some(StrChunk::Expr(e)) => Result::Ok(
                            Closure {
                                body: RichTerm::new(
                                    Term::Op1(UnaryOp::ChunksConcat(acc2, rest2), e),
                                    pos,
                                ),
                                env,
                            },
                        ),
                    }
                },
                _ => Result::Err(
                    EvalError::Other(
                        String::from_str("a string chunk evaluated to something else than a string"),
                        pos,
                    ),
                ),
            }
        },
        _ => Result::Err(
            EvalError::Other(String::from_str("this primitive operation is not supported by this machine"), pos),
        ),
    }
}

/// Compute the result of a binary operator on its two evaluated operands.
fn process_binary_operation(
    op: BinaryOp,
    fst: Closure,
    snd: Closure,
    pos: TermPos,
) -> (r: Result<Closure, EvalError>)
    ensures
        forall|n: int|
            #![trigger clos_wf(fst, n)]
            clos_wf(fst, n) && clos_wf(snd, n) ==> (r matches Result::Ok(c) ==> clos_wf(c, n)),
        bop_result_post(op, fst, snd, r),
{
    match op {
        BinaryOp::Plus() => {
            let a = match &*fst.body.term {
                Term::Num(a) => Option::Some(*a),
                _ => Option::None,
            };
            let b = match &*snd.body.term {
                Term::Num(b) => Option::Some(*b),
                _ => Option::None,
            };
            match (a, b) {
                (Option::Some(a), Option::Some(b)) => {
                    match a.millis.checked_add(b.millis) {
                        Option::Some(sum) => Result::Ok(
                            Closure::atomic_closure(
                                RichTerm::from_term(Term::Num(Number { millis: sum })),
                            ),
                        ),
                        Option::None => Result::Err(
                            EvalError::Other(String::from_str("an addition overflowed"), pos),
                        ),
                    }
                },
                _ => Result::Err(
                    EvalError::Other(String::from_str("an addition of something else than numbers"), pos),
                ),
            }
        },
        BinaryOp::StrConcat() => {
            match (&*fst.body.term, &*snd.body.term) {
                (Term::Str(a), Term::Str(b)) => {
                    let mut s = a.clone();
                    s.append(b.as_str());
                    Result::Ok(Closure::atomic_closure(RichTerm::from_term(Term::Str(s))))
                },
                _ => Result::Err(
                    EvalError::Other(
                        String::from_str("a concatenation of something else than strings"),
                        pos,
                    ),
                ),
            }
        },
        BinaryOp::Merge() => merge(fst, snd, pos),
        _ => Result::Err(
            EvalError::Other(String::from_str("this primitive operation is not supported by this machine"), pos),
        ),
    }
}

} // verus!
