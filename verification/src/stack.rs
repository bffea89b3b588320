//! The main stack of the abstract machine.
//!
//! The stack holds pending arguments, pending thunk updates, and operation
//! continuations. The machine pushes as it descends into a term and pops
//! when the current term reaches weak head normal form.

use vstd::prelude::*;
use crate::eval::{clos_wf, cont_wf, marker_wf, stack_wf, Closure};
use crate::position::TermPos;
use crate::term::{BinaryOp, UnaryOp};

verus! {

/// A pending operation: a unary operator waiting for its argument, or a
/// binary operator waiting for its first or its second operand.
#[derive(Debug)]
pub enum OperationCont {
    /// The operator, the environment captured at its dispatch (for the
    /// terms the operator embeds), and the position of the argument.
    Op1(UnaryOp, crate::eval::Environment, TermPos),
    /// The operator, the closure of the unevaluated second operand, the
    /// position of the first operand, and the strictness flag to restore.
    Op2First(BinaryOp, Closure, TermPos, bool),
    /// The operator, the evaluated first operand, the position of the
    /// second operand, and the strictness flag to restore.
    Op2Second(BinaryOp, Closure, TermPos, bool),
}

/// One element of the main stack.
#[derive(Debug)]
pub enum Marker {
    /// A pending argument.
    Arg(Closure, TermPos),
    /// A pending update of the thunk at this store index.
    Thunk(usize),
    /// A pending operation, with the call-stack depth at its dispatch and
    /// its position.
    Cont(OperationCont, usize, TermPos),
}

/// The main stack.
#[derive(Debug)]
pub struct Stack {
    items: Vec<Marker>,
}

impl View for Stack {
    type V = Seq<Marker>;

    closed spec fn view(&self) -> Seq<Marker> {
        self.items@
    }
}

/// How many consecutive pending arguments lie on top of the stack.
pub open spec fn args_on_top(s: Seq<Marker>) -> int
    decreases s.len(),
{
    if s.len() == 0 {
        0
    } else if s.last() is Arg {
        1 + args_on_top(s.drop_last())
    } else {
        0
    }
}

/// The count of pending arguments on top is never negative.
pub proof fn lemma_args_on_top_nonneg(s: Seq<Marker>)
    ensures
        args_on_top(s) >= 0,
    decreases s.len(),
{
    if s.len() > 0 && s.last() is Arg {
        lemma_args_on_top_nonneg(s.drop_last());
    }
}

/// How many consecutive pending thunk updates lie on top of the stack.
pub open spec fn thunks_on_top(s: Seq<Marker>) -> int
    decreases s.len(),
{
    if s.len() == 0 {
        0
    } else if s.last() is Thunk {
        1 + thunks_on_top(s.drop_last())
    } else {
        0
    }
}


/// Pushing a well-formed element keeps the stack well-formed.
pub proof fn lemma_stack_wf_push(s1: Seq<Marker>, s2: Seq<Marker>)
    requires
        s2.len() == s1.len() + 1,
        s2.take(s1.len() as int) == s1,
    ensures
        forall|n: int|
            #![trigger stack_wf(s1, n)]
            stack_wf(s1, n) && marker_wf(s2.last(), n) ==> stack_wf(s2, n),
{
    assert forall|n: int|
        stack_wf(s1, n) && marker_wf(s2.last(), n) implies #[trigger] stack_wf(s2, n) by {
        assert forall|i: int| 0 <= i < s2.len() implies marker_wf(#[trigger] s2[i], n) by {
            if i < s1.len() {
                assert(s2[i] == s1[i]);
                assert(marker_wf(s1[i], n));
            }
        }
    }
}

/// Popping keeps the stack well-formed, and the popped element was
/// well-formed.
pub proof fn lemma_stack_wf_pop(s1: Seq<Marker>, s2: Seq<Marker>)
    requires
        s1.len() > 0,
        s2 == s1.drop_last(),
    ensures
        forall|n: int|
            #![trigger stack_wf(s1, n)]
            stack_wf(s1, n) ==> stack_wf(s2, n) && marker_wf(s1.last(), n),
{
    assert forall|n: int| stack_wf(s1, n) implies stack_wf(s2, n) && marker_wf(s1.last(), n) by {
        assert(marker_wf(s1[s1.len() - 1], n));
        assert forall|i: int| 0 <= i < s2.len() implies marker_wf(#[trigger] s2[i], n) by {
            assert(s2[i] == s1[i]);
            assert(marker_wf(s1[i], n));
        }
    }
}

impl Stack {
    /// An empty stack.
    pub fn new() -> (res: Stack)
        ensures
            res@ == Seq::<Marker>::empty(),
    {
        Stack { items: Vec::new() }
    }

    /// Push a pending argument.
    pub fn push_arg(&mut self, arg: Closure, pos: TermPos)
        ensures
            final(self)@ == old(self)@.push(Marker::Arg(arg, pos)),
            forall|n: int|
                #![trigger stack_wf(old(self)@, n)]
                stack_wf(old(self)@, n) && clos_wf(arg, n) ==> stack_wf(final(self)@, n),
    {
        self.items.push(Marker::Arg(arg, pos));
        proof {
            assert(self@.take(old(self)@.len() as int) =~= old(self)@);
            lemma_stack_wf_push(old(self)@, self@);
        }
    }

    /// Push a pending thunk update.
    pub fn push_thunk(&mut self, thunk: usize)
        ensures
            final(self)@ == old(self)@.push(Marker::Thunk(thunk)),
            forall|n: int|
                #![trigger stack_wf(old(self)@, n)]
                stack_wf(old(self)@, n) && thunk < n ==> stack_wf(final(self)@, n),
    {
        self.items.push(Marker::Thunk(thunk));
        proof {
            assert(self@.take(old(self)@.len() as int) =~= old(self)@);
            lemma_stack_wf_push(old(self)@, self@);
        }
    }

    /// Push a pending operation.
    pub fn push_op_cont(&mut self, cont: OperationCont, depth: usize, pos: TermPos)
        ensures
            final(self)@ == old(self)@.push(Marker::Cont(cont, depth, pos)),
            forall|n: int|
                #![trigger stack_wf(old(self)@, n)]
                stack_wf(old(self)@, n) && cont_wf(cont, n) ==> stack_wf(final(self)@, n),
    {
        self.items.push(Marker::Cont(cont, depth, pos));
        proof {
            assert(self@.take(old(self)@.len() as int) =~= old(self)@);
            lemma_stack_wf_push(old(self)@, self@);
        }
    }

    /// Whether a pending thunk update is on top.
    pub fn is_top_thunk(&self) -> (r: bool)
        ensures
            r == (self@.len() > 0 && self@.last() is Thunk),
    {
        match self.items.last() {
            Option::Some(Marker::Thunk(_)) => true,
            _ => false,
        }
    }

    /// Whether a pending operation is on top.
    pub fn is_top_cont(&self) -> (r: bool)
        ensures
            r == (self@.len() > 0 && self@.last() is Cont),
    {
        match self.items.last() {
            Option::Some(Marker::Cont(_, _, _)) => true,
            _ => false,
        }
    }

    /// Whether a pending argument is on top; arguments are consumed by
    /// functions and by the primitives that dispatch on them.
    pub fn has_args(&self) -> (r: bool)
        ensures
            r == (args_on_top(self@) > 0),
    {
        proof {
            if self@.len() > 0 {
                lemma_args_on_top_nonneg(self@.drop_last());
            }
        }
        match self.items.last() {
            Option::Some(Marker::Arg(_, _)) => true,
            _ => false,
        }
    }

    /// Pop a pending argument, when one is on top.
    pub fn pop_arg(&mut self) -> (r: Option<(Closure, TermPos)>)
        ensures
            match r {
                Option::Some((clos, pos)) => {
                    &&& old(self)@.len() > 0
                    &&& old(self)@.last() == Marker::Arg(clos, pos)
                    &&& final(self)@ == old(self)@.drop_last()
                    &&& forall|n: int|
                        #![trigger stack_wf(old(self)@, n)]
                        stack_wf(old(self)@, n) ==> stack_wf(final(self)@, n) && clos_wf(clos, n)
                },
                Option::None => {
                    &&& final(self)@ == old(self)@
                    &&& args_on_top(old(self)@) == 0
                },
            },
    {
        match self.items.last() {
            Option::Some(Marker::Arg(_, _)) => {
                match self.items.pop() {
                    Option::Some(Marker::Arg(clos, pos)) => {
                        proof {
                            lemma_stack_wf_pop(old(self)@, self@);
                        }
                        Option::Some((clos, pos))
                    },
                    _ => Option::None,
                }
            }
            _ => Option::None,
        }
    }

    /// Pop a pending thunk update, when one is on top.
    pub fn pop_thunk(&mut self) -> (r: Option<usize>)
        ensures
            match r {
                Option::Some(thunk) => {
                    &&& old(self)@.len() > 0
                    &&& old(self)@.last() == Marker::Thunk(thunk)
                    &&& final(self)@ == old(self)@.drop_last()
                    &&& forall|n: int|
                        #![trigger stack_wf(old(self)@, n)]
                        stack_wf(old(self)@, n) ==> stack_wf(final(self)@, n) && thunk < n
                },
                Option::None => {
                    &&& final(self)@ == old(self)@
                    &&& thunks_on_top(old(self)@) == 0
                },
            },
    {
        match self.items.last() {
            Option::Some(Marker::Thunk(_)) => {
                match self.items.pop() {
                    Option::Some(Marker::Thunk(thunk)) => {
                        proof {
                            lemma_stack_wf_pop(old(self)@, self@);
                        }
                        Option::Some(thunk)
                    },
                    _ => Option::None,
                }
            }
            _ => Option::None,
        }
    }

    /// Pop a pending operation, when one is on top.
    pub fn pop_op_cont(&mut self) -> (r: Option<(OperationCont, usize, TermPos)>)
        ensures
            match r {
                Option::Some((cont, depth, pos)) => {
                    &&& old(self)@.len() > 0
                    &&& old(self)@.last() == Marker::Cont(cont, depth, pos)
                    &&& final(self)@ == old(self)@.drop_last()
                    &&& forall|n: int|
                        #![trigger stack_wf(old(self)@, n)]
                        stack_wf(old(self)@, n) ==> stack_wf(final(self)@, n) && cont_wf(cont, n)
                },
                Option::None => {
                    &&& final(self)@ == old(self)@
                    &&& !(old(self)@.len() > 0 && old(self)@.last() is Cont)
                },
            },
    {
        match self.items.last() {
            Option::Some(Marker::Cont(_, _, _)) => {
                match self.items.pop() {
                    Option::Some(Marker::Cont(cont, depth, pos)) => {
                        proof {
                            lemma_stack_wf_pop(old(self)@, self@);
                        }
                        Option::Some((cont, depth, pos))
                    },
                    _ => Option::None,
                }
            }
            _ => Option::None,
        }
    }
}

} // verus!
