//! Evaluation: the abstract machine.
//!
//! The machine reduces a term to weak head normal form. It is a loop over a
//! single current closure, with a main stack of pending arguments, thunk
//! updates and operation continuations (see [`crate::stack`]), a pair of
//! environments mapping identifiers to thunks — the local one travels with
//! each closure, the global one holds the builtins — and a call stack kept
//! for diagnostics.
//!
//! Thunks live in a [`ThunkStore`]: a shared mutable cell is an index into
//! the store, so aliasing a thunk is copying an index, and updating it in
//! place is writing through the store.

use vstd::prelude::*;
use crate::error::EvalError;
use crate::identifier::{Ident, IdentView};
use crate::position::TermPos;
use crate::stack::{args_on_top, lemma_args_on_top_nonneg, thunks_on_top, Marker, OperationCont, Stack};
use crate::term::{BindingType, StrChunk, Term, RichTerm, UnaryOp};
use vstd::string::StringExecFns;

verus! {

/// What kind of binding introduced an identifier; informational, used for
/// diagnostics only.
#[derive(Debug, Clone, Copy, PartialEq, Eq, Structural, Hash)]
pub enum IdentKind {
    Let(),
    Lam(),
    Record(),
}

/// A call stack element: the history of applications and variable
/// dereferences, kept for error reporting.
#[derive(Debug, PartialEq)]
pub enum StackElem {
    App(TermPos),
    Var(IdentKind, Ident, TermPos),
}

/// A call stack.
pub type CallStack = Vec<StackElem>;

/// One binding of an environment: an identifier bound to the thunk at a
/// store index, together with the kind of binder that introduced it.
#[derive(Debug, PartialEq)]
pub struct EnvEntry {
    pub id: Ident,
    pub thunk: usize,
    pub kind: IdentKind,
}

impl Clone for EnvEntry {
    fn clone(&self) -> (res: Self)
        ensures
            res == *self,
    {
        EnvEntry { id: self.id.clone(), thunk: self.thunk, kind: self.kind }
    }
}

/// What an identifier resolves to in a sequence of bindings: the latest
/// binding wins, so shadowing is insertion, never mutation.
pub open spec fn env_lookup(s: Seq<EnvEntry>, id: IdentView) -> Option<EnvEntry>
    decreases s.len(),
{
    if s.len() == 0 {
        Option::None
    } else if s.last().id@ == id {
        Option::Some(s.last())
    } else {
        env_lookup(s.drop_last(), id)
    }
}

/// An environment: a finite mapping from identifiers to thunks.
#[derive(Debug)]
pub struct Environment {
    entries: Vec<EnvEntry>,
}

impl View for Environment {
    type V = Seq<EnvEntry>;

    closed spec fn view(&self) -> Seq<EnvEntry> {
        self.entries@
    }
}

impl Clone for Environment {
    fn clone(&self) -> (res: Self)
        ensures
            res@ == self@,
    {
        let entries = self.entries.clone();
        proof {
            crate::eval::lemma_env_entries_clone(self.entries@, entries@);
        }
        Environment { entries }
    }
}

/// Cloning a vector of environment entries preserves it exactly.
pub proof fn lemma_env_entries_clone(v: Seq<EnvEntry>, r: Seq<EnvEntry>)
    requires
        r.len() == v.len(),
        forall|i: int| #![all_triggers] 0 <= i < v.len() ==> cloned::<EnvEntry>(v[i], r[i]),
    ensures
        r == v,
{
    assert forall|i: int| 0 <= i < v.len() implies r[i] == v[i] by {
        assert(cloned::<EnvEntry>(v[i], r[i]));
    }
    assert(r =~= v);
}

impl Environment {
    /// The empty environment.
    pub fn new() -> (res: Environment)
        ensures
            res@ == Seq::<EnvEntry>::empty(),
    {
        Environment { entries: Vec::new() }
    }

    /// Bind `id` to the thunk at `thunk`; an existing binding of the same
    /// identifier is shadowed.
    pub fn insert(&mut self, id: Ident, thunk: usize, kind: IdentKind)
        ensures
            final(self)@ == old(self)@.push(EnvEntry { id, thunk, kind }),
    {
        self.entries.push(EnvEntry { id, thunk, kind });
    }

    /// Append every binding of `other`, shadowing what it rebinds.
    pub fn extend(&mut self, other: &Environment)
        ensures
            final(self)@ == old(self)@ + other@,
    {
        let mut i: usize = 0;
        while i < other.entries.len()
            invariant
                i <= other@.len(),
                self@ == old(self)@ + other@.take(i as int),
            decreases other@.len() - i,
        {
            self.entries.push(other.entries[i].clone());
            proof {
                assert(self@ =~= old(self)@ + other@.take(i + 1));
            }
            i = i + 1;
        }
        proof {
            assert(other@.take(other@.len() as int) =~= other@);
        }
    }

    /// Look an identifier up: the most recent binding, if any.
    pub fn get(&self, id: &Ident) -> (r: Option<(usize, IdentKind)>)
        ensures
            match r {
                Option::Some((thunk, kind)) => env_lookup(self@, id@) matches Option::Some(e)
                    && e.thunk == thunk && e.kind == kind,
                Option::None => env_lookup(self@, id@) is None,
            },
    {
        let mut i: usize = self.entries.len();
        proof {
            assert(self@.take(self@.len() as int) =~= self@);
        }
        while i > 0
            invariant
                i <= self@.len(),
                env_lookup(self@, id@) == env_lookup(self@.take(i as int), id@),
            decreases i,
        {
            i = i - 1;
            let e = &self.entries[i];
            if e.id.same(id) {
                proof {
                    assert(self@.take(i + 1).last() == self@[i as int]);
                }
                return Option::Some((e.thunk, e.kind));
            }
            proof {
                assert(self@.take(i + 1).drop_last() =~= self@.take(i as int));
                assert(self@.take(i + 1).last() == self@[i as int]);
            }
        }
        proof {
            assert(self@.take(0) =~= Seq::<EnvEntry>::empty());
        }
        Option::None
    }
}

/// A closure: a term together with an environment.
#[derive(Debug)]
pub struct Closure {
    pub body: RichTerm,
    pub env: Environment,
}

/// Equality of closures up to the identity of the environment vector.
pub open spec fn clos_like(a: Closure, b: Closure) -> bool {
    a.body == b.body && a.env@ == b.env@
}

/// [`clos_like`], lifted over optional closures.
pub open spec fn opt_clos_like(a: Option<Closure>, b: Option<Closure>) -> bool {
    match (a, b) {
        (Option::Some(x), Option::Some(y)) => clos_like(x, y),
        (Option::None, Option::None) => true,
        _ => false,
    }
}

impl Clone for Closure {
    fn clone(&self) -> (res: Self)
        ensures
            clos_like(res, *self),
    {
        Closure { body: self.body.clone(), env: self.env.clone() }
    }
}

impl Closure {
    /// A closure with an empty environment, for a term that needs none.
    pub fn atomic_closure(body: RichTerm) -> (res: Closure)
        ensures
            res.body == body,
            res.env@ == Seq::<EnvEntry>::empty(),
    {
        Closure { body, env: Environment::new() }
    }
}

/// One cell of the thunk store: the closure it currently holds and, for a
/// revertible thunk, the original closure that record merging may restore.
#[derive(Debug)]
pub struct ThunkData {
    pub clos: Closure,
    pub orig: Option<Closure>,
}

/// The store of thunks. A thunk is an index into the store; sharing a
/// thunk is sharing the index.
#[derive(Debug)]
pub struct ThunkStore {
    cells: Vec<ThunkData>,
}

impl View for ThunkStore {
    type V = Seq<ThunkData>;

    closed spec fn view(&self) -> Seq<ThunkData> {
        self.cells@
    }
}

impl ThunkStore {
    /// An empty store.
    pub fn new() -> (res: ThunkStore)
        ensures
            res@ == Seq::<ThunkData>::empty(),
    {
        ThunkStore { cells: Vec::new() }
    }

    /// Allocate a thunk holding `clos`; revertible thunks remember the
    /// closure they were built from.
    pub fn new_thunk(&mut self, clos: Closure, btype: BindingType) -> (i: usize)
        ensures
            i == old(self)@.len(),
            final(self)@.len() == old(self)@.len() + 1,
            final(self)@.take(i as int) == old(self)@,
            clos_like(final(self)@[i as int].clos, clos),
            btype is Revertible ==> opt_clos_like(final(self)@[i as int].orig, Option::Some(clos)),
            btype is Normal ==> final(self)@[i as int].orig is None,
    {
        let i = self.cells.len();
        let orig = match btype {
            BindingType::Normal => Option::None,
            BindingType::Revertible => Option::Some(clos.clone()),
        };
        self.cells.push(ThunkData { clos, orig });
        proof {
            assert(self@.take(i as int) =~= old(self)@);
        }
        i
    }

    /// Read the cell at `i`.
    pub fn get(&self, i: usize) -> (r: &ThunkData)
        requires
            i < self@.len(),
        ensures
            *r == self@[i as int],
    {
        &self.cells[i]
    }

    /// Overwrite the closure of the cell at `i`; what a pending update
    /// does once the value is known.
    pub fn update(&mut self, i: usize, clos: Closure)
        requires
            i < old(self)@.len(),
        ensures
            final(self)@.len() == old(self)@.len(),
            clos_like(final(self)@[i as int].clos, clos),
            opt_clos_like(final(self)@[i as int].orig, old(self)@[i as int].orig),
            forall|j: int| 0 <= j < old(self)@.len() && j != i ==> final(self)@[j] == old(
                self,
            )@[j],
    {
        let orig = match &self.cells[i].orig {
            Option::Some(o) => Option::Some(o.clone()),
            Option::None => Option::None,
        };
        self.cells[i] = ThunkData { clos, orig };
    }

    /// Extend the environment of the cell at `i` with the bindings of
    /// `extra`; the recursive-record wiring, which lets a field refer to
    /// its siblings.
    pub fn extend_cell_env(&mut self, i: usize, extra: &Environment)
        requires
            i < old(self)@.len(),
        ensures
            final(self)@.len() == old(self)@.len(),
            final(self)@[i as int].clos.body == old(self)@[i as int].clos.body,
            final(self)@[i as int].clos.env@ == old(self)@[i as int].clos.env@ + extra@,
            opt_clos_like(final(self)@[i as int].orig, old(self)@[i as int].orig),
            forall|j: int| 0 <= j < old(self)@.len() && j != i ==> final(self)@[j] == old(
                self,
            )@[j],
    {
        let cell = &self.cells[i];
        let body = cell.clos.body.clone();
        let mut env = cell.clos.env.clone();
        let orig = match &cell.orig {
            Option::Some(o) => Option::Some(o.clone()),
            Option::None => Option::None,
        };
        env.extend(extra);
        self.cells[i] = ThunkData { clos: Closure { body, env }, orig };
    }
}

/// Whether forcing this term can make progress, so a pending update is
/// worth recording: weak head normal forms and enriched values will not
/// reduce further under the current mode.
pub open spec fn should_update_spec(t: Term) -> bool {
    !t.spec_is_whnf() && !t.spec_is_enriched()
}

/// Decide [`should_update_spec`].
pub fn should_update(t: &Term) -> (r: bool)
    ensures
        r == should_update_spec(*t),
{
    !t.is_whnf() && !t.is_enriched()
}


/// Every thunk index of these bindings points into a store of `n` cells.
pub open spec fn env_wf(s: Seq<EnvEntry>, n: int) -> bool {
    forall|i: int| 0 <= i < s.len() ==> (#[trigger] s[i]).thunk < n
}

/// Every thunk index of this closure points into a store of `n` cells.
pub open spec fn clos_wf(c: Closure, n: int) -> bool {
    env_wf(c.env@, n)
}

/// Every thunk index of this continuation points into a store of `n`
/// cells.
pub open spec fn cont_wf(c: OperationCont, n: int) -> bool {
    match c {
        OperationCont::Op1(_, env, _) => env_wf(env@, n),
        OperationCont::Op2First(_, c2, _, _) => clos_wf(c2, n),
        OperationCont::Op2Second(_, c2, _, _) => clos_wf(c2, n),
    }
}

/// Every thunk index of this stack element points into a store of `n`
/// cells.
pub open spec fn marker_wf(mk: Marker, n: int) -> bool {
    match mk {
        Marker::Arg(c, _) => clos_wf(c, n),
        Marker::Thunk(i) => i < n,
        Marker::Cont(c, _, _) => cont_wf(c, n),
    }
}

/// Every thunk index of this stack points into a store of `n` cells.
pub open spec fn stack_wf(s: Seq<Marker>, n: int) -> bool {
    forall|i: int| 0 <= i < s.len() ==> marker_wf(#[trigger] s[i], n)
}

/// Every thunk index held by the store itself points into a store of `n`
/// cells.
pub open spec fn store_wf(cells: Seq<ThunkData>, n: int) -> bool {
    forall|i: int|
        0 <= i < cells.len() ==> clos_wf((#[trigger] cells[i]).clos, n) && match cells[i].orig {
            Option::Some(o) => clos_wf(o, n),
            Option::None => true,
        }
}

/// Well-formedness survives growing the store.
pub proof fn lemma_env_wf_mono(s: Seq<EnvEntry>, n: int, n2: int)
    requires
        env_wf(s, n),
        n <= n2,
    ensures
        env_wf(s, n2),
{
}

/// Well-formedness of a stack survives growing the store.
pub proof fn lemma_stack_wf_mono(s: Seq<Marker>, n: int, n2: int)
    requires
        stack_wf(s, n),
        n <= n2,
    ensures
        stack_wf(s, n2),
{
    assert forall|i: int| 0 <= i < s.len() implies marker_wf(#[trigger] s[i], n2) by {
        assert(marker_wf(s[i], n));
    }
}

/// Well-formedness of the store contents survives growing the store.
pub proof fn lemma_store_wf_mono(cells: Seq<ThunkData>, n: int, n2: int)
    requires
        store_wf(cells, n),
        n <= n2,
    ensures
        store_wf(cells, n2),
{
    assert forall|i: int|
        0 <= i < cells.len() implies clos_wf((#[trigger] cells[i]).clos, n2) && match cells[i].orig {
        Option::Some(o) => clos_wf(o, n2),
        Option::None => true,
    } by {
        assert(clos_wf(cells[i].clos, n) && match cells[i].orig {
            Option::Some(o) => clos_wf(o, n),
            Option::None => true,
        });
    }
}



/// Whether a stack element is the pending update of the thunk `i`.
pub open spec fn is_thunk_of(mk: Marker, i: int) -> bool {
    mk matches Marker::Thunk(t) && t == i
}

/// Whether the maximal run of pending updates on top of `s` names the
/// thunk `i`.
pub open spec fn thunk_popped(s: Seq<Marker>, i: int) -> bool {
    exists|j: int| s.len() - thunks_on_top(s) <= j < s.len() && is_thunk_of(#[trigger] s[j], i)
}

/// The store after draining the pending updates of `s` with the closure
/// `(cbody, cenv)`: every thunk named by the popped run now holds that
/// closure, everything else is untouched.
pub open spec fn store_drained(
    s: Seq<Marker>,
    st1: Seq<ThunkData>,
    st2: Seq<ThunkData>,
    cbody: RichTerm,
    cenv: Seq<EnvEntry>,
) -> bool {
    &&& st2.len() == st1.len()
    &&& forall|i: int|
        0 <= i < st1.len() ==> if thunk_popped(s, i) {
            (#[trigger] st2[i]).clos.body == cbody && st2[i].clos.env@ == cenv && opt_clos_like(
                st2[i].orig,
                st1[i].orig,
            )
        } else {
            st2[i] == st1[i]
        }
}

/// The number of pending updates on top is never negative and never more
/// than the stack.
pub proof fn lemma_thunks_on_top_bounds(s: Seq<Marker>)
    ensures
        0 <= thunks_on_top(s) <= s.len(),
    decreases s.len(),
{
    if s.len() > 0 && s.last() is Thunk {
        lemma_thunks_on_top_bounds(s.drop_last());
    }
}

/// Counting the pending updates on top of a stack whose last `k` elements
/// are all updates comes down to counting below them.
pub proof fn lemma_thunks_on_top_take(s: Seq<Marker>, m: int)
    requires
        0 <= m <= s.len(),
        forall|j: int| m <= j < s.len() ==> s[j] is Thunk,
    ensures
        thunks_on_top(s) == s.len() - m + thunks_on_top(s.take(m)),
    decreases s.len() - m,
{
    if m == s.len() {
        assert(s.take(m) =~= s);
    } else {
        assert(s.last() is Thunk);
        assert(s.drop_last() =~= s.take(s.len() - 1));
        lemma_thunks_on_top_take(s.take(s.len() - 1), m);
        assert(s.take(s.len() - 1).take(m) =~= s.take(m));
    }
}

/// Pop every consecutive pending update from the top of the stack and
/// overwrite each named thunk with the given closure.
#[verifier::loop_isolation(false)]
pub fn update_thunks(stack: &mut Stack, store: &mut ThunkStore, closure: &Closure)
    requires
        stack_wf(old(stack)@, old(store)@.len() as int),
    ensures
        final(stack)@ == old(stack)@.take(old(stack)@.len() - thunks_on_top(old(stack)@)),
        store_drained(old(stack)@, old(store)@, final(store)@, closure.body, closure.env@),
        final(stack)@.len() == 0 || !(final(stack)@.last() is Thunk),
{
    proof {
        lemma_thunks_on_top_bounds(old(stack)@);
    }
    loop
        invariant
            stack@.len() <= old(stack)@.len(),
            stack@ == old(stack)@.take(stack@.len() as int),
            forall|j: int| stack@.len() <= j < old(stack)@.len() ==> old(stack)@[j] is Thunk,
            store@.len() == old(store)@.len(),
            forall|i: int|
                0 <= i < old(store)@.len() ==> if popped_between(
                    old(stack)@,
                    stack@.len() as int,
                    i,
                ) {
                    (#[trigger] store@[i]).clos.body == closure.body && store@[i].clos.env@
                        == closure.env@ && opt_clos_like(store@[i].orig, old(store)@[i].orig)
                } else {
                    store@[i] == old(store)@[i]
                },
        decreases stack@.len(),
    {
        let ghost pre_len = stack@.len() as int;
        match stack.pop_thunk() {
            Option::Some(idx) => {
                proof {
                    assert(old(stack)@[pre_len - 1] == Marker::Thunk(idx));
                    assert(marker_wf(old(stack)@[pre_len - 1], old(store)@.len() as int));
                    assert(stack@ =~= old(stack)@.take(stack@.len() as int));
                }
                let ghost mid = store@;
                store.update(idx, closure.clone());
                proof {
                    assert forall|i: int| 0 <= i < old(store)@.len() implies (if popped_between(
                        old(stack)@,
                        stack@.len() as int,
                        i,
                    ) {
                        (#[trigger] store@[i]).clos.body == closure.body && store@[i].clos.env@
                            == closure.env@ && opt_clos_like(store@[i].orig, old(store)@[i].orig)
                    } else {
                        store@[i] == old(store)@[i]
                    }) by {
                        let lo = stack@.len() as int;
                        if i == idx {
                            assert(is_thunk_of(old(stack)@[pre_len - 1], i));
                            assert(popped_between(old(stack)@, lo, i));
                        } else {
                            assert(store@[i] == mid[i]);
                            if popped_between(old(stack)@, lo, i) {
                                let j = choose|j: int|
                                    lo <= j < old(stack)@.len() && is_thunk_of(
                                        #[trigger] old(stack)@[j],
                                        i,
                                    );
                                if j == pre_len - 1 {
                                    assert(false);
                                } else {
                                    assert(popped_between(old(stack)@, pre_len, i));
                                }
                            } else {
                                if popped_between(old(stack)@, pre_len, i) {
                                    let j = choose|j: int|
                                        pre_len <= j < old(stack)@.len() && is_thunk_of(
                                            #[trigger] old(stack)@[j],
                                            i,
                                        );
                                    assert(is_thunk_of(old(stack)@[j], i));
                                    assert(popped_between(old(stack)@, lo, i));
                                }
                            }
                        }
                    }
                }
            }
            Option::None => {
                proof {
                    let m = stack@.len() as int;
                    lemma_thunks_on_top_take(old(stack)@, m);
                    assert(thunks_on_top(stack@) == 0);
                    assert(thunks_on_top(old(stack)@) == old(stack)@.len() - m);
                    assert forall|i: int| 0 <= i < old(store)@.len() implies (if thunk_popped(
                        old(stack)@,
                        i,
                    ) {
                        (#[trigger] store@[i]).clos.body == closure.body && store@[i].clos.env@
                            == closure.env@ && opt_clos_like(store@[i].orig, old(store)@[i].orig)
                    } else {
                        store@[i] == old(store)@[i]
                    }) by {
                        assert(thunk_popped(old(stack)@, i) == popped_between(old(stack)@, m, i));
                    }
                    if stack@.len() > 0 {
                        assert(stack@.last() == old(stack)@[m - 1]);
                        if stack@.last() is Thunk {
                            lemma_thunks_on_top_bounds(stack@.drop_last());
                            assert(thunks_on_top(stack@) >= 1);
                        }
                    }
                }
                return ;
            }
        }
    }
}

/// Whether position `lo` or later of the popped run of `s` names thunk
/// `i`.
pub open spec fn popped_between(s: Seq<Marker>, lo: int, i: int) -> bool {
    exists|j: int| lo <= j < s.len() && is_thunk_of(#[trigger] s[j], i)
}

} // verus!

// The abstract machine itself.

use crate::program::ImportResolver;
use vstd::prelude::*;

verus! {

/// The whole state of the abstract machine: the current closure, the main
/// stack, the call stack, the store of thunks and the strictness flag for
/// enriched values.
#[derive(Debug)]
pub struct Machine {
    pub clos: Closure,
    pub stack: Stack,
    pub call_stack: CallStack,
    pub store: ThunkStore,
    pub enriched_strict: bool,
}

/// What one step of the machine produced: more work, a final value, or an
/// error.
#[derive(Debug)]
pub enum StepResult {
    Continue,
    Done(Term),
    Fail(EvalError),
}

/// Resolution of an identifier: the local environment first, the global
/// one as fallback.
pub open spec fn combined_lookup(
    local: Seq<EnvEntry>,
    global: Seq<EnvEntry>,
    id: IdentView,
) -> Option<EnvEntry> {
    match env_lookup(local, id) {
        Option::Some(e) => Option::Some(e),
        Option::None => env_lookup(global, id),
    }
}

/// A successful lookup in well-formed bindings yields a valid thunk.
pub proof fn lemma_env_lookup_wf(s: Seq<EnvEntry>, id: IdentView, n: int)
    requires
        env_wf(s, n),
    ensures
        env_lookup(s, id) matches Option::Some(e) ==> 0 <= e.thunk < n,
    decreases s.len(),
{
    if s.len() > 0 {
        assert(s.drop_last() =~= s.take(s.len() - 1));
        assert(env_wf(s.drop_last(), n));
        lemma_env_lookup_wf(s.drop_last(), id, n);
    }
}

/// Concatenating well-formed bindings stays well-formed.
pub proof fn lemma_env_wf_concat(a: Seq<EnvEntry>, b: Seq<EnvEntry>, n: int)
    requires
        env_wf(a, n),
        env_wf(b, n),
    ensures
        env_wf(a + b, n),
{
    assert forall|i: int| 0 <= i < (a + b).len() implies ((a + b)[i]).thunk < n by {
        if i < a.len() {
            assert((a + b)[i] == a[i]);
        } else {
            assert((a + b)[i] == b[i - a.len()]);
        }
    }
}

impl Machine {
    /// Every thunk index of the machine and of the global environment
    /// points into the store.
    pub open spec fn wf_with(self, global: Seq<EnvEntry>) -> bool {
        &&& clos_wf(self.clos, self.store@.len() as int)
        &&& stack_wf(self.stack@, self.store@.len() as int)
        &&& store_wf(self.store@, self.store@.len() as int)
        &&& env_wf(global, self.store@.len() as int)
    }
}

/// The stack grew by exactly one element.
pub open spec fn stack_pushed1(s1: Seq<Marker>, s2: Seq<Marker>) -> bool {
    s2.len() == s1.len() + 1 && s2.take(s1.len() as int) == s1
}

/// The element is a pending argument with this body, environment and
/// position.
pub open spec fn arg_marker_like(
    mk: Marker,
    body: RichTerm,
    env: Seq<EnvEntry>,
    pos: TermPos,
) -> bool {
    mk matches Marker::Arg(c, p) && c.body == body && c.env@ == env && p == pos
}

/// What dispatching a unary operator leaves on top of the stack.
pub open spec fn op1_marker_like(
    mk: Marker,
    op: crate::term::UnaryOp,
    env: Seq<EnvEntry>,
    arg_pos: TermPos,
    depth: int,
    pos: TermPos,
) -> bool {
    &&& mk matches Marker::Cont(cont, d, p) && (cont matches OperationCont::Op1(op2, env2, pt) && {
        &&& op2.like(op)
        &&& env2@ == env
        &&& pt == arg_pos
    }) && d == depth && p == pos
}

/// What dispatching a binary operator leaves on top of the stack.
pub open spec fn op2_marker_like(
    mk: Marker,
    op: crate::term::BinaryOp,
    snd_body: RichTerm,
    env: Seq<EnvEntry>,
    fst_pos: TermPos,
    prev_strict: bool,
) -> bool {
    mk matches Marker::Cont(cont, _, _) && (cont matches OperationCont::Op2First(op2, sc, fp, prev)
        && {
        &&& op2 == op
        &&& sc.body == snd_body
        &&& sc.env@ == env
        &&& fp == fst_pos
        &&& prev == prev_strict
    })
}

/// How the strictness flag moves through an operation continuation: a
/// binary operator restores the saved flag when it completes, nothing else
/// touches it.
pub open spec fn cont_strict_ok(mk: Marker, pre_strict: bool, post_strict: bool) -> bool {
    match mk {
        Marker::Cont(cont, _, _) => match cont {
            OperationCont::Op1(_, _, _) => post_strict == pre_strict,
            OperationCont::Op2First(_, _, _, _) => post_strict == pre_strict,
            OperationCont::Op2Second(_, _, _, prev) => post_strict == prev,
        },
        _ => true,
    }
}

/// How an error of an operation surfaces from the machine's main loop: a
/// blame picks up the call stack as it first crosses the loop, anything
/// else passes through unchanged.
pub open spec fn fail_lifted(e0: EvalError, e: EvalError) -> bool {
    match e0 {
        EvalError::BlameError(l, _) => e matches EvalError::BlameError(l2, cs) && l2 == l
            && cs is Some,
        _ => e == e0,
    }
}

/// The outcome of handing a value to the pending operation on top of the
/// stack: exactly what resuming the operation yields — the next closure to
/// evaluate on success, or its error, lifted by [`fail_lifted`].
pub open spec fn cont_outcome(pre: Machine, post: Machine, r: StepResult) -> bool {
    pre.stack@.last() matches Marker::Cont(cont, d, p) ==> {
        let s1 = pre.stack@.drop_last();
        let s2 = post.stack@;
        match cont {
            OperationCont::Op1(op, env, _) => {
                &&& (r is Continue ==> crate::operation::uop_result_post(
                    op,
                    pre.clos,
                    s1,
                    s2,
                    Result::Ok(post.clos),
                ) && (op matches UnaryOp::ChunksConcat(acc, rest)
                    ==> crate::operation::chunks_concat_post(
                    acc@,
                    rest@,
                    env@,
                    pre.clos,
                    Result::Ok(post.clos),
                )))
                &&& (r matches StepResult::Fail(e) ==> exists|e0: EvalError|
                    crate::operation::uop_result_post(
                        op,
                        pre.clos,
                        s1,
                        s2,
                        Result::Err(e0),
                    ) && #[trigger] fail_lifted(e0, e))
            },
            OperationCont::Op2First(op, snd, _, prev) => {
                &&& r is Continue
                &&& post.clos.body == snd.body
                &&& post.clos.env@ == snd.env@
                &&& s2.len() == pre.stack@.len()
                &&& s2.take(s1.len() as int) == s1
                &&& (s2.last() matches Marker::Cont(c2, d2, p2) && (
                c2 matches OperationCont::Op2Second(op2, fc, _, prev2) && {
                    &&& op2 == op
                    &&& fc.body == pre.clos.body
                    &&& fc.env@ == pre.clos.env@
                    &&& prev2 == prev
                }) && d2 == d && p2 == p)
            },
            OperationCont::Op2Second(op, fst, _, _) => {
                &&& s2 == s1
                &&& (r is Continue ==> crate::operation::bop_result_post(
                    op,
                    fst,
                    pre.clos,
                    Result::Ok(post.clos),
                ))
                &&& (r matches StepResult::Fail(e) ==> exists|e0: EvalError|
                    crate::operation::bop_result_post(
                        op,
                        fst,
                        pre.clos,
                        Result::Err(e0),
                    ) && #[trigger] fail_lifted(e0, e))
            },
        }
    }
}

/// What the machine does when the current term is a weak head normal form:
/// drain pending updates, else hand the value to a pending operation, else
/// apply a function to a pending argument, else stop.
pub open spec fn value_post(pre: Machine, post: Machine, r: StepResult) -> bool {
    let s = pre.stack@;
    if thunks_on_top(s) > 0 {
        &&& r is Continue
        &&& post.clos == pre.clos
        &&& post.stack@ == s.take(s.len() - thunks_on_top(s))
        &&& store_drained(s, pre.store@, post.store@, pre.clos.body, pre.clos.env@)
        &&& post.enriched_strict == pre.enriched_strict
    } else if s.len() > 0 && s.last() is Cont {
        &&& !(r is Done)
        &&& post.store@ == pre.store@
        &&& cont_strict_ok(s.last(), pre.enriched_strict, post.enriched_strict)
        &&& cont_outcome(pre, post, r)
        &&& (r matches StepResult::Fail(e) ==> (e matches EvalError::BlameError(l, cs)
            ==> cs is Some))
    } else if args_on_top(s) > 0 {
        match pre.clos.body.node() {
            Term::Fun(x, body) => {
                &&& r is Continue
                &&& post.clos.body == body
                &&& post.clos.env@.len() == pre.clos.env@.len() + 1
                &&& post.clos.env@.take(pre.clos.env@.len() as int) == pre.clos.env@
                &&& post.clos.env@.last().id == x
                &&& post.clos.env@.last().thunk == pre.store@.len()
                &&& post.clos.env@.last().kind == IdentKind::Lam()
                &&& post.store@.len() == pre.store@.len() + 1
                &&& post.store@.take(pre.store@.len() as int) == pre.store@
                &&& (s.last() matches Marker::Arg(c, _) && post.store@.last().clos.body == c.body
                    && post.store@.last().clos.env@ == c.env@)
                &&& post.stack@ == s.drop_last()
                &&& post.enriched_strict == pre.enriched_strict
            },
            _ => {
                &&& r matches StepResult::Fail(e) && (e matches EvalError::NotAFunc(t, a, p) && {
                    &&& t == pre.clos.body
                    &&& s.last() matches Marker::Arg(c, ap) && a == c.body && p == ap
                })
            },
        }
    } else {
        r matches StepResult::Done(t) && t.like(pre.clos.body.node())
    }
}

/// Unwrapping an enriched value under a strict context: the pending
/// updates are first drained with the still-enriched closure, so later
/// reads of a shared thunk still see the metadata; then the wrapper is
/// peeled off.
pub open spec fn enriched_unwrap_post(
    pre: Machine,
    post: Machine,
    r: StepResult,
    inner: RichTerm,
) -> bool {
    let s = pre.stack@;
    &&& r is Continue
    &&& post.clos.body == inner
    &&& post.clos.env@ == pre.clos.env@
    &&& post.stack@ == s.take(s.len() - thunks_on_top(s))
    &&& store_drained(s, pre.store@, post.store@, pre.clos.body, pre.clos.env@)
    &&& post.enriched_strict == pre.enriched_strict
}

/// Dispatching a contract check: the checked term and the label become
/// pending arguments, and the machine continues with the contract
/// associated with the type.
pub open spec fn contract_dispatch_post(
    pre: Machine,
    post: Machine,
    r: StepResult,
    ty: crate::types::Types,
    l: crate::label::Label,
    t: RichTerm,
) -> bool {
    &&& r is Continue
    &&& ty.contract_matches(post.clos.body)
    &&& post.clos.env@ == pre.clos.env@
    &&& post.stack@.len() == pre.stack@.len() + 2
    &&& post.stack@.take(pre.stack@.len() as int) == pre.stack@
    &&& arg_marker_like(post.stack@[pre.stack@.len() as int], t, pre.clos.env@, TermPos::NoPos)
    &&& (post.stack@.last() matches Marker::Arg(c, p) && c.body.node() == Term::Lbl(l) && c.env@.len()
        == 0 && p == TermPos::NoPos)
    &&& post.store@ == pre.store@
    &&& post.enriched_strict == pre.enriched_strict
}

/// Evaluating a recursive record: a recursive environment maps every field
/// to its thunk, every variable field's thunk is extended with it, and the
/// node becomes a plain record with the same fields.
pub open spec fn rec_record_post(
    pre: Machine,
    post: Machine,
    r: StepResult,
    fields: Seq<crate::term::Field>,
    attrs: crate::term::RecordAttrs,
) -> bool {
    &&& !(r is Done)
    &&& (r is Continue ==> {
        &&& post.clos.body.node() matches Term::Record(fields2, a2) && fields2@ == fields && a2
            == attrs
        &&& post.clos.env@ == pre.clos.env@
        &&& post.stack@ == pre.stack@
        &&& post.enriched_strict == pre.enriched_strict
        &&& post.store@.len() >= pre.store@.len()
        &&& forall|i: int|
            0 <= i < pre.store@.len() ==> (#[trigger] post.store@[i]).clos.body
                == pre.store@[i].clos.body && pre.store@[i].clos.env@.is_prefix_of(
                post.store@[i].clos.env@,
            )
    })
}

/// The per-case contract of one machine step.
pub open spec fn step_post(pre: Machine, post: Machine, r: StepResult, global: Seq<EnvEntry>) -> bool {
    let pos = pre.clos.body.pos;
    match pre.clos.body.node() {
        Term::Var(x) => match combined_lookup(pre.clos.env@, global, x@) {
            Option::None => r == StepResult::Fail(EvalError::UnboundIdentifier(x, pos)),
            Option::Some(e) => {
                &&& r is Continue
                &&& 0 <= e.thunk < pre.store@.len()
                &&& clos_like(post.clos, pre.store@[e.thunk as int].clos)
                &&& post.store@ == pre.store@
                &&& post.enriched_strict == pre.enriched_strict
                &&& if should_update_spec(pre.store@[e.thunk as int].clos.body.node()) {
                    stack_pushed1(pre.stack@, post.stack@) && post.stack@.last()
                        == Marker::Thunk(e.thunk)
                } else {
                    post.stack@ == pre.stack@
                }
            },
        },
        Term::App(f, a) => {
            &&& r is Continue
            &&& post.clos.body == f
            &&& post.clos.env@ == pre.clos.env@
            &&& stack_pushed1(pre.stack@, post.stack@)
            &&& arg_marker_like(post.stack@.last(), a, pre.clos.env@, pos)
            &&& post.store@ == pre.store@
            &&& post.enriched_strict == pre.enriched_strict
        },
        Term::Let(x, bound, body, btype) => {
            &&& r is Continue
            &&& post.clos.body == body
            &&& post.clos.env@.len() == pre.clos.env@.len() + 1
            &&& post.clos.env@.take(pre.clos.env@.len() as int) == pre.clos.env@
            &&& post.clos.env@.last().id == x
            &&& post.clos.env@.last().thunk == pre.store@.len()
            &&& post.clos.env@.last().kind == IdentKind::Let()
            &&& post.store@.len() == pre.store@.len() + 1
            &&& post.store@.take(pre.store@.len() as int) == pre.store@
            &&& post.store@.last().clos.body == bound
            &&& post.store@.last().clos.env@ == pre.clos.env@
            &&& (btype is Revertible ==> (post.store@.last().orig matches Option::Some(o) && o.body
                == bound && o.env@ == pre.clos.env@))
            &&& (btype is Normal ==> post.store@.last().orig is None)
            &&& post.stack@ == pre.stack@
            &&& post.enriched_strict == pre.enriched_strict
        },
        Term::Op1(op, t) => {
            &&& r is Continue
            &&& post.clos.body == t
            &&& post.clos.env@ == pre.clos.env@
            &&& stack_pushed1(pre.stack@, post.stack@)
            &&& op1_marker_like(
                post.stack@.last(),
                op,
                pre.clos.env@,
                t.pos,
                pre.call_stack@.len() as int,
                pos,
            )
            &&& post.store@ == pre.store@
            &&& post.enriched_strict == pre.enriched_strict
        },
        Term::Op2(op, fst, snd) => {
            &&& r is Continue
            &&& post.clos.body == fst
            &&& post.clos.env@ == pre.clos.env@
            &&& stack_pushed1(pre.stack@, post.stack@)
            &&& op2_marker_like(
                post.stack@.last(),
                op,
                snd,
                pre.clos.env@,
                fst.pos,
                pre.enriched_strict,
            )
            &&& post.store@ == pre.store@
            &&& post.enriched_strict == op.spec_is_strict()
        },
        Term::StrChunks(chunks) => {
            &&& r is Continue
            &&& post.stack@ == pre.stack@
            &&& post.store@ == pre.store@
            &&& post.enriched_strict == pre.enriched_strict
            &&& if chunks@.len() == 0 {
                post.clos.body.node() matches Term::Str(s) && s@ == Seq::<char>::empty()
            } else {
                &&& post.clos.env@ == pre.clos.env@
                &&& post.clos.body.node() matches Term::Op1(op, head) && (
                    op matches crate::term::UnaryOp::ChunksConcat(acc, rest) && {
                    &&& acc@ == Seq::<char>::empty()
                    &&& rest@ == chunks@.drop_last()
                    &&& match chunks@.last() {
                        crate::term::StrChunk::Literal(s) => head.node() matches Term::Str(s2)
                            && s2 == s,
                        crate::term::StrChunk::Expr(e) => head == e,
                    }
                })
            }
        },
        Term::Promise(ty, l, t) => contract_dispatch_post(pre, post, r, ty, l, t),
        Term::Assume(ty, l, t) => contract_dispatch_post(pre, post, r, ty, l, t),
        Term::RecRecord(fields, dyns, attrs) => if dyns@.len() > 0 {
            r matches StepResult::Fail(e) && (e matches EvalError::Other(_, p) && p == pos)
        } else {
            rec_record_post(pre, post, r, fields@, attrs)
        },
        Term::Contract(_, _) => if pre.enriched_strict {
            r matches StepResult::Fail(e) && (e matches EvalError::Other(_, p) && p == pos)
        } else {
            value_post(pre, post, r)
        },
        Term::DefaultValue(t) => if pre.enriched_strict {
            enriched_unwrap_post(pre, post, r, t)
        } else {
            value_post(pre, post, r)
        },
        Term::Docstring(_, t) => if pre.enriched_strict {
            enriched_unwrap_post(pre, post, r, t)
        } else {
            value_post(pre, post, r)
        },
        Term::ContractWithDefault(ty, l, t) => if pre.enriched_strict {
            &&& r is Continue
            &&& post.clos.body.node() == Term::Assume(ty, l, t)
            &&& post.clos.env@ == pre.clos.env@
            &&& post.stack@ == pre.stack@
            &&& post.store@ == pre.store@
            &&& post.enriched_strict == pre.enriched_strict
        } else {
            value_post(pre, post, r)
        },
        Term::ResolvedImport(_) => true,
        Term::Import(_) => r matches StepResult::Fail(e) && (e matches EvalError::InternalError(
            _,
            p,
        ) && p == pos),
        Term::OpN(_, _) => r matches StepResult::Fail(e) && (e matches EvalError::Other(_, p) && p
            == pos),
        _ => value_post(pre, post, r),
    }
}

} // verus!

// One step of the machine, and the main loop.

verus! {

/// Whether evaluation returns a term of this shape unchanged: a weak head
/// normal form that no strict context rewrites.
pub open spec fn spec_self_ret(t: Term) -> bool {
    t.spec_is_whnf() && !(t is DefaultValue) && !(t is Docstring) && !(t is Contract) && !(
    t is ContractWithDefault)
}

impl Machine {
    /// The machine about to evaluate `t0` from scratch, over the thunks of
    /// the global environment.
    pub open spec fn initial(self, t0: RichTerm, store0: Seq<ThunkData>) -> bool {
        &&& self.clos.body == t0
        &&& self.clos.env@.len() == 0
        &&& self.stack@.len() == 0
        &&& self.store@ == store0
        &&& self.enriched_strict
    }

    /// Perform one step: dispatch on the current term.
    #[verifier::loop_isolation(false)]
    pub fn step<R: ImportResolver>(&mut self, global_env: &Environment, resolver: &R) -> (r:
        StepResult)
        requires
            old(self).wf_with(global_env@),
        ensures
            final(self).wf_with(global_env@),
            old(self).store@.len() <= final(self).store@.len(),
            (r matches StepResult::Done(t) ==> t.spec_is_whnf()),
            step_post(*old(self), *final(self), r, global_env@),
            (old(self).clos.body.node() matches Term::ResolvedImport(id) ==> ({
                let pre = *old(self);
                let post = *final(self);
                match resolver.spec_get(id) {
                    Option::Some(t) => {
                        &&& r is Continue
                        &&& post.clos.body == t
                        &&& post.clos.env@.len() == 0
                        &&& post.stack@ == pre.stack@
                        &&& post.store@ == pre.store@
                        &&& post.enriched_strict == pre.enriched_strict
                    },
                    Option::None => r matches StepResult::Fail(e) && e is InternalError,
                }
            })),
    {
        let pos = self.clos.body.pos;
        let ghost n0 = self.store@.len() as int;
        let cur: Term = (&*self.clos.body.term).clone();
        proof {
            assert(cur.like(old(self).clos.body.node()));
        }
        match cur {
            Term::Var(x) => {
                let local = self.clos.env.get(&x);
                let looked = match local {
                    Option::Some(hit) => Option::Some(hit),
                    Option::None => global_env.get(&x),
                };
                match looked {
                    Option::None => StepResult::Fail(EvalError::UnboundIdentifier(x, pos)),
                    Option::Some((idx, kind)) => {
                        proof {
                            lemma_env_lookup_wf(self.clos.env@, x@, n0);
                            lemma_env_lookup_wf(global_env@, x@, n0);
                        }
                        let do_upd = should_update(&*self.store.get(idx).clos.body.term);
                        if do_upd {
                            self.stack.push_thunk(idx);
                            proof {
                                assert(self.stack@.take(old(self).stack@.len() as int) =~= old(
                                    self,
                                ).stack@);
                            }
                        }
                        self.call_stack.push(StackElem::Var(kind, x, pos));
                        let new_clos = self.store.get(idx).clos.clone();
                        self.clos = new_clos;
                        StepResult::Continue
                    },
                }
            },
            Term::App(f, a) => {
                let env2 = self.clos.env.clone();
                self.stack.push_arg(Closure { body: a, env: env2 }, pos);
                self.clos.body = f;
                proof {
                    assert(self.stack@.take(old(self).stack@.len() as int) =~= old(self).stack@);
                }
                StepResult::Continue
            },
            Term::Let(x, bound, body, btype) => {
                let env2 = self.clos.env.clone();
                let idx = self.store.new_thunk(Closure { body: bound, env: env2 }, btype);
                proof {
                    lemma_env_wf_mono(self.clos.env@, n0, self.store@.len() as int);
                    lemma_stack_wf_mono(self.stack@, n0, self.store@.len() as int);
                    lemma_store_wf_mono(
                        self.store@.take(n0),
                        n0,
                        self.store@.len() as int,
                    );
                    lemma_env_wf_mono(global_env@, n0, self.store@.len() as int);
                    assert forall|i: int|
                        0 <= i < self.store@.len() implies clos_wf(
                        (#[trigger] self.store@[i]).clos,
                        self.store@.len() as int,
                    ) && match self.store@[i].orig {
                        Option::Some(o) => clos_wf(o, self.store@.len() as int),
                        Option::None => true,
                    } by {
                        if i < n0 {
                            assert(self.store@[i] == self.store@.take(n0)[i]);
                        }
                    }
                }
                self.clos.env.insert(x, idx, IdentKind::Let());
                self.clos.body = body;
                proof {
                    assert(self.clos.env@.take(old(self).clos.env@.len() as int) =~= old(
                        self,
                    ).clos.env@);
                }
                StepResult::Continue
            },
            Term::Op1(op, t) => {
                let env2 = self.clos.env.clone();
                let depth = self.call_stack.len();
                let arg_pos = t.pos;
                self.stack.push_op_cont(OperationCont::Op1(op, env2, arg_pos), depth, pos);
                self.clos.body = t;
                proof {
                    assert(self.stack@.take(old(self).stack@.len() as int) =~= old(self).stack@);
                }
                StepResult::Continue
            },
            Term::Op2(op, fst, snd) => {
                let prev = self.enriched_strict;
                self.enriched_strict = op.is_strict();
                let env2 = self.clos.env.clone();
                let depth = self.call_stack.len();
                let fst_pos = fst.pos;
                self.stack.push_op_cont(
                    OperationCont::Op2First(op, Closure { body: snd, env: env2 }, fst_pos, prev),
                    depth,
                    pos,
                );
                self.clos.body = fst;
                proof {
                    assert(self.stack@.take(old(self).stack@.len() as int) =~= old(self).stack@);
                }
                StepResult::Continue
            },
            Term::StrChunks(chunks) => {
                let mut chunks = chunks;
                match chunks.pop() {
                    Option::None => {
                        self.clos.body = RichTerm::from_term(Term::Str(String::new()));
                        StepResult::Continue
                    },
                    Option::Some(StrChunk::Literal(s)) => {
                        self.clos.body = RichTerm::new(
                            Term::Op1(
                                UnaryOp::ChunksConcat(String::new(), chunks),
                                RichTerm::from_term(Term::Str(s)),
                            ),
                            pos,
                        );
                        StepResult::Continue
                    },
                    Option::Some(StrChunk::Expr(e)) => {
                        self.clos.body = RichTerm::new(
                            Term::Op1(UnaryOp::ChunksConcat(String::new(), chunks), e),
                            pos,
                        );
                        StepResult::Continue
                    },
                }
            },
            Term::Promise(ty, l, t) => {
                let env2 = self.clos.env.clone();
                self.stack.push_arg(Closure { body: t, env: env2 }, TermPos::NoPos);
                self.stack.push_arg(
                    Closure::atomic_closure(RichTerm::from_term(Term::Lbl(l))),
                    TermPos::NoPos,
                );
                self.clos.body = ty.contract();
                proof {
                    assert(self.stack@.take(old(self).stack@.len() as int) =~= old(self).stack@);
                }
                StepResult::Continue
            },
            Term::Assume(ty, l, t) => {
                let env2 = self.clos.env.clone();
                self.stack.push_arg(Closure { body: t, env: env2 }, TermPos::NoPos);
                self.stack.push_arg(
                    Closure::atomic_closure(RichTerm::from_term(Term::Lbl(l))),
                    TermPos::NoPos,
                );
                self.clos.body = ty.contract();
                proof {
                    assert(self.stack@.take(old(self).stack@.len() as int) =~= old(self).stack@);
                }
                StepResult::Continue
            },
            Term::RecRecord(fields, dyns, attrs) => {
                if dyns.len() > 0 {
                    return StepResult::Fail(
                        EvalError::Other(
                            String::from_str(
                                "dynamic record fields are not supported by this machine",
                            ),
                            pos,
                        ),
                    );
                }
                self.eval_rec_record(fields, attrs, pos, Ghost(global_env@))
            },
            Term::Contract(_, _) => {
                if self.enriched_strict {
                    StepResult::Fail(
                        EvalError::Other(
                            String::from_str(
                                "a contract is not a value; an undefined field carrying a contract was accessed",
                            ),
                            pos,
                        ),
                    )
                } else {
                    self.value_step(Ghost(global_env@))
                }
            },
            Term::DefaultValue(t) => {
                if self.enriched_strict {
                    update_thunks(&mut self.stack, &mut self.store, &self.clos);
                    proof {
                        lemma_thunks_on_top_bounds(old(self).stack@);
                        lemma_stack_wf_take_general(old(self).stack@, self.stack@, n0);
                        assert forall|i: int|
                            0 <= i < self.store@.len() implies clos_wf(
                            (#[trigger] self.store@[i]).clos,
                            n0,
                        ) && match self.store@[i].orig {
                            Option::Some(o) => clos_wf(o, n0),
                            Option::None => true,
                        } by {
                            if thunk_popped(old(self).stack@, i) {
                                assert(self.store@[i].clos.env@ == old(self).clos.env@);
                                assert(opt_clos_like(self.store@[i].orig, old(self).store@[i].orig));
                            } else {
                                assert(self.store@[i] == old(self).store@[i]);
                            }
                        }
                    }
                    self.clos.body = t;
                    StepResult::Continue
                } else {
                    self.value_step(Ghost(global_env@))
                }
            },
            Term::Docstring(_, t) => {
                if self.enriched_strict {
                    update_thunks(&mut self.stack, &mut self.store, &self.clos);
                    proof {
                        lemma_thunks_on_top_bounds(old(self).stack@);
                        lemma_stack_wf_take_general(old(self).stack@, self.stack@, n0);
                        assert forall|i: int|
                            0 <= i < self.store@.len() implies clos_wf(
                            (#[trigger] self.store@[i]).clos,
                            n0,
                        ) && match self.store@[i].orig {
                            Option::Some(o) => clos_wf(o, n0),
                            Option::None => true,
                        } by {
                            if thunk_popped(old(self).stack@, i) {
                                assert(self.store@[i].clos.env@ == old(self).clos.env@);
                                assert(opt_clos_like(self.store@[i].orig, old(self).store@[i].orig));
                            } else {
                                assert(self.store@[i] == old(self).store@[i]);
                            }
                        }
                    }
                    self.clos.body = t;
                    StepResult::Continue
                } else {
                    self.value_step(Ghost(global_env@))
                }
            },
            Term::ContractWithDefault(ty, l, t) => {
                if self.enriched_strict {
                    self.clos.body = RichTerm::from_term(Term::Assume(ty, l, t));
                    StepResult::Continue
                } else {
                    self.value_step(Ghost(global_env@))
                }
            },
            Term::ResolvedImport(id) => {
                match resolver.get(id) {
                    Option::Some(t) => {
                        self.clos = Closure::atomic_closure(t);
                        StepResult::Continue
                    },
                    Option::None => StepResult::Fail(
                        EvalError::InternalError(
                            String::from_str("a resolved import was not found in the cache"),
                            pos,
                        ),
                    ),
                }
            },
            Term::Import(_) => StepResult::Fail(
                EvalError::InternalError(String::from_str("an import was not resolved"), pos),
            ),
            Term::OpN(_, _) => StepResult::Fail(
                EvalError::Other(
                    String::from_str("primitive operations of higher arity are not supported by this machine"),
                    pos,
                ),
            ),
            _ => self.value_step(Ghost(global_env@)),
        }
    }


    /// Evaluate a recursive record node: build the recursive environment,
    /// wire every variable field's thunk with it, and continue with the
    /// plain record.
    #[verifier::loop_isolation(false)]
    fn eval_rec_record(
        &mut self,
        fields: Vec<crate::term::Field>,
        attrs: crate::term::RecordAttrs,
        pos: TermPos,
        global: Ghost<Seq<EnvEntry>>,
    ) -> (r: StepResult)
        requires
            old(self).wf_with(global@),
        ensures
            final(self).wf_with(global@),
            old(self).store@.len() <= final(self).store@.len(),
            !(r is Done),
            rec_record_post(*old(self), *final(self), r, fields@, attrs),
    {
        let ghost n0 = self.store@.len() as int;
        let mut rec_env = Environment::new();
        let mut j: usize = 0;
        while j < fields.len()
            invariant
                j <= fields@.len(),
                env_wf(rec_env@, self.store@.len() as int),
                self.wf_with(global@),
                n0 <= self.store@.len(),
                self.clos == old(self).clos,
                self.stack@ == old(self).stack@,
                self.enriched_strict == old(self).enriched_strict,
                self.store@.take(n0) == old(self).store@,
            decreases fields@.len() - j,
        {
            let ghost pre_len = self.store@.len() as int;
            let f = &fields[j];
            let looked = match &*f.term.term {
                Term::Var(var_id) => {
                    match self.clos.env.get(var_id) {
                        Option::Some((idx, kind)) => Option::Some(Option::Some((idx, kind))),
                        Option::None => Option::None,
                    }
                },
                _ => Option::Some(Option::None),
            };
            match looked {
                Option::None => {
                    let var_pos = f.term.pos;
                    let bad = match &*f.term.term {
                        Term::Var(var_id) => var_id.clone(),
                        _ => Ident::Generated(0),
                    };
                    return StepResult::Fail(EvalError::UnboundIdentifier(bad, var_pos));
                },
                Option::Some(Option::Some((idx, kind))) => {
                    proof {
                        lemma_env_lookup_wf(self.clos.env@, f.term.node()->Var_0@, self.store@.len() as int);
                    }
                    rec_env.insert(f.id.clone(), idx, kind);
                },
                Option::Some(Option::None) => {
                    let idx = self.store.new_thunk(
                        Closure::atomic_closure(f.term.clone()),
                        BindingType::Normal,
                    );
                    proof {
                        let n2 = self.store@.len() as int;
                        lemma_env_wf_mono(rec_env@, pre_len, n2);
                        lemma_env_wf_mono(self.clos.env@, pre_len, n2);
                        lemma_stack_wf_mono(self.stack@, pre_len, n2);
                        lemma_env_wf_mono(global@, pre_len, n2);
                        assert forall|i: int|
                            0 <= i < self.store@.len() implies clos_wf(
                            (#[trigger] self.store@[i]).clos,
                            n2,
                        ) && match self.store@[i].orig {
                            Option::Some(o) => clos_wf(o, n2),
                            Option::None => true,
                        } by {
                            if i < pre_len {
                                assert(self.store@[i] == self.store@.take(pre_len)[i]);
                            }
                        }
                        assert(self.store@.take(n0) =~= old(self).store@);
                    }
                    rec_env.insert(f.id.clone(), idx, IdentKind::Let());
                },
            }
            j = j + 1;
        }
        let ghost mid_store = self.store@;
        let mut j: usize = 0;
        while j < fields.len()
            invariant
                j <= fields@.len(),
                env_wf(rec_env@, self.store@.len() as int),
                self.wf_with(global@),
                self.store@.len() == mid_store.len(),
                n0 <= self.store@.len(),
                self.clos == old(self).clos,
                self.stack@ == old(self).stack@,
                self.enriched_strict == old(self).enriched_strict,
                forall|i: int|
                    0 <= i < n0 ==> (#[trigger] self.store@[i]).clos.body
                        == old(self).store@[i].clos.body && old(self).store@[
                        i
                    ].clos.env@.is_prefix_of(self.store@[i].clos.env@),
            decreases fields@.len() - j,
        {
            let f = &fields[j];
            let is_var = match &*f.term.term {
                Term::Var(_) => true,
                _ => false,
            };
            if is_var {
                let looked = match &*f.term.term {
                    Term::Var(var_id) => self.clos.env.get(var_id),
                    _ => Option::None,
                };
                match looked {
                    Option::Some((idx, _)) => {
                        proof {
                            lemma_env_lookup_wf(
                                self.clos.env@,
                                f.term.node()->Var_0@,
                                self.store@.len() as int,
                            );
                        }
                        let ghost pre_store = self.store@;
                        self.store.extend_cell_env(idx, &rec_env);
                        proof {
                            let n2 = self.store@.len() as int;
                            assert forall|i: int|
                                0 <= i < self.store@.len() implies clos_wf(
                                (#[trigger] self.store@[i]).clos,
                                n2,
                            ) && match self.store@[i].orig {
                                Option::Some(o) => clos_wf(o, n2),
                                Option::None => true,
                            } by {
                                if i != idx {
                                    assert(self.store@[i] == pre_store[i]);
                                    assert(clos_wf(pre_store[i].clos, n2));
                                } else {
                                    lemma_env_wf_concat(pre_store[i].clos.env@, rec_env@, n2);
                                }
                            }
                            assert forall|i: int|
                                0 <= i < n0 implies (#[trigger] self.store@[i]).clos.body == old(
                                self,
                            ).store@[i].clos.body && old(self).store@[i].clos.env@.is_prefix_of(
                                self.store@[i].clos.env@,
                            ) by {
                                if i != idx {
                                    assert(self.store@[i] == pre_store[i]);
                                } else {
                                    assert(self.store@[i].clos.env@ == pre_store[i].clos.env@
                                        + rec_env@);
                                    assert(old(self).store@[i].clos.env@.is_prefix_of(
                                        pre_store[i].clos.env@,
                                    ));
                                }
                            }
                        }
                    },
                    Option::None => {
                        let var_pos = f.term.pos;
                        let bad = match &*f.term.term {
                            Term::Var(var_id) => var_id.clone(),
                            _ => Ident::Generated(0),
                        };
                        return StepResult::Fail(EvalError::UnboundIdentifier(bad, var_pos));
                    },
                }
            }
            j = j + 1;
        }
        self.clos.body = RichTerm::new(Term::Record(fields, attrs), pos);
        StepResult::Continue
    }

    /// The machine's treatment of a weak head normal form: drain pending
    /// updates, else resume a pending operation, else apply the function to
    /// a pending argument, else stop with the value.
    #[verifier::loop_isolation(false)]
    fn value_step(&mut self, global: Ghost<Seq<EnvEntry>>) -> (r: StepResult)
        requires
            old(self).wf_with(global@),
            old(self).clos.body.node().spec_is_whnf(),
        ensures
            final(self).wf_with(global@),
            old(self).store@.len() <= final(self).store@.len(),
            (r matches StepResult::Done(t) ==> t.spec_is_whnf()),
            value_post(*old(self), *final(self), r),
    {
        let ghost n0 = self.store@.len() as int;
        if self.stack.is_top_thunk() {
            proof {
                if self.stack@.last() is Thunk {
                    lemma_thunks_on_top_bounds(self.stack@.drop_last());
                }
            }
            update_thunks(&mut self.stack, &mut self.store, &self.clos);
            proof {
                lemma_stack_wf_take_general(
                    old(self).stack@,
                    self.stack@,
                    n0,
                );
                assert forall|i: int|
                    0 <= i < self.store@.len() implies clos_wf(
                    (#[trigger] self.store@[i]).clos,
                    n0,
                ) && match self.store@[i].orig {
                    Option::Some(o) => clos_wf(o, n0),
                    Option::None => true,
                } by {
                    if thunk_popped(old(self).stack@, i) {
                        assert(self.store@[i].clos.env@ == old(self).clos.env@);
                        assert(opt_clos_like(self.store@[i].orig, old(self).store@[i].orig));
                    } else {
                        assert(self.store@[i] == old(self).store@[i]);
                    }
                }
            }
            StepResult::Continue
        } else if self.stack.is_top_cont() {
            let ghost pre = *self;
            let clos = self.clos.clone();
            let ghost clone_g = clos;
            let res = crate::operation::continuate_operation(
                clos,
                &mut self.stack,
                &mut self.call_stack,
                &mut self.enriched_strict,
            );
            let ghost res_g = res;
            match res {
                Result::Ok(c) => {
                    self.clos = c;
                    proof {
                        let s1 = pre.stack@.drop_last();
                        let s2 = self.stack@;
                        match pre.stack@.last() {
                            Marker::Cont(cont, _, _) => match cont {
                                OperationCont::Op1(op, env, _) => {
                                    crate::operation::lemma_uop_post_like(
                                        op,
                                        clone_g,
                                        pre.clos,
                                        s1,
                                        s2,
                                        Result::Ok(self.clos),
                                    );
                                    match op {
                                        UnaryOp::ChunksConcat(acc, rest) => {
                                            crate::operation::lemma_chunks_post_like(
                                                acc@,
                                                rest@,
                                                env@,
                                                clone_g,
                                                pre.clos,
                                                Result::Ok(self.clos),
                                            );
                                        },
                                        _ => {},
                                    }
                                },
                                OperationCont::Op2First(_, _, _, _) => {},
                                OperationCont::Op2Second(op, fst, _, _) => {
                                    crate::operation::lemma_bop_post_like(
                                        op,
                                        fst,
                                        clone_g,
                                        pre.clos,
                                        Result::Ok(self.clos),
                                    );
                                },
                            },
                            _ => {},
                        }
                    }
                    StepResult::Continue
                },
                Result::Err(e) => {
                    let lifted = match e {
                        EvalError::BlameError(l, _) => {
                            let mut cs: CallStack = Vec::new();
                            std::mem::swap(&mut cs, &mut self.call_stack);
                            EvalError::BlameError(l, Option::Some(cs))
                        },
                        e => e,
                    };
                    proof {
                        let s1 = pre.stack@.drop_last();
                        let s2 = self.stack@;
                        match res_g {
                            Result::Err(e0) => {
                                assert(fail_lifted(e0, lifted));
                                match pre.stack@.last() {
                                    Marker::Cont(cont, _, _) => match cont {
                                        OperationCont::Op1(op, _, _) => {
                                            crate::operation::lemma_uop_post_like(
                                                op,
                                                clone_g,
                                                pre.clos,
                                                s1,
                                                s2,
                                                Result::Err(e0),
                                            );
                                        },
                                        OperationCont::Op2First(_, _, _, _) => {
                                            assert(false);
                                        },
                                        OperationCont::Op2Second(op, fst, _, _) => {
                                            crate::operation::lemma_bop_post_like(
                                                op,
                                                fst,
                                                clone_g,
                                                pre.clos,
                                                Result::Err(e0),
                                            );
                                        },
                                    },
                                    _ => {},
                                }
                            },
                            _ => {},
                        }
                    }
                    StepResult::Fail(lifted)
                },
            }
        } else {
            match self.stack.pop_arg() {
                Option::Some((arg, apos)) => {
                    proof {
                        lemma_args_on_top_nonneg(old(self).stack@.drop_last());
                    }
                    let cur: Term = (&*self.clos.body.term).clone();
                    match cur {
                        Term::Fun(x, body) => {
                            self.call_stack.push(StackElem::App(apos));
                            let idx = self.store.new_thunk(arg, BindingType::Normal);
                            proof {
                                lemma_env_wf_mono(self.clos.env@, n0, self.store@.len() as int);
                                lemma_stack_wf_mono(self.stack@, n0, self.store@.len() as int);
                                lemma_env_wf_mono(global@, n0, self.store@.len() as int);
                                assert forall|i: int|
                                    0 <= i < self.store@.len() implies clos_wf(
                                    (#[trigger] self.store@[i]).clos,
                                    self.store@.len() as int,
                                ) && match self.store@[i].orig {
                                    Option::Some(o) => clos_wf(o, self.store@.len() as int),
                                    Option::None => true,
                                } by {
                                    if i < n0 {
                                        assert(self.store@[i] == self.store@.take(n0)[i]);
                                        assert(clos_wf(old(self).store@[i].clos, n0));
                                    }
                                }
                            }
                            self.clos.env.insert(x, idx, IdentKind::Lam());
                            self.clos.body = body;
                            proof {
                                assert(self.clos.env@.take(old(self).clos.env@.len() as int) =~= old(
                                    self,
                                ).clos.env@);
                            }
                            StepResult::Continue
                        },
                        _ => {
                            let t = self.clos.body.clone();
                            StepResult::Fail(EvalError::NotAFunc(t, arg.body, apos))
                        },
                    }
                },
                Option::None => {
                    let t: Term = (&*self.clos.body.term).clone();
                    proof {
                        lemma_like_whnf(t, self.clos.body.node());
                    }
                    StepResult::Done(t)
                },
            }
        }
    }
}

/// A stack cut down to a prefix stays well-formed.
pub proof fn lemma_stack_wf_take_general(s1: Seq<Marker>, s2: Seq<Marker>, n: int)
    requires
        stack_wf(s1, n),
        s2.len() <= s1.len(),
        forall|i: int| 0 <= i < s2.len() ==> s2[i] == s1[i],
    ensures
        stack_wf(s2, n),
{
    assert forall|i: int| 0 <= i < s2.len() implies marker_wf(#[trigger] s2[i], n) by {
        assert(marker_wf(s1[i], n));
    }
}

/// Node equality up to vector identity preserves being a weak head normal
/// form.
pub proof fn lemma_like_whnf(a: Term, b: Term)
    requires
        a.like(b),
    ensures
        a.spec_is_whnf() == b.spec_is_whnf(),
        a.spec_is_enriched() == b.spec_is_enriched(),
        a.spec_is_constant() == b.spec_is_constant(),
{
}

} // verus!

// The global environment and the evaluation entry point.

verus! {

/// The global environment: builtins accessible from anywhere, alive for a
/// whole evaluation. It owns the store cells its bindings point into; the
/// machine adopts that store when evaluation starts.
#[derive(Debug)]
pub struct GlobalEnv {
    env: Environment,
    store: ThunkStore,
}

impl GlobalEnv {
    /// The bindings.
    pub closed spec fn env_view(self) -> Seq<EnvEntry> {
        self.env@
    }

    /// The thunks the bindings point into.
    pub closed spec fn store_view(self) -> Seq<ThunkData> {
        self.store@
    }

    /// Every binding points into the store it travels with.
    pub open spec fn wf(self) -> bool {
        &&& env_wf(self.env_view(), self.store_view().len() as int)
        &&& store_wf(self.store_view(), self.store_view().len() as int)
    }

    /// An empty global environment.
    pub fn new() -> (res: GlobalEnv)
        ensures
            res.env_view() == Seq::<EnvEntry>::empty(),
            res.store_view() == Seq::<ThunkData>::empty(),
            res.wf(),
    {
        GlobalEnv { env: Environment::new(), store: ThunkStore::new() }
    }

    /// Bind `id` to a fresh thunk holding the closed term `t`.
    pub fn insert(&mut self, id: Ident, t: RichTerm)
        ensures
            final(self).env_view().len() == old(self).env_view().len() + 1,
            final(self).env_view().take(old(self).env_view().len() as int) == old(self).env_view(),
            final(self).env_view().last().id == id,
            final(self).store_view().len() == old(self).store_view().len() + 1,
            final(self).store_view().last().clos.body == t,
            final(self).store_view().last().clos.env@.len() == 0,
            old(self).wf() ==> final(self).wf(),
    {
        let ghost n0 = self.store@.len() as int;
        let idx = self.store.new_thunk(Closure::atomic_closure(t), BindingType::Normal);
        self.env.insert(id, idx, IdentKind::Let());
        proof {
            assert(self.env@.take(old(self).env@.len() as int) =~= old(self).env@);
            if old(self).wf() {
                lemma_env_wf_mono(old(self).env@, n0, self.store@.len() as int);
                assert forall|i: int|
                    0 <= i < self.env@.len() implies (#[trigger] self.env@[i]).thunk
                    < self.store@.len() by {
                    if i < old(self).env@.len() {
                        assert(self.env@[i] == old(self).env@[i]);
                    }
                }
                assert forall|i: int|
                    0 <= i < self.store@.len() implies clos_wf(
                    (#[trigger] self.store@[i]).clos,
                    self.store@.len() as int,
                ) && match self.store@[i].orig {
                    Option::Some(o) => clos_wf(o, self.store@.len() as int),
                    Option::None => true,
                } by {
                    if i < n0 {
                        assert(self.store@[i] == self.store@.take(n0)[i]);
                        assert(clos_wf(old(self).store@[i].clos, n0));
                    }
                }
            }
        }
    }
}

impl Clone for GlobalEnv {
    fn clone(&self) -> (res: Self)
        ensures
            res.env_view() == self.env_view(),
            res.store_view().len() == self.store_view().len(),
            forall|i: int|
                0 <= i < self.store_view().len() ==> clos_like(
                (#[trigger] res.store_view()[i]).clos,
                self.store_view()[i].clos,
            ) && opt_clos_like(res.store_view()[i].orig, self.store_view()[i].orig),
            self.wf() ==> res.wf(),
    {
        let env = self.env.clone();
        let store = self.store.clone_store();
        let res = GlobalEnv { env, store };
        proof {
            if self.wf() {
                assert forall|i: int|
                    0 <= i < res.store@.len() implies clos_wf(
                    (#[trigger] res.store@[i]).clos,
                    res.store@.len() as int,
                ) && match res.store@[i].orig {
                    Option::Some(o) => clos_wf(o, res.store@.len() as int),
                    Option::None => true,
                } by {
                    assert(clos_like(res.store@[i].clos, self.store@[i].clos));
                    assert(clos_wf(self.store@[i].clos, self.store@.len() as int));
                    assert(opt_clos_like(res.store@[i].orig, self.store@[i].orig));
                    assert(match self.store@[i].orig {
                        Option::Some(o) => clos_wf(o, self.store@.len() as int),
                        Option::None => true,
                    });
                }
            }
        }
        res
    }
}

impl ThunkStore {
    /// Copy the store cell by cell.
    pub fn clone_store(&self) -> (res: ThunkStore)
        ensures
            res@.len() == self@.len(),
            forall|i: int|
                0 <= i < self@.len() ==> clos_like((#[trigger] res@[i]).clos, self@[i].clos)
                    && opt_clos_like(res@[i].orig, self@[i].orig),
    {
        let mut cells: Vec<ThunkData> = Vec::new();
        let mut i: usize = 0;
        while i < self.cells.len()
            invariant
                i <= self@.len(),
                cells@.len() == i,
                forall|j: int|
                    0 <= j < i ==> clos_like((#[trigger] cells@[j]).clos, self@[j].clos)
                        && opt_clos_like(cells@[j].orig, self@[j].orig),
            decreases self@.len() - i,
        {
            let cell = &self.cells[i];
            let orig = match &cell.orig {
                Option::Some(o) => Option::Some(o.clone()),
                Option::None => Option::None,
            };
            cells.push(ThunkData { clos: cell.clos.clone(), orig });
            i = i + 1;
        }
        ThunkStore { cells }
    }
}

/// One possible run of the machine: consecutive states, each step of the
/// run a continuation under the machine's step relation.
pub open spec fn machine_trace(trace: Seq<Machine>, global: Seq<EnvEntry>) -> bool {
    &&& trace.len() >= 1
    &&& forall|i: int|
        0 <= i < trace.len() - 1 ==> step_post(
            #[trigger] trace[i],
            trace[i + 1],
            StepResult::Continue,
            global,
        )
}

/// The machine, started at `m0`, can run to a state whose next step yields
/// `r`: there is a trace of continuations from `m0` whose last state steps
/// to `r`.
pub open spec fn machine_yields(m0: Machine, r: StepResult, global: Seq<EnvEntry>) -> bool {
    exists|trace: Seq<Machine>, last: Machine|
        {
            &&& machine_trace(trace, global)
            &&& trace.first() == m0
            &&& #[trigger] step_post(trace.last(), last, r, global)
        }
}

/// Evaluate a term to weak head normal form.
///
/// The machine starts on `t0` with an empty local environment, the global
/// environment's thunks in the store, an empty stack, and enriched values
/// treated strictly. It loops until the current term is a value and no
/// work is pending — divergence of the evaluated program itself, such as
/// an unbounded recursion, is the program's; the machine adds none.
///
/// The result is what the machine's step relation yields: some run of
/// steps from the initial state ends in a step that produces exactly this
/// value or this error (see [`machine_yields`] and [`step_post`], which
/// pin every transition). On success the result is a weak head normal
/// form. A term that is already a plain value — a number, a boolean, a
/// function, a record, a list, a string, an atom — comes back unchanged. A
/// lone variable that neither environment binds is reported as unbound.
///
/// The loop carries an explicit step budget as its termination measure; no
/// program that finishes can exhaust it, and one that would is reported as
/// an internal error rather than run forever — which is why exhaustion
/// stands as the one alternative in the error case of the contract, owed
/// only after as many machine steps as the budget holds.
#[verifier::loop_isolation(false)]
pub fn eval<R: ImportResolver>(t0: RichTerm, global_env: GlobalEnv, resolver: &mut R) -> (r:
    Result<Term, EvalError>)
    requires
        global_env.wf(),
    ensures
        (r matches Result::Ok(v) ==> v.spec_is_whnf()),
        spec_self_ret(t0.node()) ==> (r matches Result::Ok(v) && v.like(t0.node())),
        (match t0.node() {
            Term::Var(x) => env_lookup(global_env.env_view(), x@) is None ==> r == Result::<
                Term,
                EvalError,
            >::Err(EvalError::UnboundIdentifier(x, t0.pos)),
            _ => true,
        }),
        exists|m0: Machine|
            {
                &&& #[trigger] m0.initial(t0, global_env.store_view())
                &&& m0.call_stack@.len() == 0
                &&& match r {
                    Result::Ok(v) => machine_yields(
                        m0,
                        StepResult::Done(v),
                        global_env.env_view(),
                    ),
                    Result::Err(e) => machine_yields(
                        m0,
                        StepResult::Fail(e),
                        global_env.env_view(),
                    ) || (e is InternalError && exists|trace: Seq<Machine>|
                        {
                            &&& #[trigger] machine_trace(trace, global_env.env_view())
                            &&& trace.first() == m0
                            &&& trace.len() == u64::MAX + 1
                        }),
                }
            },
{
    let ghost store0 = global_env.store_view();
    let ghost genv = global_env.env_view();
    let GlobalEnv { env: globals, store } = global_env;
    let pos0 = t0.pos;
    let mut m = Machine {
        clos: Closure::atomic_closure(t0),
        stack: Stack::new(),
        call_stack: Vec::new(),
        store,
        enriched_strict: true,
    };
    let ghost m0 = m;
    let ghost mut trace: Seq<Machine> = seq![m];
    let mut budget: u64 = u64::MAX;
    while budget > 0
        invariant
            m.wf_with(globals@),
            globals@ == genv,
            (spec_self_ret(t0.node()) || (t0.node() matches Term::Var(x) && env_lookup(genv, x@)
                is None)) ==> m.initial(t0, store0) && budget == u64::MAX,
            t0.node() is Var ==> spec_self_ret(t0.node()) == false,
            machine_trace(trace, genv),
            trace.first() == m0,
            trace.last() == m,
            trace.len() == 1 + u64::MAX - budget,
            m0.initial(t0, store0),
            m0.call_stack@.len() == 0,
        decreases budget,
    {
        budget = budget - 1;
        let ghost pre = m;
        match m.step(&globals, &*resolver) {
            StepResult::Continue => {
                proof {
                    let ghost prev_trace = trace;
                    trace = trace.push(m);
                    assert forall|i: int|
                        0 <= i < trace.len() - 1 implies step_post(
                        #[trigger] trace[i],
                        trace[i + 1],
                        StepResult::Continue,
                        genv,
                    ) by {
                        if i < prev_trace.len() - 1 {
                            assert(trace[i] == prev_trace[i]);
                            assert(trace[i + 1] == prev_trace[i + 1]);
                            assert(step_post(prev_trace[i], prev_trace[i + 1], StepResult::Continue, genv));
                        } else {
                            assert(trace[i] == pre);
                            assert(trace[i + 1] == m);
                        }
                    }
                    if spec_self_ret(t0.node()) && pre.initial(t0, store0) {
                        assert(thunks_on_top(pre.stack@) == 0);
                        assert(args_on_top(pre.stack@) == 0);
                        assert(false);
                    }
                    match t0.node() {
                        Term::Var(x) => if env_lookup(genv, x@) is None && pre.initial(
                            t0,
                            store0,
                        ) {
                            assert(env_lookup(pre.clos.env@, x@) is None);
                            assert(combined_lookup(pre.clos.env@, genv, x@) is None);
                            assert(false);
                        },
                        _ => {},
                    }
                }
            },
            StepResult::Done(t) => {
                proof {
                    match t0.node() {
                        Term::Var(x) => if env_lookup(genv, x@) is None {
                            assert(pre.initial(t0, store0));
                            assert(env_lookup(pre.clos.env@, x@) is None);
                            assert(false);
                        },
                        _ => {},
                    }
                    if spec_self_ret(t0.node()) {
                        assert(pre.initial(t0, store0));
                        assert(thunks_on_top(pre.stack@) == 0);
                        assert(args_on_top(pre.stack@) == 0);
                    }
                    assert(trace.last() == pre);
                    assert(step_post(trace.last(), m, StepResult::Done(t), genv));
                    assert(machine_yields(m0, StepResult::Done(t), genv));
                }
                return Result::Ok(t);
            },
            StepResult::Fail(e) => {
                proof {
                    if spec_self_ret(t0.node()) {
                        assert(pre.initial(t0, store0));
                        assert(thunks_on_top(pre.stack@) == 0);
                        assert(args_on_top(pre.stack@) == 0);
                        assert(false);
                    }
                    match t0.node() {
                        Term::Var(x) => if env_lookup(genv, x@) is None {
                            assert(pre.initial(t0, store0));
                            assert(pre.clos.env@.len() == 0);
                            assert(env_lookup(pre.clos.env@, x@) is None);
                            assert(combined_lookup(pre.clos.env@, genv, x@) is None);
                            assert(pre.clos.body.node() == t0.node());
                            assert(StepResult::Fail(e) == StepResult::Fail(
                                EvalError::UnboundIdentifier(x, pre.clos.body.pos),
                            ));
                            assert(e == EvalError::UnboundIdentifier(x, t0.pos));
                        },
                        _ => {},
                    }
                    assert(trace.last() == pre);
                    assert(step_post(trace.last(), m, StepResult::Fail(e), genv));
                    assert(machine_yields(m0, StepResult::Fail(e), genv));
                }
                return Result::Err(e);
            },
        }
    }
    proof {
        assert(trace.len() == u64::MAX + 1);
    }
    Result::Err(
        EvalError::InternalError(
            String::from_str("the machine's step budget was exhausted"),
            pos0,
        ),
    )
}

} // verus!

// Laws of the machine, and the pretty-printing helpers.

verus! {

/// Law: a thunk whose body is already a weak head normal form is never
/// scheduled for update when the variable bound to it is read; only a
/// thunk that can still make progress is.
pub proof fn lemma_whnf_thunk_never_updated(
    pre: Machine,
    post: Machine,
    r: StepResult,
    global: Seq<EnvEntry>,
    x: Ident,
    e: EnvEntry,
)
    requires
        step_post(pre, post, r, global),
        pre.clos.body.node() == Term::Var(x),
        combined_lookup(pre.clos.env@, global, x@) == Option::Some(e),
        0 <= e.thunk < pre.store@.len(),
        pre.store@[e.thunk as int].clos.body.node().spec_is_whnf(),
    ensures
        post.stack@ == pre.stack@,
{
}

/// Law: the strictness flag observed when a binary operator completes is
/// exactly the flag saved when the operator was dispatched: merging may
/// run with enriched values treated as values, but what comes after sees
/// the mode it started with.
pub proof fn lemma_op2_restores_strictness(
    pre: Machine,
    post: Machine,
    r: StepResult,
    global: Seq<EnvEntry>,
    op: crate::term::BinaryOp,
    fst: Closure,
    snd_pos: TermPos,
    prev: bool,
    depth: usize,
    cpos: TermPos,
)
    requires
        step_post(pre, post, r, global),
        pre.clos.body.node().spec_is_whnf(),
        !pre.clos.body.node().spec_is_enriched() || !pre.enriched_strict,
        thunks_on_top(pre.stack@) == 0,
        pre.stack@.len() > 0,
        pre.stack@.last() == Marker::Cont(
            OperationCont::Op2Second(op, fst, snd_pos, prev),
            depth,
            cpos,
        ),
    ensures
        post.enriched_strict == prev,
{
    lemma_thunks_on_top_bounds(pre.stack@);
}

/// The bound identifiers of an environment, for diagnostics: a view of the
/// environment that the driver can render.
pub struct EnvFormatter<'a> {
    pub env: &'a Environment,
}

impl<'a> EnvFormatter<'a> {
    /// Wrap an environment for rendering.
    pub fn from_env(env: &'a Environment) -> (res: Self)
        ensures
            res.env@ == env@,
    {
        EnvFormatter { env }
    }

    /// The identifiers the environment binds, in binding order.
    pub fn idents(&self) -> (r: Vec<Ident>)
        ensures
            r@.len() == self.env@.len(),
            forall|i: int| 0 <= i < r@.len() ==> (#[trigger] r@[i])@ == self.env@[i].id@,
    {
        let mut out: Vec<Ident> = Vec::new();
        let mut i: usize = 0;
        while i < self.env.entries.len()
            invariant
                i <= self.env@.len(),
                out@.len() == i,
                forall|j: int| 0 <= j < i ==> (#[trigger] out@[j])@ == self.env@[j].id@,
            decreases self.env@.len() - i,
        {
            out.push(self.env.entries[i].id.clone());
            i = i + 1;
        }
        out
    }
}

/// The text `s` with two spaces inserted after every line break; the
/// helper behind [`indent_text`], which assumes more text follows the
/// breaks it sees.
pub open spec fn indent_breaks(s: Seq<char>) -> Seq<char>
    decreases s.len(),
{
    if s.len() == 0 {
        Seq::<char>::empty()
    } else if s[0] == '\n' {
        seq!['\n', ' ', ' '] + indent_breaks(s.drop_first())
    } else {
        seq![s[0]] + indent_breaks(s.drop_first())
    }
}

/// The text `s`, split into lines at `'\n'` and re-joined with every line
/// after the first indented by two spaces. As splitting into lines does, a
/// single trailing break closes the last line and is dropped, so nothing
/// is indented after it.
pub open spec fn indent_text(s: Seq<char>) -> Seq<char> {
    if s.len() > 0 && s.last() == '\n' {
        indent_breaks(s.drop_last())
    } else {
        indent_breaks(s)
    }
}

/// Indenting text piece by piece is indenting the pieces.
pub proof fn lemma_indent_breaks_concat(a: Seq<char>, b: Seq<char>)
    ensures
        indent_breaks(a + b) == indent_breaks(a) + indent_breaks(b),
    decreases a.len(),
{
    if a.len() == 0 {
        assert(a + b =~= b);
        assert(indent_breaks(a) + indent_breaks(b) =~= indent_breaks(b));
    } else {
        assert((a + b).drop_first() =~= a.drop_first() + b);
        lemma_indent_breaks_concat(a.drop_first(), b);
        if a[0] == '\n' {
            assert(indent_breaks(a + b) =~= indent_breaks(a) + indent_breaks(b));
        } else {
            assert(indent_breaks(a + b) =~= indent_breaks(a) + indent_breaks(b));
        }
    }
}

/// Indent every line of `val` after the first by two spaces, and the first
/// too unless `skip_fst` asks it to stay put; a trailing line break is
/// dropped, as splitting into lines drops it (see [`indent_text`]).
#[verifier::loop_isolation(false)]
pub fn fmt_indent(val: &str, skip_fst: bool) -> (r: String)
    ensures
        r@ == if skip_fst {
            indent_text(val@)
        } else {
            seq![' ', ' '] + indent_text(val@)
        },
{
    let ghost lead: Seq<char> = if skip_fst {
        Seq::<char>::empty()
    } else {
        seq![' ', ' ']
    };
    let mut out = String::new();
    if !skip_fst {
        out.append("  ");
        proof {
            reveal_strlit("  ");
            assert("  "@ =~= seq![' ', ' ']);
            assert(out@ =~= lead);
        }
    }
    let n = val.unicode_len();
    let mut i: usize = 0;
    while i + 1 < n
        invariant
            n > 0 ==> i + 1 <= n,
            n == 0 ==> i == 0,
            out@ == lead + indent_breaks(val@.take(i as int)),
        decreases n - i,
    {
        let c = val.get_char(i);
        if c == '\n' {
            out.append("\n  ");
            proof {
                reveal_strlit("\n  ");
            }
        } else {
            let piece = val.substring_char(i, i + 1);
            out.append(piece);
        }
        proof {
            assert(val@.take(i + 1) =~= val@.take(i as int) + seq![val@[i as int]]);
            lemma_indent_breaks_concat(val@.take(i as int), seq![val@[i as int]]);
            assert(seq![val@[i as int]].drop_first() =~= Seq::<char>::empty());
            assert(indent_breaks(Seq::<char>::empty()) =~= Seq::<char>::empty());
            if c == '\n' {
                reveal_strlit("\n  ");
                assert("\n  "@ =~= seq!['\n', ' ', ' ']);
                assert(indent_breaks(seq![val@[i as int]]) =~= seq!['\n', ' ', ' ']);
                assert(out@ =~= lead + indent_breaks(val@.take(i + 1)));
            } else {
                assert(indent_breaks(seq![val@[i as int]]) =~= seq![val@[i as int]]);
                assert(out@ =~= lead + indent_breaks(val@.take(i + 1)));
            }
        }
        i = i + 1;
    }
    if n > 0 {
        let c = val.get_char(n - 1);
        if c == '\n' {
            proof {
                assert(val@.drop_last() =~= val@.take(n - 1));
                assert(out@ =~= lead + indent_text(val@));
            }
        } else {
            let piece = val.substring_char(n - 1, n);
            out.append(piece);
            proof {
                assert(val@.take(n as int) =~= val@.take(n - 1) + seq![val@[n - 1]]);
                lemma_indent_breaks_concat(val@.take(n - 1), seq![val@[n - 1]]);
                assert(seq![val@[n - 1]].drop_first() =~= Seq::<char>::empty());
                assert(indent_breaks(Seq::<char>::empty()) =~= Seq::<char>::empty());
                assert(indent_breaks(seq![val@[n - 1]]) =~= seq![val@[n - 1]]);
                assert(val@.take(n as int) =~= val@);
                assert(out@ =~= lead + indent_text(val@));
            }
        }
    } else {
        proof {
            assert(val@.take(0) =~= val@);
            assert(out@ =~= lead + indent_text(val@));
        }
    }
    proof {
        if skip_fst {
            assert(out@ =~= indent_text(val@));
        }
    }
    out
}

} // verus!

// The machine-level reading of the equational laws of evaluation.

verus! {

/// Law: a let binding evaluates by need. The machine continues with the
/// body in the binding environment extended by a fresh thunk holding the
/// bound term — the call-by-need reading of substituting the bound term
/// for the variable in the body: the two share one thunk instead of one
/// term.
pub proof fn lemma_let_binds_by_need(
    pre: Machine,
    post: Machine,
    r: StepResult,
    global: Seq<EnvEntry>,
    x: Ident,
    bound: RichTerm,
    body: RichTerm,
    btype: BindingType,
)
    requires
        step_post(pre, post, r, global),
        pre.clos.body.node() == Term::Let(x, bound, body, btype),
    ensures
        r is Continue,
        post.clos.body == body,
        post.clos.env@ == pre.clos.env@.push(
            EnvEntry { id: x, thunk: pre.store@.len() as usize, kind: IdentKind::Let() },
        ),
        post.store@.len() == pre.store@.len() + 1,
        post.store@.last().clos.body == bound,
        post.store@.last().clos.env@ == pre.clos.env@,
        post.stack@ == pre.stack@,
        post.enriched_strict == pre.enriched_strict,
{
    assert(post.clos.env@ =~= pre.clos.env@.push(
        EnvEntry { id: x, thunk: pre.store@.len() as usize, kind: IdentKind::Let() },
    ));
}

/// Law: β-reduction for one argument, by need. Applying a function first
/// parks the argument with its environment; the function then binds its
/// parameter to a fresh thunk holding exactly that argument, and continues
/// with its body — the body runs as if the argument had been substituted
/// for the parameter, shared by need.
pub proof fn lemma_beta_by_need(
    m0: Machine,
    m1: Machine,
    m2: Machine,
    r1: StepResult,
    r2: StepResult,
    global: Seq<EnvEntry>,
    f: RichTerm,
    a: RichTerm,
    x: Ident,
    body: RichTerm,
)
    requires
        step_post(m0, m1, r1, global),
        m0.clos.body.node() == Term::App(f, a),
        step_post(m1, m2, r2, global),
        f.node() == Term::Fun(x, body),
    ensures
        r1 is Continue,
        r2 is Continue,
        m2.clos.body == body,
        m2.clos.env@ == m1.clos.env@.push(
            EnvEntry { id: x, thunk: m1.store@.len() as usize, kind: IdentKind::Lam() },
        ),
        m1.clos.env@ == m0.clos.env@,
        m2.store@.len() == m0.store@.len() + 1,
        m2.store@.last().clos.body == a,
        m2.store@.last().clos.env@ == m0.clos.env@,
        m2.stack@ == m0.stack@,
        m2.enriched_strict == m0.enriched_strict,
{
    assert(m1.stack@.last() is Arg);
    assert(thunks_on_top(m1.stack@) == 0);
    lemma_args_on_top_nonneg(m1.stack@.drop_last());
    assert(args_on_top(m1.stack@) > 0);
    assert(m2.clos.env@ =~= m1.clos.env@.push(
        EnvEntry { id: x, thunk: m1.store@.len() as usize, kind: IdentKind::Lam() },
    ));
    assert(m1.stack@.drop_last() =~= m1.stack@.take(m0.stack@.len() as int));
    assert(m2.stack@ =~= m0.stack@);
}

/// Law: a default value unwraps. Under a strict context, with no update
/// pending, the machine state after reading `DefaultValue(v)` is exactly
/// the state that starts evaluating `v` itself: from there on the two
/// evaluate alike.
pub proof fn lemma_default_unwraps(
    pre: Machine,
    post: Machine,
    r: StepResult,
    global: Seq<EnvEntry>,
    v: RichTerm,
)
    requires
        step_post(pre, post, r, global),
        pre.clos.body.node() == Term::DefaultValue(v),
        pre.enriched_strict,
        thunks_on_top(pre.stack@) == 0,
    ensures
        r is Continue,
        post.clos.body == v,
        post.clos.env@ == pre.clos.env@,
        post.stack@ == pre.stack@,
        post.store@ == pre.store@,
        post.enriched_strict,
{
    assert(post.stack@ =~= pre.stack@);
    assert forall|i: int| 0 <= i < pre.store@.len() implies post.store@[i] == pre.store@[i] by {
        assert(!thunk_popped(pre.stack@, i));
    }
    assert(post.store@ =~= pre.store@);
}

} // verus!

// A scenario law derived from the machine's step relation alone.

verus! {

/// Law: blaming a literal label fails the whole evaluation with exactly
/// that label, the call stack attached. Every run of the machine that
/// starts on `Op1(Blame, Lbl(l))` with an empty stack and yields a final
/// result yields that blame: the first step is forced to dispatch the
/// operator, the second to resume it on the label, and nothing else can
/// follow. This is how the contract of [`eval`] pins the evaluation of a
/// blame, through [`machine_yields`].
pub proof fn lemma_blame_scenario(
    m0: Machine,
    r: StepResult,
    global: Seq<EnvEntry>,
    l: crate::label::Label,
    inner: RichTerm,
)
    requires
        m0.clos.body.node() == Term::Op1(UnaryOp::Blame(), inner),
        m0.stack@.len() == 0,
        inner.node() == Term::Lbl(l),
        machine_yields(m0, r, global),
        !(r is Continue),
    ensures
        r matches StepResult::Fail(e) && (e matches EvalError::BlameError(l2, cs) && l2 == l
            && cs is Some),
{
    let (trace, last) = choose|trace: Seq<Machine>, last: Machine|
        {
            &&& machine_trace(trace, global)
            &&& trace.first() == m0
            &&& #[trigger] step_post(trace.last(), last, r, global)
        };
    if trace.len() == 1 {
        assert(trace.last() == m0);
        assert(step_post(m0, last, r, global));
        assert(false);
    } else {
        assert(step_post(trace[0], trace[1], StepResult::Continue, global));
        let m1 = trace[1];
        assert(m1.clos.body == inner);
        assert(m1.stack@.len() == 1);
        assert(op1_marker_like(
            m1.stack@.last(),
            UnaryOp::Blame(),
            m0.clos.env@,
            inner.pos,
            m0.call_stack@.len() as int,
            m0.clos.body.pos,
        ));
        let cont = m1.stack@.last()->Cont_0;
        assert(cont matches OperationCont::Op1(op2, _, _) && op2.like(UnaryOp::Blame()));
        assert(thunks_on_top(m1.stack@) == 0);
        if trace.len() == 2 {
            assert(trace.last() == m1);
            assert(step_post(m1, last, r, global));
            assert(value_post(m1, last, r));
            assert(cont_outcome(m1, last, r));
            match r {
                StepResult::Fail(e) => {
                    let e0 = choose|e0: EvalError|
                        crate::operation::uop_result_post(
                            UnaryOp::Blame(),
                            m1.clos,
                            m1.stack@.drop_last(),
                            last.stack@,
                            Result::Err(e0),
                        ) && #[trigger] fail_lifted(e0, e);
                    assert(e0 == EvalError::BlameError(l, Option::<Vec<StackElem>>::None));
                },
                _ => {
                    assert(false);
                },
            }
        } else {
            assert(step_post(trace[1], trace[2], StepResult::Continue, global));
            assert(value_post(m1, trace[2], StepResult::Continue));
            assert(cont_outcome(m1, trace[2], StepResult::Continue));
            assert(false);
        }
    }
}

} // verus!
