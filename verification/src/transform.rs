//! The share-normal-form transformation.
//!
//! Weak head normal forms such as records and lists may hold arbitrary
//! subexpressions. Without further machinery such a subexpression would be
//! re-evaluated at every use, because the surrounding value is already a
//! WHNF and its thunk is never updated. The transformation hoists every
//! shareable subterm of a WHNF into a let binding placed in front of the
//! node, replacing the subterm by a fresh generated variable: the let
//! allocates a thunk, and the thunk is shared.
//!
//! [`transform_one`] rewrites the top node only: the transformation is a
//! rewrite rule, and a driver applies it bottom-up over a whole term.

use vstd::prelude::*;
use crate::identifier::{FreshVarGen, Ident};
use crate::position::TermPos;
use crate::term::{BindingType, DynField, Field, MetaValue, RichTerm, Term};

verus! {

/// Whether a subterm of a WHNF must be hoisted into a thunk to be shared.
/// Sharing is useless when the subterm is already a WHNF that can be copied
/// without duplicating work, and forbidden for bare variables, which are
/// already bound to a thunk.
pub open spec fn should_share_spec(t: Term) -> bool {
    match t {
        Term::Null => false,
        Term::Bool(_) => false,
        Term::Num(_) => false,
        Term::Str(_) => false,
        Term::Lbl(_) => false,
        Term::Sym(_) => false,
        Term::Var(_) => false,
        Term::Enum(_) => false,
        Term::Fun(_, _) => false,
        _ => true,
    }
}

/// Decide [`should_share_spec`].
pub fn should_share(t: &Term) -> (r: bool)
    ensures
        r == should_share_spec(*t),
{
    match t {
        Term::Null
        | Term::Bool(_)
        | Term::Num(_)
        | Term::Str(_)
        | Term::Lbl(_)
        | Term::Sym(_)
        | Term::Var(_)
        | Term::Enum(_)
        | Term::Fun(_, _) => false,
        _ => true,
    }
}

/// Whether a term is a variable drawn from the generated namespace.
pub open spec fn is_generated_var(t: Term) -> bool {
    t matches Term::Var(id) && id@ is Generated
}

/// How many of the first `j` record fields have a shareable right-hand
/// side.
pub open spec fn shared_fields_before(fields: Seq<Field>, j: int) -> int
    decreases j,
{
    if j <= 0 {
        0
    } else {
        shared_fields_before(fields, j - 1) + if should_share_spec(
            fields[j - 1].term.node(),
        ) {
            1int
        } else {
            0int
        }
    }
}

proof fn lemma_shared_fields_before_bounds(fields: Seq<Field>, j: int)
    requires
        0 <= j,
    ensures
        0 <= shared_fields_before(fields, j) <= j,
    decreases j,
{
    if j > 0 {
        lemma_shared_fields_before_bounds(fields, j - 1);
    }
}

/// How many of the first `j` record fields have a non-constant right-hand
/// side; those are the ones a recursive record hoists.
pub open spec fn hoisted_fields_before(fields: Seq<Field>, j: int) -> int
    decreases j,
{
    if j <= 0 {
        0
    } else {
        hoisted_fields_before(fields, j - 1) + if !fields[j - 1].term.node().spec_is_constant() {
            1int
        } else {
            0int
        }
    }
}

proof fn lemma_hoisted_fields_before_bounds(fields: Seq<Field>, j: int)
    requires
        0 <= j,
    ensures
        0 <= hoisted_fields_before(fields, j) <= j,
    decreases j,
{
    if j > 0 {
        lemma_hoisted_fields_before_bounds(fields, j - 1);
    }
}

/// How many of the first `j` dynamic fields have a non-constant right-hand
/// side.
pub open spec fn hoisted_dyn_fields_before(fields: Seq<DynField>, j: int) -> int
    decreases j,
{
    if j <= 0 {
        0
    } else {
        hoisted_dyn_fields_before(fields, j - 1) + if !fields[j
            - 1].term.node().spec_is_constant() {
            1int
        } else {
            0int
        }
    }
}

proof fn lemma_hoisted_dyn_fields_before_bounds(fields: Seq<DynField>, j: int)
    requires
        0 <= j,
    ensures
        0 <= hoisted_dyn_fields_before(fields, j) <= j,
    decreases j,
{
    if j > 0 {
        lemma_hoisted_dyn_fields_before_bounds(fields, j - 1);
    }
}

/// How many of the first `j` list elements are shareable.
pub open spec fn shared_elems_before(ts: Seq<RichTerm>, j: int) -> int
    decreases j,
{
    if j <= 0 {
        0
    } else {
        shared_elems_before(ts, j - 1) + if should_share_spec(ts[j - 1].node()) {
            1int
        } else {
            0int
        }
    }
}

proof fn lemma_shared_elems_before_bounds(ts: Seq<RichTerm>, j: int)
    requires
        0 <= j,
    ensures
        0 <= shared_elems_before(ts, j) <= j,
    decreases j,
{
    if j > 0 {
        lemma_shared_elems_before_bounds(ts, j - 1);
    }
}

/// `res` is `bindings`, innermost first, wrapped as let bindings of kind
/// `btype` around `core`, every let carrying the position `pos`.
pub open spec fn let_chain(
    res: RichTerm,
    bindings: Seq<Field>,
    btype: BindingType,
    pos: TermPos,
    core: RichTerm,
) -> bool
    decreases bindings.len(),
{
    if bindings.len() == 0 {
        res == core
    } else {
        &&& res.node() matches Term::Let(x, bound, rest, bt) && {
            &&& x == bindings.last().id
            &&& bound == bindings.last().term
            &&& bt == btype
            &&& let_chain(rest, bindings.drop_last(), btype, pos, core)
        }
        &&& res.pos == pos
    }
}

/// `res` is `bindings` wrapped around a node `body`, the node carrying the
/// inherited flavour of `pos`.
pub open spec fn wraps_body(
    res: RichTerm,
    bindings: Seq<Field>,
    btype: BindingType,
    pos: TermPos,
    body: Term,
) -> bool {
    exists|core: RichTerm|
        {
            &&& #[trigger] let_chain(res, bindings, btype, pos, core)
            &&& core.node() == body
            &&& core.pos == pos.spec_into_inherited()
        }
}

/// Wrap `body` in the accumulated `bindings`: given bindings
/// `(id_1, t_1), .., (id_n, t_n)`, return
/// `let id_n = t_n in .. let id_1 = t_1 in body`.
pub fn with_bindings(
    body: Term,
    bindings: Vec<Field>,
    pos: TermPos,
    btype: BindingType,
) -> (res: RichTerm)
    ensures
        wraps_body(res, bindings@, btype, pos, body),
{
    let core = RichTerm::new(body, pos.into_inherited());
    let ghost core_g = core;
    let mut acc = core;
    let mut i: usize = 0;
    while i < bindings.len()
        invariant
            i <= bindings@.len(),
            let_chain(acc, bindings@.take(i as int), btype, pos, core_g),
            core_g.node() == body,
            core_g.pos == pos.spec_into_inherited(),
        decreases bindings@.len() - i,
    {
        let b = bindings[i].clone();
        acc = RichTerm::new(Term::Let(b.id, b.term, acc, btype), pos);
        proof {
            assert(bindings@.take(i + 1).drop_last() =~= bindings@.take(i as int));
            assert(bindings@.take(i + 1).last() == bindings@[i as int]);
        }
        i = i + 1;
    }
    proof {
        assert(bindings@.take(bindings@.len() as int) =~= bindings@);
    }
    acc
}

/// The field correspondence of one rewritten record field: a shareable
/// right-hand side becomes the generated variable numbered `k`, whose
/// binding holds the original; anything else is kept.
pub open spec fn field_rewritten(f: Field, f2: Field, bindings: Seq<Field>, m: int, k: int) -> bool {
    if should_share_spec(f.term.node()) {
        &&& f2.id == f.id
        &&& f2.term.node() == Term::Var(Ident::Generated(k as u64))
        &&& f2.term.pos == f.term.pos
        &&& 0 <= m < bindings.len()
        &&& bindings[m].id == Ident::Generated(k as u64)
        &&& bindings[m].term == f.term
    } else {
        f2 == f
    }
}

/// The correspondence of a whole rewritten field list: `n0` is the value
/// of the fresh-variable counter when the rewrite started, `m0` the index
/// of the list's first binding among `bindings`.
pub open spec fn fields_rewritten(
    fields: Seq<Field>,
    fields2: Seq<Field>,
    bindings: Seq<Field>,
    m0: int,
    n0: int,
) -> bool {
    &&& fields2.len() == fields.len()
    &&& forall|j: int|
        0 <= j < fields.len() ==> #[trigger] field_rewritten(
            fields[j],
            fields2[j],
            bindings,
            m0 + shared_fields_before(fields, j),
            n0 + m0 + shared_fields_before(fields, j),
        )
}

/// As [`field_rewritten`], with the recursive-record test: everything that
/// is not a constant is hoisted.
pub open spec fn rec_field_rewritten(
    f: Field,
    f2: Field,
    bindings: Seq<Field>,
    m: int,
    k: int,
) -> bool {
    if !f.term.node().spec_is_constant() {
        &&& f2.id == f.id
        &&& f2.term.node() == Term::Var(Ident::Generated(k as u64))
        &&& f2.term.pos == f.term.pos
        &&& 0 <= m < bindings.len()
        &&& bindings[m].id == Ident::Generated(k as u64)
        &&& bindings[m].term == f.term
    } else {
        f2 == f
    }
}

/// The correspondence of a rewritten recursive-record field list.
pub open spec fn rec_fields_rewritten(
    fields: Seq<Field>,
    fields2: Seq<Field>,
    bindings: Seq<Field>,
    m0: int,
    n0: int,
) -> bool {
    &&& fields2.len() == fields.len()
    &&& forall|j: int|
        0 <= j < fields.len() ==> #[trigger] rec_field_rewritten(
            fields[j],
            fields2[j],
            bindings,
            m0 + hoisted_fields_before(fields, j),
            n0 + m0 + hoisted_fields_before(fields, j),
        )
}

/// As [`rec_field_rewritten`] for a dynamic field: the computed name is
/// kept, the value is hoisted unless constant.
pub open spec fn dyn_field_rewritten(
    f: DynField,
    f2: DynField,
    bindings: Seq<Field>,
    m: int,
    k: int,
) -> bool {
    if !f.term.node().spec_is_constant() {
        &&& f2.name == f.name
        &&& f2.term.node() == Term::Var(Ident::Generated(k as u64))
        &&& f2.term.pos == f.term.pos
        &&& 0 <= m < bindings.len()
        &&& bindings[m].id == Ident::Generated(k as u64)
        &&& bindings[m].term == f.term
    } else {
        f2 == f
    }
}

/// The correspondence of a rewritten dynamic field list.
pub open spec fn dyn_fields_rewritten(
    fields: Seq<DynField>,
    fields2: Seq<DynField>,
    bindings: Seq<Field>,
    m0: int,
    n0: int,
) -> bool {
    &&& fields2.len() == fields.len()
    &&& forall|j: int|
        0 <= j < fields.len() ==> #[trigger] dyn_field_rewritten(
            fields[j],
            fields2[j],
            bindings,
            m0 + hoisted_dyn_fields_before(fields, j),
            n0 + m0 + hoisted_dyn_fields_before(fields, j),
        )
}

/// The element correspondence of one rewritten list element.
pub open spec fn elem_rewritten(
    t: RichTerm,
    t2: RichTerm,
    bindings: Seq<Field>,
    m: int,
    k: int,
) -> bool {
    if should_share_spec(t.node()) {
        &&& t2.node() == Term::Var(Ident::Generated(k as u64))
        &&& t2.pos == t.pos
        &&& 0 <= m < bindings.len()
        &&& bindings[m].id == Ident::Generated(k as u64)
        &&& bindings[m].term == t
    } else {
        t2 == t
    }
}

/// The correspondence of a whole rewritten list.
pub open spec fn elems_rewritten(
    ts: Seq<RichTerm>,
    ts2: Seq<RichTerm>,
    bindings: Seq<Field>,
    n0: int,
) -> bool {
    &&& ts2.len() == ts.len()
    &&& forall|j: int|
        0 <= j < ts.len() ==> #[trigger] elem_rewritten(
            ts[j],
            ts2[j],
            bindings,
            shared_elems_before(ts, j),
            n0 + shared_elems_before(ts, j),
        )
}

/// How many fresh variables one application of [`transform_one`] may draw,
/// at most.
pub open spec fn hoist_budget(t: Term) -> int {
    match t {
        Term::Record(map, _) => map@.len() as int,
        Term::RecRecord(map, dyns, _) => map@.len() as int + dyns@.len() as int,
        Term::List(ts) => ts@.len() as int,
        Term::MetaValue(_) => 1,
        _ => 0,
    }
}

/// What [`transform_one`] guarantees: the relation between its input, its
/// result, and the fresh-variable counter before (`n0`) and after (`n1`).
pub open spec fn transformed_one(rt: RichTerm, res: RichTerm, n0: int, n1: int) -> bool {
    match rt.node() {
        Term::Record(map, attrs) => exists|map2: Vec<Field>, bindings: Seq<Field>|
            {
                &&& #[trigger] fields_rewritten(map@, map2@, bindings, 0, n0)
                &&& bindings.len() == shared_fields_before(map@, map@.len() as int)
                &&& wraps_body(res, bindings, BindingType::Normal, rt.pos, Term::Record(map2, attrs))
                &&& n1 == n0 + bindings.len()
            },
        Term::RecRecord(map, dyns, attrs) => exists|
            map2: Vec<Field>,
            dyns2: Vec<DynField>,
            bindings: Seq<Field>,
        |
            {
                &&& #[trigger] rec_fields_rewritten(map@, map2@, bindings, 0, n0)
                &&& #[trigger] dyn_fields_rewritten(
                    dyns@,
                    dyns2@,
                    bindings,
                    hoisted_fields_before(map@, map@.len() as int),
                    n0,
                )
                &&& bindings.len() == hoisted_fields_before(map@, map@.len() as int)
                    + hoisted_dyn_fields_before(dyns@, dyns@.len() as int)
                &&& wraps_body(
                    res,
                    bindings,
                    BindingType::Revertible,
                    rt.pos,
                    Term::RecRecord(map2, dyns2, attrs),
                )
                &&& n1 == n0 + bindings.len()
            },
        Term::List(ts) => exists|ts2: Vec<RichTerm>, bindings: Seq<Field>|
            {
                &&& #[trigger] elems_rewritten(ts@, ts2@, bindings, n0)
                &&& bindings.len() == shared_elems_before(ts@, ts@.len() as int)
                &&& wraps_body(res, bindings, BindingType::Normal, rt.pos, Term::List(ts2))
                &&& n1 == n0 + bindings.len()
            },
        Term::MetaValue(meta) => match meta.value {
            Some(v) => if should_share_spec(v.node()) {
                exists|meta2: MetaValue, inner: RichTerm|
                    {
                        &&& #[trigger] meta_rewritten(meta, meta2, inner, v, n0)
                        &&& res.node() == Term::Let(
                            Ident::Generated(n0 as u64),
                            v,
                            inner,
                            BindingType::Normal,
                        )
                        &&& res.pos == rt.pos
                        &&& n1 == n0 + 1
                    }
            } else {
                res == rt && n1 == n0
            },
            None => res == rt && n1 == n0,
        },
        _ => res == rt && n1 == n0,
    }
}

/// Law: after the rewrite of a record, every field right-hand side is a
/// generated variable or a term that did not need sharing. `fields2` is
/// the field list of the rewritten node, as witnessed by
/// [`transformed_one`].
pub proof fn lemma_record_children_shared(
    fields: Seq<Field>,
    fields2: Seq<Field>,
    bindings: Seq<Field>,
    m0: int,
    n0: int,
)
    requires
        fields_rewritten(fields, fields2, bindings, m0, n0),
    ensures
        forall|j: int|
            0 <= j < fields2.len() ==> is_generated_var(#[trigger] fields2[j].term.node())
                || !should_share_spec(fields2[j].term.node()),
{
    assert forall|j: int|
        0 <= j < fields2.len() implies is_generated_var(#[trigger] fields2[j].term.node())
        || !should_share_spec(fields2[j].term.node()) by {
        assert(field_rewritten(
            fields[j],
            fields2[j],
            bindings,
            m0 + shared_fields_before(fields, j),
            n0 + m0 + shared_fields_before(fields, j),
        ));
    }
}

/// Law: after the rewrite of a list, every element is a generated variable
/// or a term that did not need sharing.
pub proof fn lemma_list_children_shared(
    ts: Seq<RichTerm>,
    ts2: Seq<RichTerm>,
    bindings: Seq<Field>,
    n0: int,
)
    requires
        elems_rewritten(ts, ts2, bindings, n0),
    ensures
        forall|j: int|
            0 <= j < ts2.len() ==> is_generated_var(#[trigger] ts2[j].node()) || !should_share_spec(
                ts2[j].node(),
            ),
{
    assert forall|j: int|
        0 <= j < ts2.len() implies is_generated_var(#[trigger] ts2[j].node()) || !should_share_spec(
        ts2[j].node(),
    ) by {
        assert(elem_rewritten(
            ts[j],
            ts2[j],
            bindings,
            shared_elems_before(ts, j),
            n0 + shared_elems_before(ts, j),
        ));
    }
}

/// Law: after the rewrite of a recursive record, every named field
/// right-hand side is a generated variable or a constant — never a
/// user-written variable, which the recursive-record wiring of the
/// evaluator depends on.
pub proof fn lemma_rec_record_fields_ready(
    fields: Seq<Field>,
    fields2: Seq<Field>,
    bindings: Seq<Field>,
    m0: int,
    n0: int,
)
    requires
        rec_fields_rewritten(fields, fields2, bindings, m0, n0),
    ensures
        forall|j: int|
            0 <= j < fields2.len() ==> is_generated_var(#[trigger] fields2[j].term.node())
                || fields2[j].term.node().spec_is_constant(),
{
    assert forall|j: int|
        0 <= j < fields2.len() implies is_generated_var(#[trigger] fields2[j].term.node())
        || fields2[j].term.node().spec_is_constant() by {
        assert(rec_field_rewritten(
            fields[j],
            fields2[j],
            bindings,
            m0 + hoisted_fields_before(fields, j),
            n0 + m0 + hoisted_fields_before(fields, j),
        ));
    }
}

/// Law: after the rewrite of a recursive record, every dynamic field
/// right-hand side is a generated variable or a constant.
pub proof fn lemma_rec_record_dyn_fields_ready(
    fields: Seq<DynField>,
    fields2: Seq<DynField>,
    bindings: Seq<Field>,
    m0: int,
    n0: int,
)
    requires
        dyn_fields_rewritten(fields, fields2, bindings, m0, n0),
    ensures
        forall|j: int|
            0 <= j < fields2.len() ==> is_generated_var(#[trigger] fields2[j].term.node())
                || fields2[j].term.node().spec_is_constant(),
{
    assert forall|j: int|
        0 <= j < fields2.len() implies is_generated_var(#[trigger] fields2[j].term.node())
        || fields2[j].term.node().spec_is_constant() by {
        assert(dyn_field_rewritten(
            fields[j],
            fields2[j],
            bindings,
            m0 + hoisted_dyn_fields_before(fields, j),
            n0 + m0 + hoisted_dyn_fields_before(fields, j),
        ));
    }
}

/// The rewritten metavalue: the same metadata, its value replaced by the
/// generated variable numbered `n0`, wrapped at position `inner.pos`.
pub open spec fn meta_rewritten(
    meta: MetaValue,
    meta2: MetaValue,
    inner: RichTerm,
    v: RichTerm,
    n0: int,
) -> bool {
    &&& inner.node() == Term::MetaValue(meta2)
    &&& opt_string_eq(meta2.doc, meta.doc)
    &&& meta2.contracts@ == meta.contracts@
    &&& meta2.value matches Some(w) && w.node() == Term::Var(Ident::Generated(n0 as u64)) && w.pos
        == v.pos
}

/// Equality of optional strings, as their views.
pub open spec fn opt_string_eq(a: Option<String>, b: Option<String>) -> bool {
    match (a, b) {
        (Option::Some(x), Option::Some(y)) => x == y,
        (Option::None, Option::None) => true,
        _ => false,
    }
}

/// Rewrite the top node of a term to share normal form, if it is a record,
/// a recursive record, a list or a metavalue with a value; leave any other
/// node as it is. The function is not recursive: it rewrites one node, and
/// [`transform`] drives it over a whole term.
#[verifier::loop_isolation(false)]
pub fn transform_one(rt: RichTerm, gen: &mut FreshVarGen) -> (res: RichTerm)
    requires
        old(gen).spec_counter() + hoist_budget(rt.node()) <= u64::MAX,
    ensures
        transformed_one(rt, res, old(gen).spec_counter() as int, final(gen).spec_counter() as int),
{
    let ghost n0 = gen.spec_counter() as int;
    let inner: &Term = &*rt.term;
    match inner {
        Term::Record(map, attrs) => {
            let mut bindings: Vec<Field> = Vec::new();
            let mut map2: Vec<Field> = Vec::new();
            let mut j: usize = 0;
            while j < map.len()
                invariant
                    j <= map@.len(),
                    map2@.len() == j,
                    bindings@.len() == shared_fields_before(map@, j as int),
                    gen.spec_counter() == n0 + bindings@.len(),
                    forall|i: int|
                        0 <= i < j ==> #[trigger] field_rewritten(
                            map@[i],
                            map2@[i],
                            bindings@,
                            shared_fields_before(map@, i),
                            n0 + shared_fields_before(map@, i),
                        ),
                decreases map@.len() - j,
            {
                proof {
                    lemma_shared_fields_before_bounds(map@, j as int);
                }
                let f = &map[j];
                let ghost old_b = bindings@;
                let ghost old_map2 = map2@;
                if should_share(&*f.term.term) {
                    let fresh = gen.fresh();
                    bindings.push(Field { id: fresh.clone(), term: f.term.clone() });
                    map2.push(Field { id: f.id.clone(), term: RichTerm::new(Term::Var(fresh), f.term.pos) });
                } else {
                    map2.push(f.clone());
                }
                proof {
                    assert forall|i: int| 0 <= i < j + 1 implies #[trigger] field_rewritten(
                        map@[i],
                        map2@[i],
                        bindings@,
                        shared_fields_before(map@, i),
                        n0 + shared_fields_before(map@, i),
                    ) by {
                        lemma_shared_fields_before_bounds(map@, i);
                        if i < j {
                            assert(field_rewritten(
                                map@[i],
                                old_map2[i],
                                old_b,
                                shared_fields_before(map@, i),
                                n0 + shared_fields_before(map@, i),
                            ));
                        }
                    }
                }
                j = j + 1;
            }
            let ghost map2_g = map2;
            let ghost bindings_g = bindings@;
            let res = with_bindings(Term::Record(map2, *attrs), bindings, rt.pos, BindingType::Normal);
            proof {
                assert(rt.node() == Term::Record(*map, *attrs));
                assert(fields_rewritten(map@, map2_g@, bindings_g, 0, n0));
            }
            res
        }
        Term::RecRecord(map, dyns, attrs) => {
            let ghost c1 = hoisted_fields_before(map@, map@.len() as int);
            let mut bindings: Vec<Field> = Vec::new();
            let mut map2: Vec<Field> = Vec::new();
            let mut j: usize = 0;
            while j < map.len()
                invariant
                    j <= map@.len(),
                    map2@.len() == j,
                    bindings@.len() == hoisted_fields_before(map@, j as int),
                    gen.spec_counter() == n0 + bindings@.len(),
                    forall|i: int|
                        0 <= i < j ==> #[trigger] rec_field_rewritten(
                            map@[i],
                            map2@[i],
                            bindings@,
                            hoisted_fields_before(map@, i),
                            n0 + hoisted_fields_before(map@, i),
                        ),
                decreases map@.len() - j,
            {
                proof {
                    lemma_hoisted_fields_before_bounds(map@, j as int);
                }
                let f = &map[j];
                let ghost old_b = bindings@;
                let ghost old_map2 = map2@;
                if !f.term.term.is_constant() {
                    let fresh = gen.fresh();
                    bindings.push(Field { id: fresh.clone(), term: f.term.clone() });
                    map2.push(Field { id: f.id.clone(), term: RichTerm::new(Term::Var(fresh), f.term.pos) });
                } else {
                    map2.push(f.clone());
                }
                proof {
                    assert forall|i: int| 0 <= i < j + 1 implies #[trigger] rec_field_rewritten(
                        map@[i],
                        map2@[i],
                        bindings@,
                        hoisted_fields_before(map@, i),
                        n0 + hoisted_fields_before(map@, i),
                    ) by {
                        lemma_hoisted_fields_before_bounds(map@, i);
                        if i < j {
                            assert(rec_field_rewritten(
                                map@[i],
                                old_map2[i],
                                old_b,
                                hoisted_fields_before(map@, i),
                                n0 + hoisted_fields_before(map@, i),
                            ));
                        }
                    }
                }
                j = j + 1;
            }
            proof {
                assert(bindings@.len() == c1);
            }
            let mut dyns2: Vec<DynField> = Vec::new();
            let mut j: usize = 0;
            while j < dyns.len()
                invariant
                    j <= dyns@.len(),
                    dyns2@.len() == j,
                    bindings@.len() == c1 + hoisted_dyn_fields_before(dyns@, j as int),
                    gen.spec_counter() == n0 + bindings@.len(),
                    forall|i: int|
                        0 <= i < map@.len() ==> #[trigger] rec_field_rewritten(
                            map@[i],
                            map2@[i],
                            bindings@,
                            hoisted_fields_before(map@, i),
                            n0 + hoisted_fields_before(map@, i),
                        ),
                    forall|i: int|
                        0 <= i < j ==> #[trigger] dyn_field_rewritten(
                            dyns@[i],
                            dyns2@[i],
                            bindings@,
                            c1 + hoisted_dyn_fields_before(dyns@, i),
                            n0 + c1 + hoisted_dyn_fields_before(dyns@, i),
                        ),
                decreases dyns@.len() - j,
            {
                proof {
                    lemma_hoisted_dyn_fields_before_bounds(dyns@, j as int);
                    lemma_hoisted_fields_before_bounds(map@, map@.len() as int);
                }
                let f = &dyns[j];
                let ghost old_b = bindings@;
                let ghost old_dyns2 = dyns2@;
                if !f.term.term.is_constant() {
                    let fresh = gen.fresh();
                    bindings.push(Field { id: fresh.clone(), term: f.term.clone() });
                    dyns2.push(DynField { name: f.name.clone(), term: RichTerm::new(Term::Var(fresh), f.term.pos) });
                } else {
                    dyns2.push(f.clone());
                }
                proof {
                    assert forall|i: int| 0 <= i < map@.len() implies #[trigger] rec_field_rewritten(
                        map@[i],
                        map2@[i],
                        bindings@,
                        hoisted_fields_before(map@, i),
                        n0 + hoisted_fields_before(map@, i),
                    ) by {
                        lemma_hoisted_fields_before_bounds(map@, i);
                        assert(rec_field_rewritten(
                            map@[i],
                            map2@[i],
                            old_b,
                            hoisted_fields_before(map@, i),
                            n0 + hoisted_fields_before(map@, i),
                        ));
                    }
                    assert forall|i: int| 0 <= i < j + 1 implies #[trigger] dyn_field_rewritten(
                        dyns@[i],
                        dyns2@[i],
                        bindings@,
                        c1 + hoisted_dyn_fields_before(dyns@, i),
                        n0 + c1 + hoisted_dyn_fields_before(dyns@, i),
                    ) by {
                        lemma_hoisted_dyn_fields_before_bounds(dyns@, i);
                        if i < j {
                            assert(dyn_field_rewritten(
                                dyns@[i],
                                old_dyns2[i],
                                old_b,
                                c1 + hoisted_dyn_fields_before(dyns@, i),
                                n0 + c1 + hoisted_dyn_fields_before(dyns@, i),
                            ));
                        }
                    }
                }
                j = j + 1;
            }
            let ghost map2_g = map2;
            let ghost dyns2_g = dyns2;
            let ghost bindings_g = bindings@;
            let res = with_bindings(
                Term::RecRecord(map2, dyns2, *attrs),
                bindings,
                rt.pos,
                BindingType::Revertible,
            );
            proof {
                assert(rt.node() == Term::RecRecord(*map, *dyns, *attrs));
                assert(rec_fields_rewritten(map@, map2_g@, bindings_g, 0, n0));
                assert(dyn_fields_rewritten(dyns@, dyns2_g@, bindings_g, c1, n0));
            }
            res
        }
        Term::List(ts) => {
            let mut bindings: Vec<Field> = Vec::new();
            let mut ts2: Vec<RichTerm> = Vec::new();
            let mut j: usize = 0;
            while j < ts.len()
                invariant
                    j <= ts@.len(),
                    ts2@.len() == j,
                    bindings@.len() == shared_elems_before(ts@, j as int),
                    gen.spec_counter() == n0 + bindings@.len(),
                    forall|i: int|
                        0 <= i < j ==> #[trigger] elem_rewritten(
                            ts@[i],
                            ts2@[i],
                            bindings@,
                            shared_elems_before(ts@, i),
                            n0 + shared_elems_before(ts@, i),
                        ),
                decreases ts@.len() - j,
            {
                proof {
                    lemma_shared_elems_before_bounds(ts@, j as int);
                }
                let t = &ts[j];
                let ghost old_b = bindings@;
                let ghost old_ts2 = ts2@;
                if should_share(&*t.term) {
                    let fresh = gen.fresh();
                    bindings.push(Field { id: fresh.clone(), term: t.clone() });
                    ts2.push(RichTerm::new(Term::Var(fresh), t.pos));
                } else {
                    ts2.push(t.clone());
                }
                proof {
                    assert forall|i: int| 0 <= i < j + 1 implies #[trigger] elem_rewritten(
                        ts@[i],
                        ts2@[i],
                        bindings@,
                        shared_elems_before(ts@, i),
                        n0 + shared_elems_before(ts@, i),
                    ) by {
                        lemma_shared_elems_before_bounds(ts@, i);
                        if i < j {
                            assert(elem_rewritten(
                                ts@[i],
                                old_ts2[i],
                                old_b,
                                shared_elems_before(ts@, i),
                                n0 + shared_elems_before(ts@, i),
                            ));
                        }
                    }
                }
                j = j + 1;
            }
            let ghost ts2_g = ts2;
            let ghost bindings_g = bindings@;
            let res = with_bindings(Term::List(ts2), bindings, rt.pos, BindingType::Normal);
            proof {
                assert(rt.node() == Term::List(*ts));
                assert(elems_rewritten(ts@, ts2_g@, bindings_g, n0));
            }
            res
        }
        Term::MetaValue(meta) => {
            match &meta.value {
                Some(v) => {
                    if should_share(&*v.term) {
                        let fresh = gen.fresh();
                        let mut meta2 = meta.clone();
                        meta2.value = Some(RichTerm::new(Term::Var(fresh.clone()), v.pos));
                        let ghost meta2_g = meta2;
                        let inner = RichTerm::new(Term::MetaValue(meta2), rt.pos);
                        let ghost inner_g = inner;
                        let res = RichTerm::new(
                            Term::Let(fresh, v.clone(), inner, BindingType::Normal),
                            rt.pos,
                        );
                        proof {
                            assert(rt.node() == Term::MetaValue(*meta));
                            assert(inner_g.node() == Term::MetaValue(meta2_g));
                            assert(meta_rewritten(*meta, meta2_g, inner_g, *v, n0));
                        }
                        res
                    } else {
                        rt
                    }
                }
                _ => rt,
            }
        }
        _ => rt,
    }
}

} // verus!

// Freshness: the rewrite can bind without capturing.

verus! {

/// Whether a generated identifier lies below the bound `n`; user-written
/// identifiers always do, living in their own namespace.
pub open spec fn gen_ident_below(id: Ident, n: int) -> bool {
    match id {
        Ident::Generated(k) => k < n,
        Ident::User(_) => true,
    }
}

/// Every generated identifier occurring anywhere in the term — as a
/// variable, a binder, a field or tag name, or inside an embedded type —
/// lies below `n`.
pub open spec fn gen_ids_below(t: Term, n: int) -> bool
    decreases t,
{
    match t {
        Term::Null => true,
        Term::Bool(_) => true,
        Term::Num(_) => true,
        Term::Str(_) => true,
        Term::Lbl(_) => true,
        Term::Sym(_) => true,
        Term::Enum(id) => gen_ident_below(id, n),
        Term::Var(id) => gen_ident_below(id, n),
        Term::Fun(id, body) => gen_ident_below(id, n) && gen_ids_below(body.node(), n),
        Term::Let(id, bound, body, _) => gen_ident_below(id, n) && gen_ids_below(bound.node(), n)
            && gen_ids_below(body.node(), n),
        Term::App(f, a) => gen_ids_below(f.node(), n) && gen_ids_below(a.node(), n),
        Term::Op1(op, t1) => uop_ids_below(op, n) && gen_ids_below(t1.node(), n),
        Term::Op2(_, a, b) => gen_ids_below(a.node(), n) && gen_ids_below(b.node(), n),
        Term::OpN(_, args) => terms_ids_below(args@, n),
        Term::Record(fields, _) => fields_ids_below(fields@, n),
        Term::RecRecord(fields, dyns, _) => fields_ids_below(fields@, n) && dyns_ids_below(
            dyns@,
            n,
        ),
        Term::List(ts) => terms_ids_below(ts@, n),
        Term::StrChunks(chunks) => chunks_ids_below(chunks@, n),
        Term::Promise(ty, _, t1) => types_ids_below(ty, n) && gen_ids_below(t1.node(), n),
        Term::Assume(ty, _, t1) => types_ids_below(ty, n) && gen_ids_below(t1.node(), n),
        Term::DefaultValue(t1) => gen_ids_below(t1.node(), n),
        Term::Docstring(_, t1) => gen_ids_below(t1.node(), n),
        Term::ContractWithDefault(ty, _, t1) => types_ids_below(ty, n) && gen_ids_below(
            t1.node(),
            n,
        ),
        Term::Contract(ty, _) => types_ids_below(ty, n),
        Term::MetaValue(meta) => contracts_ids_below(meta.contracts@, n) && match meta.value {
            Option::Some(v) => gen_ids_below(v.node(), n),
            Option::None => true,
        },
        Term::Import(_) => true,
        Term::ResolvedImport(_) => true,
    }
}

/// As [`gen_ids_below`], over the identifiers a unary operator embeds.
pub open spec fn uop_ids_below(op: crate::term::UnaryOp, n: int) -> bool
    decreases op,
{
    match op {
        crate::term::UnaryOp::Embed(id) => gen_ident_below(id, n),
        crate::term::UnaryOp::StaticAccess(id) => gen_ident_below(id, n),
        crate::term::UnaryOp::Switch(cases, default) => cases_ids_below(cases@, n) && match default {
            Option::Some(d) => gen_ids_below(d.node(), n),
            Option::None => true,
        },
        crate::term::UnaryOp::ChunksConcat(_, rest) => chunks_ids_below(rest@, n),
        _ => true,
    }
}

/// As [`gen_ids_below`], over a list of terms.
pub open spec fn terms_ids_below(ts: Seq<RichTerm>, n: int) -> bool
    decreases ts,
{
    if ts.len() == 0 {
        true
    } else {
        gen_ids_below(ts[0].node(), n) && terms_ids_below(ts.drop_first(), n)
    }
}

/// As [`gen_ids_below`], over record fields.
pub open spec fn fields_ids_below(fields: Seq<Field>, n: int) -> bool
    decreases fields,
{
    if fields.len() == 0 {
        true
    } else {
        gen_ident_below(fields[0].id, n) && gen_ids_below(fields[0].term.node(), n)
            && fields_ids_below(fields.drop_first(), n)
    }
}

/// As [`gen_ids_below`], over dynamic record fields.
pub open spec fn dyns_ids_below(fields: Seq<DynField>, n: int) -> bool
    decreases fields,
{
    if fields.len() == 0 {
        true
    } else {
        gen_ids_below(fields[0].name.node(), n) && gen_ids_below(fields[0].term.node(), n)
            && dyns_ids_below(fields.drop_first(), n)
    }
}

/// As [`gen_ids_below`], over string chunks.
pub open spec fn chunks_ids_below(chunks: Seq<crate::term::StrChunk>, n: int) -> bool
    decreases chunks,
{
    if chunks.len() == 0 {
        true
    } else {
        (match chunks[0] {
            crate::term::StrChunk::Literal(_) => true,
            crate::term::StrChunk::Expr(e) => gen_ids_below(e.node(), n),
        }) && chunks_ids_below(chunks.drop_first(), n)
    }
}

/// As [`gen_ids_below`], over the cases of a switch.
pub open spec fn cases_ids_below(cases: Seq<crate::term::SwitchCase>, n: int) -> bool
    decreases cases,
{
    if cases.len() == 0 {
        true
    } else {
        gen_ident_below(cases[0].tag, n) && gen_ids_below(cases[0].body.node(), n)
            && cases_ids_below(cases.drop_first(), n)
    }
}

/// As [`gen_ids_below`], over the contracts of a metavalue.
pub open spec fn contracts_ids_below(contracts: Seq<crate::term::MetaContract>, n: int) -> bool
    decreases contracts,
{
    if contracts.len() == 0 {
        true
    } else {
        types_ids_below(contracts[0].types, n) && contracts_ids_below(contracts.drop_first(), n)
    }
}

/// As [`gen_ids_below`], over a type and the contract terms it embeds.
pub open spec fn types_ids_below(ty: crate::types::Types, n: int) -> bool
    decreases ty,
{
    match ty {
        crate::types::Types::Dyn() => true,
        crate::types::Types::Num() => true,
        crate::types::Types::Bool() => true,
        crate::types::Types::Str() => true,
        crate::types::Types::Sym() => true,
        crate::types::Types::Flat(t) => gen_ids_below(t.node(), n),
        crate::types::Types::Arrow(dom, codom) => types_ids_below(*dom, n) && types_ids_below(
            *codom,
            n,
        ),
        crate::types::Types::Var(id) => gen_ident_below(id, n),
        crate::types::Types::Forall(id, t) => gen_ident_below(id, n) && types_ids_below(*t, n),
        crate::types::Types::RowEmpty() => true,
        crate::types::Types::RowExtend(id, oty, tail) => gen_ident_below(id, n) && (match oty {
            Option::Some(t) => types_ids_below(*t, n),
            Option::None => true,
        }) && types_ids_below(*tail, n),
        crate::types::Types::Enum(row) => types_ids_below(*row, n),
        crate::types::Types::StaticRecord(row) => types_ids_below(*row, n),
        crate::types::Types::DynRecord(t) => types_ids_below(*t, n),
        crate::types::Types::List(t) => types_ids_below(*t, n),
    }
}

/// Every count the rewrite reaches is reached: each index below the number
/// of shared fields is the shared-count of exactly one shared field.
pub proof fn lemma_shared_before_covers(fields: Seq<Field>, k: int, m: int)
    requires
        0 <= k <= fields.len(),
        0 <= m < shared_fields_before(fields, k),
    ensures
        exists|j: int|
            0 <= j < k && should_share_spec((#[trigger] fields[j]).term.node())
                && shared_fields_before(fields, j) == m,
    decreases k,
{
    lemma_shared_fields_before_bounds(fields, k - 1);
    if m < shared_fields_before(fields, k - 1) {
        lemma_shared_before_covers(fields, k - 1, m);
    } else {
        assert(should_share_spec(fields[k - 1].term.node()));
        assert(shared_fields_before(fields, k - 1) == m);
    }
}

/// Law: the rewrite of a record binds without capturing. When every
/// generated identifier in the record's fields lies below the generator's
/// counter, every binding the rewrite introduces binds an identifier at or
/// above the counter, and the term it binds — the hoisted field, verbatim
/// — mentions only generated identifiers below it: no hoisted term can
/// mention any of the new binders.
pub proof fn lemma_record_rewrite_capture_free(
    fields: Seq<Field>,
    fields2: Seq<Field>,
    bindings: Seq<Field>,
    n0: int,
)
    requires
        0 <= n0,
        n0 + bindings.len() <= u64::MAX,
        fields_rewritten(fields, fields2, bindings, 0, n0),
        bindings.len() == shared_fields_before(fields, fields.len() as int),
        forall|j: int| 0 <= j < fields.len() ==> gen_ids_below((#[trigger] fields[j]).term.node(), n0),
    ensures
        forall|m: int|
            0 <= m < bindings.len() ==> gen_ids_below((#[trigger] bindings[m]).term.node(), n0)
                && (bindings[m].id matches Ident::Generated(c) && c >= n0),
{
    assert forall|m: int|
        0 <= m < bindings.len() implies gen_ids_below((#[trigger] bindings[m]).term.node(), n0) && (
    bindings[m].id matches Ident::Generated(c) && c >= n0) by {
        lemma_shared_before_covers(fields, fields.len() as int, m);
        let j = choose|j: int|
            0 <= j < fields.len() && should_share_spec((#[trigger] fields[j]).term.node())
                && shared_fields_before(fields, j) == m;
        assert(field_rewritten(
            fields[j],
            fields2[j],
            bindings,
            0 + shared_fields_before(fields, j),
            n0 + 0 + shared_fields_before(fields, j),
        ));
        assert(field_rewritten(fields[j], fields2[j], bindings, m, n0 + m));
    }
}


/// As [`lemma_shared_before_covers`], for the recursive-record count.
pub proof fn lemma_hoisted_before_covers(fields: Seq<Field>, k: int, m: int)
    requires
        0 <= k <= fields.len(),
        0 <= m < hoisted_fields_before(fields, k),
    ensures
        exists|j: int|
            0 <= j < k && !(#[trigger] fields[j]).term.node().spec_is_constant()
                && hoisted_fields_before(fields, j) == m,
    decreases k,
{
    lemma_hoisted_fields_before_bounds(fields, k - 1);
    if m < hoisted_fields_before(fields, k - 1) {
        lemma_hoisted_before_covers(fields, k - 1, m);
    } else {
        assert(!fields[k - 1].term.node().spec_is_constant());
        assert(hoisted_fields_before(fields, k - 1) == m);
    }
}

/// As [`lemma_shared_before_covers`], for the list count.
pub proof fn lemma_shared_elems_covers(ts: Seq<RichTerm>, k: int, m: int)
    requires
        0 <= k <= ts.len(),
        0 <= m < shared_elems_before(ts, k),
    ensures
        exists|j: int|
            0 <= j < k && should_share_spec((#[trigger] ts[j]).node()) && shared_elems_before(
                ts,
                j,
            ) == m,
    decreases k,
{
    lemma_shared_elems_before_bounds(ts, k - 1);
    if m < shared_elems_before(ts, k - 1) {
        lemma_shared_elems_covers(ts, k - 1, m);
    } else {
        assert(should_share_spec(ts[k - 1].node()));
        assert(shared_elems_before(ts, k - 1) == m);
    }
}

/// Law: the rewrite of a recursive record binds without capturing, as
/// [`lemma_record_rewrite_capture_free`] states it for plain records.
pub proof fn lemma_rec_record_rewrite_capture_free(
    fields: Seq<Field>,
    fields2: Seq<Field>,
    bindings: Seq<Field>,
    n0: int,
)
    requires
        0 <= n0,
        n0 + bindings.len() <= u64::MAX,
        rec_fields_rewritten(fields, fields2, bindings, 0, n0),
        bindings.len() >= hoisted_fields_before(fields, fields.len() as int),
        forall|j: int| 0 <= j < fields.len() ==> gen_ids_below((#[trigger] fields[j]).term.node(), n0),
    ensures
        forall|m: int|
            0 <= m < hoisted_fields_before(fields, fields.len() as int) ==> gen_ids_below(
                (#[trigger] bindings[m]).term.node(),
                n0,
            ) && (bindings[m].id matches Ident::Generated(c) && c >= n0),
{
    assert forall|m: int|
        0 <= m < hoisted_fields_before(fields, fields.len() as int) implies gen_ids_below(
        (#[trigger] bindings[m]).term.node(),
        n0,
    ) && (bindings[m].id matches Ident::Generated(c) && c >= n0) by {
        lemma_hoisted_before_covers(fields, fields.len() as int, m);
        let j = choose|j: int|
            0 <= j < fields.len() && !(#[trigger] fields[j]).term.node().spec_is_constant()
                && hoisted_fields_before(fields, j) == m;
        assert(rec_field_rewritten(
            fields[j],
            fields2[j],
            bindings,
            0 + hoisted_fields_before(fields, j),
            n0 + 0 + hoisted_fields_before(fields, j),
        ));
        assert(rec_field_rewritten(fields[j], fields2[j], bindings, m, n0 + m));
    }
}

/// Law: the rewrite of a list binds without capturing, as
/// [`lemma_record_rewrite_capture_free`] states it for records.
pub proof fn lemma_list_rewrite_capture_free(
    ts: Seq<RichTerm>,
    ts2: Seq<RichTerm>,
    bindings: Seq<Field>,
    n0: int,
)
    requires
        0 <= n0,
        n0 + bindings.len() <= u64::MAX,
        elems_rewritten(ts, ts2, bindings, n0),
        bindings.len() == shared_elems_before(ts, ts.len() as int),
        forall|j: int| 0 <= j < ts.len() ==> gen_ids_below((#[trigger] ts[j]).node(), n0),
    ensures
        forall|m: int|
            0 <= m < bindings.len() ==> gen_ids_below((#[trigger] bindings[m]).term.node(), n0) && (
            bindings[m].id matches Ident::Generated(c) && c >= n0),
{
    assert forall|m: int|
        0 <= m < bindings.len() implies gen_ids_below((#[trigger] bindings[m]).term.node(), n0) && (
    bindings[m].id matches Ident::Generated(c) && c >= n0) by {
        lemma_shared_elems_covers(ts, ts.len() as int, m);
        let j = choose|j: int|
            0 <= j < ts.len() && should_share_spec((#[trigger] ts[j]).node())
                && shared_elems_before(ts, j) == m;
        assert(elem_rewritten(
            ts[j],
            ts2[j],
            bindings,
            shared_elems_before(ts, j),
            n0 + shared_elems_before(ts, j),
        ));
        assert(elem_rewritten(ts[j], ts2[j], bindings, m, n0 + m));
    }
}

} // verus!
