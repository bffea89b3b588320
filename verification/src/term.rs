//! The term model.
//!
//! Terms are the algebraic representation of expressions: atoms, variables,
//! abstractions, applications, primitive applications, records, lists,
//! string chunk sequences, contract markers and enriched values. Every node
//! carries an optional source position. Nodes are reference-counted, so
//! sharing a subterm is cheap and, to the verifier, exact.

use vstd::prelude::*;
use std::rc::Rc;
use crate::identifier::Ident;
use crate::label::Label;
use crate::position::{FileId, TermPos};
use crate::types::Types;

verus! {

/// A number of the language: a fixed-point decimal counted in thousandths,
/// so that configuration-level constants such as halves and tenths are
/// represented exactly without floating point.
#[derive(Debug, Clone, Copy, PartialEq, Eq, Structural, Hash)]
pub struct Number {
    pub millis: i64,
}

impl Number {
    /// The number `millis / 1000`.
    pub fn from_millis(millis: i64) -> (res: Number)
        ensures
            res.millis == millis,
    {
        Number { millis }
    }

    /// The integer `n`, when it is small enough to represent.
    pub fn from_int(n: i64) -> (res: Number)
        requires
            -9_000_000_000_000_000 <= n <= 9_000_000_000_000_000,
        ensures
            res.millis == n * 1000,
    {
        Number { millis: n * 1000 }
    }
}

/// How a let binds: a plain binding, or a revertible one whose thunk
/// remembers its original closure so record merging can reinstate it.
#[derive(Debug, Clone, Copy, PartialEq, Eq, Structural, Hash)]
pub enum BindingType {
    Normal,
    Revertible,
}

/// One chunk of an interpolated string: a literal piece or an expression
/// whose value is spliced in.
#[derive(Debug, PartialEq)]
pub enum StrChunk {
    Literal(String),
    Expr(RichTerm),
}

impl Clone for StrChunk {
    fn clone(&self) -> (res: Self)
        ensures
            res == *self,
    {
        match self {
            StrChunk::Literal(s) => StrChunk::Literal(s.clone()),
            StrChunk::Expr(t) => StrChunk::Expr(t.clone()),
        }
    }
}

/// Attributes of a record literal.
#[derive(Debug, Clone, Copy, PartialEq, Eq, Structural, Hash)]
pub struct RecordAttrs {
    /// Whether the record accepts fields beyond the ones listed.
    pub is_open: bool,
}

impl RecordAttrs {
    pub fn default_attrs() -> (res: RecordAttrs)
        ensures
            res == (RecordAttrs { is_open: false }),
    {
        RecordAttrs { is_open: false }
    }
}

/// A named field of a record literal.
#[derive(Debug, PartialEq)]
pub struct Field {
    pub id: Ident,
    pub term: RichTerm,
}

impl Clone for Field {
    fn clone(&self) -> (res: Self)
        ensures
            res == *self,
    {
        Field { id: self.id.clone(), term: self.term.clone() }
    }
}

/// A dynamically named field of a record: the name itself is computed.
#[derive(Debug, PartialEq)]
pub struct DynField {
    pub name: RichTerm,
    pub term: RichTerm,
}

impl Clone for DynField {
    fn clone(&self) -> (res: Self)
        ensures
            res == *self,
    {
        DynField { name: self.name.clone(), term: self.term.clone() }
    }
}

/// One case of a `switch` primitive: an enum tag and the body selected
/// when the scrutinee carries that tag.
#[derive(Debug, PartialEq)]
pub struct SwitchCase {
    pub tag: Ident,
    pub body: RichTerm,
}

impl Clone for SwitchCase {
    fn clone(&self) -> (res: Self)
        ensures
            res == *self,
    {
        SwitchCase { tag: self.tag.clone(), body: self.body.clone() }
    }
}

/// A contract attached to a metavalue.
#[derive(Debug, PartialEq)]
pub struct MetaContract {
    pub types: Types,
    pub label: Label,
}

impl Clone for MetaContract {
    fn clone(&self) -> (res: Self)
        ensures
            res == *self,
    {
        MetaContract { types: self.types.clone(), label: self.label.clone() }
    }
}

/// A value enriched with metadata: an optional documentation string, a list
/// of contracts, and the value itself when one was given.
#[derive(Debug, PartialEq)]
pub struct MetaValue {
    pub doc: Option<String>,
    pub contracts: Vec<MetaContract>,
    pub value: Option<RichTerm>,
}

impl MetaValue {
    /// Equality up to the identity of the contract vector.
    pub open spec fn like(self, other: MetaValue) -> bool {
        &&& match (self.doc, other.doc) {
            (Option::Some(a), Option::Some(b)) => a == b,
            (Option::None, Option::None) => true,
            _ => false,
        }
        &&& self.contracts@ == other.contracts@
        &&& self.value == other.value
    }
}

impl Clone for MetaValue {
    fn clone(&self) -> (res: Self)
        ensures
            res.like(*self),
    {
        let doc = match &self.doc {
            Option::Some(s) => Option::Some(s.clone()),
            Option::None => Option::None,
        };
        let contracts = clone_contracts(&self.contracts);
        let value = match &self.value {
            Option::Some(t) => Option::Some(t.clone()),
            Option::None => Option::None,
        };
        MetaValue { doc, contracts, value }
    }
}

/// A primitive operation of one argument.
#[derive(Debug, PartialEq)]
pub enum UnaryOp {
    /// Dispatch on a boolean: the two branches are pending arguments.
    Ite(),
    IsZero(),
    IsNum(),
    IsBool(),
    IsStr(),
    IsFun(),
    IsList(),
    IsRecord(),
    BoolAnd(),
    BoolOr(),
    BoolNot(),
    Blame(),
    Pol(),
    Embed(Ident),
    /// Dispatch on an enum tag; only ever produced during evaluation.
    Switch(Vec<SwitchCase>, Option<RichTerm>),
    ChangePolarity(),
    GoDom(),
    GoCodom(),
    GoList(),
    Wrap(),
    StaticAccess(Ident),
    ListMap(),
    ListGen(),
    RecordMap(),
    SeqOp(),
    DeepSeq(),
    ListHead(),
    ListTail(),
    ListLength(),
    /// Concatenation of evaluated string chunks: the accumulator so far and
    /// the chunks still to evaluate; only ever produced during evaluation.
    ChunksConcat(String, Vec<StrChunk>),
    FieldsOf(),
    ValuesOf(),
    StrTrim(),
    StrChars(),
    CharCode(),
    CharFromCode(),
    StrUppercase(),
    StrLowercase(),
    StrLength(),
    ToStr(),
    NumFromStr(),
    EnumFromStr(),
}

impl UnaryOp {
    /// Equality up to the identity of embedded vectors.
    pub open spec fn like(self, other: UnaryOp) -> bool {
        match (self, other) {
            (UnaryOp::Switch(c1, d1), UnaryOp::Switch(c2, d2)) => c1@ == c2@ && d1 == d2,
            (UnaryOp::ChunksConcat(a1, r1), UnaryOp::ChunksConcat(a2, r2)) => a1 == a2 && r1@
                == r2@,
            _ => self == other,
        }
    }

    /// Whether this operator may only be produced during evaluation, so the
    /// typechecker must never be asked for its type.
    pub open spec fn spec_eval_only(&self) -> bool {
        self is Switch || self is ChunksConcat
    }

    /// Decide [`Self::spec_eval_only`].
    pub fn is_eval_only(&self) -> (r: bool)
        ensures
            r == self.spec_eval_only(),
    {
        match self {
            UnaryOp::Switch(_, _) | UnaryOp::ChunksConcat(_, _) => true,
            _ => false,
        }
    }
}

impl Clone for UnaryOp {
    fn clone(&self) -> (res: Self)
        ensures
            res.like(*self),
    {
        match self {
            UnaryOp::Ite() => UnaryOp::Ite(),
            UnaryOp::IsZero() => UnaryOp::IsZero(),
            UnaryOp::IsNum() => UnaryOp::IsNum(),
            UnaryOp::IsBool() => UnaryOp::IsBool(),
            UnaryOp::IsStr() => UnaryOp::IsStr(),
            UnaryOp::IsFun() => UnaryOp::IsFun(),
            UnaryOp::IsList() => UnaryOp::IsList(),
            UnaryOp::IsRecord() => UnaryOp::IsRecord(),
            UnaryOp::BoolAnd() => UnaryOp::BoolAnd(),
            UnaryOp::BoolOr() => UnaryOp::BoolOr(),
            UnaryOp::BoolNot() => UnaryOp::BoolNot(),
            UnaryOp::Blame() => UnaryOp::Blame(),
            UnaryOp::Pol() => UnaryOp::Pol(),
            UnaryOp::Embed(id) => UnaryOp::Embed(id.clone()),
            UnaryOp::Switch(cases, default) => {
                let d = match default {
                    Option::Some(t) => Option::Some(t.clone()),
                    Option::None => Option::None,
                };
                UnaryOp::Switch(clone_switch_cases(cases), d)
            }
            UnaryOp::ChangePolarity() => UnaryOp::ChangePolarity(),
            UnaryOp::GoDom() => UnaryOp::GoDom(),
            UnaryOp::GoCodom() => UnaryOp::GoCodom(),
            UnaryOp::GoList() => UnaryOp::GoList(),
            UnaryOp::Wrap() => UnaryOp::Wrap(),
            UnaryOp::StaticAccess(id) => UnaryOp::StaticAccess(id.clone()),
            UnaryOp::ListMap() => UnaryOp::ListMap(),
            UnaryOp::ListGen() => UnaryOp::ListGen(),
            UnaryOp::RecordMap() => UnaryOp::RecordMap(),
            UnaryOp::SeqOp() => UnaryOp::SeqOp(),
            UnaryOp::DeepSeq() => UnaryOp::DeepSeq(),
            UnaryOp::ListHead() => UnaryOp::ListHead(),
            UnaryOp::ListTail() => UnaryOp::ListTail(),
            UnaryOp::ListLength() => UnaryOp::ListLength(),
            UnaryOp::ChunksConcat(acc, rest) => UnaryOp::ChunksConcat(
                acc.clone(),
                clone_chunks(rest),
            ),
            UnaryOp::FieldsOf() => UnaryOp::FieldsOf(),
            UnaryOp::ValuesOf() => UnaryOp::ValuesOf(),
            UnaryOp::StrTrim() => UnaryOp::StrTrim(),
            UnaryOp::StrChars() => UnaryOp::StrChars(),
            UnaryOp::CharCode() => UnaryOp::CharCode(),
            UnaryOp::CharFromCode() => UnaryOp::CharFromCode(),
            UnaryOp::StrUppercase() => UnaryOp::StrUppercase(),
            UnaryOp::StrLowercase() => UnaryOp::StrLowercase(),
            UnaryOp::StrLength() => UnaryOp::StrLength(),
            UnaryOp::ToStr() => UnaryOp::ToStr(),
            UnaryOp::NumFromStr() => UnaryOp::NumFromStr(),
            UnaryOp::EnumFromStr() => UnaryOp::EnumFromStr(),
        }
    }
}

/// A primitive operation of two arguments.
#[derive(Debug, Clone, Copy, PartialEq, Eq, Structural, Hash)]
pub enum BinaryOp {
    Plus(),
    Sub(),
    Mult(),
    Div(),
    Modulo(),
    StrConcat(),
    /// Application of a contract; only ever produced during evaluation.
    Assume(),
    Unwrap(),
    Tag(),
    Eq(),
    LessThan(),
    LessOrEq(),
    GreaterThan(),
    GreaterOrEq(),
    GoField(),
    DynAccess(),
    DynExtend(),
    DynRemove(),
    HasField(),
    ListConcat(),
    ListElemAt(),
    Merge(),
    Hash(),
    Serialize(),
    Deserialize(),
    Pow(),
    StrContains(),
    StrIsMatch(),
    StrMatch(),
    StrSplit(),
}

impl BinaryOp {
    /// Whether the operator evaluates its operands with strict treatment of
    /// enriched values. Merging is the one operator that must see enriched
    /// values as they are.
    pub open spec fn spec_is_strict(&self) -> bool {
        !(self is Merge)
    }

    /// Decide [`Self::spec_is_strict`].
    pub fn is_strict(&self) -> (r: bool)
        ensures
            r == self.spec_is_strict(),
    {
        match self {
            BinaryOp::Merge() => false,
            _ => true,
        }
    }

    /// Whether this operator may only be produced during evaluation.
    pub open spec fn spec_eval_only(&self) -> bool {
        self is Assume
    }

    /// Decide [`Self::spec_eval_only`].
    pub fn is_eval_only(&self) -> (r: bool)
        ensures
            r == self.spec_eval_only(),
    {
        match self {
            BinaryOp::Assume() => true,
            _ => false,
        }
    }
}

/// A primitive operation of more than two arguments.
#[derive(Debug, Clone, Copy, PartialEq, Eq, Structural, Hash)]
pub enum NAryOp {
    StrReplace(),
    StrReplaceRegex(),
    StrSubstr(),
    /// Unfolding of a merge across contracts; only ever produced during
    /// evaluation.
    MergeContract(),
}

impl NAryOp {
    /// Whether this operator may only be produced during evaluation.
    pub open spec fn spec_eval_only(&self) -> bool {
        self is MergeContract
    }

    /// Decide [`Self::spec_eval_only`].
    pub fn is_eval_only(&self) -> (r: bool)
        ensures
            r == self.spec_eval_only(),
    {
        match self {
            NAryOp::MergeContract() => true,
            _ => false,
        }
    }
}

/// A term of the language (one node; children are shared subterms).
#[derive(Debug, PartialEq)]
pub enum Term {
    Null,
    Bool(bool),
    Num(Number),
    Str(String),
    StrChunks(Vec<StrChunk>),
    Lbl(Label),
    Sym(i64),
    Enum(Ident),
    Var(Ident),
    Fun(Ident, RichTerm),
    Let(Ident, RichTerm, RichTerm, BindingType),
    App(RichTerm, RichTerm),
    Op1(UnaryOp, RichTerm),
    Op2(BinaryOp, RichTerm, RichTerm),
    OpN(NAryOp, Vec<RichTerm>),
    Record(Vec<Field>, RecordAttrs),
    RecRecord(Vec<Field>, Vec<DynField>, RecordAttrs),
    List(Vec<RichTerm>),
    Promise(Types, Label, RichTerm),
    Assume(Types, Label, RichTerm),
    DefaultValue(RichTerm),
    Docstring(String, RichTerm),
    ContractWithDefault(Types, Label, RichTerm),
    Contract(Types, Label),
    MetaValue(MetaValue),
    Import(String),
    ResolvedImport(FileId),
}

/// A term together with the position it was parsed at.
#[derive(Debug, PartialEq)]
pub struct RichTerm {
    pub term: Rc<Term>,
    pub pos: TermPos,
}

impl Clone for RichTerm {
    fn clone(&self) -> (res: Self)
        ensures
            res == *self,
    {
        RichTerm { term: Rc::clone(&self.term), pos: self.pos }
    }
}

impl RichTerm {
    /// The node of this term.
    pub open spec fn node(self) -> Term {
        *self.term
    }

    /// Wrap a node with a position.
    pub fn new(t: Term, pos: TermPos) -> (res: RichTerm)
        ensures
            res.node() == t,
            res.pos == pos,
    {
        RichTerm { term: Rc::new(t), pos }
    }

    /// Wrap a node without a position.
    pub fn from_term(t: Term) -> (res: RichTerm)
        ensures
            res.node() == t,
            res.pos == TermPos::NoPos,
    {
        RichTerm { term: Rc::new(t), pos: TermPos::NoPos }
    }

    /// A variable, by name.
    pub fn var(name: String) -> (res: RichTerm)
        ensures
            res.node() == Term::Var(Ident::User(name)),
            res.pos == TermPos::NoPos,
    {
        RichTerm::from_term(Term::Var(Ident::User(name)))
    }

    /// An application.
    pub fn app(f: RichTerm, arg: RichTerm) -> (res: RichTerm)
        ensures
            res.node() == Term::App(f, arg),
            res.pos == TermPos::NoPos,
    {
        RichTerm::from_term(Term::App(f, arg))
    }

    /// A plain let binding, by name.
    pub fn let_in(name: String, bound: RichTerm, body: RichTerm) -> (res: RichTerm)
        ensures
            res.node() == Term::Let(Ident::User(name), bound, body, BindingType::Normal),
            res.pos == TermPos::NoPos,
    {
        RichTerm::from_term(Term::Let(Ident::User(name), bound, body, BindingType::Normal))
    }

    /// A conditional: the primitive dispatches on the condition and picks
    /// one of the two pending arguments.
    pub fn ite(cond: RichTerm, then_branch: RichTerm, else_branch: RichTerm) -> (res: RichTerm)
        ensures
            ({
                &&& res.node() matches Term::App(f1, e)
                &&& e == else_branch
                &&& f1.node() matches Term::App(f2, t)
                &&& t == then_branch
                &&& f2.node() == Term::Op1(UnaryOp::Ite(), cond)
            }),
    {
        RichTerm::app(
            RichTerm::app(RichTerm::from_term(Term::Op1(UnaryOp::Ite(), cond)), then_branch),
            else_branch,
        )
    }

    /// A numeric addition.
    pub fn plus(t1: RichTerm, t2: RichTerm) -> (res: RichTerm)
        ensures
            res.node() == Term::Op2(BinaryOp::Plus(), t1, t2),
            res.pos == TermPos::NoPos,
    {
        RichTerm::from_term(Term::Op2(BinaryOp::Plus(), t1, t2))
    }
}

impl Term {
    /// Whether the outermost constructor is final: an atom, a function, a
    /// record, a list, an enriched value, a label or a symbol.
    pub open spec fn spec_is_whnf(&self) -> bool {
        match self {
            Term::Null => true,
            Term::Bool(_) => true,
            Term::Num(_) => true,
            Term::Str(_) => true,
            Term::Lbl(_) => true,
            Term::Sym(_) => true,
            Term::Enum(_) => true,
            Term::Fun(_, _) => true,
            Term::Record(_, _) => true,
            Term::List(_) => true,
            Term::DefaultValue(_) => true,
            Term::Docstring(_, _) => true,
            Term::ContractWithDefault(_, _, _) => true,
            Term::Contract(_, _) => true,
            Term::MetaValue(_) => true,
            _ => false,
        }
    }

    /// Decide [`Self::spec_is_whnf`].
    pub fn is_whnf(&self) -> (r: bool)
        ensures
            r == self.spec_is_whnf(),
    {
        match self {
            Term::Null
            | Term::Bool(_)
            | Term::Num(_)
            | Term::Str(_)
            | Term::Lbl(_)
            | Term::Sym(_)
            | Term::Enum(_)
            | Term::Fun(_, _)
            | Term::Record(_, _)
            | Term::List(_)
            | Term::DefaultValue(_)
            | Term::Docstring(_, _)
            | Term::ContractWithDefault(_, _, _)
            | Term::Contract(_, _)
            | Term::MetaValue(_) => true,
            _ => false,
        }
    }

    /// Whether the term is an enriched value: a value wrapped with metadata.
    pub open spec fn spec_is_enriched(&self) -> bool {
        match self {
            Term::DefaultValue(_) => true,
            Term::Docstring(_, _) => true,
            Term::ContractWithDefault(_, _, _) => true,
            Term::Contract(_, _) => true,
            Term::MetaValue(_) => true,
            _ => false,
        }
    }

    /// Decide [`Self::spec_is_enriched`].
    pub fn is_enriched(&self) -> (r: bool)
        ensures
            r == self.spec_is_enriched(),
    {
        match self {
            Term::DefaultValue(_)
            | Term::Docstring(_, _)
            | Term::ContractWithDefault(_, _, _)
            | Term::Contract(_, _)
            | Term::MetaValue(_) => true,
            _ => false,
        }
    }

    /// Whether the term is a plain constant, needing no environment at all.
    pub open spec fn spec_is_constant(&self) -> bool {
        match self {
            Term::Null => true,
            Term::Bool(_) => true,
            Term::Num(_) => true,
            Term::Str(_) => true,
            Term::Lbl(_) => true,
            Term::Sym(_) => true,
            Term::Enum(_) => true,
            Term::Fun(_, _) => true,
            _ => false,
        }
    }

    /// Decide [`Self::spec_is_constant`].
    pub fn is_constant(&self) -> (r: bool)
        ensures
            r == self.spec_is_constant(),
    {
        match self {
            Term::Null
            | Term::Bool(_)
            | Term::Num(_)
            | Term::Str(_)
            | Term::Lbl(_)
            | Term::Sym(_)
            | Term::Enum(_)
            | Term::Fun(_, _) => true,
            _ => false,
        }
    }

    /// Equality of one node, up to the identity of the vectors it holds:
    /// corresponding vectors must hold equal elements, everything else must
    /// be equal outright. This is what cloning a node guarantees.
    pub open spec fn like(self, other: Term) -> bool {
        match (self, other) {
            (Term::StrChunks(c1), Term::StrChunks(c2)) => c1@ == c2@,
            (Term::OpN(o1, a1), Term::OpN(o2, a2)) => o1 == o2 && a1@ == a2@,
            (Term::Record(m1, a1), Term::Record(m2, a2)) => m1@ == m2@ && a1 == a2,
            (Term::RecRecord(m1, d1, a1), Term::RecRecord(m2, d2, a2)) => m1@ == m2@ && d1@ == d2@
                && a1 == a2,
            (Term::List(t1), Term::List(t2)) => t1@ == t2@,
            (Term::Op1(o1, t1), Term::Op1(o2, t2)) => o1.like(o2) && t1 == t2,
            (Term::MetaValue(m1), Term::MetaValue(m2)) => m1.like(m2),
            _ => self == other,
        }
    }
}

impl Clone for Term {
    fn clone(&self) -> (res: Self)
        ensures
            res.like(*self),
    {
        match self {
            Term::Null => Term::Null,
            Term::Bool(b) => Term::Bool(*b),
            Term::Num(n) => Term::Num(*n),
            Term::Str(s) => Term::Str(s.clone()),
            Term::StrChunks(chunks) => Term::StrChunks(clone_chunks(chunks)),
            Term::Lbl(l) => Term::Lbl(l.clone()),
            Term::Sym(s) => Term::Sym(*s),
            Term::Enum(id) => Term::Enum(id.clone()),
            Term::Var(id) => Term::Var(id.clone()),
            Term::Fun(id, body) => Term::Fun(id.clone(), body.clone()),
            Term::Let(id, bound, body, btype) => Term::Let(
                id.clone(),
                bound.clone(),
                body.clone(),
                *btype,
            ),
            Term::App(f, a) => Term::App(f.clone(), a.clone()),
            Term::Op1(op, t) => Term::Op1(op.clone(), t.clone()),
            Term::Op2(op, t1, t2) => Term::Op2(*op, t1.clone(), t2.clone()),
            Term::OpN(op, args) => Term::OpN(*op, clone_terms(args)),
            Term::Record(map, attrs) => Term::Record(clone_fields(map), *attrs),
            Term::RecRecord(map, dyns, attrs) => Term::RecRecord(
                clone_fields(map),
                clone_dyn_fields(dyns),
                *attrs,
            ),
            Term::List(ts) => Term::List(clone_terms(ts)),
            Term::Promise(ty, l, t) => Term::Promise(ty.clone(), l.clone(), t.clone()),
            Term::Assume(ty, l, t) => Term::Assume(ty.clone(), l.clone(), t.clone()),
            Term::DefaultValue(t) => Term::DefaultValue(t.clone()),
            Term::Docstring(s, t) => Term::Docstring(s.clone(), t.clone()),
            Term::ContractWithDefault(ty, l, t) => Term::ContractWithDefault(
                ty.clone(),
                l.clone(),
                t.clone(),
            ),
            Term::Contract(ty, l) => Term::Contract(ty.clone(), l.clone()),
            Term::MetaValue(meta) => Term::MetaValue(meta.clone()),
            Term::Import(path) => Term::Import(path.clone()),
            Term::ResolvedImport(id) => Term::ResolvedImport(*id),
        }
    }
}

/// Cloning a vector whose element clones are exact yields a vector with the
/// same mathematical contents.
proof fn lemma_clone_exact_seq<T: Clone>(v: Seq<T>, r: Seq<T>)
    requires
        r.len() == v.len(),
        forall|i: int| #![all_triggers] 0 <= i < v.len() ==> cloned::<T>(v[i], r[i]),
        forall|x: &T, y: T| #[trigger] call_ensures(T::clone, (x,), y) ==> y == *x,
    ensures
        r == v,
{
    assert forall|i: int| 0 <= i < v.len() implies r[i] == v[i] by {
        assert(cloned::<T>(v[i], r[i]));
    }
    assert(r =~= v);
}

/// Clone a vector of shared terms; the contents are preserved exactly.
pub fn clone_terms(v: &Vec<RichTerm>) -> (res: Vec<RichTerm>)
    ensures
        res@ == v@,
{
    let res = v.clone();
    proof {
        lemma_clone_exact_seq(v@, res@);
    }
    res
}

/// Clone a vector of record fields; the contents are preserved exactly.
pub fn clone_fields(v: &Vec<Field>) -> (res: Vec<Field>)
    ensures
        res@ == v@,
{
    let res = v.clone();
    proof {
        lemma_clone_exact_seq(v@, res@);
    }
    res
}

/// Clone a vector of dynamic record fields; the contents are preserved
/// exactly.
pub fn clone_dyn_fields(v: &Vec<DynField>) -> (res: Vec<DynField>)
    ensures
        res@ == v@,
{
    let res = v.clone();
    proof {
        lemma_clone_exact_seq(v@, res@);
    }
    res
}

/// Clone a vector of string chunks; the contents are preserved exactly.
pub fn clone_chunks(v: &Vec<StrChunk>) -> (res: Vec<StrChunk>)
    ensures
        res@ == v@,
{
    let res = v.clone();
    proof {
        lemma_clone_exact_seq(v@, res@);
    }
    res
}

/// Clone a vector of switch cases; the contents are preserved exactly.
pub fn clone_switch_cases(v: &Vec<SwitchCase>) -> (res: Vec<SwitchCase>)
    ensures
        res@ == v@,
{
    let res = v.clone();
    proof {
        lemma_clone_exact_seq(v@, res@);
    }
    res
}

/// Clone a vector of metavalue contracts; the contents are preserved
/// exactly.
pub fn clone_contracts(v: &Vec<MetaContract>) -> (res: Vec<MetaContract>)
    ensures
        res@ == v@,
{
    let res = v.clone();
    proof {
        lemma_clone_exact_seq(v@, res@);
    }
    res
}

} // verus!
