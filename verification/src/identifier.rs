//! Identifiers of the language.
//!
//! An identifier is an opaque symbol. Identifiers written by the user and
//! identifiers generated by the share-normal-form transformation are drawn
//! from two disjoint namespaces, so generated names can never clash with
//! user code: the parser only ever produces the user namespace.

use vstd::prelude::*;

verus! {

/// An identifier: either a user-written name or a generated symbol.
#[derive(Debug, PartialEq, Eq, Hash)]
pub enum Ident {
    /// A name as written in the source.
    User(String),
    /// A fresh symbol introduced by the share-normal-form transformation,
    /// identified by the counter value that produced it.
    Generated(u64),
}

/// The mathematical value of an identifier.
pub enum IdentView {
    User(Seq<char>),
    Generated(u64),
}

impl View for Ident {
    type V = IdentView;

    open spec fn view(&self) -> IdentView {
        match self {
            Ident::User(s) => IdentView::User(s@),
            Ident::Generated(n) => IdentView::Generated(*n),
        }
    }
}

impl Clone for Ident {
    fn clone(&self) -> (res: Self)
        ensures
            res == *self,
    {
        match self {
            Ident::User(s) => Ident::User(s.clone()),
            Ident::Generated(n) => Ident::Generated(*n),
        }
    }
}

impl Ident {
    /// Build a user identifier from its name.
    pub fn user(name: String) -> (res: Ident)
        ensures
            res@ == IdentView::User(name@),
    {
        Ident::User(name)
    }

    /// Whether this identifier was generated by the transformation.
    pub open spec fn spec_is_generated(&self) -> bool {
        self@ is Generated
    }

    /// Decide whether this identifier lives in the generated namespace.
    pub fn is_generated(&self) -> (r: bool)
        ensures
            r == self.spec_is_generated(),
    {
        match self {
            Ident::Generated(_) => true,
            Ident::User(_) => false,
        }
    }

    /// Decide equality of two identifiers, as their views.
    pub fn same(&self, other: &Ident) -> (r: bool)
        ensures
            r == (self@ == other@),
    {
        match (self, other) {
            (Ident::User(a), Ident::User(b)) => a.eq(b),
            (Ident::Generated(a), Ident::Generated(b)) => a == b,
            _ => false,
        }
    }
}

/// A supply of fresh generated identifiers.
///
/// The transformation threads one generator through a whole traversal; two
/// identifiers drawn from the same generator are always distinct.
#[derive(Debug)]
pub struct FreshVarGen {
    counter: u64,
}

impl FreshVarGen {
    /// How many identifiers were already drawn.
    pub closed spec fn spec_counter(&self) -> u64 {
        self.counter
    }

    /// A generator that has issued nothing yet.
    pub fn new() -> (res: FreshVarGen)
        ensures
            res.spec_counter() == 0,
    {
        FreshVarGen { counter: 0 }
    }

    /// Draw the next fresh identifier.
    pub fn fresh(&mut self) -> (res: Ident)
        requires
            old(self).spec_counter() < u64::MAX,
        ensures
            res@ == IdentView::Generated(old(self).spec_counter()),
            final(self).spec_counter() == old(self).spec_counter() + 1,
    {
        let id = Ident::Generated(self.counter);
        self.counter = self.counter + 1;
        id
    }
}

} // verus!
