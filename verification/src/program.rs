//! The import interface.
//!
//! Reading and parsing files is not the evaluator's business: a driver
//! resolves every import before evaluation and caches the parsed terms.
//! The evaluator only ever fetches a cached term by its file identifier.

use vstd::prelude::*;
use crate::position::FileId;
use crate::term::RichTerm;

verus! {

/// The interface the evaluator uses to fetch resolved imports.
pub trait ImportResolver {
    /// The cache of resolved imports, as a mathematical lookup.
    spec fn spec_get(&self, id: FileId) -> Option<RichTerm>;

    /// Fetch the term cached for `id`, if any.
    fn get(&self, id: FileId) -> (r: Option<RichTerm>)
        ensures
            r == self.spec_get(id),
    ;
}

/// A resolver with an empty cache, for programs without imports.
#[derive(Debug)]
pub struct DummyResolver {}

impl ImportResolver for DummyResolver {
    open spec fn spec_get(&self, id: FileId) -> Option<RichTerm> {
        Option::None
    }

    fn get(&self, id: FileId) -> (r: Option<RichTerm>) {
        Option::None
    }
}

/// What a file identifier resolves to in a list of cached entries: the
/// first entry wins.
pub open spec fn cache_lookup(s: Seq<(FileId, RichTerm)>, id: FileId) -> Option<RichTerm>
    decreases s.len(),
{
    if s.len() == 0 {
        Option::None
    } else if s[0].0 == id {
        Option::Some(s[0].1)
    } else {
        cache_lookup(s.drop_first(), id)
    }
}

/// A resolver over an in-memory cache of already-parsed terms.
#[derive(Debug)]
pub struct SimpleResolver {
    entries: Vec<(FileId, RichTerm)>,
}

impl SimpleResolver {
    /// An empty cache.
    pub fn new() -> (res: SimpleResolver)
        ensures
            res.spec_get_all() == Seq::<(FileId, RichTerm)>::empty(),
    {
        SimpleResolver { entries: Vec::new() }
    }

    /// The cached entries.
    pub closed spec fn spec_get_all(&self) -> Seq<(FileId, RichTerm)> {
        self.entries@
    }

    /// Cache the term of one file.
    pub fn add_term(&mut self, id: FileId, term: RichTerm)
        ensures
            final(self).spec_get_all() == old(self).spec_get_all().push((id, term)),
    {
        self.entries.push((id, term));
    }
}

impl ImportResolver for SimpleResolver {
    open spec fn spec_get(&self, id: FileId) -> Option<RichTerm> {
        cache_lookup(self.spec_get_all(), id)
    }

    fn get(&self, id: FileId) -> (r: Option<RichTerm>) {
        let mut i: usize = 0;
        proof {
            assert(self.spec_get_all().skip(0) =~= self.spec_get_all());
        }
        while i < self.entries.len()
            invariant
                i <= self.spec_get_all().len(),
                cache_lookup(self.spec_get_all(), id) == cache_lookup(
                    self.spec_get_all().skip(i as int),
                    id,
                ),
            decreases self.spec_get_all().len() - i,
        {
            if self.entries[i].0 == id {
                proof {
                    assert(self.spec_get_all().skip(i as int)[0] == self.spec_get_all()[i as int]);
                }
                return Option::Some(self.entries[i].1.clone());
            }
            proof {
                assert(self.spec_get_all().skip(i as int).drop_first() =~= self.spec_get_all().skip(
                    i + 1,
                ));
                assert(self.spec_get_all().skip(i as int)[0] == self.spec_get_all()[i as int]);
            }
            i = i + 1;
        }
        proof {
            assert(self.spec_get_all().skip(self.spec_get_all().len() as int) =~= Seq::<
                (FileId, RichTerm),
            >::empty());
        }
        Option::None
    }
}

} // verus!
