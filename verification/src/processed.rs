//! The executor's in-memory record of decision events already taken up,
//! used when no database is configured: each source event id is claimed at
//! most once.
use vstd::prelude::*;
use vstd::string::*;
use crate::keyed::KeyedStore;

verus! {

pub struct ProcessedEvents {
    pub seen: KeyedStore<()>,
}

impl ProcessedEvents {
    pub open spec fn wf(&self) -> bool {
        self.seen.wf()
    }

    /// The source event ids taken up so far.
    pub open spec fn view(&self) -> Set<Seq<char>> {
        self.seen.view().dom()
    }

    pub fn new() -> (r: Self)
        ensures
            r.wf(),
            r.view() == Set::<Seq<char>>::empty(),
    {
        ProcessedEvents { seen: KeyedStore::new() }
    }

    /// Records `id` as taken up.
    pub fn remember(&mut self, id: &str)
        requires
            old(self).wf(),
        ensures
            final(self).wf(),
            final(self).view() == old(self).view().insert(id@),
    {
        self.seen.insert(String::from_str(id), ());
    }

    /// Takes up `id`: true when it had not been taken up before; either way
    /// it is recorded afterwards.
    pub fn claim(&mut self, id: &str) -> (r: bool)
        requires
            old(self).wf(),
        ensures
            final(self).wf(),
            r == !old(self).view().contains(id@),
            final(self).view() == old(self).view().insert(id@),
    {
        let fresh = match self.seen.get(id) {
            Some(_) => false,
            None => true,
        };
        self.seen.insert(String::from_str(id), ());
        fresh
    }
}

/// A claim is granted exactly when the id has not been seen.
pub open spec fn claim_granted(seen: Set<Seq<char>>, id: Seq<char>) -> bool {
    !seen.contains(id)
}

/// Claims are idempotent: once an id has been claimed, every later claim of
/// it is refused, whatever was claimed in between.
pub proof fn law_claim_once(seen: Set<Seq<char>>, id: Seq<char>, between: Seq<Seq<char>>)
    ensures
        !claim_granted(between.fold_left(seen.insert(id), |s: Set<Seq<char>>, x: Seq<char>| s.insert(x)), id),
    decreases between.len(),
{
    if between.len() > 0 {
        law_claim_once(seen, id, between.drop_last());
    }
}

} // verus!
