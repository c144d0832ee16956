use vstd::hash_set::StringHashSet;
use vstd::prelude::*;

verus! {

/// The set of hosts already claimed by some job during a run.
pub struct VisitedSet {
    claimed: StringHashSet,
}

impl View for VisitedSet {
    type V = Set<Seq<char>>;

    closed spec fn view(&self) -> Set<Seq<char>> {
        self.claimed@
    }
}

impl VisitedSet {
    pub fn new() -> (r: VisitedSet)
        ensures
            r@ == Set::<Seq<char>>::empty(),
    {
        VisitedSet { claimed: StringHashSet::new() }
    }

    /// Tests and inserts in one step: true where the caller won the claim,
    /// false where the host was claimed before.
    pub fn claim(&mut self, domain: &str) -> (r: bool)
        ensures
            r == !old(self)@.contains(domain@),
            final(self)@ == old(self)@.insert(domain@),
    {
        self.claimed.insert(domain.to_owned())
    }

    pub fn contains(&self, domain: &str) -> (r: bool)
        ensures
            r == self@.contains(domain@),
    {
        self.claimed.contains(domain)
    }
}

} // verus!
