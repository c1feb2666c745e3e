//! The set of note identities that the trigger emitter carries across
//! ticks: which notes were under the play cursor in the previous tick.

use vstd::prelude::*;

verus! {

/// A set of note identities, backed by a hash set of the `hashbrown`
/// crate. The verifier does not look inside; what the set holds is named
/// by `played_contents` and pinned down by the contracts of the methods
/// below. Nothing here depends on the order in which the backing set
/// would be walked.
#[verifier::external_body]
pub struct PlayedSet {
    inner: hashbrown::HashSet<u64>,
}

/// What a `PlayedSet` holds.
pub uninterp spec fn played_contents(s: PlayedSet) -> Set<u64>;

impl PlayedSet {
    /// Relies on `hashbrown::HashSet::new`: a freshly created set holds
    /// nothing.
    #[verifier::external_body]
    pub fn new() -> (r: PlayedSet)
        ensures
            played_contents(r) == Set::<u64>::empty(),
    {
        PlayedSet { inner: hashbrown::HashSet::new() }
    }

    /// Relies on `hashbrown::HashSet::insert`: afterwards the set holds
    /// `v` and everything it held before.
    #[verifier::external_body]
    pub fn insert(&mut self, v: u64)
        ensures
            played_contents(*final(self)) == played_contents(*old(self)).insert(v),
    {
        self.inner.insert(v);
    }

    /// Relies on `hashbrown::HashSet::contains`: whether the set holds `v`.
    #[verifier::external_body]
    pub fn contains(&self, v: u64) -> (r: bool)
        ensures
            r == played_contents(*self).contains(v),
    {
        self.inner.contains(&v)
    }

    /// Hands the set over and leaves an empty one behind.
    pub fn take(&mut self) -> (r: PlayedSet)
        ensures
            played_contents(r) == played_contents(*old(self)),
            played_contents(*final(self)) == Set::<u64>::empty(),
    {
        let mut r = PlayedSet::new();
        core::mem::swap(self, &mut r);
        r
    }
}

} // verus!
