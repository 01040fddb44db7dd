//! The set of URLs that have been claimed for fetching.

use vstd::prelude::*;
use vstd::hash_set::StringHashSet;

verus! {

/// The URLs that workers have claimed. It only grows.
///
/// A claim tests and inserts in one step, under the exclusive access that
/// `&mut` gives: of two claims of one URL exactly the first succeeds, so no
/// URL is fetched twice. Whoever shares the set between tasks has to hold
/// it exclusively across `try_claim`; testing with `contains` under one
/// lock and claiming under another would let two tasks both see the URL as
/// unclaimed.
pub struct VisitedSet {
    urls: StringHashSet,
}

impl View for VisitedSet {
    type V = Set<Seq<char>>;

    /// The claimed URLs.
    closed spec fn view(&self) -> Set<Seq<char>> {
        self.urls@
    }
}

impl VisitedSet {
    /// A set in which no URL is claimed.
    pub fn new() -> (visited: Self)
        ensures
            visited@ == Set::<Seq<char>>::empty(),
    {
        VisitedSet { urls: StringHashSet::new() }
    }

    /// Whether `url` has been claimed.
    pub fn contains(&self, url: &str) -> (claimed: bool)
        ensures
            claimed == self@.contains(url@),
    {
        self.urls.contains(url)
    }

    /// Claims `url`: true if it had not been claimed before, and the caller
    /// may fetch it; false if it had, and the caller must skip it. Either
    /// way it is claimed afterwards, and every earlier claim stands.
    pub fn try_claim(&mut self, url: &str) -> (fresh: bool)
        ensures
            fresh == !old(self)@.contains(url@),
            final(self)@ == old(self)@.insert(url@),
    {
        if self.urls.contains(url) {
            assert(self@.insert(url@) =~= self@);
            false
        } else {
            self.urls.insert(url.to_owned());
            true
        }
    }
}

} // verus!
