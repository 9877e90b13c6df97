//! Bookkeeping of the drop-in directory watcher: which paths have already
//! been picked up, so that each file is enqueued once.

use vstd::prelude::*;

verus! {

/// The paths the watcher has already picked up.
pub struct SeenPaths {
    seen: Vec<String>,
}

/// Whether some recorded path reads the same as `p`.
pub open spec fn spec_seen(paths: Seq<String>, p: Seq<char>) -> bool {
    exists|i: int| 0 <= i < paths.len() && paths[i]@ == p
}

impl SeenPaths {
    /// The recorded paths, in pick-up order.
    pub closed spec fn view(&self) -> Seq<String> {
        self.seen@
    }

    pub fn new() -> (r: Self)
        ensures
            r@ == Seq::<String>::empty(),
    {
        SeenPaths { seen: Vec::new() }
    }

    /// Whether a path was picked up before.
    pub fn contains(&self, path: &str) -> (r: bool)
        ensures
            r == spec_seen(self@, path@),
    {
        let n = self.seen.len();
        let mut i: usize = 0;
        while i < n
            invariant
                i <= n,
                n == self@.len(),
                forall|k: int| 0 <= k < i ==> self@[k]@ != path@,
            decreases n - i,
        {
            let candidate = path.to_owned();
            let recorded = &self.seen[i];
            if recorded.eq(&candidate) {
                return true;
            }
            i = i + 1;
        }
        false
    }

    /// Record a path as picked up. Returns whether it was new; a path seen
    /// before is not recorded again.
    pub fn note(&mut self, path: &str) -> (fresh: bool)
        ensures
            fresh == !spec_seen(old(self)@, path@),
            fresh ==> final(self)@.len() == old(self)@.len() + 1 && final(self)@.drop_last()
                == old(self)@ && final(self)@.last()@ == path@,
            !fresh ==> final(self)@ == old(self)@,
    {
        if self.contains(path) {
            false
        } else {
            self.seen.push(path.to_owned());
            true
        }
    }
}

} // verus!
