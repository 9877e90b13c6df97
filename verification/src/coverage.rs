//! Coverage-map observer over the guest-written shared region.
//!
//! The shared region is read as a sequence of 64-bit words. The observer
//! keeps a host-side shadow of the same length; after each execution it
//! scans a snapshot of the region, raises every shadow word to the value
//! the guest wrote where that value is larger, and reports the indices it
//! raised as the iteration's novelties.

use vstd::prelude::*;

verus! {

/// The shadow after a scan: each word raised to the region's value where
/// the region's value is larger.
pub open spec fn spec_merged(shadow: Seq<u64>, region: Seq<u64>) -> Seq<u64> {
    Seq::new(shadow.len(), |i: int| if region[i] > shadow[i] {
        region[i]
    } else {
        shadow[i]
    })
}

/// The indices reported by a scan, in increasing order: those below `n`
/// where the region's word strictly exceeds the shadow's.
pub open spec fn spec_novelties(shadow: Seq<u64>, region: Seq<u64>, n: int) -> Seq<usize>
    decreases n,
{
    if n <= 0 {
        Seq::empty()
    } else if region[n - 1] > shadow[n - 1] {
        spec_novelties(shadow, region, n - 1).push((n - 1) as usize)
    } else {
        spec_novelties(shadow, region, n - 1)
    }
}

/// An index is reported if and only if it is in range and the region's word
/// strictly exceeds the shadow's.
pub proof fn lemma_novelties_contains(shadow: Seq<u64>, region: Seq<u64>, n: int, j: usize)
    requires
        0 <= n <= usize::MAX,
    ensures
        spec_novelties(shadow, region, n).contains(j) <==> (j < n && region[j as int]
            > shadow[j as int]),
    decreases n,
{
    if n > 0 {
        lemma_novelties_contains(shadow, region, n - 1, j);
        let prev = spec_novelties(shadow, region, n - 1);
        if region[n - 1] > shadow[n - 1] {
            let cur = prev.push((n - 1) as usize);
            if cur.contains(j) {
                let idx = choose|idx: int| 0 <= idx < cur.len() && cur[idx] == j;
                if idx < prev.len() {
                    assert(prev[idx] == j);
                    assert(prev.contains(j));
                }
            }
            if j < n && region[j as int] > shadow[j as int] {
                if j == n - 1 {
                    assert(cur[prev.len() as int] == j);
                    assert(cur.contains(j));
                } else {
                    let idx = choose|idx: int| 0 <= idx < prev.len() && prev[idx] == j;
                    assert(cur[idx] == j);
                    assert(cur.contains(j));
                }
            }
        } else {
            if j < n && region[j as int] > shadow[j as int] {
                assert(j != n - 1);
            }
        }
    }
}

/// Observer state: the name the outer engine keys persistence on, and the
/// host-side shadow map.
pub struct KcovMapObserver {
    name: String,
    shadow: Vec<u64>,
}

impl KcovMapObserver {
    /// The shadow map.
    pub closed spec fn shadow(&self) -> Seq<u64> {
        self.shadow@
    }

    /// The observer's stable name.
    pub closed spec fn spec_name(&self) -> Seq<char> {
        self.name@
    }

    /// A fresh observer: the shadow starts all zero, so any non-zero guest
    /// write is novel.
    pub fn new(name: &str, words: usize) -> (observer: Self)
        ensures
            observer.shadow().len() == words,
            forall|i: int| 0 <= i < words ==> observer.shadow()[i] == 0,
            observer.spec_name() == name@,
    {
        let mut shadow: Vec<u64> = Vec::new();
        let mut i: usize = 0;
        while i < words
            invariant
                i <= words,
                shadow@.len() == i,
                forall|k: int| 0 <= k < i ==> shadow@[k] == 0,
            decreases words - i,
        {
            shadow.push(0);
            i = i + 1;
        }
        KcovMapObserver { name: name.to_owned(), shadow }
    }

    /// Stable identifier for persistence keying by the outer engine.
    pub fn name(&self) -> (r: &String)
        ensures
            r@ == self.spec_name(),
    {
        &self.name
    }

    /// Number of 64-bit words the observer covers.
    pub fn len(&self) -> (r: usize)
        ensures
            r == self.shadow().len(),
    {
        self.shadow.len()
    }

    /// Reset the region before an execution: the guest accumulates into it
    /// during one iteration, so every word is returned to zero.
    pub fn pre_exec(&self, region: &mut Vec<u64>)
        ensures
            final(region)@.len() == old(region)@.len(),
            forall|i: int| 0 <= i < final(region)@.len() ==> final(region)@[i] == 0,
    {
        let n = region.len();
        let mut i: usize = 0;
        while i < n
            invariant
                i <= n,
                region@.len() == n,
                forall|k: int| 0 <= k < i ==> region@[k] == 0,
            decreases n - i,
        {
            region[i] = 0;
            i = i + 1;
        }
    }

    /// Scan a snapshot of the region after an execution.
    ///
    /// Every shadow word is raised to the region's value where that value
    /// is strictly larger, and exactly the raised indices are returned, in
    /// increasing order. The new shadow dominates the old one word-wise.
    pub fn post_exec(&mut self, region: &Vec<u64>) -> (novelties: Vec<usize>)
        requires
            region@.len() == old(self).shadow().len(),
        ensures
            final(self).shadow() == spec_merged(old(self).shadow(), region@),
            novelties@ == spec_novelties(old(self).shadow(), region@, region@.len() as int),
            final(self).shadow().len() == old(self).shadow().len(),
            final(self).spec_name() == old(self).spec_name(),
            forall|i: int|
                0 <= i < final(self).shadow().len() ==> final(self).shadow()[i] >= old(
                    self,
                ).shadow()[i],
    {
        let ghost shadow0 = self.shadow@;
        let n = self.shadow.len();
        let mut novelties: Vec<usize> = Vec::new();
        let mut i: usize = 0;
        while i < n
            invariant
                i <= n,
                n == shadow0.len(),
                region@.len() == n,
                self.shadow@.len() == n,
                self.name@ == old(self).name@,
                forall|k: int| i <= k < n ==> self.shadow@[k] == shadow0[k],
                forall|k: int|
                    0 <= k < i ==> self.shadow@[k] == spec_merged(shadow0, region@)[k],
                novelties@ == spec_novelties(shadow0, region@, i as int),
            decreases n - i,
        {
            let current = region[i];
            if current > self.shadow[i] {
                self.shadow[i] = current;
                novelties.push(i);
            }
            i = i + 1;
        }
        proof {
            assert(self.shadow@ =~= spec_merged(shadow0, region@));
        }
        novelties
    }
}

/// With an all-zero region, a scan reports no novelty.
pub proof fn lemma_zero_region_no_novelty(shadow: Seq<u64>, region: Seq<u64>, n: int)
    requires
        0 <= n <= region.len(),
        forall|i: int| 0 <= i < region.len() ==> region[i] == 0,
    ensures
        spec_novelties(shadow, region, n) == Seq::<usize>::empty(),
    decreases n,
{
    if n > 0 {
        lemma_zero_region_no_novelty(shadow, region, n - 1);
    }
}

/// The shadow standing before iteration `k`, after the scans of the first
/// `k` region snapshots in `runs`.
pub open spec fn spec_shadow_before(shadow: Seq<u64>, runs: Seq<Seq<u64>>, k: int) -> Seq<u64>
    decreases k,
{
    if k <= 0 {
        shadow
    } else {
        spec_merged(spec_shadow_before(shadow, runs, k - 1), runs[k - 1])
    }
}

/// A scanned shadow keeps its length.
proof fn lemma_shadow_before_len(shadow: Seq<u64>, runs: Seq<Seq<u64>>, k: int)
    requires
        0 <= k,
    ensures
        spec_shadow_before(shadow, runs, k).len() == shadow.len(),
    decreases k,
{
    if k > 0 {
        lemma_shadow_before_len(shadow, runs, k - 1);
    }
}

/// Scanning never lowers a shadow word.
proof fn lemma_shadow_word_grows(shadow: Seq<u64>, runs: Seq<Seq<u64>>, a: int, b: int, j: int)
    requires
        0 <= a <= b,
        0 <= j < shadow.len(),
    ensures
        spec_shadow_before(shadow, runs, b)[j] >= spec_shadow_before(shadow, runs, a)[j],
    decreases b - a,
{
    lemma_shadow_before_len(shadow, runs, a);
    lemma_shadow_before_len(shadow, runs, b);
    if a < b {
        lemma_shadow_word_grows(shadow, runs, a, b - 1, j);
        lemma_shadow_before_len(shadow, runs, b - 1);
    }
}

/// Novelties of distinct iterations are disjoint unless the region held a
/// strictly larger value on the later one: an index reported by the scan of
/// iteration `m` and again by the scan of a later iteration `n` satisfies
/// `runs[n][j] > runs[m][j]`.
pub proof fn lemma_novelty_disjoint_unless_larger(
    shadow: Seq<u64>,
    runs: Seq<Seq<u64>>,
    m: int,
    n: int,
    j: usize,
)
    requires
        0 <= m < n < runs.len(),
        shadow.len() <= usize::MAX,
        runs[m].len() == shadow.len(),
        runs[n].len() == shadow.len(),
        spec_novelties(spec_shadow_before(shadow, runs, m), runs[m], runs[m].len() as int)
            .contains(j),
        spec_novelties(spec_shadow_before(shadow, runs, n), runs[n], runs[n].len() as int)
            .contains(j),
    ensures
        runs[n][j as int] > runs[m][j as int],
{
    lemma_novelties_contains(
        spec_shadow_before(shadow, runs, m),
        runs[m],
        runs[m].len() as int,
        j,
    );
    lemma_novelties_contains(
        spec_shadow_before(shadow, runs, n),
        runs[n],
        runs[n].len() as int,
        j,
    );
    lemma_shadow_before_len(shadow, runs, m);
    assert(spec_shadow_before(shadow, runs, m + 1)[j as int] == runs[m][j as int]);
    lemma_shadow_word_grows(shadow, runs, m + 1, n, j as int);
}

} // verus!
