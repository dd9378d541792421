//! The progress tracker's ordered set of downloaded heights.
//!
//! Heights are kept as a strictly increasing vector, so the collection is a
//! set: duplicate insertion is a no-op. Its mathematical view is the set of
//! heights it holds.

use vstd::prelude::*;
use crate::ids::Height;

verus! {

/// An ordered set of confirmed chain heights. Heights are only ever added,
/// never removed; inserting a height twice leaves the set unchanged.
pub struct DownloadedHeights {
    pub heights: Vec<u32>,
}

impl View for DownloadedHeights {
    type V = Set<u32>;

    open spec fn view(&self) -> Set<u32> {
        self.heights@.to_set()
    }
}

impl DownloadedHeights {
    /// The representation invariant: the vector is strictly increasing.
    pub open spec fn well_formed(&self) -> bool {
        forall|i: int, j: int|
            0 <= i < j < self.heights@.len() ==> self.heights@[i] < self.heights@[j]
    }

    /// The heights as a sequence, in increasing order.
    pub open spec fn ordered_seq(&self) -> Seq<u32> {
        self.heights@
    }

    /// An empty set of heights.
    pub fn new() -> (r: DownloadedHeights)
        ensures
            r.well_formed(),
            r@ == Set::<u32>::empty(),
    {
        let r = DownloadedHeights { heights: Vec::new() };
        proof {
            assert(r.heights@.to_set() =~= Set::<u32>::empty());
        }
        r
    }

    /// How many distinct heights have been recorded.
    pub fn len(&self) -> (r: usize)
        requires
            self.well_formed(),
        ensures
            r == self@.len(),
    {
        proof {
            self.heights@.unique_seq_to_set();
        }
        self.heights.len()
    }

    /// Whether a height has been recorded.
    pub fn contains(&self, h: Height) -> (r: bool)
        ensures
            r == self@.contains(h.value),
    {
        let mut i: usize = 0;
        let n = self.heights.len();
        #[verifier::loop_isolation(false)]
        while i < n
            invariant
                i <= n,
                forall|j: int| 0 <= j < i ==> self.heights@[j] != h.value,
            decreases n - i,
        {
            if self.heights[i] == h.value {
                return true;
            }
            i = i + 1;
        }
        false
    }

    /// Record a height. Duplicate insertion is a no-op: the set afterwards
    /// is the old set with the height added, and if the height was already
    /// present the tracker is unchanged.
    pub fn insert(&mut self, h: Height)
        requires
            old(self).well_formed(),
        ensures
            final(self).well_formed(),
            final(self)@ == old(self)@.insert(h.value),
            old(self)@.contains(h.value) ==> *final(self) == *old(self),
            !old(self)@.contains(h.value) ==> final(self).heights@.len() == old(
                self,
            ).heights@.len() + 1,
    {
        let hv = h.value;
        let ghost s = self.heights@;
        let n = self.heights.len();
        let mut i: usize = 0;
        #[verifier::loop_isolation(false)]
        while i < n && self.heights[i] < hv
            invariant
                i <= n,
                forall|j: int| 0 <= j < i ==> self.heights@[j] < hv,
            decreases n - i,
        {
            i = i + 1;
        }
        if i < n && self.heights[i] == hv {
            proof {
                assert(s.contains(hv));
                assert(s.to_set().insert(hv) =~= s.to_set());
            }
            return ;
        }
        proof {
            assert forall|j: int| 0 <= j < s.len() implies s[j] != hv by {
                if j >= i {
                    assert(s[i as int] <= s[j]);
                }
            }
            assert(!s.contains(hv));
            assert(!s.to_set().contains(hv));
        }
        self.heights.insert(i, hv);
        proof {
            s.insert_ensures(i as int, hv);
            let t = self.heights@;
            assert forall|k1: int, k2: int| 0 <= k1 < k2 < t.len() implies t[k1] < t[k2] by {
                if k2 < i {
                    assert(t[k1] == s[k1] && t[k2] == s[k2]);
                } else if k2 == i {
                    assert(t[k1] == s[k1] && t[k2] == hv);
                } else if k1 > i {
                    assert(t[k1] == s[k1 - 1] && t[k2] == s[k2 - 1]);
                } else if k1 == i {
                    assert(t[k1] == hv && t[k2] == s[k2 - 1]);
                    assert(s[i as int] > hv);
                    if k2 - 1 > i {
                        assert(s[i as int] < s[k2 - 1]);
                    }
                } else {
                    assert(t[k1] == s[k1] && t[k2] == s[k2 - 1]);
                    assert(s[k1] < hv);
                    assert(s[i as int] > hv);
                    if k2 - 1 > i {
                        assert(s[i as int] < s[k2 - 1]);
                    }
                }
            }
            assert forall|x: u32| t.contains(x) implies (s.contains(x) || x == hv) by {
                let k = choose|k: int| 0 <= k < t.len() && t[k] == x;
                if k < i {
                    assert(s[k] == x);
                } else if k > i {
                    assert(s[k - 1] == x);
                }
            }
            assert forall|x: u32| s.contains(x) || x == hv implies t.contains(x) by {
                if s.contains(x) {
                    let k = choose|k: int| 0 <= k < s.len() && s[k] == x;
                    if k < i {
                        assert(t[k] == x);
                    } else {
                        assert(t[k + 1] == x);
                    }
                } else {
                    assert(t[i as int] == hv);
                }
            }
            assert(t.to_set() =~= s.to_set().insert(hv));
        }
    }

    /// The largest recorded height. The tracker must not be empty.
    pub fn max(&self) -> (r: Height)
        requires
            self.well_formed(),
            self.ordered_seq().len() > 0,
        ensures
            self@.contains(r.value),
            forall|x: u32| self@.contains(x) ==> x <= r.value,
    {
        let n = self.heights.len();
        let last = self.heights[n - 1];
        proof {
            assert(self.heights@.contains(last));
            assert forall|x: u32| self@.contains(x) implies x <= last by {
                let k = choose|k: int|
                    0 <= k < self.heights@.len() && self.heights@[k] == x;
                if k < n - 1 {
                    assert(self.heights@[k] < self.heights@[n - 1]);
                }
            }
        }
        Height { value: last }
    }
}

} // verus!
