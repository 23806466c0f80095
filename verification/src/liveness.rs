//! The liveness index: identity to last-seen stamp.
//!
//! A side table used only for periodic pruning and liveness queries. It is
//! not the source of truth for quota state, and it deliberately drifts from
//! the session store's own, longer idle expiry: pruning it never touches a
//! session.

use vstd::prelude::*;

use crate::assoc::{assoc_map, distinct_keys, find_index, has_key, lemma_assoc_dom,
    lemma_assoc_index, lemma_assoc_push, lemma_assoc_remove, lemma_assoc_update};

verus! {

/// Entries last seen more than this many time units ago are pruned.
pub const LIVENESS_THRESHOLD: u64 = 60;

/// How often the background sweeper runs, in time units.
pub const SWEEP_PERIOD: u64 = 30;

/// Client identity to the instant a call from it was last seen.
pub struct LivenessIndex {
    seen: Vec<(String, u64)>,
}

impl View for LivenessIndex {
    type V = Map<Seq<char>, u64>;

    closed spec fn view(&self) -> Map<Seq<char>, u64> {
        assoc_map(self.seen@)
    }
}

impl LivenessIndex {
    pub closed spec fn inv(&self) -> bool {
        distinct_keys(self.seen@)
    }

    /// An empty index.
    pub fn new() -> (r: LivenessIndex)
        ensures
            r.inv(),
            r@ == Map::<Seq<char>, u64>::empty(),
    {
        LivenessIndex { seen: Vec::new() }
    }

    /// Record that the identity was seen at `now`.
    pub fn touch(&mut self, uuid: &String, now: u64)
        requires
            old(self).inv(),
        ensures
            final(self).inv(),
            final(self)@ == old(self)@.insert(uuid@, now),
    {
        match find_index(&self.seen, uuid) {
            Some(i) => {
                proof {
                    lemma_assoc_update(self.seen@, i as int, now);
                }
                self.seen[i].1 = now;
                proof {
                    assert(self.seen@ =~= old(self).seen@.update(
                        i as int,
                        (old(self).seen@[i as int].0, now),
                    ));
                }
            },
            None => {
                proof {
                    lemma_assoc_push(self.seen@, *uuid, now);
                }
                self.seen.push((uuid.clone(), now));
            },
        }
    }

    /// Forget the identity.
    pub fn remove(&mut self, uuid: &String)
        requires
            old(self).inv(),
        ensures
            final(self).inv(),
            final(self)@ == old(self)@.remove(uuid@),
    {
        proof {
            lemma_assoc_dom(self.seen@);
        }
        match find_index(&self.seen, uuid) {
            Some(i) => {
                proof {
                    lemma_assoc_remove(self.seen@, i as int);
                }
                self.seen.remove(i);
            },
            None => {
                proof {
                    assert(self@ =~= self@.remove(uuid@));
                }
            },
        }
    }

    /// When the identity was last seen, if it is on the index.
    pub fn last_seen(&self, uuid: &String) -> (r: Option<u64>)
        requires
            self.inv(),
        ensures
            match r {
                Some(t) => self@.dom().contains(uuid@) && t == self@[uuid@],
                None => !self@.dom().contains(uuid@),
            },
    {
        proof {
            lemma_assoc_dom(self.seen@);
        }
        match find_index(&self.seen, uuid) {
            Some(i) => {
                proof {
                    lemma_assoc_index(self.seen@, i as int);
                }
                Some(self.seen[i].1)
            },
            None => None,
        }
    }

    /// An entry is stale at `now` when it was last seen more than
    /// `threshold` units ago.
    pub open spec fn spec_stale(t: u64, now: u64, threshold: u64) -> bool {
        now > t + threshold
    }

    /// Drop every stale entry; fresh entries keep their stamps. Nothing but
    /// this index is read or written.
    pub fn prune(&mut self, now: u64, threshold: u64)
        requires
            old(self).inv(),
        ensures
            final(self).inv(),
            forall|k: Seq<char>| #[trigger] final(self)@.dom().contains(k) <==> (old(
                self,
            )@.dom().contains(k) && !Self::spec_stale(old(self)@[k], now, threshold)),
            forall|k: Seq<char>| #[trigger] final(self)@.dom().contains(k) ==> final(self)@[k]
                == old(self)@[k],
    {
        let n = self.seen.len();
        let mut kept: Vec<(String, u64)> = Vec::new();
        let mut i: usize = 0;
        while i < n
            invariant
                n == self.seen@.len(),
                i <= n,
                self.seen@ == old(self).seen@,
                distinct_keys(self.seen@),
                distinct_keys(kept@),
                forall|k: Seq<char>| has_key(kept@, k) <==> exists|j: int|
                    0 <= j < i && #[trigger] self.seen@[j].0@ == k && !Self::spec_stale(
                        self.seen@[j].1,
                        now,
                        threshold,
                    ),
                forall|j2: int| 0 <= j2 < kept@.len() ==> exists|j: int| 0 <= j < i
                    && #[trigger] kept@[j2] == self.seen@[j],
            decreases n - i,
        {
            let t = self.seen[i].1;
            let keep = !(now > t && now - t > threshold);
            if keep {
                proof {
                    if has_key(kept@, self.seen@[i as int].0@) {
                        let j2 = choose|j2: int| 0 <= j2 < kept@.len() && kept@[j2].0@
                            == self.seen@[i as int].0@;
                        let j = choose|j: int| 0 <= j < i && kept@[j2] == self.seen@[j];
                        assert(self.seen@[j].0@ == self.seen@[i as int].0@);
                        assert(false);
                    }
                    lemma_assoc_push(kept@, self.seen@[i as int].0, self.seen@[i as int].1);
                }
                let ghost kept0 = kept@;
                let entry = (self.seen[i].0.clone(), t);
                kept.push(entry);
                proof {
                    assert(kept@.drop_last() =~= kept0);
                    assert(kept@.last() == self.seen@[i as int]);
                    assert forall|k: Seq<char>| has_key(kept@, k) implies exists|j: int|
                        0 <= j < i + 1 && #[trigger] self.seen@[j].0@ == k && !Self::spec_stale(
                            self.seen@[j].1,
                            now,
                            threshold,
                        ) by {
                        let j2 = choose|j2: int| 0 <= j2 < kept@.len() && kept@[j2].0@ == k;
                        if j2 < kept@.len() - 1 {
                            assert(has_key(kept0, k));
                            let j = choose|j: int| 0 <= j < i && self.seen@[j].0@ == k
                                && !Self::spec_stale(self.seen@[j].1, now, threshold);
                            assert(0 <= j < i + 1 && self.seen@[j].0@ == k);
                        } else {
                            assert(self.seen@[i as int].0@ == k);
                            assert(!Self::spec_stale(self.seen@[i as int].1, now, threshold));
                        }
                    }
                    assert forall|k: Seq<char>| (exists|j: int| 0 <= j < i + 1
                        && #[trigger] self.seen@[j].0@ == k && !Self::spec_stale(
                        self.seen@[j].1,
                        now,
                        threshold,
                    )) implies has_key(kept@, k) by {
                        let j = choose|j: int| 0 <= j < i + 1 && self.seen@[j].0@ == k
                            && !Self::spec_stale(self.seen@[j].1, now, threshold);
                        if j < i {
                            assert(has_key(kept0, k));
                            let j2 = choose|j2: int| 0 <= j2 < kept0.len() && kept0[j2].0@ == k;
                            assert(kept@[j2].0@ == k);
                        } else {
                            assert(kept@[kept@.len() - 1].0@ == k);
                        }
                    }
                }
            } else {
                proof {
                    assert(Self::spec_stale(self.seen@[i as int].1, now, threshold));
                    assert forall|k: Seq<char>| has_key(kept@, k) implies exists|j: int|
                        0 <= j < i + 1 && #[trigger] self.seen@[j].0@ == k && !Self::spec_stale(
                            self.seen@[j].1,
                            now,
                            threshold,
                        ) by {
                        let j = choose|j: int| 0 <= j < i && self.seen@[j].0@ == k
                            && !Self::spec_stale(self.seen@[j].1, now, threshold);
                        assert(0 <= j < i + 1 && self.seen@[j].0@ == k);
                    }
                    assert forall|k: Seq<char>| (exists|j: int| 0 <= j < i + 1
                        && #[trigger] self.seen@[j].0@ == k && !Self::spec_stale(
                        self.seen@[j].1,
                        now,
                        threshold,
                    )) implies has_key(kept@, k) by {
                        let j = choose|j: int| 0 <= j < i + 1 && self.seen@[j].0@ == k
                            && !Self::spec_stale(self.seen@[j].1, now, threshold);
                        assert(j < i);
                    }
                }
            }
            i = i + 1;
        }
        self.seen = kept;
        proof {
            lemma_assoc_dom(old(self).seen@);
            lemma_assoc_dom(self.seen@);
            assert forall|k: Seq<char>| #[trigger] self@.dom().contains(k) implies (old(
                self,
            )@.dom().contains(k) && !Self::spec_stale(old(self)@[k], now, threshold) && self@[k]
                == old(self)@[k]) by {
                let j2 = choose|j2: int| 0 <= j2 < self.seen@.len() && self.seen@[j2].0@ == k;
                lemma_assoc_index(self.seen@, j2);
                let j = choose|j: int| 0 <= j < n && self.seen@[j2] == old(self).seen@[j];
                lemma_assoc_index(old(self).seen@, j);
            }
            assert forall|k: Seq<char>| old(self)@.dom().contains(k) && !Self::spec_stale(
                old(self)@[k],
                now,
                threshold,
            ) implies #[trigger] self@.dom().contains(k) by {
                let j = choose|j: int| 0 <= j < old(self).seen@.len() && old(self).seen@[j].0@
                    == k;
                lemma_assoc_index(old(self).seen@, j);
            }
        }
    }

    /// How many identities are on the index.
    pub fn len(&self) -> (r: usize)
        requires
            self.inv(),
        ensures
            r == self@.dom().len(),
    {
        proof {
            crate::assoc::lemma_assoc_len(self.seen@);
        }
        self.seen.len()
    }
}

} // verus!
