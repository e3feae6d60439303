//! TTL-based expiring key-value store with coordinated bulk invalidation.
//!
//! A store maps identities to records.  Every write (re)starts a fixed
//! time-to-live for its key; an entry is visible to reads exactly while the
//! current time lies before its deadline (a sliding TTL, renewed on every
//! overwrite).  `invalidate_all` immediately hides every entry and marks it
//! for removal; the deferred physical removal of hidden entries is done by
//! `run_pending_tasks`, so that afterwards no dead data remains stored.
//!
//! Time is explicit: callers pass the current instant as whole seconds, and
//! every operation is specified and proved for every possible instant.
use crate::util::Secret;
use vstd::prelude::*;

verus! {

/// One physical entry of a store.
struct StoreEntry<V> {
    /// The identity owning the entry; scrubbed from memory when the entry
    /// is dropped, overwritten or swept.
    key: Secret,
    value: V,
    /// Instant (seconds) from which the entry is no longer visible.
    expires_at: i64,
    /// Set by `invalidate_all`: the entry is hidden and awaits physical
    /// removal by `run_pending_tasks`.
    doomed: bool,
}

impl<V> StoreEntry<V> {
    /// Whether a read at instant `t` may observe this entry.
    spec fn visible(self, t: int) -> bool {
        !self.doomed && t < self.expires_at
    }
}

/// An expiring key-value store; keys are identities, values are records.
pub struct ExpiringStore<V> {
    entries: Vec<StoreEntry<V>>,
    ttl: i64,
}

impl<V: Copy> ExpiringStore<V> {
    /// Seconds an entry stays visible past its most recent write.
    pub closed spec fn ttl(self) -> int {
        self.ttl as int
    }

    /// How many entries are physically stored, visible or not.
    pub closed spec fn entry_count(self) -> nat {
        self.entries@.len()
    }

    /// Whether an entry for `k` is physically stored (live, expired or
    /// invalidated).
    pub closed spec fn has_key(self, k: Seq<char>) -> bool {
        exists|i: int| 0 <= i < self.entries@.len() && self.entries@[i].key@ == k
    }

    /// The index of the entry for `k`; meaningful only under `has_key`.
    spec fn idx(self, k: Seq<char>) -> int {
        choose|i: int| 0 <= i < self.entries@.len() && self.entries@[i].key@ == k
    }

    /// What a read of `k` at instant `t` observes.
    pub closed spec fn spec_get(self, k: Seq<char>, t: int) -> Option<V> {
        if self.has_key(k) && self.entries@[self.idx(k)].visible(t) {
            Some(self.entries@[self.idx(k)].value)
        } else {
            None
        }
    }

    /// Internal invariant: the TTL is positive and no two entries share a
    /// key.
    pub closed spec fn wf(self) -> bool {
        &&& 0 < self.ttl
        &&& forall|i: int, j: int|
            0 <= i < j < self.entries@.len() ==> self.entries@[i].key@ != self.entries@[j].key@
    }

    proof fn lemma_idx_is(self, k: Seq<char>, i: int)
        requires
            self.wf(),
            0 <= i < self.entries@.len(),
            self.entries@[i].key@ == k,
        ensures
            self.has_key(k),
            self.idx(k) == i,
    {
        assert(self.has_key(k));
        let j = self.idx(k);
        assert(0 <= j < self.entries@.len() && self.entries@[j].key@ == k);
        if i < j {
            assert(self.entries@[i].key@ != self.entries@[j].key@);
        } else if j < i {
            assert(self.entries@[j].key@ != self.entries@[i].key@);
        }
    }

    proof fn lemma_has_key_witness(self, k: Seq<char>)
        requires
            self.has_key(k),
        ensures
            0 <= self.idx(k) < self.entries@.len(),
            self.entries@[self.idx(k)].key@ == k,
    {
        let j = self.idx(k);
        assert(0 <= j < self.entries@.len() && self.entries@[j].key@ == k);
    }

    /// An empty store whose entries will live `ttl` seconds past each
    /// write.
    pub fn new(ttl: i64) -> (r: ExpiringStore<V>)
        requires
            0 < ttl,
        ensures
            r.wf(),
            r.ttl() == ttl,
            r.entry_count() == 0,
            forall|k: Seq<char>| !r.has_key(k),
            forall|k: Seq<char>, t: int| r.spec_get(k, t) == None::<V>,
    {
        ExpiringStore { entries: Vec::new(), ttl }
    }

    /// The index of the entry for `key`, if one is stored.
    fn find(&self, key: &Secret) -> (r: Option<usize>)
        ensures
            match r {
                Some(i) => i < self.entries@.len() && self.entries@[i as int].key@ == key@,
                None => !self.has_key(key@),
            },
    {
        let mut i: usize = 0;
        let n = self.entries.len();
        while i < n
            invariant
                n == self.entries@.len(),
                i <= n,
                forall|j: int| 0 <= j < i ==> self.entries@[j].key@ != key@,
            decreases n - i,
        {
            if self.entries[i].key.same(key) {
                return Some(i);
            }
            i = i + 1;
        }
        None
    }

    /// Inserts or replaces the entry for `key`, restarting its
    /// time-to-live: the entry becomes visible with the new value exactly
    /// before `now + ttl`, whatever was stored before; no other key is
    /// affected.
    pub fn insert(&mut self, key: Secret, value: V, now: i64)
        requires
            old(self).wf(),
            now + old(self).ttl() <= i64::MAX,
        ensures
            final(self).wf(),
            final(self).ttl() == old(self).ttl(),
            forall|t: int|
                final(self).spec_get(key@, t) == (if t < now + old(self).ttl() {
                    Some(value)
                } else {
                    None::<V>
                }),
            forall|k: Seq<char>, t: int|
                k != key@ ==> final(self).spec_get(k, t) == old(self).spec_get(k, t),
            forall|k: Seq<char>| final(self).has_key(k) <==> (old(self).has_key(k) || k == key@),
            final(self).entry_count() <= old(self).entry_count() + 1,
    {
        let expires_at: i64 = now + self.ttl;
        let ghost kv = key@;
        let found = self.find(&key);
        let ghost pre = *self;
        match found {
            Some(i) => {
                self.entries[i] = StoreEntry { key, value, expires_at, doomed: false };
                proof {
                    let gi = i as int;
                    assert(forall|j: int|
                        0 <= j < self.entries@.len() && j != gi ==> self.entries@[j]
                            == pre.entries@[j]);
                    assert(self.entries@[gi].key@ == kv && pre.entries@[gi].key@ == kv);
                    assert forall|a: int, b: int|
                        0 <= a < b < self.entries@.len() implies self.entries@[a].key@
                        != self.entries@[b].key@ by {
                        assert(pre.entries@[a].key@ != pre.entries@[b].key@);
                    }
                    self.lemma_idx_is(kv, gi);
                    assert forall|t: int|
                        self.spec_get(kv, t) == (if t < now + pre.ttl() {
                            Some(value)
                        } else {
                            None::<V>
                        }) by {
                        assert(self.entries@[gi].visible(t) <==> t < expires_at);
                    }
                    assert forall|k: Seq<char>, t: int| k != kv implies self.spec_get(k, t)
                        == pre.spec_get(k, t) by {
                        if pre.has_key(k) {
                            pre.lemma_has_key_witness(k);
                            let j = pre.idx(k);
                            assert(j != gi);
                            self.lemma_idx_is(k, j);
                        } else {
                            if self.has_key(k) {
                                self.lemma_has_key_witness(k);
                                let m = self.idx(k);
                                assert(m != gi);
                                assert(pre.entries@[m].key@ == k);
                                assert(pre.has_key(k));
                            }
                        }
                    }
                    assert forall|k: Seq<char>|
                        self.has_key(k) <==> (pre.has_key(k) || k == kv) by {
                        if pre.has_key(k) {
                            pre.lemma_has_key_witness(k);
                            let j = pre.idx(k);
                            if j == gi {
                                assert(self.entries@[gi].key@ == k);
                            } else {
                                assert(self.entries@[j].key@ == k);
                            }
                            assert(self.has_key(k));
                        }
                        if self.has_key(k) && k != kv {
                            self.lemma_has_key_witness(k);
                            let m = self.idx(k);
                            assert(m != gi);
                            assert(pre.entries@[m].key@ == k);
                            assert(pre.has_key(k));
                        }
                    }
                }
            },
            None => {
                self.entries.push(StoreEntry { key, value, expires_at, doomed: false });
                proof {
                    let n = pre.entries@.len() as int;
                    assert(forall|j: int|
                        0 <= j < n ==> self.entries@[j] == pre.entries@[j]);
                    assert(self.entries@[n].key@ == kv);
                    assert forall|a: int, b: int|
                        0 <= a < b < self.entries@.len() implies self.entries@[a].key@
                        != self.entries@[b].key@ by {
                        if b < n {
                            assert(pre.entries@[a].key@ != pre.entries@[b].key@);
                        } else {
                            if pre.entries@[a].key@ == kv {
                                assert(pre.has_key(kv));
                            }
                        }
                    }
                    self.lemma_idx_is(kv, n);
                    assert forall|t: int|
                        self.spec_get(kv, t) == (if t < now + pre.ttl() {
                            Some(value)
                        } else {
                            None::<V>
                        }) by {
                        assert(self.entries@[n].visible(t) <==> t < expires_at);
                    }
                    assert forall|k: Seq<char>, t: int| k != kv implies self.spec_get(k, t)
                        == pre.spec_get(k, t) by {
                        if pre.has_key(k) {
                            pre.lemma_has_key_witness(k);
                            let j = pre.idx(k);
                            self.lemma_idx_is(k, j);
                        } else {
                            if self.has_key(k) {
                                self.lemma_has_key_witness(k);
                                let m = self.idx(k);
                                assert(m != n);
                                assert(pre.entries@[m].key@ == k);
                                assert(pre.has_key(k));
                            }
                        }
                    }
                    assert forall|k: Seq<char>|
                        self.has_key(k) <==> (pre.has_key(k) || k == kv) by {
                        if pre.has_key(k) {
                            pre.lemma_has_key_witness(k);
                            let j = pre.idx(k);
                            assert(self.entries@[j].key@ == k);
                            assert(self.has_key(k));
                        }
                        if self.has_key(k) && k != kv {
                            self.lemma_has_key_witness(k);
                            let m = self.idx(k);
                            assert(m != n);
                            assert(pre.entries@[m].key@ == k);
                            assert(pre.has_key(k));
                        }
                    }
                }
            },
        }
    }

    /// The value stored for `key`, if its entry is visible at instant
    /// `now`; absent otherwise.  An expired or invalidated entry that has
    /// not been swept yet is never returned.
    pub fn get(&self, key: &Secret, now: i64) -> (r: Option<V>)
        requires
            self.wf(),
        ensures
            r == self.spec_get(key@, now as int),
    {
        match self.find(key) {
            Some(i) => {
                proof {
                    self.lemma_idx_is(key@, i as int);
                }
                let e = &self.entries[i];
                if !e.doomed && now < e.expires_at {
                    Some(e.value)
                } else {
                    None
                }
            },
            None => None,
        }
    }

    /// Deletes the entry for `key` if one is stored; doing nothing (and
    /// failing nothing) when none is.  The removed entry's key is scrubbed
    /// as it is dropped.
    pub fn remove(&mut self, key: &Secret)
        requires
            old(self).wf(),
        ensures
            final(self).wf(),
            final(self).ttl() == old(self).ttl(),
            !final(self).has_key(key@),
            forall|t: int| final(self).spec_get(key@, t) == None::<V>,
            forall|k: Seq<char>, t: int|
                k != key@ ==> final(self).spec_get(k, t) == old(self).spec_get(k, t),
            forall|k: Seq<char>| k != key@ ==> (final(self).has_key(k) <==> old(self).has_key(k)),
            final(self).entry_count() <= old(self).entry_count(),
    {
        let ghost kv = key@;
        let found = self.find(key);
        let ghost pre = *self;
        match found {
            Some(i) => {
                self.entries.remove(i);
                proof {
                    let gi = i as int;
                    pre.entries@.remove_ensures(gi);
                    assert(self.entries@ == pre.entries@.remove(gi));
                    assert(self.entries@.len() == pre.entries@.len() - 1);
                    assert forall|a: int, b: int|
                        0 <= a < b < self.entries@.len() implies self.entries@[a].key@
                        != self.entries@[b].key@ by {
                        let pa: int = if a < gi {
                            a
                        } else {
                            a + 1
                        };
                        let pb: int = if b < gi {
                            b
                        } else {
                            b + 1
                        };
                        assert(self.entries@[a] == pre.entries@[pa]);
                        assert(self.entries@[b] == pre.entries@[pb]);
                        assert(pre.entries@[pa].key@ != pre.entries@[pb].key@);
                    }
                    assert forall|k: Seq<char>| self.has_key(k) implies (pre.has_key(k) && k
                        != kv) by {
                        self.lemma_has_key_witness(k);
                        let m = self.idx(k);
                        let pm: int = if m < gi {
                            m
                        } else {
                            m + 1
                        };
                        assert(self.entries@[m] == pre.entries@[pm]);
                        assert(pre.entries@[pm].key@ == k);
                        assert(pre.has_key(k));
                        if k == kv {
                            pre.lemma_idx_is(kv, pm);
                            pre.lemma_idx_is(kv, gi);
                        }
                    }
                    assert forall|k: Seq<char>, t: int| k != kv implies self.spec_get(k, t)
                        == pre.spec_get(k, t) by {
                        if pre.has_key(k) {
                            pre.lemma_has_key_witness(k);
                            let j = pre.idx(k);
                            assert(j != gi);
                            let m: int = if j < gi {
                                j
                            } else {
                                j - 1
                            };
                            assert(self.entries@[m] == pre.entries@[j]);
                            self.lemma_idx_is(k, m);
                        } else {
                            assert(!self.has_key(k));
                        }
                    }
                    assert forall|k: Seq<char>|
                        k != kv implies (self.has_key(k) <==> pre.has_key(k)) by {
                        if pre.has_key(k) {
                            pre.lemma_has_key_witness(k);
                            let j = pre.idx(k);
                            assert(j != gi);
                            let m: int = if j < gi {
                                j
                            } else {
                                j - 1
                            };
                            assert(self.entries@[m] == pre.entries@[j]);
                            assert(self.has_key(k));
                        }
                    }
                }
            },
            None => {},
        }
    }

    /// Immediately marks every entry for removal: no read at any instant
    /// observes any entry afterwards.  The entries stay physically stored
    /// until `run_pending_tasks` sweeps them.
    pub fn invalidate_all(&mut self)
        requires
            old(self).wf(),
        ensures
            final(self).wf(),
            final(self).ttl() == old(self).ttl(),
            final(self).entry_count() == old(self).entry_count(),
            forall|k: Seq<char>| final(self).has_key(k) <==> old(self).has_key(k),
            forall|k: Seq<char>, t: int| final(self).spec_get(k, t) == None::<V>,
    {
        let ghost pre = *self;
        let n = self.entries.len();
        let mut i: usize = 0;
        while i < n
            invariant
                n == self.entries@.len(),
                i <= n,
                self.ttl == pre.ttl,
                forall|j: int|
                    0 <= j < n ==> (#[trigger] self.entries@[j]).key@ == pre.entries@[j].key@,
                forall|j: int| 0 <= j < i ==> (#[trigger] self.entries@[j]).doomed,
            decreases n - i,
        {
            self.entries[i].doomed = true;
            i = i + 1;
        }
        proof {
            assert forall|a: int, b: int|
                0 <= a < b < self.entries@.len() implies self.entries@[a].key@
                != self.entries@[b].key@ by {
                assert(pre.entries@[a].key@ != pre.entries@[b].key@);
            }
            assert forall|k: Seq<char>| self.has_key(k) <==> pre.has_key(k) by {
                if self.has_key(k) {
                    self.lemma_has_key_witness(k);
                    let m = self.idx(k);
                    assert(pre.entries@[m].key@ == k);
                    assert(pre.has_key(k));
                }
                if pre.has_key(k) {
                    pre.lemma_has_key_witness(k);
                    let m = pre.idx(k);
                    assert(self.entries@[m].key@ == k);
                    assert(self.has_key(k));
                }
            }
            assert forall|k: Seq<char>, t: int| self.spec_get(k, t) == None::<V> by {
                if self.has_key(k) {
                    self.lemma_has_key_witness(k);
                    assert(!self.entries@[self.idx(k)].visible(t));
                }
            }
        }
    }

    /// Completes the deferred housekeeping: every entry that is expired or
    /// marked for removal at instant `now` is physically removed (its key
    /// being scrubbed as it is dropped), and only entries still visible at
    /// `now` remain.  What a read at `now` or later observes is unchanged.
    /// Deletes the entry at index `i`, which must be dead (invisible at
    /// every instant from `now` on): what any read from `now` on observes
    /// is unchanged, and the dead entry's key is scrubbed as it drops.
    #[verifier::loop_isolation(false)]
    #[verifier::rlimit(50)]
    fn sweep_at(&mut self, i: usize, now: i64)
        requires
            old(self).wf(),
            i < old(self).entries@.len(),
            !old(self).entries@[i as int].visible(now as int),
        ensures
            final(self).wf(),
            final(self).ttl() == old(self).ttl(),
            final(self).entry_count() == old(self).entry_count() - 1,
            forall|k: Seq<char>, t: int|
                now <= t ==> final(self).spec_get(k, t) == old(self).spec_get(k, t),
            forall|k: Seq<char>| final(self).has_key(k) ==> old(self).has_key(k),
    {
        let ghost pre = *self;
        let ghost gi = i as int;
        let ghost k0 = pre.entries@[gi].key@;
        self.entries.remove(i);
        proof {
            pre.entries@.remove_ensures(gi);
            assert(self.entries@ == pre.entries@.remove(gi));
            assert(self.entries@.len() == pre.entries@.len() - 1);
            assert forall|a: int, b: int|
                0 <= a < b < self.entries@.len() implies self.entries@[a].key@
                != self.entries@[b].key@ by {
                let pa: int = if a < gi {
                    a
                } else {
                    a + 1
                };
                let pb: int = if b < gi {
                    b
                } else {
                    b + 1
                };
                assert(self.entries@[a] == pre.entries@[pa]);
                assert(self.entries@[b] == pre.entries@[pb]);
                assert(pre.entries@[pa].key@ != pre.entries@[pb].key@);
            }
            assert forall|k: Seq<char>| self.has_key(k) implies pre.has_key(k) by {
                self.lemma_has_key_witness(k);
                let m = self.idx(k);
                let pm: int = if m < gi {
                    m
                } else {
                    m + 1
                };
                assert(self.entries@[m] == pre.entries@[pm]);
                assert(pre.entries@[pm].key@ == k);
                assert(pre.has_key(k));
            }
            assert forall|k: Seq<char>, t: int| now <= t implies self.spec_get(k, t)
                == pre.spec_get(k, t) by {
                if k == k0 {
                    pre.lemma_idx_is(k0, gi);
                    assert(!pre.entries@[gi].visible(t));
                    assert(pre.spec_get(k0, t) == None::<V>);
                    if self.has_key(k0) {
                        self.lemma_has_key_witness(k0);
                        let m = self.idx(k0);
                        let pm: int = if m < gi {
                            m
                        } else {
                            m + 1
                        };
                        assert(self.entries@[m] == pre.entries@[pm]);
                        assert(pre.entries@[pm].key@ == k0);
                        pre.lemma_idx_is(k0, pm);
                    }
                    assert(!self.has_key(k0));
                } else {
                    if pre.has_key(k) {
                        pre.lemma_has_key_witness(k);
                        let j = pre.idx(k);
                        assert(j != gi);
                        let m: int = if j < gi {
                            j
                        } else {
                            j - 1
                        };
                        assert(self.entries@[m] == pre.entries@[j]);
                        self.lemma_idx_is(k, m);
                    } else {
                        if self.has_key(k) {
                            self.lemma_has_key_witness(k);
                            let m = self.idx(k);
                            let pm: int = if m < gi {
                                m
                            } else {
                                m + 1
                            };
                            assert(self.entries@[m] == pre.entries@[pm]);
                            assert(pre.entries@[pm].key@ == k);
                            assert(pre.has_key(k));
                        }
                    }
                }
            }
        }
    }

    /// Removes one entry that is expired or marked for removal at instant
    /// `now`, if any is stored, reporting whether it did; when it reports
    /// false, the store was left untouched and every stored entry is
    /// visible at `now`.
    #[verifier::loop_isolation(false)]
    fn sweep_one(&mut self, now: i64) -> (removed: bool)
        requires
            old(self).wf(),
        ensures
            final(self).wf(),
            final(self).ttl() == old(self).ttl(),
            removed ==> final(self).entry_count() < old(self).entry_count(),
            !removed ==> *final(self) == *old(self),
            !removed ==> forall|k: Seq<char>|
                final(self).has_key(k) ==> final(self).spec_get(k, now as int) is Some,
            forall|k: Seq<char>, t: int|
                now <= t ==> final(self).spec_get(k, t) == old(self).spec_get(k, t),
            forall|k: Seq<char>| final(self).has_key(k) ==> old(self).has_key(k),
    {
        let mut i: usize = 0;
        let n = self.entries.len();
        while i < n
            invariant
                i <= n,
                n == self.entries@.len(),
                *self == *old(self),
                forall|j: int| 0 <= j < i ==> (#[trigger] self.entries@[j]).visible(now as int),
            decreases n - i,
        {
            let dead = self.entries[i].doomed || now >= self.entries[i].expires_at;
            if dead {
                self.sweep_at(i, now);
                return true;
            }
            i = i + 1;
        }
        proof {
            assert forall|k: Seq<char>| self.has_key(k) implies self.spec_get(k, now as int)
                is Some by {
                self.lemma_has_key_witness(k);
                assert(self.entries@[self.idx(k)].visible(now as int));
            }
        }
        false
    }

    /// Completes the deferred housekeeping: every entry that is expired
    /// or marked for removal at instant `now` is physically removed (its
    /// key being scrubbed as it is dropped), and only entries still
    /// visible at `now` remain.  What a read at `now` or later observes
    /// is unchanged.
    pub fn run_pending_tasks(&mut self, now: i64)
        requires
            old(self).wf(),
        ensures
            final(self).wf(),
            final(self).ttl() == old(self).ttl(),
            forall|k: Seq<char>, t: int|
                now <= t ==> final(self).spec_get(k, t) == old(self).spec_get(k, t),
            forall|k: Seq<char>| final(self).has_key(k) ==> old(self).has_key(k),
            forall|k: Seq<char>|
                final(self).has_key(k) ==> final(self).spec_get(k, now as int) is Some,
            final(self).entry_count() <= old(self).entry_count(),
    {
        let ghost pre = *self;
        loop
            invariant_except_break
                self.wf(),
                self.ttl() == pre.ttl(),
                self.entry_count() <= pre.entry_count(),
                forall|k: Seq<char>, t: int|
                    now <= t ==> self.spec_get(k, t) == pre.spec_get(k, t),
                forall|k: Seq<char>| self.has_key(k) ==> pre.has_key(k),
            ensures
                self.wf(),
                self.ttl() == pre.ttl(),
                self.entry_count() <= pre.entry_count(),
                forall|k: Seq<char>, t: int|
                    now <= t ==> self.spec_get(k, t) == pre.spec_get(k, t),
                forall|k: Seq<char>| self.has_key(k) ==> pre.has_key(k),
                forall|k: Seq<char>|
                    self.has_key(k) ==> self.spec_get(k, now as int) is Some,
            decreases self.entry_count(),
        {
            let removed = self.sweep_one(now);
            if !removed {
                break;
            }
        }
    }


    /// Every entry visible at instant `now`, as owned pairs of identity
    /// and value; each key appears once, and an entry appears if and only
    /// if a read of its key at `now` would observe it.  Identities are
    /// copied with their scrub-on-drop guarantee intact.  The order of the
    /// pairs carries no meaning.
    #[verifier::loop_isolation(false)]
    pub fn iterate(&self, now: i64) -> (r: Vec<(Secret, V)>)
        requires
            self.wf(),
        ensures
            forall|p: int|
                0 <= p < r@.len() ==> self.spec_get((#[trigger] r@[p]).0@, now as int) == Some(
                    r@[p].1,
                ),
            forall|p: int, q: int| 0 <= p < q < r@.len() ==> r@[p].0@ != r@[q].0@,
            forall|k: Seq<char>|
                self.spec_get(k, now as int) is Some ==> exists|p: int|
                    0 <= p < r@.len() && (#[trigger] r@[p]).0@ == k,
    {
        let mut out: Vec<(Secret, V)> = Vec::new();
        let n = self.entries.len();
        let mut i: usize = 0;
        while i < n
            invariant
                i <= n,
                forall|p: int|
                    0 <= p < out@.len() ==> exists|j: int|
                        0 <= j < i && (#[trigger] out@[p]).0@ == self.entries@[j].key@,
                forall|p: int|
                    0 <= p < out@.len() ==> self.spec_get((#[trigger] out@[p]).0@, now as int)
                        == Some(out@[p].1),
                forall|p: int, q: int| 0 <= p < q < out@.len() ==> out@[p].0@ != out@[q].0@,
                forall|j: int|
                    0 <= j < i && (#[trigger] self.entries@[j]).visible(now as int)
                        ==> exists|p: int|
                        0 <= p < out@.len() && (#[trigger] out@[p]).0@ == self.entries@[j].key@,
            decreases n - i,
        {
            let ghost before = out@;
            let e = &self.entries[i];
            if !e.doomed && now < e.expires_at {
                out.push((e.key.duplicate(), e.value));
                proof {
                    let gi = i as int;
                    let last = before.len() as int;
                    assert(out@[last].0@ == self.entries@[gi].key@);
                    self.lemma_idx_is(self.entries@[gi].key@, gi);
                    assert(self.entries@[gi].visible(now as int));
                    assert(self.spec_get(out@[last].0@, now as int) == Some(out@[last].1));
                    assert forall|p: int| 0 <= p < last implies out@[p].0@ != out@[last].0@ by {
                        let j = choose|j: int|
                            0 <= j < gi && before[p].0@ == self.entries@[j].key@;
                        assert(self.entries@[j].key@ == out@[p].0@);
                        assert(self.entries@[j].key@ != self.entries@[gi].key@);
                    }
                    assert forall|j: int|
                        0 <= j <= gi && (#[trigger] self.entries@[j]).visible(now as int)
                            implies exists|p: int|
                            0 <= p < out@.len() && (#[trigger] out@[p]).0@
                                == self.entries@[j].key@ by {
                        if j == gi {
                            assert(out@[last].0@ == self.entries@[gi].key@);
                        } else {
                            let p0 = choose|p0: int|
                                0 <= p0 < before.len() && (#[trigger] before[p0]).0@
                                    == self.entries@[j].key@;
                            assert(out@[p0].0@ == self.entries@[j].key@);
                        }
                    }
                }
            }
            i = i + 1;
        }
        proof {
            assert forall|k: Seq<char>| self.spec_get(k, now as int) is Some implies exists|p: int|
                0 <= p < out@.len() && (#[trigger] out@[p]).0@ == k by {
                self.lemma_has_key_witness(k);
                let j = self.idx(k);
                assert(self.entries@[j].visible(now as int));
            }
        }
        out
    }

    /// Law (read-your-write): a store produced by `insert(k, v)` at
    /// instant `now` — any store meeting that contract — shows `v` to a
    /// read of `k` at `now` itself.
    pub proof fn lemma_read_your_write(s: ExpiringStore<V>, k: Seq<char>, v: V, now: int)
        requires
            s.wf(),
            forall|t: int|
                s.spec_get(k, t) == (if t < now + s.ttl() {
                    Some(v)
                } else {
                    None::<V>
                }),
        ensures
            s.spec_get(k, now) == Some(v),
    {
    }

    /// Law (last write wins): after `insert(k, v1)` at `n1` followed by
    /// `insert(k, v2)` at `n2`, a read of `k` observes `v2` while the
    /// second write lives — never `v1`, which was replaced whole.
    pub proof fn lemma_last_write_wins(
        s1: ExpiringStore<V>,
        s2: ExpiringStore<V>,
        k: Seq<char>,
        v1: V,
        v2: V,
        n1: int,
        n2: int,
        t: int,
    )
        requires
            s1.wf(),
            s2.wf(),
            forall|t2: int|
                s1.spec_get(k, t2) == (if t2 < n1 + s1.ttl() {
                    Some(v1)
                } else {
                    None::<V>
                }),
            forall|t2: int|
                s2.spec_get(k, t2) == (if t2 < n2 + s2.ttl() {
                    Some(v2)
                } else {
                    None::<V>
                }),
            n2 <= t < n2 + s2.ttl(),
            v1 != v2,
        ensures
            s2.spec_get(k, t) == Some(v2),
            s2.spec_get(k, t) != Some(v1),
    {
    }

    /// Law (expiry): once the time-to-live granted by the most recent
    /// write of `k` has fully elapsed with no further write, a read of `k`
    /// observes nothing.
    pub proof fn lemma_ttl_expiry(s: ExpiringStore<V>, k: Seq<char>, v: V, now: int, t: int)
        requires
            s.wf(),
            forall|t2: int|
                s.spec_get(k, t2) == (if t2 < now + s.ttl() {
                    Some(v)
                } else {
                    None::<V>
                }),
            t >= now + s.ttl(),
        ensures
            s.spec_get(k, t) == None::<V>,
    {
    }

    /// A store that physically holds no entry shows nothing to any read,
    /// and a store that shows nothing to any read at any instant holds
    /// only entries that a completed sweep removes.
    pub proof fn lemma_empty_shows_nothing(s: ExpiringStore<V>)
        requires
            s.wf(),
            s.entry_count() == 0,
        ensures
            forall|k: Seq<char>| !s.has_key(k),
            forall|k: Seq<char>, t: int| s.spec_get(k, t) == None::<V>,
    {
        assert forall|k: Seq<char>| !s.has_key(k) by {
            if s.has_key(k) {
                s.lemma_has_key_witness(k);
            }
        }
    }

    /// Law (coordinated invalidation drains the store): `invalidate_all`
    /// leaves a store `mid` that shows nothing to any read, and a
    /// following completed `run_pending_tasks` at any instant `now` then
    /// leaves a store `post` with no entry physically stored at all: the
    /// two calls together erase everything, verifiably, before their
    /// caller regains control.
    pub proof fn lemma_invalidate_then_drain(
        mid: ExpiringStore<V>,
        post: ExpiringStore<V>,
        now: int,
    )
        requires
            mid.wf(),
            post.wf(),
            forall|k: Seq<char>, t: int| mid.spec_get(k, t) == None::<V>,
            forall|k: Seq<char>| post.has_key(k) ==> mid.has_key(k),
            forall|k: Seq<char>| post.has_key(k) ==> post.spec_get(k, now) is Some,
            forall|k: Seq<char>, t: int| now <= t ==> post.spec_get(k, t) == mid.spec_get(k, t),
        ensures
            post.entry_count() == 0,
            forall|k: Seq<char>| !post.has_key(k),
            forall|k: Seq<char>, t: int| post.spec_get(k, t) == None::<V>,
    {
        assert forall|k: Seq<char>| !post.has_key(k) by {
            if post.has_key(k) {
                assert(post.spec_get(k, now) is Some);
                assert(post.spec_get(k, now) == mid.spec_get(k, now));
            }
        }
        if post.entry_count() != 0 {
            let k0 = post.entries@[0].key@;
            post.lemma_idx_is(k0, 0);
            assert(post.has_key(k0));
        }
        Self::lemma_empty_shows_nothing(post);
    }
}

} // verus!
