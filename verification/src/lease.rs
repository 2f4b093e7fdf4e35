//! The lease queue: a single-shot exclusive queue of links, one row per
//! URL.  Presence means pending, absence means done.
//!
//! A claim locks one row for the lifetime of the claimant's transaction.
//! Committing (`done`) deletes the row; a transaction that aborts releases
//! the lock and leaves the row, which is the sole crash-recovery mechanism:
//! no heartbeats or lease timeouts exist.
//!
//! The laws of the protocol are proved over a transition system whose
//! events are `Claim`, `Done` and `Abort`; every executable operation's
//! contract is the corresponding transition on the row map.

use vstd::hash_map::StringHashMap;
use vstd::multiset::Multiset;
use vstd::prelude::*;

use crate::store::keys_list;
use crate::store::keys_track;

verus! {

// ---------------------------------------------------------------------------
// The transition system
// ---------------------------------------------------------------------------

/// What one claimant does to the queue: claim a row, commit it away, or
/// roll its transaction back.
pub enum LeaseEvent {
    Claim(Seq<char>),
    Done(Seq<char>),
    Abort(Seq<char>),
}

/// The queue as the claimants see it: each pending row with its lock bit,
/// and the multiset of rows handed out by claims so far.
pub struct LeaseTrace {
    pub rows: Map<Seq<char>, bool>,
    pub claimed: Multiset<Seq<char>>,
}

/// The start of a run: the given rows, none locked yet, nothing claimed.
pub open spec fn lease_init(urls: Set<Seq<char>>) -> LeaseTrace {
    LeaseTrace { rows: Map::new(|u: Seq<char>| urls.contains(u), |u: Seq<char>| false), claimed: Multiset::empty() }
}

/// When an event can happen: a claim needs an unlocked row; commit and
/// rollback need the lock.
pub open spec fn lease_enabled(s: LeaseTrace, e: LeaseEvent) -> bool {
    match e {
        LeaseEvent::Claim(u) => s.rows.contains_key(u) && !s.rows[u],
        LeaseEvent::Done(u) => s.rows.contains_key(u) && s.rows[u],
        LeaseEvent::Abort(u) => s.rows.contains_key(u) && s.rows[u],
    }
}

/// The effect of an event.
pub open spec fn lease_step(s: LeaseTrace, e: LeaseEvent) -> LeaseTrace {
    match e {
        LeaseEvent::Claim(u) => LeaseTrace {
            rows: s.rows.insert(u, true),
            claimed: s.claimed.insert(u),
        },
        LeaseEvent::Done(u) => LeaseTrace { rows: s.rows.remove(u), ..s },
        LeaseEvent::Abort(u) => LeaseTrace { rows: s.rows.insert(u, false), ..s },
    }
}

/// A whole run, applied left to right.
pub open spec fn lease_run(s: LeaseTrace, evs: Seq<LeaseEvent>) -> LeaseTrace
    decreases evs.len(),
{
    if evs.len() == 0 {
        s
    } else {
        lease_step(lease_run(s, evs.drop_last()), evs.last())
    }
}

/// Every event of the run happens in a state that enables it.
pub open spec fn lease_run_ok(s: LeaseTrace, evs: Seq<LeaseEvent>) -> bool
    decreases evs.len(),
{
    if evs.len() == 0 {
        true
    } else {
        lease_run_ok(s, evs.drop_last()) && lease_enabled(lease_run(s, evs.drop_last()), evs.last())
    }
}

/// True when no transaction of the run rolls back.
pub open spec fn no_aborts(evs: Seq<LeaseEvent>) -> bool {
    forall|i: int| 0 <= i < evs.len() ==> !(#[trigger] evs[i] is Abort)
}

/// The bookkeeping invariant of an abort-free run: a URL outside the
/// initial rows is never claimed; a pending unlocked row is not yet
/// claimed; a locked or deleted row has been claimed exactly once.
pub open spec fn exclusive_inv(urls: Set<Seq<char>>, s: LeaseTrace) -> bool {
    &&& forall|u: Seq<char>| #[trigger] s.rows.contains_key(u) ==> urls.contains(u)
    &&& forall|u: Seq<char>| !urls.contains(u) ==> #[trigger] s.claimed.count(u) == 0
    &&& forall|u: Seq<char>| urls.contains(u) ==> #[trigger] s.claimed.count(u) == (
        if s.rows.contains_key(u) {
            if s.rows[u] {
                1 as nat
            } else {
                0 as nat
            }
        } else {
            1 as nat
        })
}

/// An abort-free run preserves the bookkeeping invariant.
pub proof fn lemma_exclusive_inv(urls: Set<Seq<char>>, evs: Seq<LeaseEvent>)
    requires
        lease_run_ok(lease_init(urls), evs),
        no_aborts(evs),
    ensures
        exclusive_inv(urls, lease_run(lease_init(urls), evs)),
    decreases evs.len(),
{
    let s0 = lease_init(urls);
    if evs.len() == 0 {
        assert forall|u: Seq<char>| urls.contains(u) implies #[trigger] s0.claimed.count(u)
            == 0 as nat by {
            assert(Multiset::<Seq<char>>::empty().count(u) == 0);
        }
    } else {
        let rest = evs.drop_last();
        let e = evs.last();
        assert(no_aborts(rest)) by {
            assert(forall|i: int| 0 <= i < rest.len() ==> rest[i] == evs[i]);
        }
        lemma_exclusive_inv(urls, rest);
        let s = lease_run(s0, rest);
        let t = lease_run(s0, evs);
        assert(lease_enabled(s, e));
        assert(t == lease_step(s, e));
        assert(!(e is Abort)) by {
            assert(evs[evs.len() - 1] == e);
        }
        match e {
            LeaseEvent::Claim(u) => {
                assert(t.claimed == s.claimed.insert(u));
                assert(t.claimed.count(u) == s.claimed.count(u) + 1);
                assert forall|v: Seq<char>| v != u implies #[trigger] t.claimed.count(v)
                    == s.claimed.count(v) by {}
            },
            LeaseEvent::Done(u) => {},
            LeaseEvent::Abort(_) => {},
        }
    }
}

/// Lease exclusivity: start claimants on any set of rows, interleave their
/// claims and commits any way at all; when the queue has drained, the
/// multiset of rows handed out is exactly the initial rows — every row
/// once, none twice.
pub proof fn lemma_lease_exclusive(urls: Set<Seq<char>>, evs: Seq<LeaseEvent>)
    requires
        lease_run_ok(lease_init(urls), evs),
        no_aborts(evs),
        lease_run(lease_init(urls), evs).rows.dom() =~= Set::<Seq<char>>::empty(),
    ensures
        forall|u: Seq<char>| urls.contains(u)
            ==> #[trigger] lease_run(lease_init(urls), evs).claimed.count(u) == 1,
        forall|u: Seq<char>| !urls.contains(u)
            ==> #[trigger] lease_run(lease_init(urls), evs).claimed.count(u) == 0,
{
    lemma_exclusive_inv(urls, evs);
    let t = lease_run(lease_init(urls), evs);
    assert forall|u: Seq<char>| urls.contains(u) implies #[trigger] t.claimed.count(u) == 1 by {
        assert(!t.rows.dom().contains(u));
        assert(!t.rows.contains_key(u));
    }
}

/// Crash safety: when `done` is invoked but its transaction aborts before
/// the commit, the rollback is enabled, and afterwards a claim of the very
/// same row is enabled again and hands that row out.
pub proof fn lemma_abort_reclaimable(s: LeaseTrace, u: Seq<char>)
    requires
        s.rows.contains_key(u),
        s.rows[u],
    ensures
        lease_enabled(s, LeaseEvent::Abort(u)),
        lease_enabled(lease_step(s, LeaseEvent::Abort(u)), LeaseEvent::Claim(u)),
        lease_step(lease_step(s, LeaseEvent::Abort(u)), LeaseEvent::Claim(u)).claimed
            == s.claimed.insert(u),
{
}

// ---------------------------------------------------------------------------
// The executable queue
// ---------------------------------------------------------------------------

/// An exclusive claim on one row, held while the claimant's transaction is
/// open.
pub struct Lease {
    pub url: String,
}

/// The executable lease queue: each pending URL with its lock bit.
pub struct LeaseQueue {
    rows: StringHashMap<bool>,
    row_keys: Vec<String>,
}

impl LeaseQueue {
    /// The pending rows and their lock bits.
    pub closed spec fn rows(self) -> Map<Seq<char>, bool> {
        self.rows@
    }

    pub closed spec fn wf(self) -> bool {
        keys_track(self.row_keys@, self.rows@)
    }

    /// An empty queue.
    pub fn new() -> (r: Self)
        ensures
            r.wf(),
            r.rows() == Map::<Seq<char>, bool>::empty(),
    {
        LeaseQueue { rows: StringHashMap::new(), row_keys: Vec::new() }
    }

    /// Insert a pending row; a URL already queued is left as it is.
    pub fn insert(&mut self, url: &String)
        requires
            old(self).wf(),
        ensures
            final(self).wf(),
            final(self).rows() == if old(self).rows().contains_key(url@) {
                old(self).rows()
            } else {
                old(self).rows().insert(url@, false)
            },
    {
        if !self.rows.contains_key(url.as_str()) {
            self.row_keys.push(url.clone());
            self.rows.insert(url.clone(), false);
            proof {
                let ks = self.row_keys@;
                let oldks = old(self).row_keys@;
                let n = oldks.len() as int;
                assert(ks[n]@ == url@);
                assert(forall|i: int| 0 <= i < n ==> ks[i] == oldks[i]);
                assert forall|i: int, j: int|
                    #![trigger ks[i], ks[j]]
                    0 <= i < j < ks.len() implies ks[i]@ != ks[j]@ by {
                    if j == n {
                        assert(old(self).rows@.contains_key(oldks[i]@));
                    }
                }
                assert forall|i: int| 0 <= i < ks.len() implies #[trigger] self.rows@.contains_key(
                    ks[i]@,
                ) by {
                    if i < n {
                        assert(old(self).rows@.contains_key(ks[i]@));
                    }
                }
                assert forall|x: Seq<char>| #[trigger] self.rows@.contains_key(x) implies keys_list(
                    ks,
                    x,
                ) by {
                    if x == url@ {
                        assert(ks[n]@ == x);
                    } else {
                        assert(old(self).rows@.contains_key(x));
                        let i = choose|i: int| 0 <= i < oldks.len() && oldks[i]@ == x;
                        assert(ks[i]@ == x);
                    }
                }
            }
        }
    }

    /// Claim one unlocked row, skipping rows other claimants hold: the
    /// `Claim` transition of the protocol.  `None` means every pending row
    /// is locked, or the queue is empty.
    pub fn claim(&mut self) -> (r: Option<Lease>)
        requires
            old(self).wf(),
        ensures
            final(self).wf(),
            match r {
                Some(l) => {
                    &&& old(self).rows().contains_key(l.url@)
                    &&& !old(self).rows()[l.url@]
                    &&& final(self).rows() == old(self).rows().insert(l.url@, true)
                },
                None => {
                    &&& final(self).rows() == old(self).rows()
                    &&& forall|u: Seq<char>|
                        old(self).rows().contains_key(u) ==> old(self).rows()[u]
                },
            },
    {
        let ghost ks = self.row_keys@;
        let n = self.row_keys.len();
        let mut idx: usize = 0;
        while idx < n
            invariant
                old(self) == self,
                self.wf(),
                ks == self.row_keys@,
                n == ks.len(),
                idx <= n,
                forall|j: int| 0 <= j < idx ==> self.rows@[#[trigger] ks[j]@],
            decreases n - idx,
        {
            let url = &self.row_keys[idx];
            proof {
                assert(self.rows@.contains_key(ks[idx as int]@));
            }
            let locked = match self.rows.get(url.as_str()) {
                Some(b) => *b,
                None => true,
            };
            if !locked {
                let picked = url.clone();
                self.rows.insert(picked.clone(), true);
                proof {
                    let ksn = self.row_keys@;
                    assert forall|x: Seq<char>| #[trigger] self.rows@.contains_key(x)
                        implies keys_list(ksn, x) by {
                        assert(old(self).rows@.contains_key(x));
                    }
                }
                return Some(Lease { url: picked });
            }
            idx += 1;
        }
        proof {
            assert forall|u: Seq<char>| self.rows().contains_key(u) implies self.rows()[u] by {
                let j = choose|j: int| 0 <= j < ks.len() && ks[j]@ == u;
                assert(self.rows@[ks[j]@]);
            }
        }
        None
    }

    /// Commit a claim: delete the row inside the transaction that holds the
    /// lease — the `Done` transition.  A lease whose row is gone or no
    /// longer locked changes nothing.
    pub fn done(&mut self, lease: Lease) -> (committed: bool)
        requires
            old(self).wf(),
        ensures
            final(self).wf(),
            committed == (old(self).rows().contains_key(lease.url@)
                && old(self).rows()[lease.url@]),
            final(self).rows() == if old(self).rows().contains_key(lease.url@)
                && old(self).rows()[lease.url@] {
                old(self).rows().remove(lease.url@)
            } else {
                old(self).rows()
            },
    {
        let locked = match self.rows.get(lease.url.as_str()) {
            Some(b) => *b,
            None => false,
        };
        if !locked {
            return false;
        }
        self.rows.remove(lease.url.as_str());
        let mut kept: Vec<String> = Vec::new();
        let n = self.row_keys.len();
        let mut idx: usize = 0;
        while idx < n
            invariant
                n == self.row_keys@.len(),
                idx <= n,
                forall|i: int, j: int|
                    #![trigger self.row_keys@[i], self.row_keys@[j]]
                    0 <= i < j < n ==> self.row_keys@[i]@ != self.row_keys@[j]@,
                forall|i: int| 0 <= i < kept@.len() ==> {
                    &&& #[trigger] kept@[i]@ != lease.url@
                    &&& keys_list(self.row_keys@.take(idx as int), kept@[i]@)
                },
                forall|j: int| 0 <= j < idx && #[trigger] self.row_keys@[j]@ != lease.url@
                    ==> keys_list(kept@, self.row_keys@[j]@),
                forall|i: int, j: int|
                    #![trigger kept@[i], kept@[j]]
                    0 <= i < j < kept@.len() ==> kept@[i]@ != kept@[j]@,
            decreases n - idx,
        {
            let ghost kept0 = kept@;
            let key = &self.row_keys[idx];
            let keep = !key.eq(&lease.url);
            if keep {
                kept.push(key.clone());
            }
            idx += 1;
            proof {
                let tk = self.row_keys@.take(idx as int);
                assert(tk[idx - 1]@ == self.row_keys@[idx - 1]@);
                assert forall|i: int| 0 <= i < kept@.len() implies {
                    &&& #[trigger] kept@[i]@ != lease.url@
                    &&& keys_list(tk, kept@[i]@)
                } by {
                    if i < kept0.len() as int {
                        assert(kept@[i] == kept0[i]);
                        let w = choose|w: int|
                            0 <= w < idx - 1 && (#[trigger] self.row_keys@.take(idx - 1)[w])@ == kept0[i]@;
                        assert(tk[w]@ == kept@[i]@);
                    } else {
                        assert(kept@[i]@ == self.row_keys@[idx - 1]@);
                    }
                }
                assert forall|j: int| 0 <= j < idx && #[trigger] self.row_keys@[j]@ != lease.url@
                    implies keys_list(kept@, self.row_keys@[j]@) by {
                    if j < idx - 1 {
                        let w = choose|w: int| 0 <= w < kept0.len() && kept0[w]@
                            == self.row_keys@[j]@;
                        assert(kept@[w]@ == self.row_keys@[j]@);
                    } else {
                        if keep {
                            assert(kept@[kept0.len() as int]@ == self.row_keys@[j]@);
                        }
                    }
                }
                assert forall|i: int, j: int|
                    #![trigger kept@[i], kept@[j]]
                    0 <= i < j < kept@.len() implies kept@[i]@ != kept@[j]@ by {
                    if j == kept0.len() as int && keep {
                        let w = choose|w: int|
                            0 <= w < idx - 1 && (#[trigger] self.row_keys@.take(idx - 1)[w])@ == kept0[i]@;
                        assert(self.row_keys@[w]@ == kept0[i]@);
                        assert(self.row_keys@[idx - 1]@ == kept@[j]@);
                    }
                }
            }
        }
        self.row_keys = kept;
        proof {
            assert(self.rows@ == old(self).rows@.remove(lease.url@));
            let ks = self.row_keys@;
            assert forall|i: int| 0 <= i < ks.len() implies #[trigger] self.rows@.contains_key(
                ks[i]@,
            ) by {
                assert(keys_list(old(self).row_keys@.take(n as int), ks[i]@));
                let w = choose|w: int|
                    0 <= w < n && (#[trigger] old(self).row_keys@.take(n as int)[w])@ == ks[i]@;
                assert(old(self).rows@.contains_key(old(self).row_keys@[w]@));
            }
            assert forall|x: Seq<char>| #[trigger] self.rows@.contains_key(x) implies keys_list(
                ks,
                x,
            ) by {
                assert(old(self).rows@.contains_key(x));
                let w = choose|w: int|
                    0 <= w < old(self).row_keys@.len() && old(self).row_keys@[w]@ == x;
                assert(old(self).row_keys@[w]@ != lease.url@);
                assert(keys_list(ks, old(self).row_keys@[w]@));
            }
        }
        true
    }

    /// Roll a claimant's transaction back: the lock is released and the row
    /// stays — the `Abort` transition, and the whole crash story.
    pub fn abort(&mut self, lease: Lease) -> (rolled_back: bool)
        requires
            old(self).wf(),
        ensures
            final(self).wf(),
            rolled_back == (old(self).rows().contains_key(lease.url@)
                && old(self).rows()[lease.url@]),
            final(self).rows() == if old(self).rows().contains_key(lease.url@)
                && old(self).rows()[lease.url@] {
                old(self).rows().insert(lease.url@, false)
            } else {
                old(self).rows()
            },
    {
        let locked = match self.rows.get(lease.url.as_str()) {
            Some(b) => *b,
            None => false,
        };
        if !locked {
            return false;
        }
        self.rows.insert(lease.url.clone(), false);
        proof {
            let ks = self.row_keys@;
            assert forall|x: Seq<char>| #[trigger] self.rows@.contains_key(x) implies keys_list(
                ks,
                x,
            ) by {
                assert(old(self).rows@.contains_key(x));
            }
        }
        true
    }

    /// How many rows are pending, locked or not.
    pub fn pending(&self) -> (r: usize)
        ensures
            r == self.rows().len(),
    {
        self.rows.len()
    }
}

} // verus!
