//! The frontier store: durable tables of parent collections, child work
//! items, detail records and progress cursors, modelled as maps from natural
//! keys to rows.
//!
//! The executable store keeps each table as a hash map with a side list of
//! its keys, so that operations that scan a table (claiming, listing) can be
//! verified against the map view.  Every mutating operation is specified by
//! a pure transformer on the map model; the laws of the queue protocol are
//! proved about those transformers.

use vstd::hash_map::StringHashMap;
use vstd::prelude::*;

verus! {

// ---------------------------------------------------------------------------
// Rows and their models
// ---------------------------------------------------------------------------

/// A named grouping discovered from a source (a set or expansion).
/// Its natural key is the key under which the store holds it.
#[derive(Debug, Clone)]
pub struct ParentCollection {
    pub name: String,
    pub series: String,
    pub is_synced: bool,
    pub updated_at: u64,
}

/// The mathematical value of a [`ParentCollection`] row.
pub struct ParentModel {
    pub name: Seq<char>,
    pub series: Seq<char>,
    pub is_synced: bool,
    pub updated_at: u64,
}

impl ParentCollection {
    pub open spec fn model(self) -> ParentModel {
        ParentModel {
            name: self.name@,
            series: self.series@,
            is_synced: self.is_synced,
            updated_at: self.updated_at,
        }
    }
}

/// One unit of child-fetch work owned by a parent collection.
#[derive(Debug, Clone)]
pub struct WorkItem {
    pub parent_key: String,
    pub fetched: bool,
    pub inserted_at: u64,
}

/// The mathematical value of a [`WorkItem`] row.
pub struct ItemModel {
    pub parent: Seq<char>,
    pub fetched: bool,
    pub inserted_at: u64,
}

impl WorkItem {
    pub open spec fn model(self) -> ItemModel {
        ItemModel { parent: self.parent_key@, fetched: self.fetched, inserted_at: self.inserted_at }
    }
}

/// The normalized business entity produced by fetching one work item's
/// detail page.  Upserts are keyed by the natural key.
#[derive(Debug, Clone)]
pub struct DetailRecord {
    pub key: String,
    pub parent_key: String,
    pub name: String,
    pub number: String,
    pub rarity: String,
    pub fetched_at: u64,
}

/// The mathematical value of a [`DetailRecord`] row, keyed elsewhere by the
/// record's natural key.
pub struct DetailModel {
    pub parent: Seq<char>,
    pub name: Seq<char>,
    pub number: Seq<char>,
    pub rarity: Seq<char>,
    pub fetched_at: u64,
}

impl DetailRecord {
    /// A field-for-field copy with the same model.
    pub fn duplicate(&self) -> (r: DetailRecord)
        ensures
            r.key@ == self.key@,
            r.model() == self.model(),
    {
        DetailRecord {
            key: self.key.clone(),
            parent_key: self.parent_key.clone(),
            name: self.name.clone(),
            number: self.number.clone(),
            rarity: self.rarity.clone(),
            fetched_at: self.fetched_at,
        }
    }

    pub open spec fn model(self) -> DetailModel {
        DetailModel {
            parent: self.parent_key@,
            name: self.name@,
            number: self.number@,
            rarity: self.rarity@,
            fetched_at: self.fetched_at,
        }
    }
}

// ---------------------------------------------------------------------------
// Model transformers
// ---------------------------------------------------------------------------

/// Enqueueing one key: insert the item if it is new, else reset its
/// `fetched` flag to false, keeping the original insertion time.
pub open spec fn enqueue_one(
    items: Map<Seq<char>, ItemModel>,
    parent: Seq<char>,
    key: Seq<char>,
    now: u64,
) -> Map<Seq<char>, ItemModel> {
    let inserted_at = if items.contains_key(key) {
        items[key].inserted_at
    } else {
        now
    };
    items.insert(key, ItemModel { parent, fetched: false, inserted_at })
}

/// Enqueueing a batch of keys, left to right.
pub open spec fn enqueue_all(
    items: Map<Seq<char>, ItemModel>,
    parent: Seq<char>,
    keys: Seq<Seq<char>>,
    now: u64,
) -> Map<Seq<char>, ItemModel>
    decreases keys.len(),
{
    if keys.len() == 0 {
        items
    } else {
        enqueue_one(enqueue_all(items, parent, keys.drop_last(), now), parent, keys.last(), now)
    }
}

/// Completing one item: flip `fetched` to true if the key is present.
pub open spec fn complete_one(
    items: Map<Seq<char>, ItemModel>,
    key: Seq<char>,
) -> Map<Seq<char>, ItemModel> {
    if items.contains_key(key) {
        items.insert(key, ItemModel { fetched: true, ..items[key] })
    } else {
        items
    }
}

/// Completing a batch of keys, left to right.
pub open spec fn complete_all(
    items: Map<Seq<char>, ItemModel>,
    keys: Seq<Seq<char>>,
) -> Map<Seq<char>, ItemModel>
    decreases keys.len(),
{
    if keys.len() == 0 {
        items
    } else {
        complete_one(complete_all(items, keys.drop_last()), keys.last())
    }
}

// ---------------------------------------------------------------------------
// Laws of the enqueue/complete protocol
// ---------------------------------------------------------------------------

/// Effect of an enqueue batch at one key: an enqueued key holds exactly
/// the pending row for this parent (its insertion time preserved when the
/// key was already present); any other key is untouched.
pub proof fn lemma_enqueue_all_at(
    items: Map<Seq<char>, ItemModel>,
    parent: Seq<char>,
    keys: Seq<Seq<char>>,
    now: u64,
    k: Seq<char>,
)
    ensures
        keys.contains(k) ==> {
            let m = enqueue_all(items, parent, keys, now);
            &&& m.contains_key(k)
            &&& m[k].parent == parent
            &&& !m[k].fetched
            &&& m[k].inserted_at == if items.contains_key(k) {
                items[k].inserted_at
            } else {
                now
            }
        },
        !keys.contains(k) ==> {
            let m = enqueue_all(items, parent, keys, now);
            &&& (m.contains_key(k) <==> items.contains_key(k))
            &&& (m.contains_key(k) ==> m[k] == items[k])
        },
    decreases keys.len(),
{
    if keys.len() > 0 {
        let rest = keys.drop_last();
        let last = keys.last();
        lemma_enqueue_all_at(items, parent, rest, now, k);
        assert(keys[keys.len() - 1] == last);
        if keys.contains(k) && k != last {
            let i = choose|i: int| 0 <= i < keys.len() && keys[i] == k;
            assert(i < keys.len() - 1);
            assert(rest[i] == k);
            assert(rest.contains(k));
        }
        if !keys.contains(k) {
            assert(!rest.contains(k)) by {
                if rest.contains(k) {
                    let i = choose|i: int| 0 <= i < rest.len() && rest[i] == k;
                    assert(keys[i] == k);
                }
            }
        }
    }
}

/// Completing changes only the `fetched` flag of listed, present keys.
pub proof fn lemma_complete_all_at(
    items: Map<Seq<char>, ItemModel>,
    keys: Seq<Seq<char>>,
    k: Seq<char>,
)
    ensures
        complete_all(items, keys).contains_key(k) <==> items.contains_key(k),
        items.contains_key(k) ==> {
            let m = complete_all(items, keys);
            &&& m[k].parent == items[k].parent
            &&& m[k].inserted_at == items[k].inserted_at
            &&& m[k].fetched == (items[k].fetched || keys.contains(k))
        },
    decreases keys.len(),
{
    if keys.len() > 0 {
        let rest = keys.drop_last();
        let last = keys.last();
        lemma_complete_all_at(items, rest, k);
        assert(keys[keys.len() - 1] == last);
        if keys.contains(k) && k != last {
            let i = choose|i: int| 0 <= i < keys.len() && keys[i] == k;
            assert(i < keys.len() - 1);
            assert(rest[i] == k);
            assert(rest.contains(k));
        }
        if !keys.contains(k) {
            assert(!rest.contains(k)) by {
                if rest.contains(k) {
                    let i = choose|i: int| 0 <= i < rest.len() && rest[i] == k;
                    assert(keys[i] == k);
                }
            }
        }
        if !items.contains_key(k) {
            assert(!complete_all(items, rest).contains_key(k));
        }
    }
}

/// Idempotent enqueue: however a first enqueue of `keys` is interleaved
/// with completions (`done`), a second enqueue leaves exactly one pending
/// row per key — `fetched` is false again even for keys completed in
/// between — and touches nothing else.
pub proof fn lemma_enqueue_idempotent(
    items: Map<Seq<char>, ItemModel>,
    parent: Seq<char>,
    keys: Seq<Seq<char>>,
    t1: u64,
    done: Seq<Seq<char>>,
    t2: u64,
)
    ensures
        ({
            let once = enqueue_all(items, parent, keys, t1);
            let mid = complete_all(once, done);
            let twice = enqueue_all(mid, parent, keys, t2);
            &&& forall|k: Seq<char>| keys.contains(k) ==> {
                &&& #[trigger] twice.contains_key(k)
                &&& twice[k].parent == parent
                &&& !twice[k].fetched
                &&& twice[k].inserted_at == once[k].inserted_at
            }
            &&& forall|k: Seq<char>| !keys.contains(k) ==> {
                &&& (#[trigger] twice.contains_key(k) <==> mid.contains_key(k))
                &&& (twice.contains_key(k) ==> twice[k] == mid[k])
            }
        }),
{
    let once = enqueue_all(items, parent, keys, t1);
    let mid = complete_all(once, done);
    let twice = enqueue_all(mid, parent, keys, t2);
    assert forall|k: Seq<char>| keys.contains(k) implies {
        &&& #[trigger] twice.contains_key(k)
        &&& twice[k].parent == parent
        &&& !twice[k].fetched
        &&& twice[k].inserted_at == once[k].inserted_at
    } by {
        lemma_enqueue_all_at(items, parent, keys, t1, k);
        lemma_complete_all_at(once, done, k);
        lemma_enqueue_all_at(mid, parent, keys, t2, k);
    }
    assert forall|k: Seq<char>| !keys.contains(k) implies {
        &&& (#[trigger] twice.contains_key(k) <==> mid.contains_key(k))
        &&& (twice.contains_key(k) ==> twice[k] == mid[k])
    } by {
        lemma_enqueue_all_at(mid, parent, keys, t2, k);
    }
}

// ---------------------------------------------------------------------------
// The executable store
// ---------------------------------------------------------------------------

/// True when `keys` lists exactly the domain of `m`, each key once.
pub open spec fn keys_track<V>(keys: Seq<String>, m: Map<Seq<char>, V>) -> bool {
    &&& forall|i: int, j: int|
        #![trigger keys[i], keys[j]]
        0 <= i < j < keys.len() ==> keys[i]@ != keys[j]@
    &&& forall|i: int| 0 <= i < keys.len() ==> #[trigger] m.contains_key(keys[i]@)
    &&& forall|k: Seq<char>| #[trigger] m.contains_key(k) ==> keys_list(keys, k)
}

/// True when some entry of `keys` views to `k`.
pub open spec fn keys_list(keys: Seq<String>, k: Seq<char>) -> bool {
    exists|i: int| 0 <= i < keys.len() && keys[i]@ == k
}

/// The durable frontier: parents, work items, detail records and cursors.
pub struct FrontierStore {
    parents: StringHashMap<ParentCollection>,
    parent_keys: Vec<String>,
    items: StringHashMap<WorkItem>,
    item_keys: Vec<String>,
    details: StringHashMap<DetailRecord>,
    detail_keys: Vec<String>,
    cursors: StringHashMap<u32>,
}

impl FrontierStore {
    /// The parent table: natural key to row value.
    pub closed spec fn parents(self) -> Map<Seq<char>, ParentModel> {
        self.parents@.map_values(|p: ParentCollection| p.model())
    }

    /// The work-item table: natural key to row value.
    pub closed spec fn items(self) -> Map<Seq<char>, ItemModel> {
        self.items@.map_values(|it: WorkItem| it.model())
    }

    /// The detail-record table: natural key to row value.
    pub closed spec fn details(self) -> Map<Seq<char>, DetailModel> {
        self.details@.map_values(|d: DetailRecord| d.model())
    }

    /// The cursor table: pipeline id to next page.
    pub closed spec fn cursors(self) -> Map<Seq<char>, u32> {
        self.cursors@
    }

    /// The key lists mirror the tables.
    pub closed spec fn wf(self) -> bool {
        &&& keys_track(self.parent_keys@, self.parents@)
        &&& keys_track(self.item_keys@, self.items@)
        &&& keys_track(self.detail_keys@, self.details@)
    }

    /// An empty store.
    pub fn new() -> (r: Self)
        ensures
            r.wf(),
            r.parents() == Map::<Seq<char>, ParentModel>::empty(),
            r.items() == Map::<Seq<char>, ItemModel>::empty(),
            r.details() == Map::<Seq<char>, DetailModel>::empty(),
            r.cursors() == Map::<Seq<char>, u32>::empty(),
    {
        let r = FrontierStore {
            parents: StringHashMap::new(),
            parent_keys: Vec::new(),
            items: StringHashMap::new(),
            item_keys: Vec::new(),
            details: StringHashMap::new(),
            detail_keys: Vec::new(),
            cursors: StringHashMap::new(),
        };
        proof {
            assert(r.parents() =~= Map::<Seq<char>, ParentModel>::empty());
            assert(r.items() =~= Map::<Seq<char>, ItemModel>::empty());
            assert(r.details() =~= Map::<Seq<char>, DetailModel>::empty());
        }
        r
    }
}

/// Upsert into one table: insert the row and record a fresh key in the
/// side list.
fn put_row<V>(m: &mut StringHashMap<V>, keys: &mut Vec<String>, k: &String, v: V)
    requires
        keys_track(old(keys)@, old(m)@),
    ensures
        final(m)@ == old(m)@.insert(k@, v),
        keys_track(final(keys)@, final(m)@),
        final(keys)@ == if old(m)@.contains_key(k@) {
            old(keys)@
        } else {
            old(keys)@.push(*k)
        },
{
    let present = m.contains_key(k.as_str());
    if !present {
        keys.push(k.clone());
    }
    m.insert(k.clone(), v);
    proof {
        let ks = keys@;
        let mm = m@;
        let oldm = old(m)@;
        let oldks = old(keys)@;
        if present {
            assert forall|x: Seq<char>| #[trigger] mm.contains_key(x) implies keys_list(ks, x) by {
                assert(oldm.contains_key(x));
            }
        } else {
            let n = oldks.len() as int;
            assert(ks.len() == n + 1);
            assert(forall|i: int| 0 <= i < n ==> ks[i] == oldks[i]);
            assert(ks[n]@ == k@);
            assert forall|i: int, j: int|
                #![trigger ks[i], ks[j]]
                0 <= i < j < ks.len() implies ks[i]@ != ks[j]@ by {
                if j == n {
                    assert(oldm.contains_key(oldks[i]@));
                }
            }
            assert forall|i: int| 0 <= i < ks.len() implies #[trigger] mm.contains_key(ks[i]@) by {
                if i < n {
                    assert(oldm.contains_key(ks[i]@));
                }
            }
            assert forall|x: Seq<char>| #[trigger] mm.contains_key(x) implies keys_list(ks, x) by {
                if x == k@ {
                    assert(ks[n]@ == x);
                } else {
                    assert(oldm.contains_key(x));
                    let i = choose|i: int| 0 <= i < oldks.len() && oldks[i]@ == x;
                    assert(ks[i]@ == x);
                }
            }
        }
    }
}

// ---------------------------------------------------------------------------
// Parent collections
// ---------------------------------------------------------------------------

/// Upserting a parent: name and series are overwritten, the sync flag of an
/// existing row is preserved, a new row starts unsynced.
pub open spec fn upsert_parent_spec(
    parents: Map<Seq<char>, ParentModel>,
    key: Seq<char>,
    name: Seq<char>,
    series: Seq<char>,
    now: u64,
) -> Map<Seq<char>, ParentModel> {
    let synced = parents.contains_key(key) && parents[key].is_synced;
    parents.insert(key, ParentModel { name, series, is_synced: synced, updated_at: now })
}

/// Setting the sync flag of a present parent; an absent key changes nothing.
pub open spec fn set_synced_spec(
    parents: Map<Seq<char>, ParentModel>,
    key: Seq<char>,
    flag: bool,
    now: u64,
) -> Map<Seq<char>, ParentModel> {
    if parents.contains_key(key) {
        parents.insert(key, ParentModel { is_synced: flag, updated_at: now, ..parents[key] })
    } else {
        parents
    }
}

impl FrontierStore {
    /// Upsert a parent collection under its natural key.  Discovery calls
    /// this for every directory entry; rows are never deleted.
    pub fn upsert_parent(&mut self, key: &String, name: &String, series: &String, now: u64)
        requires
            old(self).wf(),
        ensures
            final(self).wf(),
            final(self).parents() == upsert_parent_spec(old(self).parents(), key@, name@, series@, now),
            final(self).items() == old(self).items(),
            final(self).details() == old(self).details(),
            final(self).cursors() == old(self).cursors(),
    {
        let synced = match self.parents.get(key.as_str()) {
            Some(p) => p.is_synced,
            None => false,
        };
        let row = ParentCollection {
            name: name.clone(),
            series: series.clone(),
            is_synced: synced,
            updated_at: now,
        };
        let ghost oldp = self.parents();
        put_row(&mut self.parents, &mut self.parent_keys, key, row);
        proof {
            assert(self.parents() =~= upsert_parent_spec(oldp, key@, name@, series@, now));
        }
    }

    /// Flip the sync flag of a parent.  Returns whether the parent exists;
    /// an absent parent is an empty result, not an error.
    pub fn set_synced(&mut self, key: &String, flag: bool, now: u64) -> (found: bool)
        requires
            old(self).wf(),
        ensures
            final(self).wf(),
            found == old(self).parents().contains_key(key@),
            final(self).parents() == set_synced_spec(old(self).parents(), key@, flag, now),
            final(self).items() == old(self).items(),
            final(self).details() == old(self).details(),
            final(self).cursors() == old(self).cursors(),
    {
        let ghost oldp = self.parents();
        match self.parents.get(key.as_str()) {
            Some(p) => {
                let row = ParentCollection {
                    name: p.name.clone(),
                    series: p.series.clone(),
                    is_synced: flag,
                    updated_at: now,
                };
                put_row(&mut self.parents, &mut self.parent_keys, key, row);
                proof {
                    assert(self.parents() =~= set_synced_spec(oldp, key@, flag, now));
                }
                true
            },
            None => false,
        }
    }

    /// Mark a parent synced: called only immediately after a zero-error
    /// full drain of its work items.
    pub fn mark_synced(&mut self, key: &String, now: u64) -> (found: bool)
        requires
            old(self).wf(),
        ensures
            final(self).wf(),
            found == old(self).parents().contains_key(key@),
            final(self).parents() == set_synced_spec(old(self).parents(), key@, true, now),
            final(self).items() == old(self).items(),
            final(self).details() == old(self).details(),
            final(self).cursors() == old(self).cursors(),
    {
        self.set_synced(key, true, now)
    }

    /// Mark a parent unsynced: an explicit resync request, or any item
    /// failure during a drain.  Work items and details are untouched.
    pub fn mark_unsynced(&mut self, key: &String, now: u64) -> (found: bool)
        requires
            old(self).wf(),
        ensures
            final(self).wf(),
            found == old(self).parents().contains_key(key@),
            final(self).parents() == set_synced_spec(old(self).parents(), key@, false, now),
            final(self).items() == old(self).items(),
            final(self).details() == old(self).details(),
            final(self).cursors() == old(self).cursors(),
    {
        self.set_synced(key, false, now)
    }

    /// Look a parent up by its natural key.
    pub fn get_parent(&self, key: &String) -> (r: Option<&ParentCollection>)
        ensures
            match r {
                Some(p) => self.parents().contains_key(key@) && p.model() == self.parents()[key@],
                None => !self.parents().contains_key(key@),
            },
    {
        let r = self.parents.get(key.as_str());
        proof {
            if self.parents@.contains_key(key@) {
                assert(self.parents()[key@] == self.parents@[key@].model());
            }
        }
        r
    }

    /// List the keys of every parent whose sync flag equals `state`, for
    /// scoping an update sweep to unsynced parents.
    pub fn list_by_state(&self, state: bool) -> (r: Vec<String>)
        requires
            self.wf(),
        ensures
            forall|i: int, j: int|
                #![trigger r@[i], r@[j]]
                0 <= i < j < r@.len() ==> r@[i]@ != r@[j]@,
            forall|i: int| 0 <= i < r@.len()
                ==> self.parents().contains_key(#[trigger] r@[i]@),
            forall|i: int| 0 <= i < r@.len()
                ==> self.parents()[#[trigger] r@[i]@].is_synced == state,
            forall|k: Seq<char>|
                self.parents().contains_key(k) && (#[trigger] self.parents()[k].is_synced) == state
                    ==> keys_list(r@, k),
    {
        let ghost pk = self.parent_keys@;
        let mut r: Vec<String> = Vec::new();
        let n = self.parent_keys.len();
        let mut idx: usize = 0;
        while idx < n
            invariant
                self.wf(),
                pk == self.parent_keys@,
                n == pk.len(),
                idx <= n,
                forall|i: int| 0 <= i < r@.len()
                    ==> exists|j: int| 0 <= j < idx && pk[j]@ == #[trigger] r@[i]@,
                forall|i: int, j: int|
                    #![trigger r@[i], r@[j]]
                    0 <= i < j < r@.len() ==> r@[i]@ != r@[j]@,
                forall|i: int| 0 <= i < r@.len()
                    ==> self.parents().contains_key(#[trigger] r@[i]@),
                forall|i: int| 0 <= i < r@.len()
                    ==> self.parents()[#[trigger] r@[i]@].is_synced == state,
                forall|j: int|
                    0 <= j < idx && self.parents().contains_key(#[trigger] pk[j]@)
                        && self.parents()[pk[j]@].is_synced == state
                    ==> keys_list(r@, pk[j]@),
            decreases n - idx,
        {
            let ghost r0 = r@;
            let key = &self.parent_keys[idx];
            proof {
                assert(self.parents@.contains_key(pk[idx as int]@));
                assert(self.parents().contains_key(pk[idx as int]@));
                assert(self.parents()[pk[idx as int]@] == self.parents@[pk[idx as int]@].model());
            }
            let matched = match self.parents.get(key.as_str()) {
                Some(p) => p.is_synced == state,
                None => false,
            };
            proof {
                assert(matched == (self.parents()[pk[idx as int]@].is_synced == state));
            }
            if matched {
                r.push(key.clone());
                proof {
                    assert(r@[r0.len() as int]@ == pk[idx as int]@);
                    assert(forall|i: int| 0 <= i < r0.len() ==> r@[i] == r0[i]);
                    assert forall|i: int, j: int|
                        #![trigger r@[i], r@[j]]
                        0 <= i < j < r@.len() implies r@[i]@ != r@[j]@ by {
                        if j == r0.len() as int {
                            let jj = choose|jj: int|
                                0 <= jj < idx && pk[jj]@ == r0[i]@;
                            assert(pk[jj]@ != pk[idx as int]@);
                        }
                    }
                }
            }
            idx += 1;
            proof {
                assert forall|i: int| 0 <= i < r@.len() implies
                    self.parents().contains_key(#[trigger] r@[i]@)
                        && self.parents()[r@[i]@].is_synced == state by {
                    if i < r0.len() as int {
                        assert(r@[i] == r0[i]);
                        assert(self.parents().contains_key(r0[i]@));
                        assert(self.parents()[r0[i]@].is_synced == state);
                    } else {
                        assert(matched && i == r0.len() as int);
                        assert(r@[i]@ == pk[(idx - 1) as int]@);
                    }
                }
                assert forall|i: int| 0 <= i < r@.len() implies
                    exists|j: int| 0 <= j < idx && pk[j]@ == #[trigger] r@[i]@ by {
                    if i < r0.len() {
                        let j = choose|j: int| 0 <= j < idx - 1 && pk[j]@ == r0[i]@;
                        assert(pk[j]@ == r@[i]@);
                    } else {
                        assert(pk[idx - 1]@ == r@[i]@);
                    }
                }
                assert forall|j: int|
                    0 <= j < idx && self.parents().contains_key(#[trigger] pk[j]@)
                        && self.parents()[pk[j]@].is_synced == state
                    implies keys_list(r@, pk[j]@) by {
                    if j < idx - 1 {
                        assert(keys_list(r0, pk[j]@));
                        let i = choose|i: int| 0 <= i < r0.len() && r0[i]@ == pk[j]@;
                        assert(r@[i]@ == pk[j]@);
                    } else {
                        if matched {
                            assert(r@[r0.len() as int]@ == pk[j]@);
                        }
                    }
                }
            }
        }
        proof {
            assert forall|k: Seq<char>|
                self.parents().contains_key(k)
                    && (#[trigger] self.parents()[k].is_synced) == state implies keys_list(r@, k) by {
                assert(self.parents@.contains_key(k));
                let j = choose|j: int| 0 <= j < pk.len() && pk[j]@ == k;
                assert(self.parents().contains_key(pk[j]@));
                assert(keys_list(r@, pk[j]@));
            }
        }
        r
    }

    // -----------------------------------------------------------------------
    // Work items
    // -----------------------------------------------------------------------

    /// Idempotent bulk enqueue: every key becomes a pending item of this
    /// parent; a key already present is reset to `fetched = false` and keeps
    /// its insertion time.  Re-running discovery never drops an item.
    pub fn enqueue(&mut self, parent_key: &String, item_keys: &Vec<String>, now: u64)
        requires
            old(self).wf(),
        ensures
            final(self).wf(),
            final(self).items()
                == enqueue_all(old(self).items(), parent_key@, views_of(item_keys@), now),
            final(self).parents() == old(self).parents(),
            final(self).details() == old(self).details(),
            final(self).cursors() == old(self).cursors(),
    {
        let ghost items0 = self.items();
        let ghost parents0 = self.parents();
        let ghost details0 = self.details();
        let ghost cursors0 = self.cursors();
        let n = item_keys.len();
        let mut idx: usize = 0;
        while idx < n
            invariant
                self.wf(),
                n == item_keys@.len(),
                idx <= n,
                self.items() == enqueue_all(
                    items0,
                    parent_key@,
                    views_of(item_keys@.take(idx as int)),
                    now,
                ),
                self.parents() == parents0,
                self.details() == details0,
                self.cursors() == cursors0,
            decreases n - idx,
        {
            let ghost prev = self.items();
            let k = &item_keys[idx];
            let inserted_at = match self.items.get(k.as_str()) {
                Some(it) => it.inserted_at,
                None => now,
            };
            proof {
                assert(self.items@.contains_key(k@) <==> prev.contains_key(k@));
                if self.items@.contains_key(k@) {
                    assert(prev[k@] == self.items@[k@].model());
                }
            }
            let row = WorkItem {
                parent_key: parent_key.clone(),
                fetched: false,
                inserted_at,
            };
            put_row(&mut self.items, &mut self.item_keys, k, row);
            proof {
                assert(self.items() =~= enqueue_one(prev, parent_key@, k@, now));
                let vs = views_of(item_keys@.take(idx + 1));
                assert(vs.len() == idx + 1);
                assert(vs.last() == k@);
                assert(vs.drop_last() =~= views_of(item_keys@.take(idx as int)));
                assert(self.items() == enqueue_all(items0, parent_key@, vs, now));
            }
            idx += 1;
        }
        proof {
            assert(views_of(item_keys@.take(n as int)) =~= views_of(item_keys@));
        }
    }

    /// Claim one pending work item, if any: a row with `fetched = false`.
    /// No ordering is promised.  Returns the key and a copy of the row;
    /// `None` means the queue holds no pending item.
    pub fn claim_next(&self) -> (r: Option<(String, WorkItem)>)
        requires
            self.wf(),
        ensures
            match r {
                Some(p) => {
                    &&& self.items().contains_key(p.0@)
                    &&& !self.items()[p.0@].fetched
                    &&& p.1.model() == self.items()[p.0@]
                },
                None => forall|k: Seq<char>|
                    self.items().contains_key(k) ==> (#[trigger] self.items()[k]).fetched,
            },
    {
        let ghost ik = self.item_keys@;
        let n = self.item_keys.len();
        let mut idx: usize = 0;
        while idx < n
            invariant
                self.wf(),
                ik == self.item_keys@,
                n == ik.len(),
                idx <= n,
                forall|j: int| 0 <= j < idx ==> self.items()[#[trigger] ik[j]@].fetched,
            decreases n - idx,
        {
            let key = &self.item_keys[idx];
            proof {
                assert(self.items@.contains_key(ik[idx as int]@));
                assert(self.items()[ik[idx as int]@] == self.items@[ik[idx as int]@].model());
            }
            match self.items.get(key.as_str()) {
                Some(it) => {
                    if !it.fetched {
                        let copy = WorkItem {
                            parent_key: it.parent_key.clone(),
                            fetched: it.fetched,
                            inserted_at: it.inserted_at,
                        };
                        return Some((key.clone(), copy));
                    }
                },
                None => {},
            }
            idx += 1;
        }
        proof {
            assert forall|k: Seq<char>| self.items().contains_key(k)
                implies (#[trigger] self.items()[k]).fetched by {
                assert(self.items@.contains_key(k));
                let j = choose|j: int| 0 <= j < ik.len() && ik[j]@ == k;
                assert(self.items()[ik[j]@].fetched);
            }
        }
        None
    }

    /// Claim one pending work item of the given parent, if any.
    pub fn claim_next_for_parent(&self, parent_key: &String) -> (r: Option<(String, WorkItem)>)
        requires
            self.wf(),
        ensures
            match r {
                Some(p) => {
                    &&& self.items().contains_key(p.0@)
                    &&& !self.items()[p.0@].fetched
                    &&& self.items()[p.0@].parent == parent_key@
                    &&& p.1.model() == self.items()[p.0@]
                },
                None => forall|k: Seq<char>|
                    self.items().contains_key(k) && (#[trigger] self.items()[k]).parent
                        == parent_key@ ==> self.items()[k].fetched,
            },
    {
        let ghost ik = self.item_keys@;
        let n = self.item_keys.len();
        let mut idx: usize = 0;
        while idx < n
            invariant
                self.wf(),
                ik == self.item_keys@,
                n == ik.len(),
                idx <= n,
                forall|j: int| 0 <= j < idx
                    && self.items()[#[trigger] ik[j]@].parent == parent_key@
                    ==> self.items()[ik[j]@].fetched,
            decreases n - idx,
        {
            let key = &self.item_keys[idx];
            proof {
                assert(self.items@.contains_key(ik[idx as int]@));
                assert(self.items()[ik[idx as int]@] == self.items@[ik[idx as int]@].model());
            }
            match self.items.get(key.as_str()) {
                Some(it) => {
                    if !it.fetched && it.parent_key.eq(parent_key) {
                        let copy = WorkItem {
                            parent_key: it.parent_key.clone(),
                            fetched: it.fetched,
                            inserted_at: it.inserted_at,
                        };
                        return Some((key.clone(), copy));
                    }
                },
                None => {},
            }
            idx += 1;
        }
        proof {
            assert forall|k: Seq<char>|
                self.items().contains_key(k) && (#[trigger] self.items()[k]).parent == parent_key@
                implies self.items()[k].fetched by {
                assert(self.items@.contains_key(k));
                let j = choose|j: int| 0 <= j < ik.len() && ik[j]@ == k;
                assert(self.items()[ik[j]@].parent == parent_key@);
            }
        }
        None
    }

    /// Mark one work item fetched, in a standalone statement: the flag, not
    /// a lock, records completion.  An absent key changes nothing.
    pub fn complete(&mut self, key: &String) -> (found: bool)
        requires
            old(self).wf(),
        ensures
            final(self).wf(),
            found == old(self).items().contains_key(key@),
            final(self).items() == complete_one(old(self).items(), key@),
            final(self).parents() == old(self).parents(),
            final(self).details() == old(self).details(),
            final(self).cursors() == old(self).cursors(),
    {
        let ghost items0 = self.items();
        proof {
            if self.items@.contains_key(key@) {
                assert(items0[key@] == self.items@[key@].model());
            }
        }
        match self.items.get(key.as_str()) {
            Some(it) => {
                let row = WorkItem {
                    parent_key: it.parent_key.clone(),
                    fetched: true,
                    inserted_at: it.inserted_at,
                };
                put_row(&mut self.items, &mut self.item_keys, key, row);
                proof {
                    assert(self.items() =~= complete_one(items0, key@));
                }
                true
            },
            None => false,
        }
    }

    /// Look a work item up by its natural key.
    pub fn get_item(&self, key: &String) -> (r: Option<&WorkItem>)
        ensures
            match r {
                Some(it) => self.items().contains_key(key@) && it.model() == self.items()[key@],
                None => !self.items().contains_key(key@),
            },
    {
        let r = self.items.get(key.as_str());
        proof {
            if self.items@.contains_key(key@) {
                assert(self.items()[key@] == self.items@[key@].model());
            }
        }
        r
    }

    /// The keys of every pending work item: the snapshot a global drain
    /// invocation walks once.
    pub fn pending_items(&self) -> (r: Vec<String>)
        requires
            self.wf(),
        ensures
            forall|i: int, j: int|
                #![trigger r@[i], r@[j]]
                0 <= i < j < r@.len() ==> r@[i]@ != r@[j]@,
            forall|i: int| 0 <= i < r@.len()
                ==> self.items().contains_key(#[trigger] r@[i]@),
            forall|i: int| 0 <= i < r@.len()
                ==> !self.items()[#[trigger] r@[i]@].fetched,
            forall|k: Seq<char>|
                self.items().contains_key(k) && !(#[trigger] self.items()[k]).fetched
                    ==> keys_list(r@, k),
    {
        let ghost ik = self.item_keys@;
        let mut r: Vec<String> = Vec::new();
        let n = self.item_keys.len();
        let mut idx: usize = 0;
        while idx < n
            invariant
                self.wf(),
                ik == self.item_keys@,
                n == ik.len(),
                idx <= n,
                forall|i: int| 0 <= i < r@.len()
                    ==> exists|j: int| 0 <= j < idx && ik[j]@ == #[trigger] r@[i]@,
                forall|i: int, j: int|
                    #![trigger r@[i], r@[j]]
                    0 <= i < j < r@.len() ==> r@[i]@ != r@[j]@,
                forall|i: int| 0 <= i < r@.len()
                    ==> self.items().contains_key(#[trigger] r@[i]@),
                forall|i: int| 0 <= i < r@.len()
                    ==> !self.items()[#[trigger] r@[i]@].fetched,
                forall|j: int|
                    0 <= j < idx && !self.items()[#[trigger] ik[j]@].fetched
                    ==> keys_list(r@, ik[j]@),
            decreases n - idx,
        {
            let ghost r0 = r@;
            let key = &self.item_keys[idx];
            proof {
                assert(self.items@.contains_key(ik[idx as int]@));
                assert(self.items()[ik[idx as int]@] == self.items@[ik[idx as int]@].model());
            }
            let matched = match self.items.get(key.as_str()) {
                Some(it) => !it.fetched,
                None => false,
            };
            proof {
                assert(matched == !self.items()[ik[idx as int]@].fetched);
            }
            if matched {
                r.push(key.clone());
                proof {
                    assert(r@[r0.len() as int]@ == ik[idx as int]@);
                    assert(forall|i: int| 0 <= i < r0.len() ==> r@[i] == r0[i]);
                    assert forall|i: int, j: int|
                        #![trigger r@[i], r@[j]]
                        0 <= i < j < r@.len() implies r@[i]@ != r@[j]@ by {
                        if j == r0.len() as int {
                            let jj = choose|jj: int| 0 <= jj < idx && ik[jj]@ == r0[i]@;
                            assert(ik[jj]@ != ik[idx as int]@);
                        }
                    }
                }
            }
            idx += 1;
            proof {
                assert forall|i: int| 0 <= i < r@.len() implies
                    self.items().contains_key(#[trigger] r@[i]@)
                        && !self.items()[r@[i]@].fetched by {
                    if i < r0.len() as int {
                        assert(r@[i] == r0[i]);
                        assert(self.items().contains_key(r0[i]@));
                        assert(!self.items()[r0[i]@].fetched);
                    } else {
                        assert(matched && i == r0.len() as int);
                        assert(r@[i]@ == ik[(idx - 1) as int]@);
                    }
                }
                assert forall|i: int| 0 <= i < r@.len() implies
                    exists|j: int| 0 <= j < idx && ik[j]@ == #[trigger] r@[i]@ by {
                    if i < r0.len() as int {
                        let j = choose|j: int| 0 <= j < idx - 1 && ik[j]@ == r0[i]@;
                        assert(ik[j]@ == r@[i]@);
                    } else {
                        assert(ik[idx - 1]@ == r@[i]@);
                    }
                }
                assert forall|j: int|
                    0 <= j < idx && !self.items()[#[trigger] ik[j]@].fetched
                    implies keys_list(r@, ik[j]@) by {
                    if j < idx - 1 {
                        assert(keys_list(r0, ik[j]@));
                        let i = choose|i: int| 0 <= i < r0.len() && r0[i]@ == ik[j]@;
                        assert(r@[i]@ == ik[j]@);
                    } else {
                        if matched {
                            assert(r@[r0.len() as int]@ == ik[j]@);
                        }
                    }
                }
            }
        }
        proof {
            assert forall|k: Seq<char>|
                self.items().contains_key(k) && !(#[trigger] self.items()[k]).fetched
                implies keys_list(r@, k) by {
                assert(self.items@.contains_key(k));
                let j = choose|j: int| 0 <= j < ik.len() && ik[j]@ == k;
                assert(keys_list(r@, ik[j]@));
            }
        }
        r
    }

    /// The keys of every pending work item of the given parent: the
    /// snapshot a drain invocation walks once.
    pub fn pending_for_parent(&self, parent_key: &String) -> (r: Vec<String>)
        requires
            self.wf(),
        ensures
            forall|i: int, j: int|
                #![trigger r@[i], r@[j]]
                0 <= i < j < r@.len() ==> r@[i]@ != r@[j]@,
            forall|i: int| 0 <= i < r@.len()
                ==> self.items().contains_key(#[trigger] r@[i]@),
            forall|i: int| 0 <= i < r@.len()
                ==> !self.items()[#[trigger] r@[i]@].fetched,
            forall|i: int| 0 <= i < r@.len()
                ==> self.items()[#[trigger] r@[i]@].parent == parent_key@,
            forall|k: Seq<char>|
                self.items().contains_key(k) && !(#[trigger] self.items()[k]).fetched
                    && self.items()[k].parent == parent_key@ ==> keys_list(r@, k),
    {
        let ghost ik = self.item_keys@;
        let mut r: Vec<String> = Vec::new();
        let n = self.item_keys.len();
        let mut idx: usize = 0;
        while idx < n
            invariant
                self.wf(),
                ik == self.item_keys@,
                n == ik.len(),
                idx <= n,
                forall|i: int| 0 <= i < r@.len()
                    ==> exists|j: int| 0 <= j < idx && ik[j]@ == #[trigger] r@[i]@,
                forall|i: int, j: int|
                    #![trigger r@[i], r@[j]]
                    0 <= i < j < r@.len() ==> r@[i]@ != r@[j]@,
                forall|i: int| 0 <= i < r@.len()
                    ==> self.items().contains_key(#[trigger] r@[i]@),
                forall|i: int| 0 <= i < r@.len()
                    ==> !self.items()[#[trigger] r@[i]@].fetched,
                forall|i: int| 0 <= i < r@.len()
                    ==> self.items()[#[trigger] r@[i]@].parent == parent_key@,
                forall|j: int|
                    0 <= j < idx && !self.items()[#[trigger] ik[j]@].fetched
                        && self.items()[ik[j]@].parent == parent_key@
                    ==> keys_list(r@, ik[j]@),
            decreases n - idx,
        {
            let ghost r0 = r@;
            let key = &self.item_keys[idx];
            proof {
                assert(self.items@.contains_key(ik[idx as int]@));
                assert(self.items()[ik[idx as int]@] == self.items@[ik[idx as int]@].model());
            }
            let matched = match self.items.get(key.as_str()) {
                Some(it) => !it.fetched && it.parent_key.eq(parent_key),
                None => false,
            };
            proof {
                assert(matched == (!self.items()[ik[idx as int]@].fetched
                    && self.items()[ik[idx as int]@].parent == parent_key@));
            }
            if matched {
                r.push(key.clone());
                proof {
                    assert(r@[r0.len() as int]@ == ik[idx as int]@);
                    assert(forall|i: int| 0 <= i < r0.len() ==> r@[i] == r0[i]);
                    assert forall|i: int, j: int|
                        #![trigger r@[i], r@[j]]
                        0 <= i < j < r@.len() implies r@[i]@ != r@[j]@ by {
                        if j == r0.len() as int {
                            let jj = choose|jj: int| 0 <= jj < idx && ik[jj]@ == r0[i]@;
                            assert(ik[jj]@ != ik[idx as int]@);
                        }
                    }
                }
            }
            idx += 1;
            proof {
                assert forall|i: int| 0 <= i < r@.len() implies
                    self.items().contains_key(#[trigger] r@[i]@)
                        && !self.items()[r@[i]@].fetched
                        && self.items()[r@[i]@].parent == parent_key@ by {
                    if i < r0.len() as int {
                        assert(r@[i] == r0[i]);
                        assert(self.items().contains_key(r0[i]@));
                        assert(!self.items()[r0[i]@].fetched);
                        assert(self.items()[r0[i]@].parent == parent_key@);
                    } else {
                        assert(matched && i == r0.len() as int);
                        assert(r@[i]@ == ik[(idx - 1) as int]@);
                    }
                }
                assert forall|i: int| 0 <= i < r@.len() implies
                    exists|j: int| 0 <= j < idx && ik[j]@ == #[trigger] r@[i]@ by {
                    if i < r0.len() as int {
                        let j = choose|j: int| 0 <= j < idx - 1 && ik[j]@ == r0[i]@;
                        assert(ik[j]@ == r@[i]@);
                    } else {
                        assert(ik[idx - 1]@ == r@[i]@);
                    }
                }
                assert forall|j: int|
                    0 <= j < idx && !self.items()[#[trigger] ik[j]@].fetched
                        && self.items()[ik[j]@].parent == parent_key@
                    implies keys_list(r@, ik[j]@) by {
                    if j < idx - 1 {
                        assert(keys_list(r0, ik[j]@));
                        let i = choose|i: int| 0 <= i < r0.len() && r0[i]@ == ik[j]@;
                        assert(r@[i]@ == ik[j]@);
                    } else {
                        if matched {
                            assert(r@[r0.len() as int]@ == ik[j]@);
                        }
                    }
                }
            }
        }
        proof {
            assert forall|k: Seq<char>|
                self.items().contains_key(k) && !(#[trigger] self.items()[k]).fetched
                    && self.items()[k].parent == parent_key@ implies keys_list(r@, k) by {
                assert(self.items@.contains_key(k));
                let j = choose|j: int| 0 <= j < ik.len() && ik[j]@ == k;
                assert(keys_list(r@, ik[j]@));
            }
        }
        r
    }

    // -----------------------------------------------------------------------
    // Detail records
    // -----------------------------------------------------------------------

    /// Upsert the detail record under its natural key: a re-fetch
    /// overwrites, it never duplicates.
    pub fn upsert_detail(&mut self, rec: DetailRecord)
        requires
            old(self).wf(),
        ensures
            final(self).wf(),
            final(self).details() == old(self).details().insert(rec.key@, rec.model()),
            final(self).parents() == old(self).parents(),
            final(self).items() == old(self).items(),
            final(self).cursors() == old(self).cursors(),
    {
        let ghost details0 = self.details();
        let k = rec.key.clone();
        let ghost m = rec.model();
        put_row(&mut self.details, &mut self.detail_keys, &k, rec);
        proof {
            assert(self.details() =~= details0.insert(k@, m));
        }
    }

    /// Look a detail record up by its natural key.
    pub fn get_detail(&self, key: &String) -> (r: Option<&DetailRecord>)
        ensures
            match r {
                Some(d) => self.details().contains_key(key@) && d.model() == self.details()[key@],
                None => !self.details().contains_key(key@),
            },
    {
        let r = self.details.get(key.as_str());
        proof {
            if self.details@.contains_key(key@) {
                assert(self.details()[key@] == self.details@[key@].model());
            }
        }
        r
    }

    /// How many detail records the store holds.
    pub fn detail_count(&self) -> (r: usize)
        ensures
            r == self.details().len(),
    {
        proof {
            assert(self.details().dom() =~= self.details@.dom());
        }
        self.details.len()
    }

    /// Every detail record, keyed rows copied out, unordered unless the
    /// consumer sorts; restartable by calling again.
    pub fn list_details(&self) -> (r: Vec<(String, DetailRecord)>)
        requires
            self.wf(),
        ensures
            forall|i: int, j: int|
                #![trigger r@[i], r@[j]]
                0 <= i < j < r@.len() ==> r@[i].0@ != r@[j].0@,
            forall|i: int| 0 <= i < r@.len() ==> {
                &&& self.details().contains_key((#[trigger] r@[i]).0@)
                &&& r@[i].1.model() == self.details()[r@[i].0@]
            },
            forall|k: Seq<char>| #[trigger] self.details().contains_key(k)
                ==> exists|i: int| 0 <= i < r@.len() && (#[trigger] r@[i]).0@ == k,
    {
        let ghost dk = self.detail_keys@;
        let mut r: Vec<(String, DetailRecord)> = Vec::new();
        let n = self.detail_keys.len();
        let mut idx: usize = 0;
        while idx < n
            invariant
                self.wf(),
                dk == self.detail_keys@,
                n == dk.len(),
                idx <= n,
                r@.len() == idx,
                forall|i: int| 0 <= i < idx ==> (#[trigger] r@[i]).0@ == dk[i]@,
                forall|i: int| 0 <= i < idx ==> {
                    &&& self.details().contains_key((#[trigger] r@[i]).0@)
                    &&& r@[i].1.model() == self.details()[r@[i].0@]
                },
            decreases n - idx,
        {
            let key = &self.detail_keys[idx];
            proof {
                assert(self.details@.contains_key(dk[idx as int]@));
                assert(self.details()[dk[idx as int]@] == self.details@[dk[idx as int]@].model());
            }
            match self.details.get(key.as_str()) {
                Some(d) => {
                    r.push((key.clone(), d.duplicate()));
                },
                None => {},
            }
            idx += 1;
        }
        proof {
            assert forall|i: int, j: int|
                #![trigger r@[i], r@[j]]
                0 <= i < j < r@.len() implies r@[i].0@ != r@[j].0@ by {
                assert(r@[i].0@ == dk[i]@ && r@[j].0@ == dk[j]@);
            }
            assert forall|k: Seq<char>| #[trigger] self.details().contains_key(k)
                implies exists|i: int| 0 <= i < r@.len() && (#[trigger] r@[i]).0@ == k by {
                assert(self.details@.contains_key(k));
                let i = choose|i: int| 0 <= i < dk.len() && dk[i]@ == k;
                assert(r@[i].0@ == k);
            }
        }
        r
    }

    /// The detail records of one parent, keyed rows copied out.
    #[verifier::rlimit(30)]
    pub fn list_details_of(&self, parent_key: &String) -> (r: Vec<(String, DetailRecord)>)
        requires
            self.wf(),
        ensures
            forall|i: int, j: int|
                #![trigger r@[i], r@[j]]
                0 <= i < j < r@.len() ==> r@[i].0@ != r@[j].0@,
            forall|i: int| 0 <= i < r@.len() ==> {
                &&& self.details().contains_key((#[trigger] r@[i]).0@)
                &&& r@[i].1.model() == self.details()[r@[i].0@]
                &&& self.details()[r@[i].0@].parent == parent_key@
            },
            forall|k: Seq<char>|
                self.details().contains_key(k) && (#[trigger] self.details()[k]).parent
                    == parent_key@ ==> exists|i: int|
                    0 <= i < r@.len() && (#[trigger] r@[i]).0@ == k,
    {
        let all = self.list_details();
        let mut r: Vec<(String, DetailRecord)> = Vec::new();
        let n = all.len();
        let mut idx: usize = 0;
        while idx < n
            invariant
                self.wf(),
                n == all@.len(),
                idx <= n,
                forall|i: int, j: int|
                    #![trigger all@[i], all@[j]]
                    0 <= i < j < n ==> all@[i].0@ != all@[j].0@,
                forall|i: int| 0 <= i < n ==> {
                    &&& self.details().contains_key((#[trigger] all@[i]).0@)
                    &&& all@[i].1.model() == self.details()[all@[i].0@]
                },
                forall|i: int| 0 <= i < r@.len()
                    ==> exists|j: int| 0 <= j < idx && (#[trigger] r@[i]).0@ == all@[j].0@,
                forall|i: int, j: int|
                    #![trigger r@[i], r@[j]]
                    0 <= i < j < r@.len() ==> r@[i].0@ != r@[j].0@,
                forall|i: int| 0 <= i < r@.len() ==> {
                    &&& self.details().contains_key((#[trigger] r@[i]).0@)
                    &&& r@[i].1.model() == self.details()[r@[i].0@]
                    &&& self.details()[r@[i].0@].parent == parent_key@
                },
                forall|j: int|
                    0 <= j < idx && (#[trigger] self.details()[all@[j].0@]).parent == parent_key@
                    ==> exists|i: int| 0 <= i < r@.len() && (#[trigger] r@[i]).0@ == all@[j].0@,
            decreases n - idx,
        {
            let ghost r0 = r@;
            let entry = &all[idx];
            let matched = entry.1.parent_key.eq(parent_key);
            proof {
                assert(all@[idx as int].1.model() == self.details()[all@[idx as int].0@]);
                assert(matched == (self.details()[all@[idx as int].0@].parent == parent_key@));
            }
            if matched {
                r.push((entry.0.clone(), entry.1.duplicate()));
                proof {
                    assert(r@[r0.len() as int].0@ == all@[idx as int].0@);
                    assert(r@[r0.len() as int].1.model() == all@[idx as int].1.model());
                    assert(forall|i: int| 0 <= i < r0.len() ==> r@[i] == r0[i]);
                    assert forall|i: int| 0 <= i < r@.len() implies
                        exists|j: int| 0 <= j < idx + 1 && (#[trigger] r@[i]).0@ == all@[j].0@ by {
                        if i < r0.len() as int {
                            let j = choose|j: int| 0 <= j < idx && r0[i].0@ == all@[j].0@;
                            assert(r@[i].0@ == all@[j].0@);
                        } else {
                            assert(r@[i].0@ == all@[idx as int].0@);
                        }
                    }
                    assert forall|i: int, j: int|
                        #![trigger r@[i], r@[j]]
                        0 <= i < j < r@.len() implies r@[i].0@ != r@[j].0@ by {
                        if j == r0.len() as int {
                            let jj = choose|jj: int| 0 <= jj < idx && r0[i].0@ == all@[jj].0@;
                            assert(all@[jj].0@ != all@[idx as int].0@);
                        }
                    }
                }
            }
            idx += 1;
            proof {
                assert forall|j: int|
                    0 <= j < idx && (#[trigger] self.details()[all@[j].0@]).parent == parent_key@
                    implies exists|i: int| 0 <= i < r@.len() && (#[trigger] r@[i]).0@ == all@[j].0@ by {
                    if j < idx - 1 {
                        let i = choose|i: int| 0 <= i < r0.len() && r0[i].0@ == all@[j].0@;
                        assert(r@[i].0@ == all@[j].0@);
                    } else {
                        if matched {
                            assert(r@[r0.len() as int].0@ == all@[j].0@);
                        }
                    }
                }
            }
        }
        proof {
            assert forall|k: Seq<char>|
                self.details().contains_key(k) && (#[trigger] self.details()[k]).parent
                    == parent_key@ implies exists|i: int|
                    0 <= i < r@.len() && (#[trigger] r@[i]).0@ == k by {
                let j = choose|j: int| 0 <= j < all@.len() && all@[j].0@ == k;
                assert(self.details()[all@[j].0@].parent == parent_key@);
                let i = choose|i: int| 0 <= i < r@.len() && r@[i].0@ == all@[j].0@;
                assert(r@[i].0@ == k);
            }
        }
        r
    }

    // -----------------------------------------------------------------------
    // Progress cursors
    // -----------------------------------------------------------------------

    /// The next page a pipeline's linear sweep should fetch; sweeps start
    /// at page 1.
    pub fn read_cursor(&self, pipeline: &String) -> (r: u32)
        ensures
            r == cursor_value(self.cursors(), pipeline@),
    {
        match self.cursors.get(pipeline.as_str()) {
            Some(v) => *v,
            None => 1,
        }
    }

    /// Advance a pipeline's cursor to `page`.  The cursor never moves
    /// backwards: a stale advance is ignored.
    pub fn advance_cursor(&mut self, pipeline: &String, page: u32)
        requires
            old(self).wf(),
        ensures
            final(self).wf(),
            final(self).cursors() == advance_spec(old(self).cursors(), pipeline@, page),
            cursor_value(final(self).cursors(), pipeline@)
                >= cursor_value(old(self).cursors(), pipeline@),
            final(self).parents() == old(self).parents(),
            final(self).items() == old(self).items(),
            final(self).details() == old(self).details(),
    {
        let cur = self.read_cursor(pipeline);
        let v = if page > cur {
            page
        } else {
            cur
        };
        self.cursors.insert(pipeline.clone(), v);
    }
}

/// The page a cursor stands at: 1 until the pipeline first advances it.
pub open spec fn cursor_value(cursors: Map<Seq<char>, u32>, pipeline: Seq<char>) -> u32 {
    if cursors.contains_key(pipeline) {
        cursors[pipeline]
    } else {
        1
    }
}

/// Advancing a cursor: it moves forward, never back.
pub open spec fn advance_spec(
    cursors: Map<Seq<char>, u32>,
    pipeline: Seq<char>,
    page: u32,
) -> Map<Seq<char>, u32> {
    let cur = cursor_value(cursors, pipeline);
    cursors.insert(pipeline, if page > cur { page } else { cur })
}

/// The views of a list of keys, in order.
pub open spec fn views_of(keys: Seq<String>) -> Seq<Seq<char>> {
    keys.map_values(|s: String| s@)
}

} // verus!
